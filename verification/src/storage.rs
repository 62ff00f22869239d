//! The byte store: `load` / `store` / `clear` over 256-bit keys.
//!
//! The core treats the store as a host-provided capability with a
//! bit-exact contract: `load` after `store(k, b)` with no intervening
//! `clear(k)` or other `store(k, _)` returns exactly `b`, and `load`
//! after `clear(k)` or before any `store(k, _)` returns `None`.  This
//! module realises that capability in memory, as an association list
//! with at most one entry per key, abstracted as a
//! `Map<Seq<u8>, Seq<u8>>` from key bytes to stored bytes.

use vstd::prelude::*;

use crate::key::Key;

verus! {

/// A byte-addressed key-value store satisfying the storage capability's
/// bit-exact contract.
pub struct Storage {
    entries: Vec<(Key, Vec<u8>)>,
}

/// The map denoted by an entry list: later entries win, though a
/// well-formed store never has two entries for one key.
spec fn entries_map(s: Seq<(Key, Vec<u8>)>) -> Map<Seq<u8>, Seq<u8>>
    decreases s.len(),
{
    if s.len() == 0 {
        Map::empty()
    } else {
        entries_map(s.drop_last()).insert(s.last().0@, s.last().1@)
    }
}

/// At most one entry per key.
spec fn unique_keys(s: Seq<(Key, Vec<u8>)>) -> bool {
    forall|i: int, j: int| 0 <= i < j < s.len() ==> s[i].0@ != s[j].0@
}

proof fn lemma_unique_drop_last(s: Seq<(Key, Vec<u8>)>)
    requires
        unique_keys(s),
        s.len() > 0,
    ensures
        unique_keys(s.drop_last()),
{
    assert forall|i: int, j: int| 0 <= i < j < s.drop_last().len() implies s.drop_last()[i].0@
        != s.drop_last()[j].0@ by {
        assert(s[i].0@ != s[j].0@);
    }
}

/// An entry's key is in the map, bound to that entry's bytes.
proof fn lemma_entries_map_index(s: Seq<(Key, Vec<u8>)>, i: int)
    requires
        unique_keys(s),
        0 <= i < s.len(),
    ensures
        entries_map(s).contains_key(s[i].0@),
        entries_map(s)[s[i].0@] == s[i].1@,
    decreases s.len(),
{
    if i < s.len() - 1 {
        lemma_unique_drop_last(s);
        lemma_entries_map_index(s.drop_last(), i);
        assert(s[i].0@ != s.last().0@);
    }
}

/// A key under no entry is not in the map.
proof fn lemma_entries_map_none(s: Seq<(Key, Vec<u8>)>, k: Seq<u8>)
    requires
        forall|i: int| 0 <= i < s.len() ==> s[i].0@ != k,
    ensures
        !entries_map(s).contains_key(k),
    decreases s.len(),
{
    if s.len() > 0 {
        assert forall|i: int| 0 <= i < s.drop_last().len() implies s.drop_last()[i].0@ != k by {
            assert(s[i].0@ != k);
        }
        lemma_entries_map_none(s.drop_last(), k);
    }
}

/// Dropping the entry at `i` removes exactly its key from the map.
proof fn lemma_entries_map_remove(s: Seq<(Key, Vec<u8>)>, i: int)
    requires
        unique_keys(s),
        0 <= i < s.len(),
    ensures
        entries_map(s.remove(i)) =~= entries_map(s).remove(s[i].0@),
    decreases s.len(),
{
    let k = s[i].0@;
    if i == s.len() - 1 {
        assert(s.remove(i) =~= s.drop_last());
        lemma_unique_drop_last(s);
        assert forall|j: int| 0 <= j < s.drop_last().len() implies s.drop_last()[j].0@ != k by {
            assert(s[j].0@ != s[i].0@);
        }
        lemma_entries_map_none(s.drop_last(), k);
        assert(entries_map(s.drop_last()) =~= entries_map(s).remove(k));
    } else {
        lemma_unique_drop_last(s);
        lemma_entries_map_remove(s.drop_last(), i);
        assert(s.remove(i).drop_last() =~= s.drop_last().remove(i));
        assert(s.remove(i).last() == s.last());
        assert(s.remove(i).len() > 0);
        assert(s[i].0@ != s.last().0@);
        assert(entries_map(s.remove(i)) =~= entries_map(s).remove(k));
    }
}

/// Dropping an entry keeps the remaining keys pairwise distinct.
proof fn lemma_unique_remove(s: Seq<(Key, Vec<u8>)>, i: int)
    requires
        unique_keys(s),
        0 <= i < s.len(),
    ensures
        unique_keys(s.remove(i)),
{
    assert forall|a: int, b: int| 0 <= a < b < s.remove(i).len() implies s.remove(i)[a].0@
        != s.remove(i)[b].0@ by {
        let a0 = if a < i {
            a
        } else {
            a + 1
        };
        let b0 = if b < i {
            b
        } else {
            b + 1
        };
        assert(s[a0].0@ != s[b0].0@);
    }
}

impl View for Storage {
    type V = Map<Seq<u8>, Seq<u8>>;

    closed spec fn view(&self) -> Map<Seq<u8>, Seq<u8>> {
        entries_map(self.entries@)
    }
}

impl Storage {
    #[verifier::type_invariant]
    spec fn wf(self) -> bool {
        unique_keys(self.entries@)
    }

    /// An empty store: every `load` returns `None`.
    pub fn new() -> (r: Storage)
        ensures
            r@ == Map::<Seq<u8>, Seq<u8>>::empty(),
    {
        Storage { entries: Vec::new() }
    }

    /// Index of the entry for `key`, if one exists.
    fn find(&self, key: &Key) -> (r: Option<usize>)
        ensures
            match r {
                Some(i) => i < self.entries@.len() && self.entries@[i as int].0@ == key@,
                None => forall|i: int| 0 <= i < self.entries@.len() ==> self.entries@[i].0@ != key@,
            },
    {
        let mut i: usize = 0;
        let n = self.entries.len();
        while i < n
            invariant
                i <= n,
                n == self.entries@.len(),
                forall|j: int| 0 <= j < i ==> self.entries@[j].0@ != key@,
            decreases n - i,
        {
            if self.entries[i].0.eq_bytes(key) {
                return Some(i);
            }
            i += 1;
        }
        None
    }

    /// The bytes stored at `key`, or `None` when the key holds none.
    pub fn load(&self, key: &Key) -> (r: Option<Vec<u8>>)
        ensures
            match r {
                Some(v) => self@.contains_key(key@) && v@ == self@[key@],
                None => !self@.contains_key(key@),
            },
    {
        proof {
            use_type_invariant(&*self);
        }
        match self.find(key) {
            Some(i) => {
                proof {
                    lemma_entries_map_index(self.entries@, i as int);
                }
                Some(vstd::slice::slice_to_vec(self.entries[i].1.as_slice()))
            },
            None => {
                proof {
                    lemma_entries_map_none(self.entries@, key@);
                }
                None
            },
        }
    }

    /// Stores `value` at `key`, replacing whatever the key held.
    pub fn store(&mut self, key: &Key, value: &[u8])
        ensures
            final(self)@ == old(self)@.insert(key@, value@),
    {
        proof {
            use_type_invariant(&*self);
        }
        let owned: Vec<u8> = vstd::slice::slice_to_vec(value);
        let found = self.find(key);
        let ghost s0 = self.entries@;
        let mut entries: Vec<(Key, Vec<u8>)> = Vec::new();
        std::mem::swap(&mut entries, &mut self.entries);
        match found {
            Some(i) => {
                proof {
                    lemma_entries_map_remove(s0, i as int);
                    lemma_unique_remove(s0, i as int);
                }
                entries.remove(i);
            },
            None => {
                proof {
                    lemma_entries_map_none(s0, key@);
                    assert(entries_map(s0).remove(key@) =~= entries_map(s0));
                }
            },
        }
        let ghost s1 = entries@;
        proof {
            assert(entries_map(s1) =~= entries_map(s0).remove(key@));
            assert forall|j: int| 0 <= j < s1.len() implies s1[j].0@ != key@ by {
                lemma_entries_map_index(s1, j);
            }
        }
        entries.push((*key, owned));
        proof {
            assert(entries@.drop_last() =~= s1);
        }
        self.entries = entries;
        proof {
            assert(self@ =~= old(self)@.insert(key@, value@));
        }
    }

    /// Removes whatever `key` holds; a subsequent `load` returns `None`.
    pub fn clear(&mut self, key: &Key)
        ensures
            final(self)@ == old(self)@.remove(key@),
    {
        proof {
            use_type_invariant(&*self);
        }
        let found = self.find(key);
        let ghost s0 = self.entries@;
        match found {
            Some(i) => {
                let mut entries: Vec<(Key, Vec<u8>)> = Vec::new();
                std::mem::swap(&mut entries, &mut self.entries);
                proof {
                    lemma_entries_map_remove(s0, i as int);
                    lemma_unique_remove(s0, i as int);
                }
                entries.remove(i);
                self.entries = entries;
            },
            None => {
                proof {
                    lemma_entries_map_none(s0, key@);
                    assert(old(self)@.remove(key@) =~= old(self)@);
                }
            },
        }
    }
}

} // verus!
