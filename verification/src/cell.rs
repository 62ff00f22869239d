//! Typed storage cells over raw load/store/clear.
//!
//! A [`Value`] owns exactly one key and holds one optional encoded
//! value; a [`StorageMap`] owns a base key as its namespace and derives
//! one physical key per entry.  An absent slot is an ordinary `None`;
//! stored bytes that are not a canonical encoding are a fatal
//! [`Error::Decode`], treated as a deployment error, never silently
//! repaired.
//!
//! Entry derivation for maps is `xor_derive`: the entry key's encoding
//! is folded into the low bytes of the base key with exclusive or.
//! Within one map this is proved collision-free for every key type of
//! the codec (encodings are injective and of one fixed width).  Across
//! cells it is not guaranteed: a derived entry key can in principle
//! coincide with another cell's key, as in any scheme that spreads map
//! entries through a shared flat key space.  Two entries of one map
//! never collide; that is the bound this design states, and it is
//! proved rather than assumed.

use vstd::prelude::*;

use core::marker::PhantomData;

use crate::codec::{decoded, Codec};
use crate::key::Key;
use crate::storage::Storage;
use crate::Error;

verus! {

broadcast use vstd::array::group_array_axioms;

/// Outcome of reading the slot `key` of store `m` as a `T`: absent is
/// `Ok(None)`, a canonical encoding of `v` is `Ok(Some(v))`, anything
/// else is fatal.
pub open spec fn read_model<T: Codec>(m: Map<Seq<u8>, Seq<u8>>, key: Seq<u8>) -> Result<
    Option<T>,
    Error,
> {
    if !m.contains_key(key) {
        Ok(None)
    } else {
        match decoded::<T>(m[key]) {
            Some(v) => Ok(Some(v)),
            None => Err(Error::Decode),
        }
    }
}

/// Reads and decodes the slot at `key`.
fn read_cell<T: Codec>(store: &Storage, key: &Key) -> (r: Result<Option<T>, Error>)
    ensures
        r == read_model::<T>(store@, key@),
{
    match store.load(key) {
        None => Ok(None),
        Some(bytes) => {
            match T::decode(bytes.as_slice()) {
                Some(v) => {
                    proof {
                        let w = choose|w: T| w.enc() == store@[key@];
                        T::lemma_enc_injective(v, w);
                    }
                    Ok(Some(v))
                },
                None => Err(Error::Decode),
            }
        },
    }
}

/// A cell holding one optional value of type `T` under one key.
pub struct Value<T> {
    key: Key,
    marker: PhantomData<T>,
}

impl<T: Codec> Value<T> {
    /// The key this cell owns.
    pub closed spec fn key_of(self) -> Key {
        self.key
    }

    /// The bytes of the key this cell owns.
    pub open spec fn key_bytes(self) -> Seq<u8> {
        self.key_of()@
    }

    /// What a `get` of this cell returns against store contents `m`.
    pub open spec fn read_spec(self, m: Map<Seq<u8>, Seq<u8>>) -> Result<Option<T>, Error> {
        read_model::<T>(m, self.key_bytes())
    }

    /// Binds the cell to the key its allocation assigned.
    pub fn bind(key: Key) -> (r: Self)
        ensures
            r.key_of() == key,
    {
        Value { key, marker: PhantomData }
    }

    /// The cell's value: `None` when never written, the stored value
    /// otherwise; stored bytes that fail to decode are fatal.
    pub fn get(&self, store: &Storage) -> (r: Result<Option<T>, Error>)
        ensures
            r == self.read_spec(store@),
    {
        read_cell::<T>(store, &self.key)
    }

    /// Serializes `v` and writes it at the cell's key.
    pub fn set(&self, store: &mut Storage, v: &T)
        ensures
            final(store)@ == old(store)@.insert(self.key_bytes(), v.enc()),
    {
        let bytes = v.encode();
        store.store(&self.key, bytes.as_slice());
    }

    /// Removes the bytes at the cell's key: a later `get` is `None`.
    pub fn clear(&self, store: &mut Storage)
        ensures
            final(store)@ == old(store)@.remove(self.key_bytes()),
    {
        store.clear(&self.key);
    }
}

/// Folds `code` into the low bytes of `base` with exclusive or; the
/// high bytes pass through.
pub open spec fn xor_derive(base: Seq<u8>, code: Seq<u8>) -> Seq<u8> {
    Seq::new(
        base.len(),
        |i: int|
            if i < base.len() - code.len() {
                base[i]
            } else {
                base[i] ^ code[i - (base.len() - code.len())]
            },
    )
}

/// For one base, derivation is injective in the folded bytes: two
/// codes of the same width that derive the same key are equal.
pub proof fn lemma_xor_derive_injective(base: Seq<u8>, c1: Seq<u8>, c2: Seq<u8>)
    requires
        c1.len() == c2.len(),
        c1.len() <= base.len(),
        xor_derive(base, c1) == xor_derive(base, c2),
    ensures
        c1 == c2,
{
    assert forall|j: int| 0 <= j < c1.len() implies c1[j] == c2[j] by {
        let i = base.len() - c1.len() + j;
        assert(xor_derive(base, c1)[i] == base[i] ^ c1[j]);
        assert(xor_derive(base, c2)[i] == base[i] ^ c2[j]);
        assert(xor_derive(base, c1)[i] == xor_derive(base, c2)[i]);
        let b = base[i];
        let x = c1[j];
        let y = c2[j];
        assert(x == y) by (bit_vector)
            requires
                b ^ x == b ^ y,
        ;
    }
    assert(c1 =~= c2);
}

/// An associative cell: a namespace of slots, one per key of type `K`,
/// each holding an optional value of type `V`.
///
/// There is deliberately no size counter and no enumeration primitive:
/// membership is tested per key, never iterated.
pub struct StorageMap<K, V> {
    base: Key,
    marker: PhantomData<(K, V)>,
}

impl<K: Codec, V: Codec> StorageMap<K, V> {
    /// The base key this map owns as its namespace.
    pub closed spec fn base_of(self) -> Key {
        self.base
    }

    /// The bytes of the map's base key.
    pub open spec fn base_bytes(self) -> Seq<u8> {
        self.base_of()@
    }

    /// The physical key of the entry for `k`: a pure, deterministic
    /// function of the base key and `k`'s canonical encoding, so the
    /// same `k` recovers the same slot on every call.
    pub open spec fn entry_key(self, k: K) -> Seq<u8> {
        xor_derive(self.base_bytes(), k.enc())
    }

    /// What a `get(k)` of this map returns against store contents `m`.
    pub open spec fn read_spec(self, m: Map<Seq<u8>, Seq<u8>>, k: K) -> Result<Option<V>, Error> {
        read_model::<V>(m, self.entry_key(k))
    }

    /// Binds the map to the base key its allocation assigned.
    pub fn bind(base: Key) -> (r: Self)
        ensures
            r.base_of() == base,
    {
        StorageMap { base, marker: PhantomData }
    }

    /// Computes the physical key of the entry for `k`.
    fn derive_key(&self, k: &K) -> (r: Key)
        requires
            K::enc_len() <= 32,
        ensures
            r@ == self.entry_key(*k),
    {
        let code = k.encode();
        proof {
            k.lemma_enc_len();
        }
        let n = code.len();
        let mut bytes = self.base.0;
        let ghost target = self.entry_key(*k);
        let mut j: usize = 0;
        while j < n
            invariant
                j <= n,
                n == code@.len(),
                n <= 32,
                bytes@.len() == 32,
                target == xor_derive(self.base_of()@, code@),
                forall|i: int| 0 <= i < 32 - n + j ==> bytes@[i] == target[i],
                forall|i: int| 32 - n + j <= i < 32 ==> bytes@[i] == self.base_of()@[i],
            decreases n - j,
        {
            let idx = 32 - n + j;
            bytes[idx] = bytes[idx] ^ code[j];
            j += 1;
        }
        proof {
            assert(bytes@ =~= target);
        }
        Key(bytes)
    }

    /// The entry for `k`: `None` when never inserted, the stored value
    /// otherwise; stored bytes that fail to decode are fatal.
    pub fn get(&self, store: &Storage, k: &K) -> (r: Result<Option<V>, Error>)
        requires
            K::enc_len() <= 32,
        ensures
            r == self.read_spec(store@, *k),
    {
        let key = self.derive_key(k);
        read_cell::<V>(store, &key)
    }

    /// Serializes `v` and writes it at the entry for `k`.
    pub fn insert(&self, store: &mut Storage, k: &K, v: &V)
        requires
            K::enc_len() <= 32,
        ensures
            final(store)@ == old(store)@.insert(self.entry_key(*k), v.enc()),
    {
        let key = self.derive_key(k);
        let bytes = v.encode();
        store.store(&key, bytes.as_slice());
    }

    /// Removes the entry for `k`: a later `get(k)` is `None`.
    pub fn remove(&self, store: &mut Storage, k: &K)
        requires
            K::enc_len() <= 32,
        ensures
            final(store)@ == old(store)@.remove(self.entry_key(*k)),
    {
        let key = self.derive_key(k);
        store.clear(&key);
    }
}

/// Round trip of a [`Value`] cell: against any store contents, after
/// `set(v)` a `get` yields `Some(v)`, and after `clear` it yields
/// `None`.
pub proof fn lemma_value_round_trip<T: Codec>(cell: Value<T>, m: Map<Seq<u8>, Seq<u8>>, v: T)
    ensures
        cell.read_spec(m.insert(cell.key_bytes(), v.enc())) == Ok::<Option<T>, Error>(Some(v)),
        cell.read_spec(m.remove(cell.key_bytes())) == Ok::<Option<T>, Error>(None),
{
    let m2 = m.insert(cell.key_bytes(), v.enc());
    let w = choose|w: T| w.enc() == m2[cell.key_bytes()];
    T::lemma_enc_injective(v, w);
}

/// Round trip of a [`StorageMap`] entry: after `insert(k, v)` a
/// `get(k)` yields `Some(v)`, and after `remove(k)` it yields `None`.
pub proof fn lemma_map_round_trip<K: Codec, V: Codec>(
    map: StorageMap<K, V>,
    m: Map<Seq<u8>, Seq<u8>>,
    k: K,
    v: V,
)
    ensures
        map.read_spec(m.insert(map.entry_key(k), v.enc()), k) == Ok::<Option<V>, Error>(Some(v)),
        map.read_spec(m.remove(map.entry_key(k)), k) == Ok::<Option<V>, Error>(None),
{
    let m2 = m.insert(map.entry_key(k), v.enc());
    let w = choose|w: V| w.enc() == m2[map.entry_key(k)];
    V::lemma_enc_injective(v, w);
}

/// Entries of one map are independent: inserting or removing the entry
/// for `k` leaves what `get(k2)` returns unchanged, for every other
/// key `k2`, because the derived physical keys never collide.
pub proof fn lemma_map_entries_independent<K: Codec, V: Codec>(
    map: StorageMap<K, V>,
    m: Map<Seq<u8>, Seq<u8>>,
    k: K,
    k2: K,
    bytes: Seq<u8>,
)
    requires
        K::enc_len() <= 32,
        k2 != k,
    ensures
        map.entry_key(k2) != map.entry_key(k),
        map.read_spec(m.insert(map.entry_key(k), bytes), k2) == map.read_spec(m, k2),
        map.read_spec(m.remove(map.entry_key(k)), k2) == map.read_spec(m, k2),
{
    k.lemma_enc_len();
    k2.lemma_enc_len();
    if map.entry_key(k2) == map.entry_key(k) {
        lemma_xor_derive_injective(map.base_bytes(), k.enc(), k2.enc());
        K::lemma_enc_injective(k, k2);
    }
}

} // verus!
