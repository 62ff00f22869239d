//! The bump-style key-space allocator.
//!
//! State initialization hands each declared cell a disjoint region of
//! key space, in declaration order, by advancing a monotone cursor.
//! The cursor is never persisted: because allocation is a deterministic
//! function of the base key and the declared strides, every execution
//! re-derives the same assignment, which is what lets the contract find
//! its cells again on each call without an allocation table on disk.

use vstd::prelude::*;

use crate::arith::pow256;
use crate::key::Key;

verus! {

/// Sum of the strides of the first `n` allocation requests.
pub open spec fn stride_sum(strides: Seq<u64>, n: int) -> nat
    decreases n,
{
    if n <= 0 {
        0
    } else {
        stride_sum(strides, n - 1) + (strides[n - 1] as nat)
    }
}

/// Start of the `i`th region when regions of the given strides are
/// carved out of key space in order, beginning at `base`.
pub open spec fn region_start(base: nat, strides: Seq<u64>, i: int) -> nat {
    base + stride_sum(strides, i)
}

/// Bump allocator over key space: assigns each request the current
/// cursor and advances the cursor by the request's stride.
pub struct KeyAllocator {
    next: Key,
}

impl KeyAllocator {
    /// The key the next request will receive.
    pub closed spec fn current(self) -> Key {
        self.next
    }

    /// The key the next request will receive, as an integer.
    pub open spec fn cursor(self) -> nat {
        self.current().as_nat()
    }

    /// A fresh allocator whose cursor starts at `base`.
    pub fn new(base: Key) -> (r: KeyAllocator)
        ensures
            r.current() == base,
    {
        KeyAllocator { next: base }
    }

    /// Assigns the current cursor to one request of `stride` key widths
    /// and advances past the assigned region.
    pub fn allocate(&mut self, stride: u64) -> (r: Key)
        requires
            old(self).cursor() + stride < pow256(32),
        ensures
            r == old(self).current(),
            final(self).cursor() == old(self).cursor() + stride,
    {
        let assigned = self.next;
        self.next.add_assign_u64(stride);
        assigned
    }

    /// Serves an ordered sequence of allocation requests: request `i`
    /// receives the start of region `i`, and the regions are pairwise
    /// disjoint because each begins where the previous one ended.
    pub fn allocate_all(&mut self, strides: &Vec<u64>) -> (keys: Vec<Key>)
        requires
            old(self).cursor() + stride_sum(strides@, strides@.len() as int) < pow256(32),
        ensures
            keys@.len() == strides@.len(),
            forall|i: int|
                0 <= i < keys@.len() ==> (#[trigger] keys@[i]).as_nat() == region_start(
                    old(self).cursor(),
                    strides@,
                    i,
                ),
            final(self).cursor() == region_start(old(self).cursor(), strides@, strides@.len() as int),
    {
        let mut keys: Vec<Key> = Vec::new();
        let n = strides.len();
        let mut i: usize = 0;
        while i < n
            invariant
                i <= n,
                n == strides@.len(),
                keys@.len() == i,
                self.cursor() == region_start(old(self).cursor(), strides@, i as int),
                old(self).cursor() + stride_sum(strides@, n as int) < pow256(32),
                forall|j: int|
                    0 <= j < i ==> (#[trigger] keys@[j]).as_nat() == region_start(
                        old(self).cursor(),
                        strides@,
                        j,
                    ),
            decreases n - i,
        {
            proof {
                lemma_stride_sum_bound(strides@, i as int + 1, n as int);
            }
            let k = self.allocate(strides[i]);
            keys.push(k);
            i += 1;
        }
        keys
    }
}

/// Prefix sums of strides are monotone.
proof fn lemma_stride_sum_bound(strides: Seq<u64>, m: int, n: int)
    requires
        0 <= m <= n <= strides.len(),
    ensures
        stride_sum(strides, m) <= stride_sum(strides, n),
    decreases n - m,
{
    if m < n {
        lemma_stride_sum_bound(strides, m + 1, n);
    }
}

/// Allocation is deterministic: any two runs that serve the same
/// declared sequence of strides from the same base — that is, any two
/// key vectors standing in [`KeyAllocator::allocate_all`]'s relation to
/// the same `base` and `strides` — assign identical per-cell base keys.
pub proof fn lemma_alloc_deterministic(base: nat, strides: Seq<u64>, keys1: Seq<Key>, keys2: Seq<Key>)
    requires
        keys1.len() == strides.len(),
        keys2.len() == strides.len(),
        forall|i: int|
            0 <= i < keys1.len() ==> (#[trigger] keys1[i]).as_nat() == region_start(
                base,
                strides,
                i,
            ),
        forall|i: int|
            0 <= i < keys2.len() ==> (#[trigger] keys2[i]).as_nat() == region_start(
                base,
                strides,
                i,
            ),
    ensures
        keys1 == keys2,
{
    assert forall|i: int| 0 <= i < keys1.len() implies keys1[i] == keys2[i] by {
        Key::lemma_key_injective(keys1[i], keys2[i]);
    }
    assert(keys1 =~= keys2);
}

/// Regions served in order never overlap: a later region starts no
/// earlier than the end of any earlier one.
pub proof fn lemma_regions_disjoint(base: nat, strides: Seq<u64>, i: int, j: int)
    requires
        0 <= i < j <= strides.len(),
    ensures
        region_start(base, strides, i) + strides[i] <= region_start(base, strides, j),
    decreases j - i,
{
    if i + 1 < j {
        lemma_regions_disjoint(base, strides, i + 1, j);
    }
}

} // verus!
