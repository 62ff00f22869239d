//! The 256-bit storage key and its offset arithmetic.
//!
//! A [`Key`] is a fixed 32-byte, big-endian address into the contract's
//! flat key space.  Adding a scalar offsets the address with carry
//! propagation toward the most significant byte; carrying past the most
//! significant byte would wrap the address space and is excluded
//! outright: the operations require that the sum stays below `256^32`,
//! so a verified caller can never reach the wrapping case.  The policy
//! is deliberately uniform — the 64-bit path is held to the same
//! always-fatal rule as the 32-bit path, in every build — because a
//! silently wrapped address would alias another cell's region.

use vstd::prelude::*;

use crate::arith::{be_nat, lemma_be_nat_bound, lemma_be_nat_injective, lemma_be_nat_zero, pow256};

verus! {

broadcast use vstd::array::group_array_axioms;

/// Width of a [`Key`] in bytes.
pub const KEY_BYTES: usize = 32;

/// Typeless key into contract storage: a fixed-width 256-bit address
/// kept as a big-endian byte array.
///
/// This is the lowest-level means of addressing contract storage.  It
/// does not restrict ownership of the addressed slot; the typed cells
/// built on top of it do.
#[derive(Debug, Copy, Clone, PartialEq, Eq, PartialOrd, Ord, Hash)]
pub struct Key(pub [u8; 32]);

impl View for Key {
    type V = Seq<u8>;

    open spec fn view(&self) -> Seq<u8> {
        self.0@
    }
}

impl Key {
    /// The address as an unsigned integer.
    pub open spec fn as_nat(self) -> nat {
        be_nat(self@)
    }

    /// The zero key: the conventional base of a contract's key space.
    pub fn zero() -> (r: Key)
        ensures
            r.as_nat() == 0,
    {
        let r = Key([0u8; 32]);
        proof {
            lemma_be_nat_zero(r@);
        }
        r
    }

    /// Returns the byte slice of this key.
    pub fn as_bytes(&self) -> (r: &[u8])
        ensures
            r@ == self@,
    {
        self.0.as_slice()
    }

    /// Returns the mutable byte slice of this key.
    pub fn as_bytes_mut(&mut self) -> (r: &mut [u8])
        ensures
            r@ == old(self)@,
            final(self)@ == final(r)@,
    {
        vstd::array::ref_mut_array_unsizing_coercion(&mut self.0)
    }

    /// True when both keys address the same slot.
    pub fn eq_bytes(&self, other: &Key) -> (r: bool)
        ensures
            r == (self@ == other@),
    {
        let mut i: usize = 0;
        while i < 32
            invariant
                i <= 32,
                forall|j: int| 0 <= j < i ==> self@[j] == other@[j],
            decreases 32 - i,
        {
            if self.0[i] != other.0[i] {
                assert(self@ != other@) by {
                    assert(self@[i as int] != other@[i as int]);
                }
                return false;
            }
            i += 1;
        }
        proof {
            assert(self@ =~= other@);
        }
        true
    }

    /// Offsets the key by `rhs` in place, carrying toward the most
    /// significant byte.
    pub fn add_assign_u64(&mut self, rhs: u64)
        requires
            old(self).as_nat() + rhs < pow256(32),
        ensures
            final(self).as_nat() == old(self).as_nat() + rhs,
    {
        let mut acc: u64 = rhs;
        let mut i: usize = 0;
        proof {
            assert(self@.len() == 32);
            assert(self@.skip(32) =~= Seq::<u8>::empty());
            assert(be_nat(self@.skip(32)) == 0);
            assert(pow256(0) == 1);
        }
        while i < 32
            invariant
                i <= 32,
                forall|j: int| 0 <= j < 32 - i ==> self@[j] == old(self)@[j],
                be_nat(self@.skip(32 - i as int)) + (acc as nat) * pow256(i as nat) == be_nat(
                    old(self)@.skip(32 - i as int),
                ) + rhs,
            decreases 32 - i,
        {
            let idx = 31 - i;
            let ghost s_pre = self@;
            let ghost acc_pre = acc;
            let low: u64 = acc % 256;
            let byte_here: u8 = self.0[idx];
            let sum: u64 = byte_here as u64 + low;
            self.0[idx] = (sum % 256) as u8;
            acc = acc / 256 + sum / 256;
            proof {
                let j = idx as int;
                let s_post = self@;
                assert(s_post =~= s_pre.update(j, (sum % 256) as u8));
                assert(s_post.skip(j + 1) =~= s_pre.skip(j + 1));
                lemma_be_skip_unfold(s_post, j);
                lemma_be_skip_unfold(old(self)@, j);
                // The byte the step consumed had not been written yet.
                assert(s_pre[j] == old(self)@[j]);
                // Scalar bookkeeping: the new digit plus the carries equals
                // the old digit plus the incoming accumulator.
                assert((sum % 256) as nat + 256 * ((acc_pre / 256) as nat + (sum / 256) as nat)
                    == (s_pre[j] as nat) + acc_pre as nat) by {
                    assert(sum == byte_here as u64 + acc_pre % 256);
                    assert(sum % 256 + 256 * (sum / 256) == sum) by (nonlinear_arith);
                    assert(acc_pre % 256 + 256 * (acc_pre / 256) == acc_pre) by (nonlinear_arith);
                }
                // Lift it by 256^i and fold into the loop invariant.
                assert(((sum % 256) as nat) * pow256(i as nat) + ((acc_pre / 256) as nat + (sum
                    / 256) as nat) * pow256((i + 1) as nat) == (s_pre[j] as nat) * pow256(i as nat)
                    + (acc_pre as nat) * pow256(i as nat)) by (nonlinear_arith)
                    requires
                        (sum % 256) as nat + 256 * ((acc_pre / 256) as nat + (sum / 256) as nat)
                            == (s_pre[j] as nat) + acc_pre as nat,
                        pow256((i + 1) as nat) == 256 * pow256(i as nat),
                ;
            }
            i += 1;
        }
        proof {
            assert(self@.skip(0) =~= self@);
            assert(old(self)@.skip(0) =~= old(self)@);
            lemma_be_nat_bound(self@);
            if acc >= 1 {
                assert(be_nat(self@) + (acc as nat) * pow256(32) >= pow256(32))
                    by (nonlinear_arith)
                    requires
                        acc >= 1,
                ;
            }
        }
    }

    /// Returns the key offset by `rhs`.
    pub fn add_u64(self, rhs: u64) -> (r: Key)
        requires
            self.as_nat() + rhs < pow256(32),
        ensures
            r.as_nat() == self.as_nat() + rhs,
    {
        let mut result = self;
        result.add_assign_u64(rhs);
        result
    }

    /// Offsets the key by `rhs` in place.
    pub fn add_assign(&mut self, rhs: u32)
        requires
            old(self).as_nat() + rhs < pow256(32),
        ensures
            final(self).as_nat() == old(self).as_nat() + rhs,
    {
        self.add_assign_u64(rhs as u64);
    }

    /// Returns the key offset by `rhs`.
    pub fn add(self, rhs: u32) -> (r: Key)
        requires
            self.as_nat() + rhs < pow256(32),
        ensures
            r.as_nat() == self.as_nat() + rhs,
    {
        self.add_u64(rhs as u64)
    }

    /// Keys with equal integer values are the same key.
    pub proof fn lemma_key_injective(a: Key, b: Key)
        requires
            a.as_nat() == b.as_nat(),
        ensures
            a == b,
    {
        lemma_be_nat_injective(a@, b@);
        assert(a.0 =~= b.0);
    }

    /// Offsetting a key by `a` and then by `b` reaches the same key as
    /// offsetting it once by `a + b`, whenever the combined offset stays
    /// inside the address space.  The hypotheses are exactly the
    /// contracts of [`Key::add`]: `k_a` for `k.add(a)`, `k_a_b` for
    /// `k.add(a).add(b)` and `k_ab` for `k.add_u64(a + b)`.
    pub proof fn lemma_add_then_add(k: Key, a: u32, b: u32, k_a: Key, k_a_b: Key, k_ab: Key)
        requires
            k.as_nat() + a + b < pow256(32),
            k_a.as_nat() == k.as_nat() + a,
            k_a_b.as_nat() == k_a.as_nat() + b,
            k_ab.as_nat() == k.as_nat() + (a + b),
        ensures
            k_a_b == k_ab,
    {
        Key::lemma_key_injective(k_a_b, k_ab);
    }
}

/// Unfolds `be_nat` of a suffix by one byte: the suffix starting at `j`
/// denotes its first byte, weighted by the width of the rest, plus the
/// suffix starting at `j + 1`.
proof fn lemma_be_skip_unfold(s: Seq<u8>, j: int)
    requires
        0 <= j < s.len(),
    ensures
        be_nat(s.skip(j)) == (s[j] as nat) * pow256((s.len() - j - 1) as nat) + be_nat(
            s.skip(j + 1),
        ),
{
    assert(s.skip(j).skip(1) =~= s.skip(j + 1));
    assert(s.skip(j)[0] == s[j]);
}

} // verus!
