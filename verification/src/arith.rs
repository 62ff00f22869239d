//! Big-endian byte strings read as natural numbers.
//!
//! Storage keys are fixed-width byte arrays with no structure beyond
//! offset arithmetic; this module gives them their arithmetic meaning: a
//! byte string denotes a number with its first byte most significant.

use vstd::prelude::*;

verus! {

/// `256^n`: the number of values a string of `n` bytes can denote.
pub open spec fn pow256(n: nat) -> nat
    decreases n,
{
    if n == 0 {
        1
    } else {
        256 * pow256((n - 1) as nat)
    }
}

/// The number denoted by the big-endian byte string `s`: the first byte
/// is the most significant, the last the least significant.
pub open spec fn be_nat(s: Seq<u8>) -> nat
    decreases s.len(),
{
    if s.len() == 0 {
        0
    } else {
        (s[0] as nat) * pow256((s.len() - 1) as nat) + be_nat(s.skip(1))
    }
}

pub proof fn lemma_pow256_pos(n: nat)
    ensures
        pow256(n) >= 1,
    decreases n,
{
    if n > 0 {
        lemma_pow256_pos((n - 1) as nat);
    }
}

/// A string of `n` bytes denotes a number below `256^n`.
pub proof fn lemma_be_nat_bound(s: Seq<u8>)
    ensures
        be_nat(s) < pow256(s.len()),
    decreases s.len(),
{
    if s.len() == 0 {
    } else {
        let rest = s.skip(1);
        let p = pow256((s.len() - 1) as nat);
        lemma_be_nat_bound(rest);
        lemma_pow256_pos((s.len() - 1) as nat);
        assert((s[0] as nat) * p + be_nat(rest) < 256 * p) by (nonlinear_arith)
            requires
                be_nat(rest) < p,
                (s[0] as nat) < 256,
                p >= 1,
        ;
    }
}

/// Byte strings of equal length denoting the same number are equal.
pub proof fn lemma_be_nat_injective(a: Seq<u8>, b: Seq<u8>)
    requires
        a.len() == b.len(),
        be_nat(a) == be_nat(b),
    ensures
        a == b,
    decreases a.len(),
{
    if a.len() == 0 {
        assert(a =~= b);
    } else {
        let p = pow256((a.len() - 1) as nat);
        lemma_be_nat_bound(a.skip(1));
        lemma_be_nat_bound(b.skip(1));
        assert((a[0] as nat) == (b[0] as nat) && be_nat(a.skip(1)) == be_nat(b.skip(1)))
            by (nonlinear_arith)
            requires
                (a[0] as nat) * p + be_nat(a.skip(1)) == (b[0] as nat) * p + be_nat(b.skip(1)),
                be_nat(a.skip(1)) < p,
                be_nat(b.skip(1)) < p,
                (a[0] as nat) < 256,
                (b[0] as nat) < 256,
        ;
        lemma_be_nat_injective(a.skip(1), b.skip(1));
        assert forall|i: int| 0 <= i < a.len() implies a[i] == b[i] by {
            if i > 0 {
                assert(a.skip(1)[i - 1] == b.skip(1)[i - 1]);
            }
        }
        assert(a =~= b);
    }
}

/// A string of zero bytes denotes zero.
pub proof fn lemma_be_nat_zero(s: Seq<u8>)
    requires
        forall|i: int| 0 <= i < s.len() ==> s[i] == 0,
    ensures
        be_nat(s) == 0,
    decreases s.len(),
{
    if s.len() > 0 {
        lemma_be_nat_zero(s.skip(1));
    }
}

} // verus!
