//! The fixed, canonical binary encoding.
//!
//! Every value that crosses the storage boundary or the message
//! boundary is carried in this codec.  Each type has exactly one
//! encoding of a fixed width; nothing is self-describing or versioned,
//! so changing a handler's argument types changes wire compatibility.
//! Decoding is exact: a byte string decodes to `Some(v)` precisely when
//! it is the encoding of some value `v`, and encodings are injective,
//! so that value is unique.

use vstd::prelude::*;

use vstd::bytes::{
    lemma_auto_spec_u32_to_from_le_bytes, lemma_auto_spec_u64_to_from_le_bytes,
    spec_u32_to_le_bytes, spec_u64_to_le_bytes, u32_from_le_bytes, u32_to_le_bytes,
    u64_from_le_bytes, u64_to_le_bytes,
};

verus! {

/// A type with one canonical, fixed-width binary encoding.
pub trait Codec: Sized {
    /// The canonical encoding of this value.
    spec fn enc(self) -> Seq<u8>;

    /// Width of every encoding of this type, in bytes.
    spec fn enc_len() -> nat;

    /// Every encoding has the declared width.
    proof fn lemma_enc_len(self)
        ensures
            self.enc().len() == Self::enc_len(),
    ;

    /// Encodings are injective: equal encodings come from equal values.
    proof fn lemma_enc_injective(a: Self, b: Self)
        requires
            a.enc() == b.enc(),
        ensures
            a == b,
    ;

    /// Produces the canonical encoding.
    fn encode(&self) -> (r: Vec<u8>)
        ensures
            r@ == self.enc(),
    ;

    /// Decodes a whole byte string: `Some(v)` exactly when the string
    /// is the canonical encoding of `v`.
    fn decode(buf: &[u8]) -> (r: Option<Self>)
        ensures
            r matches Some(v) ==> v.enc() == buf@,
            (exists|v: Self| v.enc() == buf@) ==> r is Some,
    ;
}

impl Codec for bool {
    open spec fn enc(self) -> Seq<u8> {
        if self {
            seq![1u8]
        } else {
            seq![0u8]
        }
    }

    open spec fn enc_len() -> nat {
        1
    }

    proof fn lemma_enc_len(self) {
    }

    proof fn lemma_enc_injective(a: Self, b: Self) {
        if a != b {
            assert(seq![1u8][0] == 1u8);
            assert(seq![0u8][0] == 0u8);
            assert(a.enc()[0] != b.enc()[0]);
        }
    }

    fn encode(&self) -> (r: Vec<u8>) {
        let mut r: Vec<u8> = Vec::new();
        if *self {
            r.push(1u8);
        } else {
            r.push(0u8);
        }
        proof {
            assert(r@ =~= self.enc());
        }
        r
    }

    fn decode(buf: &[u8]) -> (r: Option<Self>) {
        if buf.len() == 1 {
            let b = buf[0];
            if b == 1 {
                proof {
                    assert(true.enc() =~= buf@);
                }
                Some(true)
            } else if b == 0 {
                proof {
                    assert(false.enc() =~= buf@);
                }
                Some(false)
            } else {
                proof {
                    assert(forall|v: bool| v.enc()[0] == 0 || v.enc()[0] == 1);
                }
                None
            }
        } else {
            proof {
                assert(forall|v: bool| (#[trigger] v.enc()).len() == 1);
            }
            None
        }
    }
}

impl Codec for u32 {
    open spec fn enc(self) -> Seq<u8> {
        spec_u32_to_le_bytes(self)
    }

    open spec fn enc_len() -> nat {
        4
    }

    proof fn lemma_enc_len(self) {
        lemma_auto_spec_u32_to_from_le_bytes();
    }

    proof fn lemma_enc_injective(a: Self, b: Self) {
        lemma_auto_spec_u32_to_from_le_bytes();
        assert(spec_u32_to_le_bytes(a).len() == 4);
        assert(spec_u32_to_le_bytes(b).len() == 4);
    }

    fn encode(&self) -> (r: Vec<u8>) {
        u32_to_le_bytes(*self)
    }

    fn decode(buf: &[u8]) -> (r: Option<Self>) {
        proof {
            lemma_auto_spec_u32_to_from_le_bytes();
        }
        if buf.len() == 4 {
            Some(u32_from_le_bytes(buf))
        } else {
            None
        }
    }
}

impl Codec for u64 {
    open spec fn enc(self) -> Seq<u8> {
        spec_u64_to_le_bytes(self)
    }

    open spec fn enc_len() -> nat {
        8
    }

    proof fn lemma_enc_len(self) {
        lemma_auto_spec_u64_to_from_le_bytes();
    }

    proof fn lemma_enc_injective(a: Self, b: Self) {
        lemma_auto_spec_u64_to_from_le_bytes();
        assert(spec_u64_to_le_bytes(a).len() == 8);
        assert(spec_u64_to_le_bytes(b).len() == 8);
    }

    fn encode(&self) -> (r: Vec<u8>) {
        u64_to_le_bytes(*self)
    }

    fn decode(buf: &[u8]) -> (r: Option<Self>) {
        proof {
            lemma_auto_spec_u64_to_from_le_bytes();
        }
        if buf.len() == 8 {
            Some(u64_from_le_bytes(buf))
        } else {
            None
        }
    }
}

/// The value `bytes` decodes to, when it is a canonical encoding at
/// all.  By injectivity of `enc` the choice is unique, so this is the
/// mathematical inverse of the codec.
pub open spec fn decoded<T: Codec>(bytes: Seq<u8>) -> Option<T> {
    if exists|v: T| v.enc() == bytes {
        Some(choose|v: T| v.enc() == bytes)
    } else {
        None
    }
}

} // verus!
