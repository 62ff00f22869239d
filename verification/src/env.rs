//! The execution environment handed to every handler.
//!
//! An [`Env`] binds the byte store to the transaction context — here
//! the calling identity — for the duration of exactly one dispatch.
//! Handlers receive it as an explicit argument; nothing in the core is
//! ambient or global.

use vstd::prelude::*;

use crate::codec::Codec;
use crate::storage::Storage;

verus! {

broadcast use vstd::array::group_array_axioms;

/// The identity on whose behalf the current entry runs, as an opaque
/// 32-byte value.
#[derive(Debug, Copy, Clone, PartialEq, Eq, Hash)]
pub struct AccountId(pub [u8; 32]);

impl View for AccountId {
    type V = Seq<u8>;

    open spec fn view(&self) -> Seq<u8> {
        self.0@
    }
}

impl Codec for AccountId {
    open spec fn enc(self) -> Seq<u8> {
        self@
    }

    open spec fn enc_len() -> nat {
        32
    }

    proof fn lemma_enc_len(self) {
    }

    proof fn lemma_enc_injective(a: Self, b: Self) {
        assert(a.0 =~= b.0);
    }

    fn encode(&self) -> (r: Vec<u8>) {
        vstd::slice::slice_to_vec(self.0.as_slice())
    }

    fn decode(buf: &[u8]) -> (r: Option<Self>) {
        if buf.len() == 32 {
            let mut bytes = [0u8; 32];
            let mut i: usize = 0;
            while i < 32
                invariant
                    i <= 32,
                    buf@.len() == 32,
                    forall|j: int| 0 <= j < i ==> bytes@[j] == buf@[j],
                decreases 32 - i,
            {
                bytes[i] = buf[i];
                i += 1;
            }
            proof {
                assert(bytes@ =~= buf@);
            }
            Some(AccountId(bytes))
        } else {
            proof {
                assert forall|v: AccountId| (#[trigger] v.enc()).len() == 32 by {}
            }
            None
        }
    }
}

/// True when both identities are the same account.
impl AccountId {
    pub fn eq_bytes(&self, other: &AccountId) -> (r: bool)
        ensures
            r == (*self == *other),
    {
        let mut i: usize = 0;
        while i < 32
            invariant
                i <= 32,
                forall|j: int| 0 <= j < i ==> self@[j] == other@[j],
            decreases 32 - i,
        {
            if self.0[i] != other.0[i] {
                assert(self@[i as int] != other@[i as int]);
                return false;
            }
            i += 1;
        }
        proof {
            assert(self@ =~= other@);
            assert(self.0 =~= other.0);
        }
        true
    }
}

/// Abstract state of an environment: the store's contents and the
/// calling identity.
pub struct EnvModel {
    pub storage: Map<Seq<u8>, Seq<u8>>,
    pub caller: AccountId,
}

/// One dispatch's view of the world: exclusive use of the byte store,
/// plus the identity that invoked the entry.
pub struct Env {
    storage: Storage,
    caller: AccountId,
}

impl View for Env {
    type V = EnvModel;

    closed spec fn view(&self) -> EnvModel {
        EnvModel { storage: self.storage@, caller: self.caller }
    }
}

impl Env {
    /// Binds a byte store and a calling identity for one dispatch.
    pub fn new(storage: Storage, caller: AccountId) -> (r: Env)
        ensures
            r@.storage == storage@,
            r@.caller == caller,
    {
        Env { storage, caller }
    }

    /// The identity on whose behalf the current entry runs.
    pub fn caller(&self) -> (r: AccountId)
        ensures
            r == self@.caller,
    {
        self.caller
    }

    /// Read access to the byte store.
    pub fn storage(&self) -> (r: &Storage)
        ensures
            r@ == self@.storage,
    {
        &self.storage
    }

    /// Write access to the byte store; the caller identity never
    /// changes within a dispatch.
    pub fn storage_mut(&mut self) -> (r: &mut Storage)
        ensures
            r@ == old(self)@.storage,
            final(self)@.storage == final(r)@,
            final(self)@.caller == old(self)@.caller,
    {
        &mut self.storage
    }

    /// Releases the byte store when the dispatch is over.
    pub fn into_storage(self) -> (r: Storage)
        ensures
            r@ == self@.storage,
    {
        self.storage
    }
}

} // verus!
