//! A toggle-style contract: one stored boolean, flipped on demand.
//!
//! The internal boolean is initialized with `true` at deploy.  `flip`
//! negates it; `get` returns it.

use vstd::prelude::*;

use crate::allocator::KeyAllocator;
use crate::arith::pow256;
use crate::cell::Value;
use crate::codec::Codec;
use crate::dispatch::Contract;
use crate::env::{Env, EnvModel};
use crate::Error;

verus! {

/// Selector registered for the `flip` handler.
pub const FLIP_SELECTOR: u32 = 970692492;

/// Selector registered for the `get` handler.
pub const GET_SELECTOR: u32 = 4266279973;

/// Contract state: a single boolean cell.
pub struct Flipper {
    value: Value<bool>,
}

impl Flipper {
    /// The cell holding the boolean.
    pub closed spec fn cell(self) -> Value<bool> {
        self.value
    }

    /// Allocates the contract's one cell from the allocator's cursor.
    pub fn bind(alloc: &mut KeyAllocator) -> (r: Flipper)
        requires
            old(alloc).cursor() + 1 < pow256(32),
        ensures
            final(alloc).cursor() == old(alloc).cursor() + 1,
            r.cell().key_of() == old(alloc).current(),
    {
        Flipper { value: Value::bind(alloc.allocate(1)) }
    }

    /// Store contents and result of `flip` against contents `m`: the
    /// stored boolean is replaced by its negation; a cell that is
    /// absent or undecodable is fatal and leaves the store unchanged.
    pub open spec fn flip_model(self, m: Map<Seq<u8>, Seq<u8>>) -> (Map<Seq<u8>, Seq<u8>>, Result<
        (),
        Error,
    >) {
        match self.cell().read_spec(m) {
            Ok(Some(b)) => (m.insert(self.cell().key_bytes(), (!b).enc()), Ok(())),
            _ => (m, Err(Error::Decode)),
        }
    }

    /// Result of `get` against contents `m`.
    pub open spec fn get_model(self, m: Map<Seq<u8>, Seq<u8>>) -> Result<bool, Error> {
        match self.cell().read_spec(m) {
            Ok(Some(b)) => Ok(b),
            _ => Err(Error::Decode),
        }
    }

    /// Flips the internal boolean.
    pub fn flip(&self, env: &mut Env) -> (r: Result<(), Error>)
        ensures
            ({
                let (m2, r2) = self.flip_model(old(env)@.storage);
                &&& final(env)@.storage == m2
                &&& final(env)@.caller == old(env)@.caller
                &&& r == r2
            }),
    {
        match self.value.get(env.storage()) {
            Ok(Some(b)) => {
                self.value.set(env.storage_mut(), &!b);
                Ok(())
            },
            _ => Err(Error::Decode),
        }
    }

    /// Returns the internal boolean.
    pub fn get(&self, env: &Env) -> (r: Result<bool, Error>)
        ensures
            r == self.get_model(env@.storage),
    {
        match self.value.get(env.storage()) {
            Ok(Some(b)) => Ok(b),
            _ => Err(Error::Decode),
        }
    }
}

impl Contract for Flipper {
    open spec fn selectors() -> Seq<u32> {
        seq![FLIP_SELECTOR, GET_SELECTOR]
    }

    /// Deploy takes no arguments: an empty buffer initializes the
    /// boolean with `true`; anything else is malformed.
    open spec fn init_model(self, env: EnvModel, payload: Seq<u8>) -> (Map<Seq<u8>, Seq<u8>>, Result<
        (),
        Error,
    >) {
        if payload.len() == 0 {
            (env.storage.insert(self.cell().key_bytes(), true.enc()), Ok(()))
        } else {
            (env.storage, Err(Error::Decode))
        }
    }

    /// Both handlers take no arguments; `flip` returns nothing and
    /// `get` returns the encoded boolean.
    open spec fn invoke_model(self, env: EnvModel, sel: u32, payload: Seq<u8>) -> (
        Map<Seq<u8>, Seq<u8>>,
        Result<Seq<u8>, Error>,
    ) {
        if payload.len() != 0 {
            (env.storage, Err(Error::Decode))
        } else if sel == FLIP_SELECTOR {
            let (m2, r2) = self.flip_model(env.storage);
            (
                m2,
                match r2 {
                    Ok(()) => Ok(Seq::empty()),
                    Err(e) => Err(e),
                },
            )
        } else {
            (
                env.storage,
                match self.get_model(env.storage) {
                    Ok(b) => Ok(b.enc()),
                    Err(e) => Err(e),
                },
            )
        }
    }

    proof fn lemma_selectors_unique() {
        assert(Self::selectors()[0] == FLIP_SELECTOR);
        assert(Self::selectors()[1] == GET_SELECTOR);
    }

    fn is_selector(sel: u32) -> (r: bool) {
        proof {
            assert(Self::selectors()[0] == FLIP_SELECTOR);
            assert(Self::selectors()[1] == GET_SELECTOR);
            if Self::selectors().contains(sel) {
                let i = choose|i: int|
                    0 <= i < Self::selectors().len() && Self::selectors()[i] == sel;
                assert(i == 0 || i == 1);
            }
        }
        sel == FLIP_SELECTOR || sel == GET_SELECTOR
    }

    fn init(&self, env: &mut Env, payload: &[u8]) -> (r: Result<(), Error>) {
        if payload.len() != 0 {
            return Err(Error::Decode);
        }
        self.value.set(env.storage_mut(), &true);
        Ok(())
    }

    fn invoke(&self, env: &mut Env, sel: u32, payload: &[u8]) -> (r: Result<Vec<u8>, Error>) {
        if payload.len() != 0 {
            return Err(Error::Decode);
        }
        if sel == FLIP_SELECTOR {
            match self.flip(env) {
                Ok(()) => {
                    let out: Vec<u8> = Vec::new();
                    proof {
                        assert(out@ =~= Seq::<u8>::empty());
                    }
                    Ok(out)
                },
                Err(e) => Err(e),
            }
        } else {
            proof {
                let i = choose|i: int|
                    0 <= i < Self::selectors().len() && Self::selectors()[i] == sel;
                assert(Self::selectors()[0] == FLIP_SELECTOR);
                assert(Self::selectors()[1] == GET_SELECTOR);
                assert(i == 0 || i == 1);
            }
            match self.get(env) {
                Ok(b) => Ok(b.encode()),
                Err(e) => Err(e),
            }
        }
    }
}

} // verus!
