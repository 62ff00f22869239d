//! Call decoding, selector routing and the deploy-once lifecycle.
//!
//! A call buffer is a fixed-width selector followed by the handler's
//! argument payload.  The dispatcher decodes the selector, looks it up
//! in the contract's static handler table, and invokes the matching
//! handler against the live state view; an unregistered selector is
//! fatal and leaves storage untouched.  The deploy entry runs the
//! designated initializer exactly once: an [`Instance`] starts
//! uninitialized, becomes ready when deploy succeeds, and never
//! transitions back, so call entries can never re-run the initializer.
//!
//! A fatal [`Error`] aborts the dispatch at once; the all-or-nothing
//! visibility of the aborted call's writes is the host transaction
//! boundary's concern, and the core attempts no partial cleanup of its
//! own.

use vstd::prelude::*;

use vstd::bytes::{spec_u32_from_le_bytes, u32_from_le_bytes};

use crate::env::{Env, EnvModel};
use crate::Error;

verus! {

/// Width of the selector prefix of a call buffer, in bytes.
pub const SELECTOR_BYTES: usize = 4;

/// The selector of a call buffer: its first four bytes, little-endian.
pub open spec fn selector_of(input: Seq<u8>) -> u32 {
    spec_u32_from_le_bytes(input.subrange(0, 4))
}

/// The argument payload of a call buffer: everything after the
/// selector.
pub open spec fn payload_of(input: Seq<u8>) -> Seq<u8> {
    input.skip(4)
}

/// A handler result, abstracted to the bytes it carries.
pub open spec fn result_bytes(r: Result<Vec<u8>, Error>) -> Result<Seq<u8>, Error> {
    match r {
        Ok(v) => Ok(v@),
        Err(e) => Err(e),
    }
}

/// A contract: statically declared cells, one designated initializer,
/// and a static table of selector-addressed handlers.
///
/// The two `*_model` functions are the contract's mathematical
/// behaviour; `init` and `invoke` are proved to follow them exactly,
/// so the dispatcher's contract pins every entry down to the bytes.
pub trait Contract: Sized {
    /// The selectors with a registered handler, in declaration order.
    /// Selectors are unique within one contract by declaration.
    spec fn selectors() -> Seq<u32>;

    /// Store contents after the initializer runs on `payload`, with
    /// the initializer's result.
    spec fn init_model(self, env: EnvModel, payload: Seq<u8>) -> (Map<Seq<u8>, Seq<u8>>, Result<
        (),
        Error,
    >);

    /// Store contents after the handler registered for `sel` runs on
    /// `payload`, with the handler's encoded return value.
    spec fn invoke_model(self, env: EnvModel, sel: u32, payload: Seq<u8>) -> (
        Map<Seq<u8>, Seq<u8>>,
        Result<Seq<u8>, Error>,
    );

    /// Selectors are unique within one contract; a collision refuses
    /// the declaration rather than surfacing at run time.
    proof fn lemma_selectors_unique()
        ensures
            forall|i: int, j: int|
                0 <= i < j < Self::selectors().len() ==> Self::selectors()[i]
                    != Self::selectors()[j],
    ;

    /// Decides membership in the static handler table.
    fn is_selector(sel: u32) -> (r: bool)
        ensures
            r == Self::selectors().contains(sel),
    ;

    /// Runs the designated initializer against the live state view.
    fn init(&self, env: &mut Env, payload: &[u8]) -> (r: Result<(), Error>)
        ensures
            ({
                let (m2, r2) = self.init_model(old(env)@, payload@);
                &&& final(env)@.storage == m2
                &&& final(env)@.caller == old(env)@.caller
                &&& r == r2
            }),
    ;

    /// Runs the handler registered for `sel` against the live state
    /// view.
    fn invoke(&self, env: &mut Env, sel: u32, payload: &[u8]) -> (r: Result<Vec<u8>, Error>)
        requires
            Self::selectors().contains(sel),
        ensures
            ({
                let (m2, r2) = self.invoke_model(old(env)@, sel, payload@);
                &&& final(env)@.storage == m2
                &&& final(env)@.caller == old(env)@.caller
                &&& result_bytes(r) == r2
            }),
    ;
}

/// Lifecycle of a contract instance: the deploy entry runs once, and
/// there is no way back to the uninitialized state.
#[derive(Debug, Clone, Copy, PartialEq, Eq)]
pub enum Phase {
    Uninitialized,
    Ready,
}

/// A contract bound to its lifecycle phase.
pub struct Instance<C> {
    contract: C,
    phase: Phase,
}

impl<C: Contract> Instance<C> {
    /// The contract's state view (its cell bindings).
    pub closed spec fn state(self) -> C {
        self.contract
    }

    /// True once the deploy entry has succeeded.
    pub closed spec fn is_ready(self) -> bool {
        self.phase is Ready
    }

    /// Wraps freshly bound contract state; nothing is deployed yet.
    pub fn new(contract: C) -> (r: Self)
        ensures
            r.state() == contract,
            !r.is_ready(),
    {
        Instance { contract, phase: Phase::Uninitialized }
    }

    /// The deploy entry: runs the designated initializer on the deploy
    /// buffer (no selector prefix) and, on success, makes the instance
    /// ready.  It is invoked exactly once per contract lifetime; the
    /// phase never returns to uninitialized afterwards, so the
    /// initializer can never run again.
    pub fn deploy(&mut self, env: &mut Env, payload: &[u8]) -> (r: Result<(), Error>)
        requires
            !old(self).is_ready(),
        ensures
            final(self).state() == old(self).state(),
            final(self).is_ready() == (r is Ok),
            ({
                let (m2, r2) = old(self).state().init_model(old(env)@, payload@);
                &&& final(env)@.storage == m2
                &&& final(env)@.caller == old(env)@.caller
                &&& r == r2
            }),
    {
        let r = self.contract.init(env, payload);
        if r.is_ok() {
            self.phase = Phase::Ready;
        }
        r
    }

    /// The call entry: decodes the leading selector, rejects buffers
    /// too short to carry one and selectors with no registered
    /// handler — both without touching storage — and otherwise invokes
    /// exactly the handler registered for the selector on the
    /// remaining payload.  The instance itself never changes: in
    /// particular the initializer never re-runs.
    pub fn call(&mut self, env: &mut Env, input: &[u8]) -> (r: Result<Vec<u8>, Error>)
        requires
            old(self).is_ready(),
        ensures
            *final(self) == *old(self),
            input@.len() < 4 ==> r == Err::<Vec<u8>, Error>(Error::Decode) && final(env)@ == old(
                env,
            )@,
            input@.len() >= 4 && !C::selectors().contains(selector_of(input@)) ==> r == Err::<
                Vec<u8>,
                Error,
            >(Error::UnknownSelector) && final(env)@ == old(env)@,
            input@.len() >= 4 && C::selectors().contains(selector_of(input@)) ==> ({
                let (m2, r2) = old(self).state().invoke_model(
                    old(env)@,
                    selector_of(input@),
                    payload_of(input@),
                );
                &&& final(env)@.storage == m2
                &&& final(env)@.caller == old(env)@.caller
                &&& result_bytes(r) == r2
            }),
    {
        if input.len() < SELECTOR_BYTES {
            return Err(Error::Decode);
        }
        let sel_bytes = vstd::slice::slice_subrange(input, 0, SELECTOR_BYTES);
        let sel = u32_from_le_bytes(sel_bytes);
        proof {
            assert(sel_bytes@ =~= input@.subrange(0, 4));
        }
        if !C::is_selector(sel) {
            return Err(Error::UnknownSelector);
        }
        let payload = vstd::slice::slice_subrange(input, SELECTOR_BYTES, input.len());
        proof {
            assert(payload@ =~= payload_of(input@));
        }
        self.contract.invoke(env, sel, payload)
    }
}

} // verus!
