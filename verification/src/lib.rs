//! Persistent state management and call routing for isolated,
//! deterministic contract units executing against a flat, key-addressed
//! byte store.
//!
//! The crate is organised bottom-up:
//! - [`arith`] interprets big-endian byte strings as natural numbers;
//! - [`key`] defines the 256-bit storage [`key::Key`] and its checked
//!   offset arithmetic;
//! - [`storage`] realises the host byte store as a verified in-memory
//!   association from keys to byte strings;
//! - [`allocator`] partitions key space among cells with a bump cursor;
//! - [`codec`] is the fixed, canonical binary encoding for values that
//!   cross the storage and message boundaries;
//! - [`cell`] builds the typed cells (`Value`, `StorageMap`) on top of
//!   raw load/store/clear;
//! - [`env`] binds the byte store to the calling identity;
//! - [`dispatch`] decodes call buffers, routes selectors to handlers and
//!   manages the deploy-once lifecycle;
//! - [`flipper`] and [`token`] are two complete contracts written
//!   against those pieces.

use vstd::prelude::*;

pub mod allocator;
pub mod arith;
pub mod cell;
pub mod codec;
pub mod dispatch;
pub mod env;
pub mod flipper;
pub mod key;
pub mod storage;
pub mod token;

verus! {

/// A condition fatal to the current deploy or call.
///
/// Both variants abort the dispatch in progress: the host is expected to
/// discard every storage effect of the failed entry.  An absent value is
/// never an `Error`; it is an ordinary `None` result.
#[derive(Debug, Clone, Copy, PartialEq, Eq)]
pub enum Error {
    /// Stored bytes or an incoming payload do not match the expected
    /// canonical encoding, or the payload is truncated.
    Decode,
    /// The call buffer's selector matches no registered handler.
    UnknownSelector,
}

} // verus!
