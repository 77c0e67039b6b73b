//! Why a call failed.

use crate::boundary::codec::DecodeError;
use crate::host::contract;
use crate::reply::kind::Kind;
use vstd::prelude::*;

verus! {

/// Why a call failed. [`code`](Self::code) is its wire form.
#[derive(Clone, Copy, Debug, PartialEq, Eq, Structural)]
pub enum Error {
    /// Unknown or freed handle.
    BadHandle,
    /// A second `start`, or a reply to an id that was never issued.
    BadInput,
    /// A reply record that is not one well-formed record.
    Malformed(DecodeError),
    /// The reply's kind is not what request `id` asked for. The request is
    /// still outstanding.
    WrongKind {
        /// The request replied to.
        id: u64,
        /// What it asked for.
        expected: Kind,
        /// What arrived.
        got: Kind,
    },
    /// A reply to request `id`, which was issued but is no longer awaited:
    /// already answered, or abandoned by the routine.
    Stale {
        /// The request replied to.
        id: u64,
    },
    /// Another thread is inside a call for this handle.
    Busy,
    /// The routine already completed.
    Finished,
    /// The routine panicked and has been removed.
    Panicked,
    /// The handle names a pinned machine started on another thread.
    WrongThread,
}

impl Error {
    /// The wire code of each error.
    pub open spec fn code_spec(self) -> i32 {
        match self {
            Error::BadHandle => contract::BAD_HANDLE,
            Error::BadInput => contract::BAD_INPUT,
            Error::Malformed(_) => contract::MALFORMED,
            Error::WrongKind { .. } => contract::WRONG_KIND,
            Error::Stale { .. } => contract::STALE,
            Error::Busy => contract::BUSY,
            Error::Finished => contract::FINISHED,
            Error::Panicked => contract::PANICKED,
            Error::WrongThread => contract::WRONG_THREAD,
        }
    }

    /// The wire code.
    pub fn code(self) -> (c: i32)
        ensures
            c == self.code_spec(),
    {
        match self {
            Error::BadHandle => contract::BAD_HANDLE,
            Error::BadInput => contract::BAD_INPUT,
            Error::Malformed(_) => contract::MALFORMED,
            Error::WrongKind { .. } => contract::WRONG_KIND,
            Error::Stale { .. } => contract::STALE,
            Error::Busy => contract::BUSY,
            Error::Finished => contract::FINISHED,
            Error::Panicked => contract::PANICKED,
            Error::WrongThread => contract::WRONG_THREAD,
        }
    }
}

/// Every error crosses as a negative code, so a host never mistakes one for
/// a status; and two errors of different kinds never share a code.
pub proof fn lemma_error_codes_are_negative_and_distinct(a: Error, b: Error)
    ensures
        a.code_spec() < 0,
        a.code_spec() == b.code_spec() ==> match (a, b) {
            (Error::BadHandle, Error::BadHandle) => true,
            (Error::BadInput, Error::BadInput) => true,
            (Error::Malformed(_), Error::Malformed(_)) => true,
            (Error::WrongKind { .. }, Error::WrongKind { .. }) => true,
            (Error::Stale { .. }, Error::Stale { .. }) => true,
            (Error::Busy, Error::Busy) => true,
            (Error::Finished, Error::Finished) => true,
            (Error::Panicked, Error::Panicked) => true,
            (Error::WrongThread, Error::WrongThread) => true,
            _ => false,
        },
{
}

/// The wire code of each error, as a foreign host reads it: busy `-1`,
/// finished `-2`, wrong kind `-3`, panicked `-4`, bad handle `-5`, bad input
/// `-6`, malformed `-7`, stale `-8`, wrong thread `-9`.
pub proof fn lemma_error_codes_are_the_contract(e: Error)
    ensures
        e.code_spec() == match e {
            Error::Busy => -1i32,
            Error::Finished => -2i32,
            Error::WrongKind { .. } => -3i32,
            Error::Panicked => -4i32,
            Error::BadHandle => -5i32,
            Error::BadInput => -6i32,
            Error::Malformed(_) => -7i32,
            Error::Stale { .. } => -8i32,
            Error::WrongThread => -9i32,
        },
{
}

} // verus!
