//! Status and error codes as the first revision of the contract numbered
//! them.
//!
//! Non-negative is a status, negative is an error. Plain constants so a host
//! can copy them.

use crate::host::error::Error;
use vstd::prelude::*;

verus! {

/// The revision of the contract these codes belong to.
pub const ABI_VERSION: u8 = 0;

/// Success, for calls that carry no status (`free`).
pub const OK: i32 = 0;
/// Suspended; at least one effect in the batch awaits a reply. Shares `0`
/// with [`OK`].
pub const AWAITING: i32 = 0;
/// Ran to completion.
pub const COMPLETE: i32 = 1;
/// Suspended on something the driver cannot wake.
pub const STALLED: i32 = 2;

/// Another thread is inside `start` or `reply` for this handle.
pub const BUSY: i32 = -1;
/// The routine already completed.
pub const FINISHED: i32 = -2;
/// The reply's kind is not what the request asked for. The request is still
/// outstanding; reply again with the right kind.
pub const WRONG_KIND: i32 = -3;
/// The routine panicked and has been removed.
pub const PANICKED: i32 = -4;
/// Unknown or freed handle.
pub const BAD_HANDLE: i32 = -5;
/// Malformed input, a second `start`, or an id nothing awaits.
pub const BAD_INPUT: i32 = -6;

/// The wire code of a call that has no status: [`OK`] or the error's code.
pub fn code_of(result: Result<(), Error>) -> (code: i32)
    ensures
        code == match result {
            Ok(()) => OK,
            Err(e) => e.code_spec(),
        },
{
    match result {
        Ok(()) => OK,
        Err(e) => e.code(),
    }
}

} // verus!
