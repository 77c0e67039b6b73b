//! Where the routine stopped, as a host sees it.

use crate::driver::status::Status as DriveStatus;
use crate::host::contract;
use vstd::prelude::*;
use vstd::std_specs::convert::FromSpecImpl;

verus! {

/// What one `resume` or `reply` reports. [`code`](Self::code) is its wire
/// form.
#[derive(Clone, Copy, Debug, PartialEq, Eq, Structural)]
pub enum Status {
    /// At least one request awaits a reply.
    Awaiting,
    /// The routine returned.
    Complete,
    /// Pending with no request outstanding: waiting on something inside the
    /// process. `resume` it once that may have changed.
    Idle,
}

impl Status {
    /// The wire code of each status.
    pub open spec fn code_spec(self) -> i32 {
        match self {
            Status::Awaiting => contract::AWAITING,
            Status::Complete => contract::COMPLETE,
            Status::Idle => contract::IDLE,
        }
    }

    /// The wire code.
    pub fn code(self) -> (c: i32)
        ensures
            c == self.code_spec(),
    {
        match self {
            Status::Awaiting => contract::AWAITING,
            Status::Complete => contract::COMPLETE,
            Status::Idle => contract::IDLE,
        }
    }

    /// The host's name for what a poll reported.
    pub open spec fn from_drive(status: DriveStatus) -> Status {
        match status {
            DriveStatus::Awaiting => Status::Awaiting,
            DriveStatus::Complete => Status::Complete,
            DriveStatus::Idle => Status::Idle,
        }
    }
}

impl From<DriveStatus> for Status {
    fn from(status: DriveStatus) -> (s: Status) {
        match status {
            DriveStatus::Awaiting => Status::Awaiting,
            DriveStatus::Complete => Status::Complete,
            DriveStatus::Idle => Status::Idle,
        }
    }
}

impl FromSpecImpl<DriveStatus> for Status {
    open spec fn obeys_from_spec() -> bool {
        true
    }

    open spec fn from_spec(v: DriveStatus) -> Status {
        Status::from_drive(v)
    }
}

/// Every status crosses as a non-negative code, so a host never mistakes one
/// for an error.
pub proof fn lemma_status_codes_are_not_errors(s: Status)
    ensures
        s.code_spec() >= 0,
{
}

/// The host's status names the same state as the driver's, and crosses as
/// its own code: awaiting is `0`, complete `1`, idle `2`. No two driver
/// states are reported alike.
pub proof fn lemma_status_names_the_driver_state(s: DriveStatus, t: DriveStatus)
    ensures
        s == DriveStatus::Awaiting ==> Status::from_drive(s) == Status::Awaiting
            && Status::from_drive(s).code_spec() == 0,
        s == DriveStatus::Complete ==> Status::from_drive(s) == Status::Complete
            && Status::from_drive(s).code_spec() == 1,
        s == DriveStatus::Idle ==> Status::from_drive(s) == Status::Idle
            && Status::from_drive(s).code_spec() == 2,
        Status::from_drive(s) == Status::from_drive(t) ==> s == t,
{
}

} // verus!
