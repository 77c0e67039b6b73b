//! What one poll of a routine reported.

use vstd::prelude::*;

verus! {

/// Where the routine stopped after a poll.
#[derive(Clone, Copy, Debug, PartialEq, Eq, Structural)]
pub enum Status {
    /// At least one request awaits a reply; reply and resume.
    Awaiting,
    /// The routine returned. Further replies return nothing.
    Complete,
    /// Pending with no request outstanding: waiting on something inside the
    /// process — a channel, a lock — that another routine may complete.
    Idle,
}

impl Status {
    /// A finished poll is `Complete`; a pending one with requests
    /// outstanding is `Awaiting`; a pending one with none is `Idle`.
    pub open spec fn classify_spec(ready: bool, outstanding: usize) -> Status {
        if ready {
            Status::Complete
        } else if outstanding > 0 {
            Status::Awaiting
        } else {
            Status::Idle
        }
    }

    /// Classify one poll: whether the routine's future finished, and how many
    /// requests it still has open.
    pub fn classify(ready: bool, outstanding: usize) -> (s: Status)
        ensures
            s == Status::classify_spec(ready, outstanding),
    {
        if ready {
            Status::Complete
        } else if outstanding > 0 {
            Status::Awaiting
        } else {
            Status::Idle
        }
    }
}

/// What a poll reports: a routine that finished is `Complete`; one still
/// pending is `Awaiting` whenever at least one request is outstanding, however
/// many, and `Idle` only when none is.
pub proof fn lemma_classify_names_the_wait(ready: bool, outstanding: usize)
    ensures
        ready ==> Status::classify_spec(ready, outstanding) == Status::Complete,
        !ready && outstanding >= 1 ==> Status::classify_spec(ready, outstanding)
            == Status::Awaiting,
        !ready && outstanding == 0 ==> Status::classify_spec(ready, outstanding) == Status::Idle,
        Status::classify_spec(ready, outstanding) == Status::Idle ==> !ready && outstanding == 0,
{
}

} // verus!
