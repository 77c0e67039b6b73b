//! The decisions of the handle table: where a handle's machine is from the
//! calling thread, what freeing it does, and where the wakes a call caused
//! are reported. The table itself — machines behind a process-wide lock, a
//! thread's own pinned machines, panic isolation — is the binding's.

use crate::host::error::Error;
use crate::host::frames::{id_frames, woke_frames};
use crate::host::contract::FRAME_WOKE;
use crate::host::status::Status;
use vstd::prelude::*;

verus! {

/// Where a handle's machine is, from the calling thread.
#[derive(Clone, Copy, Debug, PartialEq, Eq, Structural)]
pub enum Located {
    /// A migrating machine, drivable from any thread, one at a time.
    Migrating,
    /// A pinned machine this thread started and owns.
    Here,
}

/// Where the table finds a handle: whether a migrating machine has it,
/// whether a pinned routine is parked under it unstarted, and, for a started
/// pinned machine, whether the calling thread owns it.
pub open spec fn locate_spec(migrating: bool, parked: bool, pinned_here: Option<bool>) -> Result<
    Located,
    Error,
> {
    if migrating {
        Ok(Located::Migrating)
    } else if parked {
        Err(Error::BadInput)
    } else {
        match pinned_here {
            Some(true) => Ok(Located::Here),
            Some(false) => Err(Error::WrongThread),
            None => Err(Error::BadHandle),
        }
    }
}

/// Where a handle's machine is, from the calling thread: a migrating
/// machine anywhere; a pinned one only from the thread that started it; a
/// parked one nowhere until it is started.
pub fn locate(migrating: bool, parked: bool, pinned_here: Option<bool>) -> (r: Result<
    Located,
    Error,
>)
    ensures
        r == locate_spec(migrating, parked, pinned_here),
{
    if migrating {
        Ok(Located::Migrating)
    } else if parked {
        Err(Error::BadInput)
    } else {
        match pinned_here {
            Some(true) => Ok(Located::Here),
            Some(false) => Err(Error::WrongThread),
            None => Err(Error::BadHandle),
        }
    }
}

/// What freeing a handle does.
#[derive(Clone, Copy, Debug, PartialEq, Eq, Structural)]
pub enum Release {
    /// A migrating machine or a parked routine was removed from the shared
    /// table: nothing more to do.
    Removed,
    /// A pinned machine of this thread: drop it from the thread's own table.
    DropLocal,
}

/// What freeing a handle does: `removed` is whether the shared table held it
/// as a migrating machine or a parked routine (and has let it go).
pub open spec fn release_spec(removed: bool, pinned_here: Option<bool>) -> Result<Release, Error> {
    if removed {
        Ok(Release::Removed)
    } else {
        match pinned_here {
            Some(true) => Ok(Release::DropLocal),
            Some(false) => Err(Error::WrongThread),
            None => Err(Error::BadHandle),
        }
    }
}

/// What freeing a handle does. A parked pinned routine may be freed from any
/// thread; a started one only from its own.
pub fn release(removed: bool, pinned_here: Option<bool>) -> (r: Result<Release, Error>)
    ensures
        r == release_spec(removed, pinned_here),
{
    if removed {
        Ok(Release::Removed)
    } else {
        match pinned_here {
            Some(true) => Ok(Release::DropLocal),
            Some(false) => Err(Error::WrongThread),
            None => Err(Error::BadHandle),
        }
    }
}

/// The machines a call woke, reported where the host will see them: after a
/// call's own output as woke frames, or — a failed call has no output —
/// handed back to wait for the next `wakes`.
pub fn settle_wakes(result: Result<(Vec<u8>, Status), Error>, woken: Vec<u64>) -> (settled: (
    Result<(Vec<u8>, Status), Error>,
    Vec<u64>,
))
    ensures
        match result {
            Ok((bytes, status)) => settled.0 matches Ok((out, s)) && out@ == bytes@ + id_frames(
                FRAME_WOKE,
                woken@,
            ) && s == status && settled.1@.len() == 0,
            Err(e) => settled.0 == Err::<(Vec<u8>, Status), Error>(e) && settled.1@ == woken@,
        },
{
    match result {
        Ok((mut bytes, status)) => {
            let mut frames = woke_frames(woken.as_slice());
            bytes.append(&mut frames);
            (Ok((bytes, status)), Vec::new())
        },
        Err(e) => (Err(e), woken),
    }
}

/// Note that machine `handle` woke: in `call`, the wakes of the call the
/// thread is making, if it is making one — they are reported in that call's
/// output. `false` if it is making none: the wake waits for `wakes`.
pub fn note_wake(call: &mut Option<Vec<u64>>, handle: u64) -> (noted: bool)
    ensures
        noted == (*old(call) is Some),
        match *old(call) {
            Some(woken) => *final(call) matches Some(after) && after@ == woken@.push(handle),
            None => *final(call) is None,
        },
{
    match call {
        Some(woken) => {
            woken.push(handle);
            true
        },
        None => false,
    }
}

/// Issuing a handle from the counter at `next`: the handle, and the counter
/// after it.
pub open spec fn issue_spec(next: u64) -> (u64, u64) {
    (next, (next + 1) as u64)
}

/// The handles `k` issues in a row give, from the counter at `next`.
pub open spec fn issued(next: u64, k: nat) -> Seq<u64>
    decreases k,
{
    if k == 0 {
        Seq::empty()
    } else {
        seq![issue_spec(next).0] + issued(issue_spec(next).1, (k - 1) as nat)
    }
}

/// The next handle to issue, and the counter after it: handles are never
/// `0` and never reused.
pub fn issue(next: &mut u64) -> (handle: u64)
    requires
        1 <= *old(next) < u64::MAX,
    ensures
        (handle, *final(next)) == issue_spec(*old(next)),
        handle != 0,
{
    let handle = *next;
    *next = *next + 1;
    handle
}

/// The `i`-th of `k` issues in a row gives the counter's start plus `i`.
proof fn lemma_issued_values(next: u64, k: nat)
    requires
        next + k <= u64::MAX,
    ensures
        issued(next, k).len() == k,
        forall|i: int| 0 <= i < k ==> #[trigger] issued(next, k)[i] == next + i,
    decreases k,
{
    if k > 0 {
        let after = issue_spec(next).1;
        lemma_issued_values(after, (k - 1) as nat);
        let tail = issued(after, (k - 1) as nat);
        assert forall|i: int| 0 <= i < k implies #[trigger] issued(next, k)[i] == next + i by {
            if i > 0 {
                assert(issued(next, k)[i] == tail[i - 1]);
            }
        }
    }
}

/// Handles are never `0` and never reused: however many are issued in a row
/// from a counter that starts at `1` or above, each is nonzero and no two are
/// the same.
pub proof fn lemma_handles_are_never_reused(next: u64, k: nat)
    requires
        1 <= next,
        next + k <= u64::MAX,
    ensures
        forall|i: int| 0 <= i < k ==> #[trigger] issued(next, k)[i] != 0,
        forall|i: int, j: int|
            0 <= i < j < k ==> #[trigger] issued(next, k)[i] != #[trigger] issued(next, k)[j],
{
    lemma_issued_values(next, k);
}

/// A handle's machine is found exactly when it migrates or is pinned to the
/// calling thread; a machine pinned elsewhere is the one case that is
/// `WrongThread`, and a parked one, not started, is `BadInput`.
pub proof fn lemma_locate_finds_only_reachable_machines(
    migrating: bool,
    parked: bool,
    pinned_here: Option<bool>,
)
    ensures
        locate_spec(migrating, parked, pinned_here) is Ok <==> migrating || (!parked && pinned_here
            == Some(true)),
        migrating ==> locate_spec(migrating, parked, pinned_here) == Ok::<Located, Error>(
            Located::Migrating,
        ),
        !migrating && !parked && pinned_here == Some(true) ==> locate_spec(
            migrating,
            parked,
            pinned_here,
        ) == Ok::<Located, Error>(Located::Here),
        locate_spec(migrating, parked, pinned_here) == Err::<Located, Error>(Error::WrongThread)
            <==> !migrating && !parked && pinned_here == Some(false),
        locate_spec(migrating, parked, pinned_here) == Err::<Located, Error>(Error::BadInput)
            <==> !migrating && parked,
{
}

/// Freeing succeeds exactly when the shared table let the handle go or the
/// calling thread owns its pinned machine; only the owner drops a started
/// pinned machine.
pub proof fn lemma_release_frees_only_what_the_caller_may(removed: bool, pinned_here: Option<bool>)
    ensures
        release_spec(removed, pinned_here) is Ok <==> removed || pinned_here == Some(true),
        removed ==> release_spec(removed, pinned_here) == Ok::<Release, Error>(Release::Removed),
        !removed && pinned_here == Some(true) ==> release_spec(removed, pinned_here) == Ok::<
            Release,
            Error,
        >(Release::DropLocal),
        release_spec(removed, pinned_here) == Err::<Release, Error>(Error::WrongThread) <==> !removed
            && pinned_here == Some(false),
        release_spec(removed, pinned_here) == Err::<Release, Error>(Error::BadHandle) <==> !removed
            && pinned_here is None,
{
}

} // verus!
