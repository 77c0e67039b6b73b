//! Requests as values, answered by one of the wire kinds directly.

use crate::reply::{handle::ReplyHandle, Reply};
use vstd::prelude::*;

verus! {

/// A request names the type of its reply.
pub trait Request {
    /// What the host answers with.
    type Reply: Reply;
}

/// A request in flight: what was asked, and the handle the host replies
/// through.
#[derive(Debug)]
pub struct Asked<R: Request> {
    /// What was asked.
    pub request: R,
    /// How to answer it.
    pub reply: ReplyHandle<R::Reply>,
}

} // verus!
