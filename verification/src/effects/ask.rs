//! Requests as values: what makes a context generic over the host's
//! vocabulary. A context describes each wait as a request struct that names
//! its answer, and states what the host must carry as a bound —
//! `E: From<Asked<Lookup>>`.

use crate::reply::{handle::ReplyHandle, Answer};
use vstd::prelude::*;

verus! {

/// A request names the type of its answer.
pub trait Ask {
    /// What the host answers with: one of the wire kinds, or a type that
    /// crosses as one.
    type Reply: Answer;
}

/// A request in flight: what was asked, and the handle the host replies
/// through.
#[derive(Debug)]
pub struct Asked<R: Ask> {
    /// What was asked.
    pub request: R,
    /// How to answer it.
    pub reply: ReplyHandle<R::Reply>,
}

} // verus!
