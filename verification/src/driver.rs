//! Resuming a routine one wait at a time: the mailbox that pairs each reply
//! with the request that asked for it, what one poll reports, and what one
//! call yields.

pub mod mail;
pub mod outbox;
pub mod status;
pub mod step;
pub mod yielded;

pub use self::yielded::Yield;
