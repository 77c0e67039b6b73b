//! The host side of a routine, for hosts that cannot hold a Rust value: the
//! numbers of the contract a foreign host assumes, the errors and statuses a
//! call reports, the reply record a host sends, the frames it receives, and
//! the table of outstanding requests that turns an untyped `(id, value)`
//! back into a typed reply.

pub mod code;
pub mod contract;
pub mod error;
pub mod frames;
pub mod input;
pub mod status;
pub mod table;
pub mod wallet;
