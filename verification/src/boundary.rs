//! The boundary between a routine and a host that cannot hold a Rust value:
//! the byte codec, the detached handle a host layer keeps, and the split of
//! an effect into what a host sees and what stays behind.

pub mod codec;
pub mod host_effect;
pub mod pending;
