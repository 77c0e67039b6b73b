//! Effect routines, the verified core: the byte codec a host's view of an
//! effect crosses in, the reply menu, the mailbox that pairs replies with the
//! requests a routine recorded, and the host layer's bookkeeping and framing.

pub mod boundary;
pub mod keyed;
pub mod reply;
pub mod driver;
pub mod effects;
pub mod host;
pub mod select;
