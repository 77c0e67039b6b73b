//! The standard effects a routine asks for: reading and writing lines, and
//! waiting. Each module holds what its effect records and how that crosses
//! the wire; [`ask`] and [`request`] are how a wait becomes a value a host's
//! vocabulary carries.

pub mod ask;
pub mod console;
pub mod request;
pub mod time;
