//! Time: waiting.

pub mod effect;
