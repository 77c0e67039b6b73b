//! The seal on the reply menu.

use vstd::prelude::*;

verus! {

/// Only the four wire kinds implement this, so only they are replies.
pub trait Sealed {
}

impl Sealed for Vec<u8> {
}

impl Sealed for String {
}

impl Sealed for u64 {
}

impl Sealed for () {
}

} // verus!
