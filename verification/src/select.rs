//! Which of two waits finished first.

use vstd::prelude::*;

verus! {

/// Which of two futures finished first, and its output.
#[derive(Clone, Copy, Debug, Eq, Hash, PartialEq)]
pub enum Either<A, B> {
    /// The first future finished.
    Left(A),
    /// The second future finished.
    Right(B),
}

} // verus!
