use vstd::prelude::*;

verus! {

/// An error type that nothing outside this crate can instantiate, and that
/// nothing inside it does.
///
/// It stands in the error slot of a `Result` that a writer must return but
/// that can never hold an error.
#[derive(Clone, Copy, Debug, PartialEq, Eq, Structural)]
pub struct NeverError {
    unreachable: bool,
}

} // verus!
