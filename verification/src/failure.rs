//! The kinds of failure that the store and the services report.

use vstd::prelude::*;

verus! {

/// Why an operation did not succeed. Every layer speaks in these kinds, so
/// that nothing above the store depends on a storage technology.
#[derive(Clone, Copy, Debug, PartialEq, Eq, Structural)]
pub enum Failure {
    /// The text handed in is not an absolute URL with a host.
    InvalidUrl,
    /// No mapping exists for the requested code.
    NotFound,
    /// The store already holds a mapping under the code.
    Conflict,
    /// Every attempt of one request met a code that was already taken.
    GenerationExhausted,
    /// The store could not be read or written.
    Storage,
}

/// A text result with the text taken by its view.
pub open spec fn text_view(r: Result<String, Failure>) -> Result<Seq<char>, Failure> {
    match r {
        Ok(text) => Ok(text@),
        Err(e) => Err(e),
    }
}

} // verus!
