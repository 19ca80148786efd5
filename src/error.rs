use vstd::prelude::*;

verus! {

/// Why a lookup gave no data.
#[derive(Debug, Clone, Copy, PartialEq, Eq, Structural)]
pub enum Error {
    /// A response did not have the expected shape.
    Deserialization,
    /// The request failed on the way, or the server answered with an error status.
    Reqwest,
    /// The service answered, but flagged its own answer as unsuccessful.
    ApiUnsuccessful,
    /// The service knows no such game.
    NotFound,
}

} // verus!
