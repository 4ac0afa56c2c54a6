//! How a request to the API fails.
use vstd::prelude::*;

verus! {

/// The status of a response to a request that failed on the server's side.
pub const INTERNAL_SERVER_ERROR: u16 = 500;

/// Why a request could not be answered, in words.
#[derive(Debug, PartialEq, Eq)]
pub struct AppError(pub String);

impl AppError {
    /// The status and the body of the response.
    pub fn into_response(self) -> (response: (u16, String))
        ensures
            response.0 == INTERNAL_SERVER_ERROR,
            response.0 == 500,
            response.1 == self.0,
    {
        (INTERNAL_SERVER_ERROR, self.0)
    }
}

} // verus!
