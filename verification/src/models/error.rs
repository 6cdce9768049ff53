//! The body of an error response.

use vstd::prelude::*;

verus! {

/// What a failed request is answered with: a message where the request was
/// not authorized, an error text for every other failure.
#[derive(Clone, Debug, PartialEq, Default)]
pub struct Error {
    pub message: Option<String>,
    pub error: Option<String>,
}

impl Error {
    /// The body that carries `message` and nothing else.
    pub fn message(message: String) -> (body: Error)
        ensures
            body.message == Some(message),
            body.error is None,
    {
        Error { message: Some(message), error: None }
    }

    /// The body that carries `error` and nothing else.
    pub fn error(error: String) -> (body: Error)
        ensures
            body.message is None,
            body.error == Some(error),
    {
        Error { message: None, error: Some(error) }
    }
}

} // verus!
