//! The rules of the HTTP interface that do not depend on the server: the
//! parameters of its requests and the check of the write key.

use vstd::prelude::*;

use crate::error::Error;
use crate::text::same_text;

verus! {

/// The parameters of a request that stores a graph.
#[derive(Clone, Debug)]
pub struct UpdateGraphQueryParams {
    pub timestamp: u64,
}

/// The parameters of a request that deletes a graph.
#[derive(Clone, Debug)]
pub struct DeleteGraphQueryParams {
    pub id: String,
    pub timestamp: u64,
}

/// The parameters of a query request.
#[derive(Clone, Debug)]
pub struct SparqlQueryParams {
    pub query: String,
}

/// The key header of a request, as far as it could be read.
#[derive(Clone, Debug)]
pub enum ApiKey {
    /// The request has no key header.
    Missing,
    /// The header's value is no visible text.
    Unreadable,
    /// The header's value.
    Token(String),
}

/// Checks the key of a write request against the configured one. Every
/// refusal is `Unauthorized`, with a reason of its own for a missing header,
/// an unreadable one and a wrong key.
pub fn validate_api_key(header: &ApiKey, api_key: &str) -> (checked: Result<(), Error>)
    ensures
        checked is Ok <==> (header matches ApiKey::Token(token) && token@ == api_key@),
        checked matches Err(e) ==> (e matches Error::Unauthorized(reason) && reason@ == match header {
            ApiKey::Missing => "X-API-KEY header missing"@,
            ApiKey::Unreadable => "invalid api key"@,
            ApiKey::Token(_) => "incorrect api key"@,
        }),
{
    match header {
        ApiKey::Missing => Err(Error::Unauthorized(String::from_str("X-API-KEY header missing"))),
        ApiKey::Unreadable => Err(Error::Unauthorized(String::from_str("invalid api key"))),
        ApiKey::Token(token) => {
            if same_text(token.as_str(), api_key) {
                Ok(())
            } else {
                Err(Error::Unauthorized(String::from_str("incorrect api key")))
            }
        },
    }
}

} // verus!
