//! Which requests the response-time metric counts.

use vstd::prelude::*;

use crate::text::{has_prefix, starts_with};

verus! {

/// The response header that names the cache level of a read.
pub const CACHE_LEVEL_HEADER: &'static str = "Cache-Level";

/// The status code of a response for a path that the server does not serve.
pub const NOT_FOUND: u16 = 404;

/// What the paths of the interface start with.
pub const API_PREFIX: &'static str = "/api";

/// Whether the duration of a request is observed: its path is one of the
/// interface, and the answer is not `404 Not Found`.
pub fn observes_request(path: &str, status: u16) -> (observed: bool)
    ensures
        observed == (has_prefix(path@, API_PREFIX@) && status != NOT_FOUND),
{
    starts_with(path, API_PREFIX) && status != NOT_FOUND
}

/// The label of the cache level of a response: the value of its cache-level
/// header, and the empty text where it has none that can be read.
pub fn cache_level_label(header: Option<String>) -> (label: String)
    ensures
        label@ == match header {
            Some(value) => value@,
            None => Seq::<char>::empty(),
        },
{
    match header {
        Some(value) => value,
        None => String::new(),
    }
}

} // verus!
