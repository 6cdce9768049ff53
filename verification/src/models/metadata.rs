//! The span of logical time that a replica's history covers.

use vstd::prelude::*;

verus! {

/// First and last logical timestamp of a history; both absent when the
/// history is empty.
#[derive(Clone, Debug, PartialEq)]
pub struct Metadata {
    pub start_time: Option<i64>,
    pub end_time: Option<i64>,
}

impl Metadata {
    /// The metadata of an empty history.
    pub fn new() -> (m: Metadata)
        ensures
            m.start_time is None,
            m.end_time is None,
    {
        Metadata { start_time: None, end_time: None }
    }
}

impl Default for Metadata {
    /// The metadata of an empty history.
    fn default() -> (m: Metadata)
        ensures
            m.start_time is None,
            m.end_time is None,
    {
        Metadata { start_time: None, end_time: None }
    }
}

} // verus!
