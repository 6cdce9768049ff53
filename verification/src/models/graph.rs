//! A named graph as producers publish it.

use vstd::prelude::*;

verus! {

/// A triple payload under an id, with the format of its serialization.
#[derive(Clone, Debug, PartialEq, Default)]
pub struct Graph {
    pub id: String,
    pub graph: String,
    pub format: Option<String>,
}

} // verus!
