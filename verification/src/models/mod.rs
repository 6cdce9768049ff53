//! The values that cross the library's boundary.

pub mod error;
pub mod graph;
pub mod metadata;

pub use self::error::Error;
pub use self::graph::Graph;
pub use self::metadata::Metadata;
