//! A time-travelling RDF store: the rules of its versioned storage and query cache.

pub mod api;
pub mod encoding;
pub mod error;
pub mod git;
pub mod graphs;
pub mod metrics;
pub mod models;
pub mod query;
pub mod rdf;
pub mod text;
