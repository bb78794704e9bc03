//! A curiosity-driven crawler for linked data.
//!
//! Starting from a seed document, an [`Agent`] repeatedly asks its
//! accumulated knowledge graph which identifiers it has not yet looked at,
//! resolves them into documents and folds their triples into the graph,
//! until no unexplored identifier remains.
pub mod agent;
pub mod convert;
pub mod crawl_progress;
pub mod curiosity;
pub mod lookup;
pub mod model;
pub mod parse;
pub mod raw;
pub mod rdf_graph;
pub mod resolve;
pub mod sparql;
pub mod store;
pub mod ttl;
pub mod types;
pub mod util;

pub use agent::Agent;
pub use curiosity::Curiosity;
pub use lookup::{Lookup, LookupError};
pub use rdf_graph::Graph;
pub use store::Store;
pub use types::{Iri, RdfNode};
