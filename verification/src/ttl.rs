//! Turtle documents as graphs.
use crate::parse::{converted, into_rdf, is_rdf, turtle_content_type, turtle_triples};
use crate::rdf_graph::{merged, Graph};
use crate::resolve::ResolveError;
use vstd::string::StringSliceAdditionalSpecFns;
use vstd::prelude::*;

verus! {

/// Reads a Turtle document as a graph; an error where the text is no Turtle
/// or holds a term that is not valid.
pub fn from_ttl(src: &str) -> (res: Result<Graph, ResolveError>)
    ensures
        res is Ok <==> is_rdf(src.spec_bytes(), turtle_content_type()),
        res matches Ok(graph) ==> merged(
            Seq::empty(),
            converted(turtle_triples(src.spec_bytes())->Some_0),
            graph@,
        ),
{
    into_rdf(src.as_bytes(), "text/turtle; charset=utf-8")
}

} // verus!
