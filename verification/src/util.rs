//! Small helpers on nodes.
use crate::model::{is_iri, NamedNode};
use crate::types::{NodeView, RdfNode};
use vstd::prelude::*;

pub mod prefix;

verus! {

/// The IRI that a node view holds, if it is an IRI node with a valid IRI.
pub open spec fn named_node_of(node: NodeView) -> Option<Seq<char>> {
    match node {
        NodeView::Iri(iri) => if is_iri(iri) {
            Some(iri)
        } else {
            None
        },
        _ => None,
    }
}

/// The named node that a term is: blank nodes and literals are none, and
/// neither is an IRI node whose text is no IRI.
pub fn as_named_node(term: &RdfNode) -> (res: Option<NamedNode>)
    ensures
        match res {
            Some(node) => named_node_of(term@) == Some(node@),
            None => named_node_of(term@) is None,
        },
{
    match term {
        RdfNode::Iri(iri) => match NamedNode::new(iri.as_str()) {
            Ok(node) => Some(node),
            Err(_) => None,
        },
        _ => None,
    }
}

} // verus!
