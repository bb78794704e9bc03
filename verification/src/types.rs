//! The plain-data form of an RDF node.
use vstd::prelude::*;

verus! {

/// An IRI, kept as the text it was written with.
pub type Iri = String;

/// One node of an RDF graph.
///
/// This is plain data: any strings may be put in it. Whether they are
/// acceptable as an IRI, a blank node label or a language tag is a separate
/// question, answered by [`crate::model::node_wf`].
#[derive(Debug, PartialEq, Eq, PartialOrd, Ord)]
pub enum RdfNode {
    /// A node without a global name; the label is local to one graph.
    Blank(String),
    /// A node named by an IRI.
    Iri(Iri),
    /// A value: a lexical form, the IRI of its datatype and, for
    /// language-tagged strings, the tag.
    Literal { value: String, datatype: Iri, language: Option<String> },
}

/// The mathematical value of an [`RdfNode`]: the same shape over sequences
/// of characters.
pub enum NodeView {
    Blank(Seq<char>),
    Iri(Seq<char>),
    Literal { value: Seq<char>, datatype: Seq<char>, language: Option<Seq<char>> },
}

/// The view of an optional string.
pub open spec fn opt_view(s: Option<String>) -> Option<Seq<char>> {
    match s {
        Some(s) => Some(s@),
        None => None,
    }
}

impl View for RdfNode {
    type V = NodeView;

    open spec fn view(&self) -> NodeView {
        match *self {
            RdfNode::Blank(id) => NodeView::Blank(id@),
            RdfNode::Iri(iri) => NodeView::Iri(iri@),
            RdfNode::Literal { value, datatype, language } => NodeView::Literal {
                value: value@,
                datatype: datatype@,
                language: opt_view(language),
            },
        }
    }
}

impl Clone for RdfNode {
    fn clone(&self) -> (res: Self)
        ensures
            res@ == self@,
    {
        match self {
            RdfNode::Blank(id) => RdfNode::Blank(id.clone()),
            RdfNode::Iri(iri) => RdfNode::Iri(iri.clone()),
            RdfNode::Literal { value, datatype, language } => {
                let language = match language {
                    Some(l) => Some(l.clone()),
                    None => None,
                };
                RdfNode::Literal { value: value.clone(), datatype: datatype.clone(), language }
            },
        }
    }
}

} // verus!
