//! Triples as a parser hands them out: the shape of a statement, with
//! strings that nobody has checked yet.
use vstd::prelude::*;

verus! {

/// A literal as it was written.
#[derive(Debug)]
pub enum RawLiteral {
    /// A plain string.
    Simple { value: String },
    /// A string with a language tag.
    LanguageTaggedString { value: String, language: String },
    /// A lexical form with the IRI of its datatype.
    Typed { value: String, datatype: String },
}

/// A subject as it was written: an IRI or a blank node label.
#[derive(Debug)]
pub enum RawNamedOrBlankNode {
    NamedNode(String),
    BlankNode(String),
}

/// An object as it was written.
#[derive(Debug)]
pub enum RawTerm {
    NamedNode(String),
    BlankNode(String),
    Literal(RawLiteral),
}

/// A statement as it was written.
#[derive(Debug)]
pub struct RawTriple {
    pub subject: RawNamedOrBlankNode,
    pub predicate: String,
    pub object: RawTerm,
}

/// The mathematical value of a [`RawLiteral`].
pub enum RawLiteralView {
    Simple { value: Seq<char> },
    LanguageTaggedString { value: Seq<char>, language: Seq<char> },
    Typed { value: Seq<char>, datatype: Seq<char> },
}

/// The mathematical value of a [`RawNamedOrBlankNode`].
pub enum RawNamedOrBlankNodeView {
    NamedNode(Seq<char>),
    BlankNode(Seq<char>),
}

/// The mathematical value of a [`RawTerm`].
pub enum RawTermView {
    NamedNode(Seq<char>),
    BlankNode(Seq<char>),
    Literal(RawLiteralView),
}

/// The mathematical value of a [`RawTriple`].
pub struct RawTripleView {
    pub subject: RawNamedOrBlankNodeView,
    pub predicate: Seq<char>,
    pub object: RawTermView,
}

impl View for RawLiteral {
    type V = RawLiteralView;

    open spec fn view(&self) -> RawLiteralView {
        match *self {
            RawLiteral::Simple { value } => RawLiteralView::Simple { value: value@ },
            RawLiteral::LanguageTaggedString { value, language } => {
                RawLiteralView::LanguageTaggedString { value: value@, language: language@ }
            },
            RawLiteral::Typed { value, datatype } => RawLiteralView::Typed {
                value: value@,
                datatype: datatype@,
            },
        }
    }
}

impl View for RawNamedOrBlankNode {
    type V = RawNamedOrBlankNodeView;

    open spec fn view(&self) -> RawNamedOrBlankNodeView {
        match *self {
            RawNamedOrBlankNode::NamedNode(iri) => RawNamedOrBlankNodeView::NamedNode(iri@),
            RawNamedOrBlankNode::BlankNode(id) => RawNamedOrBlankNodeView::BlankNode(id@),
        }
    }
}

impl View for RawTerm {
    type V = RawTermView;

    open spec fn view(&self) -> RawTermView {
        match *self {
            RawTerm::NamedNode(iri) => RawTermView::NamedNode(iri@),
            RawTerm::BlankNode(id) => RawTermView::BlankNode(id@),
            RawTerm::Literal(literal) => RawTermView::Literal(literal@),
        }
    }
}

impl View for RawTriple {
    type V = RawTripleView;

    open spec fn view(&self) -> RawTripleView {
        RawTripleView {
            subject: self.subject@,
            predicate: self.predicate@,
            object: self.object@,
        }
    }
}

/// The mathematical values of a list of raw triples.
pub open spec fn raw_views(triples: Seq<RawTriple>) -> Seq<RawTripleView> {
    triples.map_values(|t: RawTriple| t@)
}

} // verus!
