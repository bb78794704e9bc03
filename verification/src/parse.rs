//! From the bytes of a document to a graph.
use crate::convert::rm_to_om::{triple, triple_spec, ConvertErr};
use crate::model::{Triple, TripleView};
use crate::raw::{
    raw_views, RawLiteral, RawNamedOrBlankNode, RawTerm, RawTriple, RawTripleView,
};
use crate::rdf_graph::{merged, triple_views, Graph};
use crate::resolve::ResolveError;
use rio_api::model as rm;
use rio_api::parser::TriplesParser;
use rio_turtle::{TurtleError, TurtleParser};
use std::io::Cursor;
use vstd::prelude::*;

verus! {

#[verifier::external_type_specification]
#[verifier::external_body]
pub struct ExTurtleError(TurtleError);

#[verifier::external_type_specification]
#[verifier::external_body]
pub struct ExRioLiteral<'a>(rm::Literal<'a>);

#[verifier::external_type_specification]
#[verifier::external_body]
pub struct ExRioTerm<'a>(rm::Term<'a>);

#[verifier::external_type_specification]
#[verifier::external_body]
pub struct ExRioNamedOrBlankNode<'a>(rm::NamedOrBlankNode<'a>);

/// The triples that `rio_turtle::TurtleParser` reads from the bytes of a
/// Turtle document, without a base IRI, in the order in which its iterator
/// hands them out; `None` where it reports an error.
pub uninterp spec fn turtle_triples(body: Seq<u8>) -> Option<Seq<RawTripleView>>;

/// The one content type that is understood.
pub open spec fn turtle_content_type() -> Seq<char> {
    "text/turtle; charset=utf-8"@
}

/// Whether every raw triple is a triple.
pub open spec fn all_convert(raw: Seq<RawTripleView>) -> bool {
    forall|i: int| 0 <= i < raw.len() ==> triple_spec(#[trigger] raw[i]) is Ok
}

/// The triples that the raw triples are.
pub open spec fn converted(raw: Seq<RawTripleView>) -> Seq<TripleView> {
    Seq::new(raw.len(), |i: int| triple_spec(raw[i])->Ok_0)
}

/// Whether a document of the given content type and bytes is a graph: the
/// content type is that of Turtle, the bytes parse, and every triple read is
/// made of valid terms.
pub open spec fn is_rdf(body: Seq<u8>, content_type: Seq<char>) -> bool {
    &&& content_type == turtle_content_type()
    &&& turtle_triples(body) matches Some(raw)
    &&& all_convert(raw)
}

/// A literal of rio, its three variants told apart and their strings copied.
#[verifier::external_body]
fn raw_literal(literal: rm::Literal<'_>) -> (res: RawLiteral) {
    match literal {
        rm::Literal::Simple { value } => RawLiteral::Simple { value: value.to_owned() },
        rm::Literal::LanguageTaggedString { value, language } => RawLiteral::LanguageTaggedString {
            value: value.to_owned(),
            language: language.to_owned(),
        },
        rm::Literal::Typed { value, datatype } => RawLiteral::Typed {
            value: value.to_owned(),
            datatype: datatype.iri.to_owned(),
        },
    }
}

/// A term of rio, its three variants told apart and their strings copied.
#[verifier::external_body]
fn raw_term(term: rm::Term<'_>) -> (res: RawTerm) {
    match term {
        rm::Term::NamedNode(node) => RawTerm::NamedNode(node.iri.to_owned()),
        rm::Term::BlankNode(node) => RawTerm::BlankNode(node.id.to_owned()),
        rm::Term::Literal(literal) => RawTerm::Literal(raw_literal(literal)),
    }
}

/// A subject of rio, its two variants told apart and their strings copied.
#[verifier::external_body]
fn raw_subject(subject: rm::NamedOrBlankNode<'_>) -> (res: RawNamedOrBlankNode) {
    match subject {
        rm::NamedOrBlankNode::NamedNode(node) => RawNamedOrBlankNode::NamedNode(
            node.iri.to_owned(),
        ),
        rm::NamedOrBlankNode::BlankNode(node) => RawNamedOrBlankNode::BlankNode(
            node.id.to_owned(),
        ),
    }
}

/// Parses a Turtle document with `rio_turtle::TurtleParser`, without a base
/// IRI, and copies each triple as the parser hands it out. Claims: what the
/// parser reads depends on the bytes alone, as [`turtle_triples`] names it.
#[verifier::external_body]
fn parse_turtle(body: &[u8]) -> (res: Result<Vec<RawTriple>, TurtleError>)
    ensures
        res is Ok <==> turtle_triples(body@) is Some,
        res matches Ok(raw) ==> turtle_triples(body@) == Some(raw_views(raw@)),
{
    TurtleParser::new(Cursor::new(body), None).into_iter(
        |t| Ok(
            RawTriple {
                subject: raw_subject(t.subject),
                predicate: t.predicate.iri.to_owned(),
                object: raw_term(t.object),
            },
        ),
    ).collect()
}

/// What rio says of a parse error, by its `Display`.
#[verifier::external_body]
fn turtle_error_text(error: &TurtleError) -> (res: String) {
    format!("{}", error)
}

/// Checks every raw triple, in order; the first that fails gives the error.
pub fn triples(raw: &Vec<RawTriple>) -> (res: Result<Vec<Triple>, ConvertErr>)
    ensures
        res is Ok <==> all_convert(raw_views(raw@)),
        res matches Ok(made) ==> triple_views(made@) == converted(raw_views(raw@)),
{
    let ghost views = raw_views(raw@);
    let mut made: Vec<Triple> = Vec::new();
    let mut i: usize = 0;
    while i < raw.len()
        invariant
            i <= raw.len(),
            views == raw_views(raw@),
            made.len() == i,
            forall|j: int| 0 <= j < i ==> triple_spec(#[trigger] views[j]) == Ok::<
                TripleView,
                crate::convert::rm_to_om::ConvertErrKind,
            >(made[j]@),
        decreases raw.len() - i,
    {
        match triple(&raw[i]) {
            Ok(t) => {
                made.push(t);
            },
            Err(e) => {
                assert(!(triple_spec(views[i as int]) is Ok));
                return Err(e);
            },
        }
        i += 1;
    }
    assert(triple_views(made@) =~= converted(views));
    Ok(made)
}

/// Reads a document as a graph.
///
/// Only Turtle is understood, and only under the content type
/// `text/turtle; charset=utf-8`. The graph holds the triples of the
/// document in the order in which the parser hands them out, with the blank
/// nodes renamed.
pub fn into_rdf(body: &[u8], content_type: &str) -> (res: Result<Graph, ResolveError>)
    ensures
        res is Ok <==> is_rdf(body@, content_type@),
        res matches Ok(graph) ==> merged(
            Seq::empty(),
            converted(turtle_triples(body@)->Some_0),
            graph@,
        ),
        content_type@ != turtle_content_type() ==> (res matches Err(e) && e@
            == "unknown content-type"@),
{
    if content_type.to_owned() != "text/turtle; charset=utf-8".to_owned() {
        return Err(ResolveError::new("unknown content-type"));
    }
    let raw = match parse_turtle(body) {
        Ok(raw) => raw,
        Err(e) => {
            return Err(ResolveError::new(turtle_error_text(&e).as_str()));
        },
    };
    match triples(&raw) {
        Ok(made) => Ok(Graph::new(made)),
        Err(e) => Err(ResolveError::new(e.message().as_str())),
    }
}

} // verus!
