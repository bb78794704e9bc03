//! Checked RDF terms: named nodes, triples and quads whose strings have
//! passed oxigraph's validation.
//!
//! oxigraph decides what is an IRI, a blank node label or a language tag.
//! Its answers are given names here ([`is_iri`], [`is_blank_node_id`],
//! [`is_language_tag`]); the types of this module carry them as invariants.
use crate::types::{NodeView, RdfNode};
use oxigraph::model::{BlankNodeIdParseError, IriParseError, LanguageTagParseError};
use vstd::prelude::*;

verus! {

#[verifier::external_type_specification]
#[verifier::external_body]
pub struct ExIriParseError(IriParseError);

#[verifier::external_type_specification]
#[verifier::external_body]
pub struct ExBlankNodeIdParseError(BlankNodeIdParseError);

#[verifier::external_type_specification]
#[verifier::external_body]
pub struct ExLanguageTagParseError(LanguageTagParseError);

/// Whether `oxigraph::model::NamedNode::new` accepts the text as an IRI.
pub uninterp spec fn is_iri(text: Seq<char>) -> bool;

/// Whether `oxigraph::model::BlankNode::new` accepts the text as a blank
/// node label.
pub uninterp spec fn is_blank_node_id(text: Seq<char>) -> bool;

/// Whether `oxigraph::model::Literal::new_language_tagged_literal` accepts
/// the text, already in lower case, as a language tag.
pub uninterp spec fn is_language_tag(text: Seq<char>) -> bool;

/// The digit of lower-case hexadecimal notation for a value below sixteen.
pub open spec fn hex_digit(value: nat) -> char {
    if value == 0 {
        '0'
    } else if value == 1 {
        '1'
    } else if value == 2 {
        '2'
    } else if value == 3 {
        '3'
    } else if value == 4 {
        '4'
    } else if value == 5 {
        '5'
    } else if value == 6 {
        '6'
    } else if value == 7 {
        '7'
    } else if value == 8 {
        '8'
    } else if value == 9 {
        '9'
    } else if value == 10 {
        'a'
    } else if value == 11 {
        'b'
    } else if value == 12 {
        'c'
    } else if value == 13 {
        'd'
    } else if value == 14 {
        'e'
    } else {
        'f'
    }
}

/// A number in lower-case hexadecimal notation, without leading zeros.
pub open spec fn lower_hex(number: nat) -> Seq<char>
    decreases number,
{
    if number < 16 {
        seq![hex_digit(number)]
    } else {
        lower_hex(number / 16).push(hex_digit(number % 16))
    }
}

/// The label of the blank node with the given number: the number in
/// lower-case hexadecimal notation, as
/// `oxigraph::model::BlankNode::new_from_unique_id` writes it.
pub open spec fn numbered_blank_id(number: u128) -> Seq<char> {
    lower_hex(number as nat)
}

/// Different numbers are written differently.
pub proof fn lemma_lower_hex_injective(a: nat, b: nat)
    requires
        lower_hex(a) == lower_hex(b),
    ensures
        a == b,
    decreases a,
{
    lemma_lower_hex_len(a);
    lemma_lower_hex_len(b);
    if a < 16 {
        assert(lower_hex(a)[0] == hex_digit(a));
        assert(lower_hex(b)[0] == hex_digit(b));
    } else {
        assert(lower_hex(a).last() == hex_digit(a % 16));
        assert(lower_hex(b).last() == hex_digit(b % 16));
        assert(lower_hex(a).drop_last() =~= lower_hex(a / 16));
        assert(lower_hex(b).drop_last() =~= lower_hex(b / 16));
        lemma_lower_hex_injective(a / 16, b / 16);
    }
}

/// A number below sixteen takes one digit, any other takes more.
proof fn lemma_lower_hex_len(number: nat)
    ensures
        number < 16 ==> lower_hex(number).len() == 1,
        number >= 16 ==> lower_hex(number).len() >= 2,
    decreases number,
{
    if number >= 16 {
        lemma_lower_hex_len(number / 16);
    }
}

/// No other number has the label of the blank node with this number.
pub proof fn lemma_numbered_blank_id_unique(number: u128)
    ensures
        forall|other: u128| #[trigger]
            numbered_blank_id(other) == numbered_blank_id(number) ==> other == number,
{
    assert forall|other: u128| #[trigger]
        numbered_blank_id(other) == numbered_blank_id(number) implies other == number by {
        lemma_lower_hex_injective(other as nat, number as nat);
    }
}

/// The datatype of plain strings.
pub open spec fn xsd_string() -> Seq<char> {
    "http://www.w3.org/2001/XMLSchema#string"@
}

/// The datatype of language-tagged strings.
pub open spec fn rdf_lang_string() -> Seq<char> {
    "http://www.w3.org/1999/02/22-rdf-syntax-ns#langString"@
}

/// One character with the upper-case ASCII letters folded to lower case.
pub open spec fn char_to_ascii_lowercase(c: char) -> char {
    if 'A' <= c && c <= 'Z' {
        ((c as u8) + 32) as char
    } else {
        c
    }
}

/// The text with its upper-case ASCII letters folded to lower case.
pub open spec fn ascii_lowercase(text: Seq<char>) -> Seq<char> {
    Seq::new(text.len(), |i: int| char_to_ascii_lowercase(text[i]))
}

/// Whether a node is made of strings that oxigraph accepts: a valid IRI, a
/// valid blank node label, or a literal with a valid datatype whose
/// language tag, if any, is valid, in lower case, and goes with the
/// datatype of language-tagged strings.
pub open spec fn node_wf(node: NodeView) -> bool {
    match node {
        NodeView::Blank(id) => is_blank_node_id(id),
        NodeView::Iri(iri) => is_iri(iri),
        NodeView::Literal { value, datatype, language } => {
            &&& is_iri(datatype)
            &&& match language {
                Some(tag) => {
                    &&& is_language_tag(tag)
                    &&& ascii_lowercase(tag) == tag
                    &&& datatype == rdf_lang_string()
                },
                None => true,
            }
        },
    }
}

/// Validates an IRI with `oxigraph::model::NamedNode::new` and hands the
/// text back. Claims: it succeeds exactly on the texts named by [`is_iri`],
/// and the node it builds holds the text unchanged.
#[verifier::external_body]
pub(crate) fn check_iri(iri: &str) -> (res: Result<String, IriParseError>)
    ensures
        res is Ok <==> is_iri(iri@),
        res matches Ok(text) ==> text@ == iri@,
{
    Ok(oxigraph::model::NamedNode::new(iri)?.into_string())
}

/// Validates a blank node label with `oxigraph::model::BlankNode::new` and
/// hands the label back. Claims: it succeeds exactly on the texts named by
/// [`is_blank_node_id`], and the node it builds reports the label
/// unchanged.
#[verifier::external_body]
pub(crate) fn check_blank_node_id(id: &str) -> (res: Result<String, BlankNodeIdParseError>)
    ensures
        res is Ok <==> is_blank_node_id(id@),
        res matches Ok(text) ==> text@ == id@,
{
    Ok(oxigraph::model::BlankNode::new(id)?.into_string())
}

/// Builds a language-tagged string with
/// `oxigraph::model::Literal::new_language_tagged_literal` and takes it
/// apart again. Claims: oxigraph folds the tag to lower case before it
/// validates it; it succeeds exactly when the folded tag is one named by
/// [`is_language_tag`]; the literal keeps the value unchanged and the
/// folded tag.
#[verifier::external_body]
pub(crate) fn check_language_tagged(value: &str, language: &str) -> (res: Result<
    (String, Option<String>),
    LanguageTagParseError,
>)
    ensures
        res is Ok <==> is_language_tag(ascii_lowercase(language@)),
        res matches Ok(parts) ==> {
            &&& parts.0@ == value@
            &&& parts.1 matches Some(tag)
            &&& tag@ == ascii_lowercase(language@)
        },
{
    let (value, _, language) =
        oxigraph::model::Literal::new_language_tagged_literal(value, language)?.destruct();
    Ok((value, language))
}

/// The label of `oxigraph::model::BlankNode::new_from_unique_id(number)`.
/// Claims: the label is the number in lower-case hexadecimal notation,
/// without leading zeros, and that is a valid blank node label.
#[verifier::external_body]
pub(crate) fn numbered_blank(number: u128) -> (id: String)
    ensures
        id@ == numbered_blank_id(number),
        is_blank_node_id(id@),
{
    oxigraph::model::BlankNode::new_from_unique_id(number).into_string()
}

/// The text of `oxigraph::model::vocab::xsd::STRING`. Claims: it is the
/// text of [`xsd_string`], and a valid IRI.
#[verifier::external_body]
pub(crate) fn xsd_string_iri() -> (iri: String)
    ensures
        iri@ == xsd_string(),
        is_iri(iri@),
{
    oxigraph::model::vocab::xsd::STRING.as_str().to_owned()
}

/// The text of `oxigraph::model::vocab::rdf::LANG_STRING`. Claims: it is
/// the text of [`rdf_lang_string`], and a valid IRI.
#[verifier::external_body]
pub(crate) fn rdf_lang_string_iri() -> (iri: String)
    ensures
        iri@ == rdf_lang_string(),
        is_iri(iri@),
{
    oxigraph::model::vocab::rdf::LANG_STRING.as_str().to_owned()
}

/// An IRI that has passed validation.
#[derive(Debug, PartialEq, Eq)]
pub struct NamedNode {
    iri: String,
}

impl View for NamedNode {
    type V = Seq<char>;

    closed spec fn view(&self) -> Seq<char> {
        self.iri@
    }
}

impl Clone for NamedNode {
    fn clone(&self) -> (res: Self)
        ensures
            res@ == self@,
    {
        proof {
            use_type_invariant(self);
        }
        NamedNode { iri: self.iri.clone() }
    }
}

impl NamedNode {
    #[verifier::type_invariant]
    spec fn inv(self) -> bool {
        is_iri(self.iri@)
    }

    /// Builds a named node from a text, if the text is an IRI.
    pub fn new(iri: &str) -> (res: Result<NamedNode, IriParseError>)
        ensures
            res is Ok <==> is_iri(iri@),
            res matches Ok(node) ==> node@ == iri@,
    {
        match check_iri(iri) {
            Ok(iri) => Ok(NamedNode { iri }),
            Err(e) => Err(e),
        }
    }

    /// The IRI.
    pub fn as_str(&self) -> (res: &str)
        ensures
            res@ == self@,
            is_iri(self@),
    {
        proof {
            use_type_invariant(self);
        }
        self.iri.as_str()
    }

    /// The IRI, owned.
    pub fn into_string(self) -> (res: String)
        ensures
            res@ == self@,
            is_iri(self@),
    {
        proof {
            use_type_invariant(&self);
        }
        self.iri
    }

    /// The node as a term of a graph.
    pub fn into_node(self) -> (res: RdfNode)
        ensures
            res@ == NodeView::Iri(self@),
            node_wf(res@),
    {
        proof {
            use_type_invariant(&self);
        }
        RdfNode::Iri(self.iri)
    }
}

/// The mathematical value of a [`Triple`].
pub struct TripleView {
    pub subject: NodeView,
    pub predicate: Seq<char>,
    pub object: NodeView,
}

/// Whether a triple is made of well-formed nodes in the places where RDF
/// allows them: the subject is an IRI or a blank node, the predicate is an
/// IRI, the object is any node.
pub open spec fn triple_wf(triple: TripleView) -> bool {
    &&& node_wf(triple.subject)
    &&& !(triple.subject is Literal)
    &&& is_iri(triple.predicate)
    &&& node_wf(triple.object)
}

/// A statement: subject, predicate, object.
#[derive(Debug, PartialEq, Eq)]
pub struct Triple {
    subject: RdfNode,
    predicate: NamedNode,
    object: RdfNode,
}

impl View for Triple {
    type V = TripleView;

    closed spec fn view(&self) -> TripleView {
        TripleView { subject: self.subject@, predicate: self.predicate@, object: self.object@ }
    }
}

impl Clone for Triple {
    fn clone(&self) -> (res: Self)
        ensures
            res@ == self@,
    {
        proof {
            use_type_invariant(self);
        }
        Triple {
            subject: self.subject.clone(),
            predicate: self.predicate.clone(),
            object: self.object.clone(),
        }
    }
}

impl Triple {
    #[verifier::type_invariant]
    spec fn inv(self) -> bool {
        &&& node_wf(self.subject@)
        &&& !(self.subject@ is Literal)
        &&& node_wf(self.object@)
    }

    /// Puts three checked parts together.
    pub fn new(subject: RdfNode, predicate: NamedNode, object: RdfNode) -> (res: Triple)
        requires
            node_wf(subject@),
            !(subject@ is Literal),
            node_wf(object@),
        ensures
            res@ == (TripleView { subject: subject@, predicate: predicate@, object: object@ }),
    {
        Triple { subject, predicate, object }
    }

    /// The subject: an IRI or a blank node.
    pub fn subject(&self) -> (res: &RdfNode)
        ensures
            res@ == self@.subject,
            triple_wf(self@),
    {
        proof {
            use_type_invariant(self);
            use_type_invariant(&self.predicate);
        }
        &self.subject
    }

    /// The predicate.
    pub fn predicate(&self) -> (res: &NamedNode)
        ensures
            res@ == self@.predicate,
            triple_wf(self@),
    {
        proof {
            use_type_invariant(self);
            use_type_invariant(&self.predicate);
        }
        &self.predicate
    }

    /// The object.
    pub fn object(&self) -> (res: &RdfNode)
        ensures
            res@ == self@.object,
            triple_wf(self@),
    {
        proof {
            use_type_invariant(self);
            use_type_invariant(&self.predicate);
        }
        &self.object
    }

    /// Takes the triple apart.
    pub fn into_parts(self) -> (res: (RdfNode, NamedNode, RdfNode))
        ensures
            res.0@ == self@.subject,
            res.1@ == self@.predicate,
            res.2@ == self@.object,
            triple_wf(self@),
    {
        proof {
            use_type_invariant(&self);
            use_type_invariant(&self.predicate);
        }
        (self.subject, self.predicate, self.object)
    }

    /// The triple as asserted by the document `graph_name`.
    pub fn in_graph(self, graph_name: NamedNode) -> (res: Quad)
        ensures
            res@ == (QuadView { triple: self@, graph_name: graph_name@ }),
    {
        Quad { triple: self, graph_name }
    }
}

/// The mathematical value of a [`Quad`].
pub struct QuadView {
    pub triple: TripleView,
    pub graph_name: Seq<char>,
}

/// Whether a quad is a well-formed triple under a valid document IRI.
pub open spec fn quad_wf(quad: QuadView) -> bool {
    &&& triple_wf(quad.triple)
    &&& is_iri(quad.graph_name)
}

/// A triple together with the IRI of the document that asserts it.
#[derive(Debug, PartialEq, Eq)]
pub struct Quad {
    triple: Triple,
    graph_name: NamedNode,
}

impl View for Quad {
    type V = QuadView;

    closed spec fn view(&self) -> QuadView {
        QuadView { triple: self.triple@, graph_name: self.graph_name@ }
    }
}

impl Quad {
    /// The statement.
    pub fn triple(&self) -> (res: &Triple)
        ensures
            res@ == self@.triple,
            quad_wf(self@),
    {
        let _ = self.triple.subject();
        let _ = self.graph_name.as_str();
        &self.triple
    }

    /// The document that asserts the statement.
    pub fn graph_name(&self) -> (res: &NamedNode)
        ensures
            res@ == self@.graph_name,
            quad_wf(self@),
    {
        let _ = self.triple.subject();
        let _ = self.graph_name.as_str();
        &self.graph_name
    }
}

} // verus!
