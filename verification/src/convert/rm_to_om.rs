//! Raw triples to checked triples.
//!
//! Every IRI, blank node label and language tag is validated by oxigraph;
//! the first one that fails gives the error. Literals get their datatype
//! where they carry none: plain strings that of strings, language-tagged
//! strings that of language-tagged strings, with the tag in lower case.
use crate::model::{
    ascii_lowercase, char_to_ascii_lowercase, check_blank_node_id, check_language_tagged,
    is_blank_node_id, is_iri, is_language_tag, node_wf, rdf_lang_string, rdf_lang_string_iri,
    xsd_string, xsd_string_iri, NamedNode, Triple, TripleView,
};
use crate::raw::{
    RawLiteral, RawLiteralView, RawNamedOrBlankNode, RawNamedOrBlankNodeView, RawTerm,
    RawTermView, RawTriple, RawTripleView,
};
use crate::types::{NodeView, RdfNode};
use oxigraph::model::{BlankNodeIdParseError, IriParseError, LanguageTagParseError};
use vstd::prelude::*;
use vstd::string::StringExecFns;

verus! {

/// Why a raw triple is no triple.
#[derive(Debug)]
pub enum ConvertErr {
    /// A text that should be an IRI is none.
    BadIri(IriParseError),
    /// A text that should be a blank node label is none.
    BadBlank(BlankNodeIdParseError),
    /// A text that should be a language tag is none.
    BadTag(LanguageTagParseError),
}

/// The three reasons, without what oxigraph says about them.
pub enum ConvertErrKind {
    BadIri,
    BadBlank,
    BadTag,
}

/// What oxigraph says of a text that is no IRI, by the `Debug` form of its
/// error.
#[verifier::external_body]
fn iri_error_text(error: &IriParseError) -> (res: String) {
    format!("{:?}", error)
}

/// What oxigraph says of a text that is no blank node label, by the `Debug`
/// form of its error.
#[verifier::external_body]
fn blank_error_text(error: &BlankNodeIdParseError) -> (res: String) {
    format!("{:?}", error)
}

/// What oxigraph says of a text that is no language tag, by the `Debug`
/// form of its error.
#[verifier::external_body]
fn tag_error_text(error: &LanguageTagParseError) -> (res: String) {
    format!("{:?}", error)
}

/// The name of each of the three reasons.
pub open spec fn kind_name(kind: ConvertErrKind) -> Seq<char> {
    match kind {
        ConvertErrKind::BadIri => "BadIri"@,
        ConvertErrKind::BadBlank => "BadBlank"@,
        ConvertErrKind::BadTag => "BadTag"@,
    }
}

impl ConvertErr {
    /// The error in words: the name of the reason and, in round brackets,
    /// what oxigraph says of the text that it refused.
    pub fn message(&self) -> (res: String)
        ensures
            exists|said: Seq<char>| res@ == kind_name(self.kind()) + "("@ + said + ")"@,
    {
        let (name, said) = match self {
            ConvertErr::BadIri(e) => ("BadIri", iri_error_text(e)),
            ConvertErr::BadBlank(e) => ("BadBlank", blank_error_text(e)),
            ConvertErr::BadTag(e) => ("BadTag", tag_error_text(e)),
        };
        let res = String::from_str(name).concat("(").concat(said.as_str()).concat(")");
        assert(res@ == kind_name(self.kind()) + "("@ + said@ + ")"@);
        res
    }

    /// Which of the three reasons this is.
    pub open spec fn kind(&self) -> ConvertErrKind {
        match *self {
            ConvertErr::BadIri(_) => ConvertErrKind::BadIri,
            ConvertErr::BadBlank(_) => ConvertErrKind::BadBlank,
            ConvertErr::BadTag(_) => ConvertErrKind::BadTag,
        }
    }
}

impl From<IriParseError> for ConvertErr {
    fn from(other: IriParseError) -> (res: Self) {
        ConvertErr::BadIri(other)
    }
}

impl vstd::std_specs::convert::FromSpecImpl<IriParseError> for ConvertErr {
    open spec fn obeys_from_spec() -> bool {
        true
    }

    open spec fn from_spec(other: IriParseError) -> Self {
        ConvertErr::BadIri(other)
    }
}

impl From<BlankNodeIdParseError> for ConvertErr {
    fn from(other: BlankNodeIdParseError) -> (res: Self) {
        ConvertErr::BadBlank(other)
    }
}

impl vstd::std_specs::convert::FromSpecImpl<BlankNodeIdParseError> for ConvertErr {
    open spec fn obeys_from_spec() -> bool {
        true
    }

    open spec fn from_spec(other: BlankNodeIdParseError) -> Self {
        ConvertErr::BadBlank(other)
    }
}

impl From<LanguageTagParseError> for ConvertErr {
    fn from(other: LanguageTagParseError) -> (res: Self) {
        ConvertErr::BadTag(other)
    }
}

impl vstd::std_specs::convert::FromSpecImpl<LanguageTagParseError> for ConvertErr {
    open spec fn obeys_from_spec() -> bool {
        true
    }

    open spec fn from_spec(other: LanguageTagParseError) -> Self {
        ConvertErr::BadTag(other)
    }
}

/// What a raw literal converts to.
pub open spec fn literal_spec(lt: RawLiteralView) -> Result<NodeView, ConvertErrKind> {
    match lt {
        RawLiteralView::Simple { value } => Ok(
            NodeView::Literal { value, datatype: xsd_string(), language: None },
        ),
        RawLiteralView::LanguageTaggedString { value, language } => if is_language_tag(
            ascii_lowercase(language),
        ) {
            Ok(
                NodeView::Literal {
                    value,
                    datatype: rdf_lang_string(),
                    language: Some(ascii_lowercase(language)),
                },
            )
        } else {
            Err(ConvertErrKind::BadTag)
        },
        RawLiteralView::Typed { value, datatype } => if is_iri(datatype) {
            Ok(NodeView::Literal { value, datatype, language: None })
        } else {
            Err(ConvertErrKind::BadIri)
        },
    }
}

/// What a raw object converts to.
pub open spec fn term_spec(tm: RawTermView) -> Result<NodeView, ConvertErrKind> {
    match tm {
        RawTermView::NamedNode(iri) => if is_iri(iri) {
            Ok(NodeView::Iri(iri))
        } else {
            Err(ConvertErrKind::BadIri)
        },
        RawTermView::BlankNode(id) => if is_blank_node_id(id) {
            Ok(NodeView::Blank(id))
        } else {
            Err(ConvertErrKind::BadBlank)
        },
        RawTermView::Literal(lt) => literal_spec(lt),
    }
}

/// What a raw subject converts to.
pub open spec fn named_or_blank_node_spec(nb: RawNamedOrBlankNodeView) -> Result<
    NodeView,
    ConvertErrKind,
> {
    match nb {
        RawNamedOrBlankNodeView::NamedNode(iri) => if is_iri(iri) {
            Ok(NodeView::Iri(iri))
        } else {
            Err(ConvertErrKind::BadIri)
        },
        RawNamedOrBlankNodeView::BlankNode(id) => if is_blank_node_id(id) {
            Ok(NodeView::Blank(id))
        } else {
            Err(ConvertErrKind::BadBlank)
        },
    }
}

/// What a raw triple converts to: its three parts converted, or the error
/// of the first part that fails, subject before predicate before object.
pub open spec fn triple_spec(tr: RawTripleView) -> Result<TripleView, ConvertErrKind> {
    match named_or_blank_node_spec(tr.subject) {
        Err(e) => Err(e),
        Ok(subject) => if !is_iri(tr.predicate) {
            Err(ConvertErrKind::BadIri)
        } else {
            match term_spec(tr.object) {
                Err(e) => Err(e),
                Ok(object) => Ok(TripleView { subject, predicate: tr.predicate, object }),
            }
        },
    }
}

/// Folding to lower case twice is folding once.
pub proof fn lemma_ascii_lowercase_idempotent(text: Seq<char>)
    ensures
        ascii_lowercase(ascii_lowercase(text)) == ascii_lowercase(text),
{
    assert forall|i: int| 0 <= i < text.len() implies char_to_ascii_lowercase(
        char_to_ascii_lowercase(text[i]),
    ) == char_to_ascii_lowercase(text[i]) by {
        let c = text[i];
        if 'A' <= c && c <= 'Z' {
            let low = char_to_ascii_lowercase(c);
            assert(low as u8 == (c as u8) + 32);
            assert(!('A' <= low && low <= 'Z'));
        }
    }
    assert(ascii_lowercase(ascii_lowercase(text)) =~= ascii_lowercase(text));
}

/// Checks a raw triple and makes a triple of it.
pub fn triple(tr: &RawTriple) -> (res: Result<Triple, ConvertErr>)
    ensures
        match res {
            Ok(made) => triple_spec(tr@) == Ok::<TripleView, ConvertErrKind>(made@),
            Err(e) => triple_spec(tr@) == Err::<TripleView, ConvertErrKind>(e.kind()),
        },
{
    let subject = match named_or_blank_node(&tr.subject) {
        Ok(subject) => subject,
        Err(e) => {
            return Err(e);
        },
    };
    let predicate = match named_node(tr.predicate.as_str()) {
        Ok(predicate) => predicate,
        Err(e) => {
            return Err(ConvertErr::BadIri(e));
        },
    };
    let object = match term(&tr.object) {
        Ok(object) => object,
        Err(e) => {
            return Err(e);
        },
    };
    Ok(Triple::new(subject, predicate, object))
}

/// Checks a raw object.
pub fn term(tm: &RawTerm) -> (res: Result<RdfNode, ConvertErr>)
    ensures
        match res {
            Ok(made) => term_spec(tm@) == Ok::<NodeView, ConvertErrKind>(made@) && node_wf(made@),
            Err(e) => term_spec(tm@) == Err::<NodeView, ConvertErrKind>(e.kind()),
        },
{
    match tm {
        RawTerm::NamedNode(nn) => match named_node(nn.as_str()) {
            Ok(node) => Ok(node.into_node()),
            Err(e) => Err(ConvertErr::BadIri(e)),
        },
        RawTerm::BlankNode(bn) => match blank_node(bn.as_str()) {
            Ok(id) => Ok(RdfNode::Blank(id)),
            Err(e) => Err(ConvertErr::BadBlank(e)),
        },
        RawTerm::Literal(lt) => literal(lt),
    }
}

/// Checks a raw literal and gives it its datatype.
pub fn literal(lt: &RawLiteral) -> (res: Result<RdfNode, ConvertErr>)
    ensures
        match res {
            Ok(made) => literal_spec(lt@) == Ok::<NodeView, ConvertErrKind>(made@) && node_wf(
                made@,
            ),
            Err(e) => literal_spec(lt@) == Err::<NodeView, ConvertErrKind>(e.kind()),
        },
{
    match lt {
        RawLiteral::LanguageTaggedString { value, language } => {
            match check_language_tagged(value.as_str(), language.as_str()) {
                Ok((value, tag)) => {
                    proof {
                        lemma_ascii_lowercase_idempotent(language@);
                    }
                    Ok(RdfNode::Literal { value, datatype: rdf_lang_string_iri(), language: tag })
                },
                Err(e) => Err(ConvertErr::BadTag(e)),
            }
        },
        RawLiteral::Simple { value } => Ok(
            RdfNode::Literal { value: value.clone(), datatype: xsd_string_iri(), language: None },
        ),
        RawLiteral::Typed { value, datatype } => match named_node(datatype.as_str()) {
            Ok(datatype) => Ok(
                RdfNode::Literal {
                    value: value.clone(),
                    datatype: datatype.into_string(),
                    language: None,
                },
            ),
            Err(e) => Err(ConvertErr::BadIri(e)),
        },
    }
}

/// Checks a raw subject.
pub fn named_or_blank_node(nb: &RawNamedOrBlankNode) -> (res: Result<RdfNode, ConvertErr>)
    ensures
        match res {
            Ok(made) => named_or_blank_node_spec(nb@) == Ok::<NodeView, ConvertErrKind>(made@)
                && node_wf(made@) && !(made@ is Literal),
            Err(e) => named_or_blank_node_spec(nb@) == Err::<NodeView, ConvertErrKind>(e.kind()),
        },
{
    match nb {
        RawNamedOrBlankNode::NamedNode(nn) => match named_node(nn.as_str()) {
            Ok(node) => Ok(node.into_node()),
            Err(e) => Err(ConvertErr::BadIri(e)),
        },
        RawNamedOrBlankNode::BlankNode(bn) => match blank_node(bn.as_str()) {
            Ok(id) => Ok(RdfNode::Blank(id)),
            Err(e) => Err(ConvertErr::BadBlank(e)),
        },
    }
}

/// Checks an IRI.
pub fn named_node(iri: &str) -> (res: Result<NamedNode, IriParseError>)
    ensures
        res is Ok <==> is_iri(iri@),
        res matches Ok(node) ==> node@ == iri@,
{
    NamedNode::new(iri)
}

/// Checks a blank node label.
pub fn blank_node(id: &str) -> (res: Result<String, BlankNodeIdParseError>)
    ensures
        res is Ok <==> is_blank_node_id(id@),
        res matches Ok(label) ==> label@ == id@,
{
    check_blank_node_id(id)
}

} // verus!
