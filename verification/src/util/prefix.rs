//! The vocabulary of the crawler: a short list of IRIs, made from a
//! namespace and a local name.
use crate::model::{is_iri, NamedNode};
use oxigraph::model::IriParseError;
use vstd::prelude::*;
use vstd::string::StringExecFns;

verus! {

/// The namespace of dock.
pub open spec fn dock_namespace() -> Seq<char> {
    "https://dock.io/rdf/alpha/"@
}

/// The namespace of RDF.
pub open spec fn rdf_namespace() -> Seq<char> {
    "http://www.w3.org/1999/02/22-rdf-syntax-ns#"@
}

/// The namespace of RDF Schema.
pub open spec fn rdfs_namespace() -> Seq<char> {
    "http://www.w3.org/2000/01/rdf-schema#"@
}

/// Whether an IRI belongs to the vocabulary.
pub open spec fn allowed(iri: Seq<char>) -> bool {
    ||| iri == "https://dock.io/rdf/alpha/claims"@
    ||| iri == "https://dock.io/rdf/alpha/allowSubjects"@
    ||| iri == "https://dock.io/rdf/alpha/allowPredicates"@
    ||| iri == "https://dock.io/rdf/alpha/allowObjects"@
    ||| iri == "https://dock.io/rdf/alpha/ANYTHING"@
    ||| iri == "https://dock.io/rdf/alpha/mayClaim"@
    ||| iri == "https://dock.io/rdf/alpha/dereferencesTo"@
    ||| iri == "http://www.w3.org/1999/02/22-rdf-syntax-ns#subject"@
    ||| iri == "http://www.w3.org/1999/02/22-rdf-syntax-ns#predicate"@
    ||| iri == "http://www.w3.org/1999/02/22-rdf-syntax-ns#object"@
    ||| iri == "http://www.w3.org/1999/02/22-rdf-syntax-ns#type"@
    ||| iri == "http://www.w3.org/2000/01/rdf-schema#member"@
}

fn same(a: &str, b: &str) -> (res: bool)
    ensures
        res == (a@ == b@),
{
    a.to_owned() == b.to_owned()
}

/// Whether an IRI belongs to the vocabulary.
pub fn is_allowed(iri: &str) -> (res: bool)
    ensures
        res == allowed(iri@),
{
    same(iri, "https://dock.io/rdf/alpha/claims")
        || same(iri, "https://dock.io/rdf/alpha/allowSubjects")
        || same(iri, "https://dock.io/rdf/alpha/allowPredicates")
        || same(iri, "https://dock.io/rdf/alpha/allowObjects")
        || same(iri, "https://dock.io/rdf/alpha/ANYTHING")
        || same(iri, "https://dock.io/rdf/alpha/mayClaim")
        || same(iri, "https://dock.io/rdf/alpha/dereferencesTo")
        || same(iri, "http://www.w3.org/1999/02/22-rdf-syntax-ns#subject")
        || same(iri, "http://www.w3.org/1999/02/22-rdf-syntax-ns#predicate")
        || same(iri, "http://www.w3.org/1999/02/22-rdf-syntax-ns#object")
        || same(iri, "http://www.w3.org/1999/02/22-rdf-syntax-ns#type")
        || same(iri, "http://www.w3.org/2000/01/rdf-schema#member")
}

/// The term of dock with the given local name.
pub fn dock(suffix: &str) -> (res: Result<NamedNode, IriParseError>)
    requires
        allowed(dock_namespace() + suffix@),
    ensures
        res is Ok <==> is_iri(dock_namespace() + suffix@),
        res matches Ok(node) ==> node@ == dock_namespace() + suffix@,
{
    cat("https://dock.io/rdf/alpha/", suffix)
}

/// The term of RDF with the given local name.
pub fn rdf(suffix: &str) -> (res: Result<NamedNode, IriParseError>)
    requires
        allowed(rdf_namespace() + suffix@),
    ensures
        res is Ok <==> is_iri(rdf_namespace() + suffix@),
        res matches Ok(node) ==> node@ == rdf_namespace() + suffix@,
{
    cat("http://www.w3.org/1999/02/22-rdf-syntax-ns#", suffix)
}

/// The term of RDF Schema with the given local name.
pub fn rdfs(suffix: &str) -> (res: Result<NamedNode, IriParseError>)
    requires
        allowed(rdfs_namespace() + suffix@),
    ensures
        res is Ok <==> is_iri(rdfs_namespace() + suffix@),
        res matches Ok(node) ==> node@ == rdfs_namespace() + suffix@,
{
    cat("http://www.w3.org/2000/01/rdf-schema#", suffix)
}

fn cat(pre: &str, suff: &str) -> (res: Result<NamedNode, IriParseError>)
    requires
        allowed(pre@ + suff@),
    ensures
        res is Ok <==> is_iri(pre@ + suff@),
        res matches Ok(node) ==> node@ == pre@ + suff@,
{
    let ret = String::from_str(pre).concat(suff);
    NamedNode::new(ret.as_str())
}

} // verus!
