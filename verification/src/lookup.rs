//! Resolvers: the ability to find the graph that an IRI names.
use crate::model::NamedNode;
use crate::rdf_graph::Graph;
use std::collections::BTreeMap;
use vstd::laws_cmp::obeys_cmp;
use vstd::prelude::*;
use vstd::std_specs::btree::{contains_borrowed_key, maps_borrowed_key_to_value};

verus! {

/// Why a lookup failed, in words.
#[derive(Debug)]
pub struct LookupError(String);

impl View for LookupError {
    type V = Seq<char>;

    closed spec fn view(&self) -> Seq<char> {
        self.0@
    }
}

impl From<String> for LookupError {
    fn from(other: String) -> (res: LookupError)
        ensures
            res@ == other@,
    {
        LookupError(other)
    }
}

impl vstd::std_specs::convert::FromSpecImpl<String> for LookupError {
    open spec fn obeys_from_spec() -> bool {
        true
    }

    closed spec fn from_spec(other: String) -> Self {
        LookupError(other)
    }
}

impl LookupError {
    /// An error with the given message.
    pub fn new(message: &str) -> (res: Self)
        ensures
            res@ == message@,
    {
        LookupError(message.to_owned())
    }

    /// The message.
    pub fn message(&self) -> (res: &str)
        ensures
            res@ == self@,
    {
        self.0.as_str()
    }
}

/// A resolver: given the IRI of a document, it finds the graph that the
/// document holds, or fails.
///
/// Nothing is promised of the outcome: a resolver may go out to a network.
pub trait Lookup {
    /// Looks a document up.
    fn lookup(&mut self, iri: &NamedNode) -> Result<Graph, LookupError>;
}

/// What a table of documents answers when it is asked for `key`: a graph
/// equal to the one that the table holds under the key, or an error where
/// it holds none. Which keys a `BTreeMap` holds is stated over the model that
/// vstd gives of it.
pub open spec fn looked_up(
    table: Map<&str, Graph>,
    key: &str,
    res: Result<Graph, LookupError>,
) -> bool {
    match res {
        Ok(graph) => exists|held: Graph|
            #![auto]
            maps_borrowed_key_to_value(table, key, held) && graph@ == held@,
        Err(e) => !contains_borrowed_key(table, key),
    }
}

/// A fixed table of documents, for tests and for closed worlds.
impl<'a> Lookup for BTreeMap<&'a str, Graph> {
    /// The graph that the table holds under the IRI; an error that says
    /// `unregistered graph` where it holds none. The table stays as it is.
    fn lookup(&mut self, iri: &NamedNode) -> (res: Result<Graph, LookupError>)
        ensures
            final(self)@ == old(self)@,
            res matches Err(e) ==> e@ == "unregistered graph"@,
            obeys_cmp::<&'a str>() ==> exists|key: &str|
                #![auto]
                key@ == iri@ && looked_up(old(self)@, key, res),
    {
        let key = iri.as_str();
        let res = match self.get(key) {
            Some(graph) => Ok(graph.clone()),
            None => Err(LookupError::new("unregistered graph")),
        };
        proof {
            if obeys_cmp::<&'a str>() {
                assert(key@ == iri@ && looked_up(self@, key, res));
            }
        }
        res
    }
}

} // verus!
