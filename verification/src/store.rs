//! Quad stores: what the crawler needs from one, and
//! oxigraph's in-memory store behind it.
use crate::model::{node_wf, Quad, QuadView, TripleView};
use crate::sparql::{is_select_text, Query, QueryResults};
use crate::types::{NodeView, RdfNode};
use oxigraph::model as om;
use oxigraph::model::{NamedOrBlankNode, Term};
use oxigraph::sparql::{EvaluationError, QuerySolution, QuerySolutionIter};
use oxigraph::store::MemoryStore;
use vstd::prelude::*;

verus! {

/// A store of quads that answers pattern queries.
///
/// Whoever implements it promises two things: after a quad was inserted
/// the store holds it, in the form in which the store keeps quads, besides
/// what it held; and a `SELECT` query, if it is answered at all, is
/// answered with solutions.
///
/// A store keeps the subject, the predicate and the graph name of a quad
/// as they are given, and so the object, unless the object is a literal
/// without a language tag: such a literal a store may keep by its value,
/// and hand back in another spelling.
pub trait Store {
    /// The quads that have been put into the store. This is a model for
    /// proofs and is never run: an implementation that is not verified may
    /// give it any body.
    spec fn quads(&self) -> Set<QuadView>;

    /// The literal that the store holds after it was given the literal
    /// with this lexical form and this datatype, and no language tag. Like
    /// [`Store::quads`] this is a model and is never run.
    spec fn stored_literal(value: Seq<char>, datatype: Seq<char>) -> NodeView;

    /// Adds a quad.
    fn insert(&mut self, quad: Quad)
        ensures
            final(self).quads() == old(self).quads().insert(
                (QuadView {
                    triple: (TripleView {
                        subject: quad@.triple.subject,
                        predicate: quad@.triple.predicate,
                        object: match quad@.triple.object {
                            NodeView::Literal { value, datatype, language: None } => {
                                Self::stored_literal(value, datatype)
                            },
                            other => other,
                        },
                    }),
                    graph_name: quad@.graph_name,
                }),
            ),
    ;

    /// Evaluates a query on the quads of the store.
    fn query(&self, query: Query) -> (res: Result<QueryResults, EvaluationError>)
        ensures
            is_select_text(query@) ==> (res matches Ok(answer) ==> answer is Solutions),
    ;
}

/// A node as a store keeps it when it stands as the object of a quad: a
/// literal without a language tag in the store's own form, any other node
/// as it is.
pub open spec fn kept_node<S: Store + ?Sized>(node: NodeView) -> NodeView {
    match node {
        NodeView::Literal { value, datatype, language: None } => S::stored_literal(
            value,
            datatype,
        ),
        _ => node,
    }
}

/// A triple as a store keeps it.
pub open spec fn kept_triple<S: Store + ?Sized>(triple: TripleView) -> TripleView {
    TripleView {
        subject: triple.subject,
        predicate: triple.predicate,
        object: kept_node::<S>(triple.object),
    }
}

/// A quad as a store keeps it.
pub open spec fn kept<S: Store + ?Sized>(quad: QuadView) -> QuadView {
    QuadView { triple: kept_triple::<S>(quad.triple), graph_name: quad.graph_name }
}

#[verifier::external_type_specification]
#[verifier::external_body]
pub struct ExMemoryStore(MemoryStore);

#[verifier::external_type_specification]
#[verifier::external_body]
pub struct ExQuerySolutionIter(QuerySolutionIter);

#[verifier::external_type_specification]
#[verifier::external_body]
pub struct ExQuerySolution(QuerySolution);

#[verifier::external_type_specification]
#[verifier::external_body]
pub struct ExTerm(Term);

#[verifier::external_type_specification]
#[verifier::external_body]
pub struct ExNamedOrBlankNode(NamedOrBlankNode);

/// The quads that the indexes of an oxigraph `MemoryStore` hold, each
/// decoded to its strings.
pub uninterp spec fn memory_store_quads(store: MemoryStore) -> Set<QuadView>;

/// The literal that an oxigraph `MemoryStore` decodes after it has encoded
/// the literal with this lexical form and this datatype, and no language
/// tag. For the datatypes that oxigraph knows (booleans, numbers, dates,
/// times, durations) it keeps the value, not the spelling.
pub uninterp spec fn memory_store_literal(value: Seq<char>, datatype: Seq<char>) -> NodeView;

/// An answer of oxigraph: solutions not yet read, a truth value, or the
/// three terms of each triple.
enum Answer {
    Solutions(QuerySolutionIter),
    Boolean(bool),
    Graph(Vec<(Term, Term, Term)>),
}

/// A subject for oxigraph, built with `NamedNode::new_unchecked` or
/// `BlankNode::new_unchecked`; one half of what [`memory_store_insert`]
/// converts. The strings are valid, as those constructors ask, because the
/// node is well formed. A subject is never a literal: the pattern for one
/// stands beside that of blank nodes only to make the match complete.
#[verifier::external_body]
fn ox_subject(node: &RdfNode) -> (res: NamedOrBlankNode)
    requires
        node_wf(node@),
        !(node@ is Literal),
{
    match node {
        RdfNode::Iri(iri) => om::NamedNode::new_unchecked(iri.as_str()).into(),
        RdfNode::Blank(id) | RdfNode::Literal { value: id, .. } => {
            om::BlankNode::new_unchecked(id.as_str()).into()
        },
    }
}

/// A term for oxigraph, built with `NamedNode::new_unchecked`,
/// `BlankNode::new_unchecked`, `Literal::new_typed_literal` or
/// `Literal::new_language_tagged_literal_unchecked`; the other half of what
/// [`memory_store_insert`] converts. The strings are valid, and the language
/// tag in lower case, as those constructors ask, because the node is well
/// formed.
#[verifier::external_body]
fn ox_term(node: &RdfNode) -> (res: Term)
    requires
        node_wf(node@),
{
    match node {
        RdfNode::Blank(id) => om::BlankNode::new_unchecked(id.as_str()).into(),
        RdfNode::Iri(iri) => om::NamedNode::new_unchecked(iri.as_str()).into(),
        RdfNode::Literal { value, language: Some(tag), .. } => {
            om::Literal::new_language_tagged_literal_unchecked(value.as_str(), tag.as_str()).into()
        },
        RdfNode::Literal { value, datatype, language: None } => {
            let datatype = om::NamedNode::new_unchecked(datatype.as_str());
            om::Literal::new_typed_literal(value.as_str(), datatype).into()
        },
    }
}

/// Adds a quad with `MemoryStore::insert`, its four terms built as
/// [`ox_subject`] and [`ox_term`] say. Claims: afterwards the store holds
/// what it held and one quad more. That quad has the subject, the predicate
/// and the graph name of the given one, and its object too, unless the
/// object is a literal without a language tag: oxigraph encodes such a
/// literal by its datatype, and what it decodes is what
/// [`memory_store_literal`] names.
#[verifier::external_body]
fn memory_store_insert(store: &mut MemoryStore, quad: &Quad)
    ensures
        memory_store_quads(*final(store)) == memory_store_quads(*old(store)).insert(
            (QuadView {
                triple: (TripleView {
                    subject: quad@.triple.subject,
                    predicate: quad@.triple.predicate,
                    object: match quad@.triple.object {
                        NodeView::Literal { value, datatype, language: None } => {
                            memory_store_literal(value, datatype)
                        },
                        other => other,
                    },
                }),
                graph_name: quad@.graph_name,
            }),
        ),
{
    let triple = quad.triple();
    MemoryStore::insert(
        store,
        om::Quad::new(
            ox_subject(triple.subject()),
            om::NamedNode::new_unchecked(triple.predicate().as_str()),
            ox_term(triple.object()),
            om::NamedNode::new_unchecked(quad.graph_name().as_str()),
        ),
    );
}

/// Evaluates a query text with `MemoryStore::query`, and tells the three
/// variants of oxigraph's answer apart; the triples of a graph are read at
/// once, each as its three terms. Claims: oxigraph parses the text as
/// [`crate::sparql::sparql_form`] names it, and answers a `SELECT` with
/// solutions or with an error.
#[verifier::external_body]
fn memory_store_query(store: &MemoryStore, text: &str) -> (res: Result<Answer, EvaluationError>)
    ensures
        is_select_text(text@) ==> (res matches Ok(answer) ==> answer is Solutions),
{
    Ok(
        match MemoryStore::query(store, text)? {
            oxigraph::sparql::QueryResults::Solutions(rows) => Answer::Solutions(rows),
            oxigraph::sparql::QueryResults::Boolean(yes) => Answer::Boolean(yes),
            oxigraph::sparql::QueryResults::Graph(triples) => Answer::Graph(
                triples.collect::<Result<Vec<_>, _>>()?.into_iter().map(
                    |t| (t.subject.into(), t.predicate.into(), t.object),
                ).collect(),
            ),
        },
    )
}

/// Reads all solutions of an answer, or the first error among them.
#[verifier::external_body]
fn collect_solutions(rows: QuerySolutionIter) -> (res: Result<
    Vec<QuerySolution>,
    EvaluationError,
>) {
    rows.collect()
}

/// The terms that a solution binds, by `QuerySolution::iter`.
#[verifier::external_body]
fn solution_terms(solution: &QuerySolution) -> (res: Vec<Term>) {
    solution.iter().map(|(_, term)| term.clone()).collect()
}


/// A term of oxigraph as a node: its three variants told apart, and the
/// strings of each copied (`as_str`, `value`, `datatype`, `language`).
#[verifier::external_body]
fn rdf_node(term: &Term) -> (res: RdfNode) {
    match term {
        Term::NamedNode(node) => RdfNode::Iri(node.as_str().to_owned()),
        Term::BlankNode(node) => RdfNode::Blank(node.as_str().to_owned()),
        Term::Literal(literal) => RdfNode::Literal {
            value: literal.value().to_owned(),
            datatype: literal.datatype().as_str().to_owned(),
            language: literal.language().map(str::to_owned),
        },
    }
}

/// The terms as nodes.
fn rdf_nodes(terms: &Vec<Term>) -> (res: Vec<RdfNode>)
    ensures
        res.len() == terms.len(),
{
    let mut nodes: Vec<RdfNode> = Vec::new();
    let mut i: usize = 0;
    while i < terms.len()
        invariant
            i <= terms.len(),
            nodes.len() == i,
        decreases terms.len() - i,
    {
        nodes.push(rdf_node(&terms[i]));
        i += 1;
    }
    nodes
}

/// The rows of an answer, each as the nodes it binds.
fn solution_rows(solutions: &Vec<QuerySolution>) -> (res: Vec<Vec<RdfNode>>)
    ensures
        res.len() == solutions.len(),
{
    let mut rows: Vec<Vec<RdfNode>> = Vec::new();
    let mut i: usize = 0;
    while i < solutions.len()
        invariant
            i <= solutions.len(),
            rows.len() == i,
        decreases solutions.len() - i,
    {
        let terms = solution_terms(&solutions[i]);
        rows.push(rdf_nodes(&terms));
        i += 1;
    }
    rows
}

/// The triples of an answer, each as three nodes.
fn graph_rows(triples: &Vec<(Term, Term, Term)>) -> (res: Vec<(RdfNode, RdfNode, RdfNode)>)
    ensures
        res.len() == triples.len(),
{
    let mut rows: Vec<(RdfNode, RdfNode, RdfNode)> = Vec::new();
    let mut i: usize = 0;
    while i < triples.len()
        invariant
            i <= triples.len(),
            rows.len() == i,
        decreases triples.len() - i,
    {
        let triple = &triples[i];
        rows.push((rdf_node(&triple.0), rdf_node(&triple.1), rdf_node(&triple.2)));
        i += 1;
    }
    rows
}

impl Store for MemoryStore {
    open spec fn quads(&self) -> Set<QuadView> {
        memory_store_quads(*self)
    }

    open spec fn stored_literal(value: Seq<char>, datatype: Seq<char>) -> NodeView {
        memory_store_literal(value, datatype)
    }

    fn insert(&mut self, quad: Quad) {
        memory_store_insert(self, &quad)
    }

    fn query(&self, query: Query) -> (res: Result<QueryResults, EvaluationError>) {
        match memory_store_query(self, query.as_str()) {
            Err(e) => Err(e),
            Ok(Answer::Boolean(yes)) => Ok(QueryResults::Boolean(yes)),
            Ok(Answer::Solutions(rows)) => match collect_solutions(rows) {
                Err(e) => Err(e),
                Ok(solutions) => Ok(QueryResults::Solutions(solution_rows(&solutions))),
            },
            Ok(Answer::Graph(triples)) => Ok(QueryResults::Graph(graph_rows(&triples))),
        }
    }
}

} // verus!
