use oxigraph::store::MemoryStore;
use quaerit_machina::model::NamedNode;
use quaerit_machina::sparql::{Query, QueryResults};
use quaerit_machina::ttl::from_ttl;
use quaerit_machina::util::as_named_node;
use quaerit_machina::agent::novel_named_nodes;
use quaerit_machina::crawl_progress::CrawlProgress;
use quaerit_machina::{Agent, Curiosity, Graph, LookupError, RdfNode, Store};
use std::collections::BTreeMap;

#[test]
fn simple_crawl() {
    let mut ca = default_agent();
    ca.investigate(named_node("did:a")).unwrap();
    ca.crawl().unwrap();
    assert_eq!(
        sorted(
            list_graphs(&ca)
                .iter()
                .map(|term| as_named_node(term).unwrap().into_string())
        ),
        sorted(
            [
                "did:b",
                "did:c:claims",
                "did:a",
                "did:a:claims",
                "did:b:claims",
                "did:c"
            ]
            .iter()
            .cloned()
            .map(str::to_string)
        )
    );
}

#[test]
fn crawl_reports_convergence() {
    let mut ca = default_agent();
    ca.investigate(named_node("did:a")).unwrap();
    assert_eq!(ca.crawl().unwrap(), true);
    // a converged crawl stays converged
    assert_eq!(ca.next().unwrap(), true);
}

#[test]
fn crawl_within_gives_up_at_its_limit() {
    let mut ca = default_agent();
    ca.investigate(named_node("did:a")).unwrap();
    assert_eq!(ca.crawl_within(0).unwrap(), false);
    assert_eq!(ca.crawl_within(1).unwrap(), false);
    assert_eq!(ca.crawl_within(usize::MAX).unwrap(), true);
}

#[test]
fn unreferenced_documents_are_not_visited() {
    let mut ca = default_agent();
    ca.investigate(named_node("did:a")).unwrap();
    ca.crawl().unwrap();
    let graphs: Vec<String> = list_graphs(&ca)
        .iter()
        .map(|term| as_named_node(term).unwrap().into_string())
        .collect();
    assert!(!graphs.contains(&"did:d".to_string()));
    assert!(!graphs.contains(&"did:d:claims".to_string()));
}

#[test]
fn failed_lookup_is_not_offered_again() {
    // the uuid documents are referenced but not registered: their lookup fails
    let mut ca = default_agent();
    ca.investigate(named_node("did:a")).unwrap();
    ca.crawl().unwrap();
    let offered = ca.curious().unwrap();
    assert!(offered.is_empty());
    let failed = named_node("uuid:d653df41-fb26-46b2-9edf-35a73836f7e0");
    assert!(ca.crawl_progress().is_errored(&failed));
    assert!(!ca.crawl_progress().is_visited(&failed));
    // it is still referenced by a document that was merged
    assert!(list_objects(&ca).contains(&RdfNode::Iri(
        "uuid:d653df41-fb26-46b2-9edf-35a73836f7e0".to_string()
    )));
    assert!(ca.investigate(failed).is_err());
}

#[test]
fn the_crawl_visits_what_resolves_and_errs_on_the_rest() {
    let mut ca = default_agent();
    ca.investigate(named_node("did:a")).unwrap();
    ca.crawl().unwrap();
    for iri in [
        "did:a",
        "did:a:claims",
        "did:b",
        "did:b:claims",
        "did:c",
        "did:c:claims",
    ] {
        assert!(ca.crawl_progress().is_visited(&named_node(iri)));
        assert!(!ca.crawl_progress().is_errored(&named_node(iri)));
    }
    for iri in [
        "https://dock.io/rdf/alpha/attestDocumentContent",
        "https://dock.io/rdf/alpha/mayclaim",
        "http://schema.org/birthDate",
        "uuid:d653df41-fb26-46b2-9edf-35a73836f7e0",
        "uuid:ec3ae823-2e51-48ab-bdbf-bc41037eeead",
    ] {
        assert!(ca.crawl_progress().is_errored(&named_node(iri)));
        assert!(!ca.crawl_progress().is_visited(&named_node(iri)));
    }
    for iri in ["did:d", "did:d:claims", "http://www.w3.org/2001/XMLSchema#date"] {
        assert!(ca.crawl_progress().novel(&named_node(iri)));
    }
}

fn list_objects(store: &impl Store) -> Vec<RdfNode> {
    match store
        .query(
            "SELECT ?o WHERE { GRAPH ?g { ?s ?p ?o } }"
                .parse()
                .unwrap(),
        )
        .unwrap()
    {
        QueryResults::Solutions(rows) => rows.into_iter().flatten().collect(),
        QueryResults::Boolean(_) | QueryResults::Graph(_) => panic!("expected solutions"),
    }
}

#[test]
fn reinvestigation_changes_nothing() {
    let mut ca = default_agent();
    ca.investigate(named_node("did:a")).unwrap();
    let before = list_quads(&ca);
    assert!(ca.crawl_progress().is_visited(&named_node("did:a")));
    ca.investigate(named_node("did:a")).unwrap();
    assert_eq!(list_quads(&ca), before);
    assert!(ca.crawl_progress().is_visited(&named_node("did:a")));
    assert!(!ca.crawl_progress().is_errored(&named_node("did:a")));
    // the seed is decided: the first round offers only what it mentions
    let offered: Vec<String> = ca
        .curious()
        .unwrap()
        .into_iter()
        .map(|n| n.into_string())
        .collect();
    assert!(!offered.contains(&"did:a".to_string()));
    assert!(offered.contains(&"did:a:claims".to_string()));
}

#[test]
fn investigate_unregistered_document_fails() {
    let mut ca = default_agent();
    let err = ca.investigate(named_node("did:nowhere")).unwrap_err();
    assert_eq!(err.message(), "unregistered graph");
    assert!(ca.crawl_progress().is_errored(&named_node("did:nowhere")));
    // a second failure leaves it errored
    assert!(ca.investigate(named_node("did:nowhere")).is_err());
    assert!(ca.crawl_progress().is_errored(&named_node("did:nowhere")));
    assert!(!ca.crawl_progress().is_visited(&named_node("did:nowhere")));
    // nothing was merged
    assert_eq!(list_quads(&ca), 0);
    // and the failure is remembered: the document is offered no more
    assert!(ca.curious().unwrap().is_empty());
}

fn default_agent() -> Agent<MemoryStore, BTreeMap<&'static str, Graph>> {
    let curio = Curiosity::create(curious_about_everything()).unwrap();
    let memst = MemoryStore::default();
    let sup = supergraph();
    Agent::new(curio, memst, sup)
}

fn curious_about_everything() -> Vec<Query> {
    [
        "SELECT DISTINCT ?s WHERE { GRAPH ?g { ?s ?p ?o } }",
        "SELECT DISTINCT ?p WHERE { GRAPH ?g { ?s ?p ?o } }",
        "SELECT DISTINCT ?o WHERE { GRAPH ?g { ?s ?p ?o } }",
        "SELECT DISTINCT ?g WHERE { GRAPH ?g { ?s ?p ?o } }",
    ]
    .iter()
    .map(|a| a.parse().unwrap())
    .collect()
}

fn supergraph() -> BTreeMap<&'static str, Graph> {
    [
        // A claims that B mayClaim anything
        (
            "did:a",
            "
            @prefix dock: <https://dock.io/rdf/alpha/> .
            <did:a> dock:attestDocumentContent <did:a:claims> .
            ",
        ),
        (
            "did:a:claims",
            "
            @prefix dock: <https://dock.io/rdf/alpha/> .
            <did:b> dock:mayclaim <uuid:d653df41-fb26-46b2-9edf-35a73836f7e0> .
            ",
        ),
        // B claims that C mayClaim age claims
        (
            "did:b",
            "
            @prefix dock: <https://dock.io/rdf/alpha/> .
            <did:b> dock:attestDocumentContent <did:b:claims> .
            ",
        ),
        (
            "did:b:claims",
            "
            @prefix dock: <https://dock.io/rdf/alpha/> .
            <did:c> dock:mayclaim <uuid:ec3ae823-2e51-48ab-bdbf-bc41037eeead> .
            ",
        ),
        // C claims an age claim
        (
            "did:c",
            "
            @prefix dock: <https://dock.io/rdf/alpha/> .
            <did:c> dock:attestDocumentContent <did:c:claims> .
            ",
        ),
        (
            "did:c:claims",
            "
            @prefix xsd: <http://www.w3.org/2001/XMLSchema#> .
            @prefix schema: <http://schema.org/> .
            <did:c> schema:birthDate \"2002-09-24Z\"^^xsd:date .
            ",
        ),
        // D claims an age claim
        (
            "did:d",
            "
            @prefix dock: <https://dock.io/rdf/alpha/> .
            <did:c> dock:attestDocumentContent <did:d:claims> .
            ",
        ),
        (
            "did:d:claims",
            "
            @prefix xsd: <http://www.w3.org/2001/XMLSchema#> .
            @prefix schema: <http://schema.org/> .
            <did:d> schema:birthDate \"2002-09-24Z\"^^xsd:date .
            ",
        ),
    ]
    .iter()
    .map(|(a, b)| (*a, from_ttl(b).unwrap()))
    .collect()
}

fn list_graphs(store: &impl Store) -> Vec<RdfNode> {
    let answer = store
        .query(
            "SELECT DISTINCT ?g WHERE { GRAPH ?g { ?s ?p ?o } }"
                .parse()
                .unwrap(),
        )
        .unwrap();
    match answer {
        QueryResults::Solutions(rows) => rows.into_iter().flatten().collect(),
        QueryResults::Boolean(_) | QueryResults::Graph(_) => panic!("expected solutions"),
    }
}

fn list_quads(store: &impl Store) -> usize {
    let answer = store
        .query(
            "SELECT ?s ?p ?o ?g WHERE { GRAPH ?g { ?s ?p ?o } }"
                .parse()
                .unwrap(),
        )
        .unwrap();
    match answer {
        QueryResults::Solutions(rows) => rows.len(),
        QueryResults::Boolean(_) | QueryResults::Graph(_) => panic!("expected solutions"),
    }
}

fn sorted<T: Ord>(inp: impl IntoIterator<Item = T>) -> Vec<T> {
    let mut ret = inp.into_iter().collect::<Vec<T>>();
    ret.sort();
    ret
}

fn named_node(iri: &str) -> NamedNode {
    NamedNode::new(iri).unwrap()
}

fn agent_over(documents: &[(&'static str, &str)]) -> Agent<MemoryStore, BTreeMap<&'static str, Graph>> {
    let curio = Curiosity::create(curious_about_everything()).unwrap();
    let table: BTreeMap<&'static str, Graph> = documents
        .iter()
        .map(|(a, b)| (*a, from_ttl(b).unwrap()))
        .collect();
    Agent::new(curio, MemoryStore::default(), table)
}

fn rows(store: &impl Store, text: &str) -> Vec<Vec<RdfNode>> {
    match store.query(text.parse().unwrap()).unwrap() {
        QueryResults::Solutions(rows) => rows,
        QueryResults::Boolean(_) | QueryResults::Graph(_) => panic!("expected solutions"),
    }
}

#[test]
fn blank_nodes_of_two_documents_stay_apart_in_the_store() {
    // both documents call their anonymous entity b0
    let mut ca = agent_over(&[
        ("did:root", "<did:x> <did:next> <did:y> ."),
        ("did:x", "_:b0 <did:says> \"x\" . _:b0 <did:also> \"x again\" ."),
        ("did:y", "_:b0 <did:says> \"y\" ."),
    ]);
    ca.investigate(named_node("did:root")).unwrap();
    assert_eq!(ca.crawl().unwrap(), true);
    let said = rows(&ca, "SELECT ?s ?o WHERE { GRAPH ?g { ?s <did:says> ?o } } ORDER BY ?o");
    assert_eq!(said.len(), 2);
    // two entities, two identities
    assert_ne!(said[0][0], said[1][0]);
    // within one document the label means one entity
    let also = rows(&ca, "SELECT ?s WHERE { GRAPH ?g { ?s <did:also> ?o } }");
    assert_eq!(also, vec![vec![said[0][0].clone()]]);
    // and each entity keeps its own edges
    let of_x = rows(
        &ca,
        "SELECT ?o WHERE { GRAPH <did:x> { ?s <did:says> ?o . ?s <did:also> ?a } }",
    );
    assert_eq!(of_x.len(), 1);
    assert_eq!(of_x[0], vec![said[0][1].clone()]);
}

#[test]
fn contents_are_stored_under_the_name_of_their_document() {
    let mut ca = agent_over(&[("did:doc", "<did:s> <did:p> <did:o> .")]);
    ca.investigate(named_node("did:doc")).unwrap();
    assert_eq!(
        rows(&ca, "SELECT ?g ?s ?p ?o WHERE { GRAPH ?g { ?s ?p ?o } }"),
        vec![vec![
            RdfNode::Iri("did:doc".to_string()),
            RdfNode::Iri("did:s".to_string()),
            RdfNode::Iri("did:p".to_string()),
            RdfNode::Iri("did:o".to_string()),
        ]]
    );
}

#[test]
fn a_round_leaves_none_of_its_candidates_novel() {
    let mut ca = default_agent();
    ca.investigate(named_node("did:a")).unwrap();
    let candidates: Vec<String> = ca
        .curious()
        .unwrap()
        .into_iter()
        .map(|n| n.into_string())
        .collect();
    assert!(!candidates.is_empty());
    assert_eq!(ca.next().unwrap(), false);
    let offered: Vec<String> = ca
        .curious()
        .unwrap()
        .into_iter()
        .map(|n| n.into_string())
        .collect();
    for candidate in candidates {
        assert!(!offered.contains(&candidate));
    }
}

#[test]
fn the_crawl_ends_within_as_many_rounds_as_there_are_identifiers() {
    // what can be reached from did:a mentions eleven identifiers: six
    // documents, three predicates and two delegations
    let mut ca = default_agent();
    ca.investigate(named_node("did:a")).unwrap();
    assert_eq!(ca.crawl_within(11).unwrap(), true);
    // the chain is six documents long: six rounds have work to do
    let mut ca = default_agent();
    ca.investigate(named_node("did:a")).unwrap();
    assert_eq!(ca.crawl_within(6).unwrap(), false);
    assert_eq!(ca.crawl_within(1).unwrap(), true);
}

#[test]
fn recorded_outcomes_drive_the_agent_without_its_resolver() {
    let mut ca = agent_over(&[]);
    let graph = from_ttl("<did:a> <did:p> <did:b> .").unwrap();
    ca.record(named_node("did:a"), Ok(graph)).unwrap();
    let mut offered: Vec<String> = ca
        .curious()
        .unwrap()
        .into_iter()
        .map(|n| n.into_string())
        .collect();
    offered.sort();
    assert_eq!(offered, vec!["did:b".to_string(), "did:p".to_string()]);
    let err = ca
        .record(named_node("did:b"), Err(LookupError::new("gone")))
        .unwrap_err();
    assert_eq!(err.message(), "gone");
    // a second outcome for a decided document changes nothing
    let again = from_ttl("<did:a> <did:p> <did:c> .").unwrap();
    ca.record(named_node("did:a"), Ok(again)).unwrap();
    assert_eq!(list_quads(&ca), 1);
    let offered: Vec<String> = ca
        .curious()
        .unwrap()
        .into_iter()
        .map(|n| n.into_string())
        .collect();
    assert_eq!(offered, vec!["did:p".to_string()]);
}

#[test]
fn a_round_decides_every_candidate() {
    let mut ca = default_agent();
    assert_eq!(ca.round(&vec![]), true);
    assert_eq!(list_quads(&ca), 0);
    let converged = ca.round(&vec![
        named_node("did:a"),
        named_node("did:nowhere"),
        named_node("did:a"),
    ]);
    assert_eq!(converged, false);
    let offered: Vec<String> = ca
        .curious()
        .unwrap()
        .into_iter()
        .map(|n| n.into_string())
        .collect();
    assert!(!offered.contains(&"did:a".to_string()));
    assert!(!offered.contains(&"did:nowhere".to_string()));
    assert!(offered.contains(&"did:a:claims".to_string()));
    // did:a was merged once
    assert_eq!(list_quads(&ca), 1);
}

#[test]
fn novel_named_nodes_keeps_order_and_drops_repeats() {
    let mut progress = CrawlProgress::default();
    progress.visit(named_node("did:seen"));
    progress.error(named_node("did:failed"));
    let terms = vec![
        RdfNode::Iri("did:b".to_string()),
        RdfNode::Blank("b0".to_string()),
        RdfNode::Iri("did:seen".to_string()),
        RdfNode::Literal {
            value: "did:lit".to_string(),
            datatype: "http://www.w3.org/2001/XMLSchema#string".to_string(),
            language: None,
        },
        RdfNode::Iri("did:a".to_string()),
        RdfNode::Iri("no iri at all".to_string()),
        RdfNode::Iri("did:failed".to_string()),
        RdfNode::Iri("did:b".to_string()),
    ];
    let found: Vec<String> = novel_named_nodes(&terms, &progress)
        .into_iter()
        .map(|n| n.into_string())
        .collect();
    assert_eq!(found, vec!["did:b", "did:a"]);
    assert!(novel_named_nodes(&vec![], &progress).is_empty());
}

#[test]
fn an_agent_without_curiosity_has_converged() {
    let curio = Curiosity::create(vec![]).unwrap();
    let mut ca = Agent::new(curio, MemoryStore::default(), supergraph());
    ca.investigate(named_node("did:a")).unwrap();
    assert_eq!(ca.next().unwrap(), true);
    assert_eq!(ca.crawl().unwrap(), true);
    assert_eq!(list_quads(&ca), 1);
}

#[test]
fn the_agent_is_a_store() {
    let mut ca = agent_over(&[]);
    let graph = from_ttl("<did:s> <did:p> <did:o> .").unwrap();
    for triple in graph {
        ca.insert(triple.in_graph(named_node("did:g")));
    }
    assert_eq!(list_quads(&ca), 1);
    assert_eq!(
        list_graphs(&ca),
        vec![RdfNode::Iri("did:g".to_string())]
    );
}

struct Forgetful {
    inner: MemoryStore,
    answers_left: std::cell::Cell<usize>,
}

impl Store for Forgetful {
    fn quads(&self) -> vstd::set::Set<quaerit_machina::model::QuadView> {
        unreachable!()
    }

    fn stored_literal(
        _value: vstd::seq::Seq<char>,
        _datatype: vstd::seq::Seq<char>,
    ) -> quaerit_machina::types::NodeView {
        unreachable!()
    }

    fn insert(&mut self, quad: quaerit_machina::model::Quad) {
        Store::insert(&mut self.inner, quad)
    }

    fn query(&self, query: Query) -> Result<QueryResults, oxigraph::sparql::EvaluationError> {
        if self.answers_left.get() == 0 {
            return Err(std::io::Error::new(std::io::ErrorKind::Other, "worn out").into());
        }
        self.answers_left.set(self.answers_left.get() - 1);
        Store::query(&self.inner, query)
    }
}

#[test]
fn a_failing_query_ends_the_crawl_and_changes_nothing() {
    let curio = Curiosity::create(curious_about_everything()).unwrap();
    let store = Forgetful {
        inner: MemoryStore::default(),
        // enough for one round of four queries, and for half of the next
        answers_left: std::cell::Cell::new(6),
    };
    let mut ca = Agent::new(curio, store, supergraph());
    ca.investigate(named_node("did:a")).unwrap();
    let err = ca.crawl().unwrap_err();
    assert!(format!("{}", err).contains("worn out"));
    // the first round was done, the second was not begun
    assert!(ca.crawl_progress().is_visited(&named_node("did:a:claims")));
    assert!(ca.crawl_progress().novel(&named_node("did:b")));
    assert!(ca.next().is_err());
    assert!(ca.curious().is_err());
    assert!(ca.crawl_progress().novel(&named_node("did:b")));
}

#[test]
fn an_identifier_bound_by_two_queries_is_one_candidate() {
    let mut ca = agent_over(&[("did:a", "<did:x> <did:a> <did:x> .")]);
    ca.investigate(named_node("did:a")).unwrap();
    let offered: Vec<String> = ca
        .curious()
        .unwrap()
        .into_iter()
        .map(|n| n.into_string())
        .collect();
    assert_eq!(offered, vec!["did:x".to_string()]);
}

struct Recording {
    table: BTreeMap<&'static str, Graph>,
    asked: std::rc::Rc<std::cell::RefCell<Vec<String>>>,
}

impl quaerit_machina::Lookup for Recording {
    fn lookup(&mut self, iri: &NamedNode) -> Result<Graph, LookupError> {
        self.asked.borrow_mut().push(iri.as_str().to_string());
        quaerit_machina::Lookup::lookup(&mut self.table, iri)
    }
}

fn recording_agent(
    documents: &[(&'static str, &str)],
) -> (Agent<MemoryStore, Recording>, std::rc::Rc<std::cell::RefCell<Vec<String>>>) {
    let curio = Curiosity::create(curious_about_everything()).unwrap();
    let table: BTreeMap<&'static str, Graph> = documents
        .iter()
        .map(|(a, b)| (*a, from_ttl(b).unwrap()))
        .collect();
    let asked = std::rc::Rc::new(std::cell::RefCell::new(vec![]));
    let agent = Agent::new(
        curio,
        MemoryStore::default(),
        Recording { table, asked: asked.clone() },
    );
    (agent, asked)
}

#[test]
fn a_round_asks_the_resolver_once_for_each_candidate_in_order() {
    let (mut ca, asked) = recording_agent(&[]);
    assert_eq!(ca.round(&vec![]), true);
    assert!(asked.borrow().is_empty());
    assert_eq!(
        ca.round(&vec![named_node("did:a"), named_node("did:b"), named_node("did:a")]),
        false
    );
    assert_eq!(*asked.borrow(), vec!["did:a", "did:b", "did:a"]);
    // every lookup failed: all are errored and the store is as it was
    assert!(ca.crawl_progress().is_errored(&named_node("did:a")));
    assert!(ca.crawl_progress().is_errored(&named_node("did:b")));
    assert_eq!(list_quads(&ca), 0);
}

#[test]
fn a_crawl_looks_every_identifier_up_once() {
    let (mut ca, asked) = recording_agent(&[
        ("did:a", "<did:x> <did:a> <did:x> . <did:x> <did:p> <did:a> ."),
        ("did:x", "<did:x> <did:p> <did:x> ."),
    ]);
    ca.investigate(named_node("did:a")).unwrap();
    assert_eq!(ca.crawl().unwrap(), true);
    let mut seen = asked.borrow().clone();
    seen.sort();
    assert_eq!(seen, vec!["did:a", "did:p", "did:x"]);
    assert!(ca.crawl_progress().is_visited(&named_node("did:x")));
    assert!(ca.crawl_progress().is_errored(&named_node("did:p")));
}
