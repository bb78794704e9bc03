use oxigraph::store::MemoryStore;
use quaerit_machina::convert::rm_to_om::triple;
use quaerit_machina::curiosity::bound_terms;
use quaerit_machina::model::NamedNode;
use quaerit_machina::raw::{RawNamedOrBlankNode, RawTerm, RawTriple};
use quaerit_machina::sparql::{Query, QueryForm, QueryResults};
use quaerit_machina::{Curiosity, RdfNode, Store};

fn s(text: &str) -> String {
    text.to_string()
}

fn query(text: &str) -> Query {
    Query::parse(text).unwrap()
}

#[test]
fn queries_know_their_form() {
    assert_eq!(query("SELECT ?s WHERE { ?s ?p ?o }").form(), QueryForm::Select);
    assert_eq!(query("ASK { ?s ?p ?o }").form(), QueryForm::Ask);
    assert_eq!(
        query("CONSTRUCT { ?s ?p ?o } WHERE { ?s ?p ?o }").form(),
        QueryForm::Construct
    );
    assert_eq!(query("DESCRIBE <did:a>").form(), QueryForm::Describe);
    assert!(query("SELECT ?s WHERE { ?s ?p ?o }").is_select());
    assert!(!query("ASK { ?s ?p ?o }").is_select());
    assert_eq!(query("ASK { ?s ?p ?o }").as_str(), "ASK { ?s ?p ?o }");
    assert_eq!(query("ASK { ?s ?p ?o }").clone().as_str(), "ASK { ?s ?p ?o }");
}

#[test]
fn what_is_no_query_does_not_parse() {
    assert!(Query::parse("this is no query").is_err());
    assert!(Query::parse("").is_err());
    assert!("SELECT".parse::<Query>().is_err());
}

#[test]
fn a_curiosity_of_select_queries_is_made() {
    let made = Curiosity::create(vec![
        query("SELECT ?s WHERE { ?s ?p ?o }"),
        query("SELECT DISTINCT ?g WHERE { GRAPH ?g { ?s ?p ?o } }"),
    ])
    .unwrap();
    assert_eq!(made.queries().len(), 2);
    assert_eq!(made.queries()[0].as_str(), "SELECT ?s WHERE { ?s ?p ?o }");
    assert!(Curiosity::create(vec![]).is_ok());
}

#[test]
fn a_curiosity_with_a_query_that_is_no_select_is_refused() {
    assert!(Curiosity::create(vec![query("ASK { ?s ?p ?o }")]).is_err());
    assert!(Curiosity::create(vec![
        query("SELECT ?s WHERE { ?s ?p ?o }"),
        query("CONSTRUCT { ?s ?p ?o } WHERE { ?s ?p ?o }"),
    ])
    .is_err());
    assert!(Curiosity::create(vec![
        query("DESCRIBE <did:a>"),
        query("SELECT ?s WHERE { ?s ?p ?o }"),
    ])
    .is_err());
}

#[test]
fn bound_terms_are_collected_row_by_row() {
    let rows = vec![
        vec![RdfNode::Iri(s("did:a")), RdfNode::Blank(s("b0"))],
        vec![],
        vec![RdfNode::Iri(s("did:b"))],
    ];
    let mut terms = vec![RdfNode::Iri(s("did:z"))];
    bound_terms(&rows, &mut terms);
    assert_eq!(
        terms,
        vec![
            RdfNode::Iri(s("did:z")),
            RdfNode::Iri(s("did:a")),
            RdfNode::Blank(s("b0")),
            RdfNode::Iri(s("did:b")),
        ]
    );
}

fn store_with_one_quad() -> MemoryStore {
    let mut store = MemoryStore::new();
    let t = triple(&RawTriple {
        subject: RawNamedOrBlankNode::NamedNode(s("did:s")),
        predicate: s("did:p"),
        object: RawTerm::NamedNode(s("did:o")),
    })
    .unwrap();
    Store::insert(&mut store, t.in_graph(NamedNode::new("did:g").unwrap()));
    store
}

#[test]
fn curious_collects_what_every_query_binds() {
    let store = store_with_one_quad();
    let curiosity = Curiosity::create(vec![
        query("SELECT ?s WHERE { GRAPH ?g { ?s ?p ?o } }"),
        query("SELECT ?o ?g WHERE { GRAPH ?g { ?s ?p ?o } }"),
    ])
    .unwrap();
    assert_eq!(
        curiosity.curious(&store).unwrap(),
        vec![
            RdfNode::Iri(s("did:s")),
            RdfNode::Iri(s("did:o")),
            RdfNode::Iri(s("did:g")),
        ]
    );
}

#[test]
fn curious_on_an_empty_store_finds_nothing() {
    let store = MemoryStore::new();
    let curiosity = Curiosity::create(vec![query("SELECT ?s WHERE { ?s ?p ?o }")]).unwrap();
    assert!(curiosity.curious(&store).unwrap().is_empty());
}

#[test]
fn memory_store_answers_each_form_in_kind() {
    let store = store_with_one_quad();
    match Store::query(&store, query("ASK { GRAPH ?g { <did:s> ?p ?o } }")).unwrap() {
        QueryResults::Boolean(yes) => assert!(yes),
        _ => panic!("expected a truth value"),
    }
    match Store::query(&store, query("ASK { GRAPH ?g { <did:o> ?p ?o } }")).unwrap() {
        QueryResults::Boolean(yes) => assert!(!yes),
        _ => panic!("expected a truth value"),
    }
    match Store::query(
        &store,
        query("CONSTRUCT { ?o ?p ?s } WHERE { GRAPH ?g { ?s ?p ?o } }"),
    )
    .unwrap()
    {
        QueryResults::Graph(triples) => assert_eq!(
            triples,
            vec![(
                RdfNode::Iri(s("did:o")),
                RdfNode::Iri(s("did:p")),
                RdfNode::Iri(s("did:s"))
            )]
        ),
        _ => panic!("expected a graph"),
    }
    match Store::query(&store, query("SELECT ?g ?s WHERE { GRAPH ?g { ?s ?p ?o } }")).unwrap() {
        QueryResults::Solutions(rows) => assert_eq!(
            rows,
            vec![vec![RdfNode::Iri(s("did:g")), RdfNode::Iri(s("did:s"))]]
        ),
        _ => panic!("expected solutions"),
    }
}

#[test]
fn memory_store_keeps_blank_nodes_and_literals() {
    let mut store = MemoryStore::new();
    let t = quaerit_machina::ttl::from_ttl(
        "<did:s> <did:p> \"Hallo\"@DE . <did:s> <did:q> \"plain\" . <did:s> <did:r> _:x .",
    )
    .unwrap();
    for t in t.into_triples() {
        Store::insert(&mut store, t.in_graph(NamedNode::new("did:g").unwrap()));
    }
    let answer = Store::query(
        &store,
        query("SELECT ?o WHERE { GRAPH <did:g> { <did:s> ?p ?o } } ORDER BY ?p"),
    )
    .unwrap();
    match answer {
        QueryResults::Solutions(rows) => assert_eq!(
            rows,
            vec![
                vec![RdfNode::Literal {
                    value: s("Hallo"),
                    datatype: s("http://www.w3.org/1999/02/22-rdf-syntax-ns#langString"),
                    language: Some(s("de")),
                }],
                vec![RdfNode::Literal {
                    value: s("plain"),
                    datatype: s("http://www.w3.org/2001/XMLSchema#string"),
                    language: None,
                }],
                vec![RdfNode::Blank(s("0"))],
            ]
        ),
        _ => panic!("expected solutions"),
    }
}

struct Broken;

impl Store for Broken {
    fn quads(&self) -> vstd::set::Set<quaerit_machina::model::QuadView> {
        unreachable!()
    }

    fn stored_literal(
        _value: vstd::seq::Seq<char>,
        _datatype: vstd::seq::Seq<char>,
    ) -> quaerit_machina::types::NodeView {
        unreachable!()
    }

    fn insert(&mut self, _quad: quaerit_machina::model::Quad) {}

    fn query(
        &self,
        _query: Query,
    ) -> Result<QueryResults, oxigraph::sparql::EvaluationError> {
        Err(std::io::Error::new(std::io::ErrorKind::Other, "broken").into())
    }
}

#[test]
fn a_query_that_the_store_cannot_evaluate_is_an_error() {
    let curiosity = Curiosity::create(vec![query("SELECT ?s WHERE { ?s ?p ?o }")]).unwrap();
    let err = curiosity.curious(&Broken).unwrap_err();
    assert!(format!("{}", err).contains("broken"));
    // without a query the store is not asked
    assert!(Curiosity::create(vec![]).unwrap().curious(&Broken).unwrap().is_empty());
}

#[test]
fn memory_store_keeps_known_literals_by_their_value() {
    let mut store = MemoryStore::new();
    let graph = quaerit_machina::ttl::from_ttl(
        "<did:s> <did:a> \"05\"^^<http://www.w3.org/2001/XMLSchema#integer> .
         <did:s> <did:b> \"1\"^^<http://www.w3.org/2001/XMLSchema#boolean> .
         <did:s> <did:c> \"05\"^^<did:unknown> .",
    )
    .unwrap();
    for t in graph.into_triples() {
        Store::insert(&mut store, t.in_graph(NamedNode::new("did:g").unwrap()));
    }
    let answer = Store::query(
        &store,
        query("SELECT ?o WHERE { GRAPH <did:g> { <did:s> ?p ?o } } ORDER BY ?p"),
    )
    .unwrap();
    match answer {
        QueryResults::Solutions(rows) => assert_eq!(
            rows,
            vec![
                vec![RdfNode::Literal {
                    value: s("5"),
                    datatype: s("http://www.w3.org/2001/XMLSchema#integer"),
                    language: None,
                }],
                vec![RdfNode::Literal {
                    value: s("true"),
                    datatype: s("http://www.w3.org/2001/XMLSchema#boolean"),
                    language: None,
                }],
                vec![RdfNode::Literal {
                    value: s("05"),
                    datatype: s("did:unknown"),
                    language: None,
                }],
            ]
        ),
        _ => panic!("expected solutions"),
    }
}
