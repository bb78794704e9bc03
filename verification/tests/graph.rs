use quaerit_machina::convert::rm_to_om::triple;
use quaerit_machina::model::Triple;
use quaerit_machina::raw::{RawLiteral, RawNamedOrBlankNode, RawTerm, RawTriple};
use quaerit_machina::{Graph, RdfNode};

fn s(text: &str) -> String {
    text.to_string()
}

fn blank_to_blank(subject: &str, object: &str) -> Triple {
    triple(&RawTriple {
        subject: RawNamedOrBlankNode::BlankNode(s(subject)),
        predicate: s("did:knows"),
        object: RawTerm::BlankNode(s(object)),
    })
    .unwrap()
}

fn blank_says(subject: &str, value: &str) -> Triple {
    triple(&RawTriple {
        subject: RawNamedOrBlankNode::BlankNode(s(subject)),
        predicate: s("did:name"),
        object: RawTerm::Literal(RawLiteral::Simple { value: s(value) }),
    })
    .unwrap()
}

fn named(subject: &str, object: &str) -> Triple {
    triple(&RawTriple {
        subject: RawNamedOrBlankNode::NamedNode(s(subject)),
        predicate: s("did:knows"),
        object: RawTerm::NamedNode(s(object)),
    })
    .unwrap()
}

fn label(node: &RdfNode) -> String {
    match node {
        RdfNode::Blank(id) => id.clone(),
        _ => panic!("not a blank node"),
    }
}

#[test]
fn empty_graph() {
    assert_eq!(Graph::default().len(), 0);
    assert_eq!(Graph::new(vec![]).len(), 0);
    assert_eq!(Graph::new(vec![]), Graph::default());
}

#[test]
fn named_nodes_and_literals_stay_as_they_are() {
    let graph = Graph::new(vec![named("did:a", "did:b"), named("did:b", "did:c")]);
    assert_eq!(graph.len(), 2);
    assert_eq!(graph.triples()[0], named("did:a", "did:b"));
    assert_eq!(graph.triples()[1], named("did:b", "did:c"));
}

#[test]
fn blank_nodes_are_numbered_from_zero_in_order_of_appearance() {
    let graph = Graph::new(vec![blank_to_blank("x", "y"), blank_to_blank("y", "z")]);
    let triples = graph.triples();
    assert_eq!(label(triples[0].subject()), "0");
    assert_eq!(label(triples[0].object()), "1");
    assert_eq!(label(triples[1].subject()), "1");
    assert_eq!(label(triples[1].object()), "2");
}

#[test]
fn numbers_are_written_as_lower_case_hexadecimal() {
    let mut ts = Vec::new();
    for i in 0..27 {
        ts.push(blank_says(&format!("n{}", i), "x"));
    }
    let graph = Graph::new(ts);
    assert_eq!(label(graph.triples()[10].subject()), "a");
    assert_eq!(label(graph.triples()[26].subject()), "1a");
}

#[test]
fn renaming_is_consistent_within_one_graph() {
    let graph = Graph::new(vec![
        blank_to_blank("b0", "b1"),
        blank_says("b0", "zero"),
        blank_says("b1", "one"),
    ]);
    let triples = graph.triples();
    assert_eq!(triples[0].subject(), triples[1].subject());
    assert_eq!(triples[0].object(), triples[2].subject());
    assert_ne!(triples[1].subject(), triples[2].subject());
    assert_eq!(triples[1].object(), blank_says("b0", "zero").object());
    assert_eq!(triples[0].predicate().as_str(), "did:knows");
}

#[test]
fn merging_keeps_the_blank_nodes_of_two_documents_apart() {
    // both documents call their anonymous entity b0
    let mut merged = Graph::new(vec![blank_says("b0", "policy of A")]);
    let first = merged.triples()[0].clone();
    merged.extend_hygienic(vec![blank_says("b0", "policy of B")]);
    assert_eq!(merged.len(), 2);
    let triples = merged.triples();
    // what was there stays as it was
    assert_eq!(triples[0], first);
    // the two entities have two identities
    assert_ne!(triples[0].subject(), triples[1].subject());
    // and each keeps its own outgoing edge
    let edges_of = |subject: &RdfNode| -> Vec<RdfNode> {
        triples
            .iter()
            .filter(|t| t.subject() == subject)
            .map(|t| t.object().clone())
            .collect()
    };
    assert_eq!(
        edges_of(triples[0].subject()),
        vec![blank_says("x", "policy of A").object().clone()]
    );
    assert_eq!(
        edges_of(triples[1].subject()),
        vec![blank_says("x", "policy of B").object().clone()]
    );
}

#[test]
fn merging_a_graph_made_elsewhere_renames_its_blank_nodes() {
    let mut a = Graph::new(vec![blank_to_blank("b0", "b1")]);
    let b = Graph::new(vec![blank_to_blank("b0", "b1")]);
    // made apart, the two use the same labels
    assert_eq!(a, b);
    a.extend_hygienic(b.into_triples());
    let triples = a.triples();
    let labels: Vec<String> = vec![
        label(triples[0].subject()),
        label(triples[0].object()),
        label(triples[1].subject()),
        label(triples[1].object()),
    ];
    assert_eq!(labels, vec!["0", "1", "2", "3"]);
}

#[test]
fn clone_is_equal() {
    let graph = Graph::new(vec![blank_to_blank("b0", "b1"), named("did:a", "did:b")]);
    assert_eq!(graph.clone(), graph);
    assert_eq!(graph.clone().into_triples(), graph.into_triples());
}
