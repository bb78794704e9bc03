use quaerit_machina::crawl_progress::CrawlProgress;
use quaerit_machina::model::NamedNode;

fn node(iri: &str) -> NamedNode {
    NamedNode::new(iri).unwrap()
}

#[test]
fn fresh_progress_finds_everything_novel() {
    let progress = CrawlProgress::default();
    assert!(progress.novel(&node("did:a")));
    assert!(progress.novel(&node("did:b")));
}

#[test]
fn visited_is_not_novel() {
    let mut progress = CrawlProgress::default();
    progress.visit(node("did:a"));
    assert!(!progress.novel(&node("did:a")));
    assert!(progress.novel(&node("did:b")));
}

#[test]
fn errored_is_not_novel() {
    let mut progress = CrawlProgress::default();
    progress.error(node("did:a"));
    assert!(!progress.novel(&node("did:a")));
    assert!(progress.novel(&node("did:b")));
}

#[test]
fn marks_are_idempotent() {
    let mut progress = CrawlProgress::default();
    progress.visit(node("did:a"));
    progress.visit(node("did:a"));
    progress.error(node("did:b"));
    progress.error(node("did:b"));
    assert!(!progress.novel(&node("did:a")));
    assert!(!progress.novel(&node("did:b")));
    assert!(progress.novel(&node("did:c")));
}

#[test]
fn nothing_returns_to_novel() {
    let mut progress = CrawlProgress::default();
    progress.visit(node("did:a"));
    progress.error(node("did:a"));
    assert!(!progress.novel(&node("did:a")));
    progress.visit(node("did:a"));
    assert!(!progress.novel(&node("did:a")));
    progress.error(node("did:b"));
    progress.visit(node("did:c"));
    assert!(!progress.novel(&node("did:a")));
    assert!(!progress.novel(&node("did:b")));
    assert!(!progress.novel(&node("did:c")));
}

#[test]
fn visited_and_errored_are_told_apart() {
    let mut progress = CrawlProgress::default();
    progress.visit(node("did:a"));
    progress.error(node("did:b"));
    assert!(progress.is_visited(&node("did:a")));
    assert!(!progress.is_errored(&node("did:a")));
    assert!(progress.is_errored(&node("did:b")));
    assert!(!progress.is_visited(&node("did:b")));
    assert!(!progress.is_visited(&node("did:c")));
    assert!(!progress.is_errored(&node("did:c")));
}

#[test]
fn no_identifier_is_in_both_sets() {
    let mut progress = CrawlProgress::default();
    progress.error(node("did:a"));
    progress.visit(node("did:a"));
    assert!(progress.is_visited(&node("did:a")));
    assert!(!progress.is_errored(&node("did:a")));
    progress.error(node("did:a"));
    assert!(!progress.is_visited(&node("did:a")));
    assert!(progress.is_errored(&node("did:a")));
}
