//! The agent: it drives rounds of discovery and resolution until nothing
//! novel is left to look at.
use crate::crawl_progress::{lemma_mark_novel, rounds, CrawlProgress, ProgressView};
use crate::curiosity::{asked, collected, gathered, node_views, Curiosity};
use crate::lookup::{Lookup, LookupError};
use crate::model::{NamedNode, Quad, QuadView, TripleView};
use crate::rdf_graph::{
    blanks, hygienic, lemma_renamed_blanks, numbered_below, rename_all, rename_blanks,
    triple_views, Graph,
};
use crate::sparql::{Query, QueryResults};
use crate::store::{kept, Store};
use crate::types::{NodeView, RdfNode};
use crate::util::{as_named_node, named_node_of};
use oxigraph::sparql::EvaluationError;
use vstd::hash_set::StringHashSet;
use vstd::prelude::*;

verus! {

/// The IRIs of a list of named nodes.
pub open spec fn named_views(nodes: Seq<NamedNode>) -> Seq<Seq<char>> {
    nodes.map_values(|n: NamedNode| n@)
}

/// The IRI that a term offers as a candidate: its own, if the term is a
/// named node about which nothing has been decided.
pub open spec fn candidate(node: NodeView, progress: ProgressView) -> Option<Seq<char>> {
    match named_node_of(node) {
        Some(iri) => if progress.novel(iri) {
            Some(iri)
        } else {
            None
        },
        None => None,
    }
}

/// The novel IRIs among the terms, in the order and as often as the terms
/// hold them. The candidates of a round are these without their repeats.
pub open spec fn candidates(terms: Seq<NodeView>, progress: ProgressView) -> Seq<Seq<char>> {
    terms.filter_map(|node: NodeView| candidate(node, progress))
}

/// Whether `res` is what comes of asking `queries` queries, getting
/// `answers`, and keeping the candidates. Either every query was answered,
/// and the result holds the candidates among what the answers bind, each
/// once and in the order in which they are first bound; or the last answer is an error, no answer before it is
/// one, no query after it was asked, and the result is that error.
pub open spec fn selected(
    queries: nat,
    answers: Seq<Result<QueryResults, EvaluationError>>,
    progress: ProgressView,
    res: Result<Vec<NamedNode>, EvaluationError>,
) -> bool {
    &&& forall|i: int| 0 <= i < answers.len() - 1 ==> (#[trigger] answers[i]) is Ok
    &&& match res {
        Ok(found) => {
            &&& answers.len() == queries
            &&& queries > 0 ==> answers.last() is Ok
            &&& named_views(found@) == distinct(candidates(gathered(answers), progress))
        },
        Err(e) => answers.len() > 0 && answers.last() == Err::<QueryResults, EvaluationError>(e),
    }
}

/// The triples as quads of the document `graph_name`, each in the form in
/// which the store keeps it.
pub open spec fn in_graph<S: Store>(triples: Seq<TripleView>, graph_name: Seq<char>) -> Set<
    QuadView,
> {
    Set::new(
        |quad: QuadView|
            exists|i: int|
                0 <= i < triples.len() && quad == kept::<S>(
                    QuadView { triple: #[trigger] triples[i], graph_name },
                ),
    )
}

/// Whether a store and a set of taken blank node labels are what they were
/// plus the contents of a document: the triples of `contents`, their blank
/// nodes renamed away from every label that was taken, stand in the store
/// as quads of `document`, and the labels they use are taken now.
pub open spec fn noted<S: Store>(
    quads_before: Set<QuadView>,
    taken_before: Set<Seq<char>>,
    contents: Seq<TripleView>,
    document: Seq<char>,
    quads_after: Set<QuadView>,
    taken_after: Set<Seq<char>>,
) -> bool {
    exists|renaming: Map<Seq<char>, Seq<char>>|
        #![auto]
        {
            &&& hygienic(renaming, contents, taken_before)
            &&& quads_after == quads_before.union(
                in_graph::<S>(rename_all(contents, renaming), document),
            )
            &&& taken_before.union(blanks(rename_all(contents, renaming))).subset_of(taken_after)
        }
}

/// A sequence with one more element holds what it held, and that element.
proof fn lemma_contains_push<A>(s: Seq<A>, a: A, x: A)
    ensures
        s.push(a).contains(x) <==> (s.contains(x) || x == a),
{
    if s.push(a).contains(x) {
        let k = choose|k: int| 0 <= k < s.push(a).len() && #[trigger] s.push(a)[k] == x;
        if k < s.len() {
            assert(s[k] == x);
        }
    }
    if s.contains(x) {
        let k = choose|k: int| 0 <= k < s.len() && #[trigger] s[k] == x;
        assert(s.push(a)[k] == x);
    }
    if x == a {
        assert(s.push(a)[s.len() as int] == x);
    }
}

proof fn lemma_to_set_push<A>(s: Seq<A>, a: A)
    ensures
        s.push(a).to_set() == s.to_set().insert(a),
{
    assert forall|x: A| s.push(a).to_set().contains(x) <==> s.to_set().insert(a).contains(x) by {
        lemma_contains_push(s, a, x);
    }
    assert(s.push(a).to_set() =~= s.to_set().insert(a));
}

proof fn lemma_in_graph_push<S: Store>(
    triples: Seq<TripleView>,
    triple: TripleView,
    document: Seq<char>,
)
    ensures
        in_graph::<S>(triples.push(triple), document) == in_graph::<S>(triples, document).insert(
            kept::<S>(QuadView { triple, graph_name: document }),
        ),
{
    let longer = triples.push(triple);
    let quad = kept::<S>(QuadView { triple, graph_name: document });
    assert forall|q: QuadView|
        in_graph::<S>(longer, document).contains(q) implies in_graph::<S>(
        triples,
        document,
    ).insert(quad).contains(q) by {
        let i = choose|i: int|
            0 <= i < longer.len() && q == kept::<S>(
                QuadView { triple: #[trigger] longer[i], graph_name: document },
            );
        if i < triples.len() {
            assert(longer[i] == triples[i]);
        }
    }
    assert forall|q: QuadView|
        in_graph::<S>(triples, document).insert(quad).contains(q) implies in_graph::<S>(
        longer,
        document,
    ).contains(q) by {
        if q == quad {
            assert(longer[triples.len() as int] == triple);
        } else {
            let i = choose|i: int|
                0 <= i < triples.len() && q == kept::<S>(
                    QuadView { triple: #[trigger] triples[i], graph_name: document },
                );
            assert(longer[i] == triples[i]);
        }
    }
    assert(in_graph::<S>(longer, document) =~= in_graph::<S>(triples, document).insert(quad));
}

/// A sequence without its repeats: of equal elements the first stays.
pub open spec fn distinct<A>(s: Seq<A>) -> Seq<A>
    decreases s.len(),
{
    if s.len() == 0 {
        Seq::empty()
    } else if distinct(s.drop_last()).contains(s.last()) {
        distinct(s.drop_last())
    } else {
        distinct(s.drop_last()).push(s.last())
    }
}

/// A sequence without its repeats holds no element twice, and holds what
/// the sequence holds.
pub proof fn lemma_distinct<A>(s: Seq<A>)
    ensures
        distinct(s).no_duplicates(),
        distinct(s).to_set() == s.to_set(),
        distinct(s).len() <= s.len(),
    decreases s.len(),
{
    if s.len() == 0 {
        assert(distinct(s).to_set() =~= s.to_set());
    } else {
        let init = s.drop_last();
        let last = s.last();
        lemma_distinct(init);
        assert(s =~= init.push(last));
        lemma_to_set_push(init, last);
        if distinct(init).contains(last) {
            assert(init.to_set().contains(last));
            assert(distinct(s).to_set() =~= s.to_set());
        } else {
            lemma_to_set_push(distinct(init), last);
            assert(distinct(s).to_set() =~= s.to_set());
            assert forall|i: int, j: int|
                0 <= i < distinct(s).len() && 0 <= j < distinct(s).len() && i != j implies distinct(
                s,
            )[i] != distinct(s)[j] by {
                if i < distinct(init).len() && j < distinct(init).len() {
                } else if i < distinct(init).len() {
                    assert(distinct(init)[i] == distinct(s)[i]);
                } else {
                    assert(distinct(init)[j] == distinct(s)[j]);
                }
            }
        }
    }
}

/// The candidates among the terms: every named node about which nothing has
/// been decided, once, in the order in which the terms first hold it.
pub fn novel_named_nodes(terms: &Vec<RdfNode>, progress: &CrawlProgress) -> (res: Vec<NamedNode>)
    ensures
        named_views(res@) == distinct(candidates(node_views(terms@), progress@)),
        named_views(res@).no_duplicates(),
        named_views(res@).to_set() == candidates(node_views(terms@), progress@).to_set(),
        forall|i: int| 0 <= i < res.len() ==> progress@.novel(#[trigger] res[i]@),
        res.len() <= terms.len(),
{
    let ghost views = node_views(terms@);
    let ghost pick = |node: NodeView| candidate(node, progress@);
    let mut ret: Vec<NamedNode> = Vec::new();
    let mut seen = StringHashSet::new();
    let mut i: usize = 0;
    assert(named_views(ret@) =~= distinct(views.take(0).filter_map(pick)));
    assert(named_views(ret@).to_set() =~= Set::empty());
    while i < terms.len()
        invariant
            i <= terms.len(),
            views == node_views(terms@),
            pick == |node: NodeView| candidate(node, progress@),
            named_views(ret@) == distinct(views.take(i as int).filter_map(pick)),
            seen@ == named_views(ret@).to_set(),
            forall|j: int| 0 <= j < ret.len() ==> progress@.novel(#[trigger] ret[j]@),
            ret.len() <= i,
        decreases terms.len() - i,
    {
        let ghost before = named_views(ret@);
        let ghost sofar = views.take(i as int).filter_map(pick);
        proof {
            views.lemma_filter_map_take_succ(pick, i as int);
        }
        match as_named_node(&terms[i]) {
            Some(nn) => {
                if progress.novel(&nn) {
                    proof {
                        assert(views.take(i as int + 1).filter_map(pick) =~= sofar.push(nn@));
                        assert(sofar.push(nn@).drop_last() =~= sofar);
                    }
                    if !seen.contains(nn.as_str()) {
                        seen.insert(nn.clone().into_string());
                        ret.push(nn);
                        proof {
                            assert(named_views(ret@) =~= before.push(nn@));
                            lemma_to_set_push(before, nn@);
                        }
                    }
                }
            },
            None => {},
        }
        i += 1;
    }
    proof {
        assert(views.take(i as int) =~= views);
        lemma_distinct(candidates(views, progress@));
    }
    ret
}

/// The state of an agent, as far as its decisions go: the record of what
/// has been investigated, the quads of its store, the blank node labels it
/// has given out, and how many it can still give out.
pub struct AgentView {
    pub progress: ProgressView,
    pub quads: Set<QuadView>,
    pub taken: Set<Seq<char>>,
    pub room: nat,
}

/// The outcome of a lookup, as far as the agent reads it: the triples of
/// the graph, or the message of the error.
pub open spec fn outcome_view(outcome: Result<Graph, LookupError>) -> Result<
    Seq<TripleView>,
    Seq<char>,
> {
    match outcome {
        Ok(graph) => Ok(graph@),
        Err(e) => Err(e@),
    }
}

/// The outcomes of a list of lookups, as far as the agent reads them.
pub open spec fn outcome_views(outcomes: Seq<Result<Graph, LookupError>>) -> Seq<
    Result<Seq<TripleView>, Seq<char>>,
> {
    outcomes.map_values(|outcome: Result<Graph, LookupError>| outcome_view(outcome))
}

/// Whether `after` is the state that recording `outcome` for `document`
/// makes of `before`.
///
/// A document about which something was decided leaves the state as it is.
/// A novel document with a graph is visited, and the triples of the graph,
/// under fresh blank node labels, are quads of the document in the store;
/// a novel document with an error, or with a graph that needs more labels
/// than are left, is errored, and nothing else changes.
pub open spec fn recorded<S: Store>(
    before: AgentView,
    document: Seq<char>,
    outcome: Result<Seq<TripleView>, Seq<char>>,
    after: AgentView,
) -> bool {
    if !before.progress.novel(document) {
        after == before
    } else {
        match outcome {
            Ok(contents) => if 2 * contents.len() <= before.room {
                &&& after.progress == before.progress.visit(document)
                &&& noted::<S>(
                    before.quads,
                    before.taken,
                    contents,
                    document,
                    after.quads,
                    after.taken,
                )
                &&& after.room <= before.room
            } else {
                after == (AgentView { progress: before.progress.error(document), ..before })
            },
            Err(_) => after == (AgentView { progress: before.progress.error(document), ..before }),
        }
    }
}

/// Whether `after` is the state that recording the outcomes for the
/// documents, one after the other, makes of `before`.
pub open spec fn resolved<S: Store>(
    before: AgentView,
    documents: Seq<Seq<char>>,
    outcomes: Seq<Result<Seq<TripleView>, Seq<char>>>,
    after: AgentView,
) -> bool
    decreases documents.len(),
{
    &&& outcomes.len() == documents.len()
    &&& if documents.len() == 0 {
        after == before
    } else {
        exists|mid: AgentView|
            #![auto]
            resolved::<S>(before, documents.drop_last(), outcomes.drop_last(), mid) && recorded::<
                S,
            >(mid, documents.last(), outcomes.last(), after)
    }
}

/// Whether `after` has grown out of `before`: what was visited, errored,
/// stored or taken stays so, and every quad that the store has gained
/// stands under the name of a document that was novel and is visited now.
pub open spec fn grown(before: AgentView, after: AgentView) -> bool {
    &&& before.progress.wf() ==> after.progress.wf()
    &&& before.progress.visited.subset_of(after.progress.visited)
    &&& before.progress.errored.subset_of(after.progress.errored)
    &&& before.quads.subset_of(after.quads)
    &&& before.taken.subset_of(after.taken)
    &&& forall|quad: QuadView| #[trigger]
        after.quads.contains(quad) && !before.quads.contains(quad) ==> {
            &&& before.progress.novel(quad.graph_name)
            &&& after.progress.visited.contains(quad.graph_name)
        }
}

/// Recording an outcome makes the state grow.
pub proof fn lemma_recorded_grows<S: Store>(
    before: AgentView,
    document: Seq<char>,
    outcome: Result<Seq<TripleView>, Seq<char>>,
    after: AgentView,
)
    requires
        before.progress.wf(),
        recorded::<S>(before, document, outcome, after),
    ensures
        grown(before, after),
        after.progress.wf(),
        before.progress.decides(set![document], after.progress),
{
    if before.progress.novel(document) {
        lemma_mark_novel(before.progress, document);
        if after.progress == before.progress.visit(document) && outcome is Ok {
            let contents = outcome->Ok_0;
            let renaming = choose|renaming: Map<Seq<char>, Seq<char>>|
                #![auto]
                {
                    &&& hygienic(renaming, contents, before.taken)
                    &&& after.quads == before.quads.union(
                        in_graph::<S>(rename_all(contents, renaming), document),
                    )
                    &&& before.taken.union(blanks(rename_all(contents, renaming))).subset_of(
                        after.taken,
                    )
                };
            assert forall|quad: QuadView| #[trigger]
                after.quads.contains(quad) && !before.quads.contains(quad) implies quad.graph_name
                == document by {
                assert(in_graph::<S>(rename_all(contents, renaming), document).contains(quad));
            }
        }
    } else {
        assert(before.progress.decided().union(set![document]) =~= before.progress.decided());
    }
}

/// Growing is transitive.
pub proof fn lemma_grown_twice(before: AgentView, between: AgentView, after: AgentView)
    requires
        grown(before, between),
        grown(between, after),
    ensures
        grown(before, after),
{
    assert forall|quad: QuadView| #[trigger]
        after.quads.contains(quad) && !before.quads.contains(quad) implies before.progress.novel(
        quad.graph_name,
    ) && after.progress.visited.contains(quad.graph_name) by {
        if between.quads.contains(quad) {
        } else {
        }
    }
}

/// A crawler: a store of what is known, a record of what has been looked
/// at, the queries that say what is worth looking at, and a resolver.
pub struct Agent<S, L> {
    curiosity: Curiosity,
    knowlege_graph: S,
    progress: CrawlProgress,
    lookup: L,
    next_blank: u128,
}

impl<S: Store, L> Agent<S, L> {
    /// The record of what has been investigated.
    pub closed spec fn progress(&self) -> ProgressView {
        self.progress@
    }

    /// The texts of the queries that find candidates.
    pub closed spec fn curiosity(&self) -> Seq<Seq<char>> {
        self.curiosity@
    }

    /// The store of what is known.
    pub closed spec fn knowledge_graph(&self) -> &S {
        &self.knowlege_graph
    }

    /// The resolver.
    pub closed spec fn resolver(&self) -> L {
        self.lookup
    }

    /// The state of the agent, as far as its decisions go.
    pub open spec fn state(&self) -> AgentView {
        AgentView {
            progress: self.progress(),
            quads: self.quads(),
            taken: self.taken_blanks(),
            room: self.blank_room(),
        }
    }

    /// The blank node labels that the agent has given out.
    pub closed spec fn taken_blanks(&self) -> Set<Seq<char>> {
        numbered_below(self.next_blank)
    }

    /// How many blank node labels the agent can still give out.
    pub closed spec fn blank_room(&self) -> nat {
        (u128::MAX - self.next_blank) as nat
    }

    /// Whether two agents have the same record, the same store with the
    /// same quads, the same queries and the same blank node labels left.
    /// The resolver is not compared: a lookup may change it.
    pub open spec fn same_state(&self, other: &Self) -> bool {
        &&& self.progress() == other.progress()
        &&& self.knowledge_graph() == other.knowledge_graph()
        &&& self.quads() == other.quads()
        &&& self.curiosity() == other.curiosity()
        &&& self.taken_blanks() == other.taken_blanks()
        &&& self.blank_room() == other.blank_room()
    }

    /// An agent that has investigated nothing yet.
    pub fn new(curiosity: Curiosity, knowlege_graph: S, lookup: L) -> (res: Self)
        ensures
            res.progress().visited == Set::<Seq<char>>::empty(),
            res.progress().errored == Set::<Seq<char>>::empty(),
            res.progress().wf(),
            *res.knowledge_graph() == knowlege_graph,
            res.resolver() == lookup,
            res.quads() == knowlege_graph.quads(),
            res.curiosity() == curiosity@,
            res.taken_blanks() == Set::<Seq<char>>::empty(),
            res.blank_room() == u128::MAX,
    {
        assert(numbered_below(0) =~= Set::<Seq<char>>::empty());
        Self { curiosity, knowlege_graph, progress: Default::default(), lookup, next_blank: 0 }
    }

    /// The record of what has been investigated.
    pub fn crawl_progress(&self) -> (res: &CrawlProgress)
        ensures
            res@ == self.progress(),
            res@.wf(),
    {
        proof {
            use_type_invariant(&self.progress);
        }
        &self.progress
    }

    /// Records the outcome of a lookup that was made for `document`.
    ///
    /// If something was decided about the document before, nothing changes.
    /// Otherwise a graph is folded into the store, under the document's
    /// name and with fresh blank node labels, and the document is visited;
    /// a failure makes the document errored and leaves the store alone. A
    /// graph that needs more blank node labels than are left counts as a
    /// failure.
    pub fn record(&mut self, document: NamedNode, outcome: Result<Graph, LookupError>) -> (res:
        Result<(), LookupError>)
        ensures
            final(self).progress().wf(),
            !final(self).progress().novel(document@),
            final(self).curiosity() == old(self).curiosity(),
            final(self).resolver() == old(self).resolver(),
            res is Err ==> final(self).knowledge_graph() == old(self).knowledge_graph(),
            recorded::<S>(old(self).state(), document@, outcome_view(outcome), final(self).state()),
            outcome matches Err(e) ==> (res matches Err(given) && given@ == e@),
            outcome is Ok ==> (res is Ok <==> (!old(self).progress().novel(document@) || 2
                * outcome->Ok_0@.len() <= old(self).blank_room())),
            !old(self).progress().novel(document@) ==> {
                &&& final(self).same_state(old(self))
                &&& (res is Err <==> outcome is Err)
            },
            old(self).progress().novel(document@) ==> match outcome {
                Ok(contents) => if 2 * contents@.len() <= old(self).blank_room() {
                    &&& res is Ok
                    &&& final(self).progress() == old(self).progress().visit(document@)
                    &&& noted::<S>(
                        old(self).quads(),
                        old(self).taken_blanks(),
                        contents@,
                        document@,
                        final(self).quads(),
                        final(self).taken_blanks(),
                    )
                } else {
                    &&& res is Err
                    &&& final(self).progress() == old(self).progress().error(document@)
                    &&& final(self).quads() == old(self).quads()
                    &&& final(self).taken_blanks() == old(self).taken_blanks()
                    &&& final(self).blank_room() == old(self).blank_room()
                },
                Err(_) => {
                    &&& final(self).progress() == old(self).progress().error(document@)
                    &&& final(self).quads() == old(self).quads()
                    &&& final(self).taken_blanks() == old(self).taken_blanks()
                    &&& final(self).blank_room() == old(self).blank_room()
                },
            },
    {
        proof {
            use_type_invariant(&self.progress);
        }
        if !self.progress.novel(&document) {
            return match outcome {
                Ok(_) => Ok(()),
                Err(e) => Err(e),
            };
        }
        proof {
            crate::crawl_progress::lemma_marks_monotonic(self.progress@, document@);
        }
        match outcome {
            Ok(content) => {
                let wanted = content.len() as u128;
                if wanted <= (u128::MAX - self.next_blank) / 2 {
                    self.note_document_contents(document.clone(), content);
                    self.progress.visit(document);
                    Ok(())
                } else {
                    self.progress.error(document);
                    Err(LookupError::new("no blank node labels left"))
                }
            },
            Err(e) => {
                self.progress.error(document);
                Err(e)
            },
        }
    }

    /// The candidates of the next round: every named node that some query
    /// of the curiosity binds in the store and about which nothing has been
    /// decided.
    ///
    /// What the store answers is the store's affair; the result is made of
    /// its answers as [`selected`] says: the store is asked every query in
    /// turn, and of the terms that its answers bind the novel named nodes
    /// are kept, as [`novel_named_nodes`] says. The first query that the
    /// store fails to evaluate gives the store's error.
    pub fn curious(&self) -> (res: Result<Vec<NamedNode>, EvaluationError>)
        ensures
            res matches Ok(found) ==> forall|i: int|
                0 <= i < found.len() ==> self.progress().novel(#[trigger] found[i]@),
            res matches Ok(found) ==> named_views(found@).no_duplicates(),
            self.curiosity().len() == 0 ==> (res matches Ok(found) && found.len() == 0),
            exists|answers: Seq<Result<QueryResults, EvaluationError>>|
                #![auto]
                asked(self.knowledge_graph(), self.curiosity(), answers) && selected(
                    self.curiosity().len(),
                    answers,
                    self.progress(),
                    res,
                ),
    {
        let terms = self.curiosity.curious(&self.knowlege_graph);
        let ghost answers = choose|answers: Seq<Result<QueryResults, EvaluationError>>|
            #![auto]
            asked(&self.knowlege_graph, self.curiosity@, answers) && collected(
                self.curiosity@.len(),
                answers,
                terms,
            );
        let res = match terms {
            Ok(terms) => Ok(novel_named_nodes(&terms, &self.progress)),
            Err(e) => Err(e),
        };
        proof {
            assert(asked(self.knowledge_graph(), self.curiosity(), answers));
            assert(selected(self.curiosity().len(), answers, self.progress(), res));
        }
        res
    }

    fn note_document_contents(&mut self, document: NamedNode, contents: Graph)
        requires
            2 * contents@.len() <= old(self).blank_room(),
        ensures
            final(self).progress() == old(self).progress(),
            final(self).curiosity() == old(self).curiosity(),
            final(self).resolver() == old(self).resolver(),
            final(self).blank_room() <= old(self).blank_room(),
            noted::<S>(
                old(self).quads(),
                old(self).taken_blanks(),
                contents@,
                document@,
                final(self).quads(),
                final(self).taken_blanks(),
            ),
    {
        let ghost before = self.knowlege_graph.quads();
        let ghost taken = numbered_below(self.next_blank);
        let ghost lo = self.next_blank;
        let mut next = self.next_blank;
        let (renamed, Ghost(renaming)) = rename_blanks(contents.triples(), &mut next);
        self.next_blank = next;
        let ghost fresh = triple_views(renamed@);
        let mut i: usize = 0;
        assert(before.union(in_graph::<S>(fresh.take(0), document@)) =~= before);
        while i < renamed.len()
            invariant
                i <= renamed.len(),
                fresh == triple_views(renamed@),
                self.knowlege_graph.quads() == before.union(in_graph::<S>(fresh.take(i as int), document@)),
                self.progress == old(self).progress,
                self.curiosity == old(self).curiosity,
                self.lookup == old(self).lookup,
                self.next_blank == next,
            decreases renamed.len() - i,
        {
            let triple = renamed[i].clone();
            self.knowlege_graph.insert(triple.in_graph(document.clone()));
            proof {
                let quad = QuadView { triple: fresh[i as int], graph_name: document@ };
                assert(fresh.take(i as int + 1) =~= fresh.take(i as int).push(fresh[i as int]));
                lemma_in_graph_push::<S>(fresh.take(i as int), fresh[i as int], document@);
                assert(self.knowlege_graph.quads() =~= before.union(
                    in_graph::<S>(fresh.take(i as int + 1), document@),
                ));
            }
            i += 1;
        }
        proof {
            assert(fresh.take(i as int) =~= fresh);
            lemma_renamed_blanks(renaming, contents@);
            assert(taken.union(blanks(fresh)).subset_of(numbered_below(next)));
        }
    }
}

impl<S: Store, L: Lookup> Agent<S, L> {
    /// Looks one document up and records the outcome.
    ///
    /// The resolver is asked once, for this document, and what it answers
    /// is recorded as [`recorded`] says: a document about which something
    /// was decided before leaves the agent as it was; a novel document is
    /// visited, and its contents are in the store, if the resolver gave a
    /// graph, and errored, with the store untouched, if it gave an error.
    /// The result is `Ok` exactly where [`Agent::record`] gives `Ok`.
    pub fn investigate(&mut self, document: NamedNode) -> (res: Result<(), LookupError>)
        ensures
            final(self).progress().wf(),
            !final(self).progress().novel(document@),
            final(self).curiosity() == old(self).curiosity(),
            !old(self).progress().novel(document@) ==> final(self).same_state(old(self)),
            exists|outcome: Result<Graph, LookupError>, asked_of: &mut L|
                #![auto]
                {
                    &&& *asked_of == old(self).resolver()
                    &&& *final(asked_of) == final(self).resolver()
                    &&& call_ensures(L::lookup, (asked_of, &document), outcome)
                    &&& recorded::<S>(
                        old(self).state(),
                        document@,
                        outcome_view(outcome),
                        final(self).state(),
                    )
                    &&& outcome matches Err(e) ==> (res matches Err(given) && given@ == e@)
                    &&& outcome is Ok ==> (res is Ok <==> (!old(self).progress().novel(document@)
                        || 2 * outcome->Ok_0@.len() <= old(self).blank_room()))
                },
            grown(old(self).state(), final(self).state()),
            old(self).progress().novel(document@) && res is Ok ==> final(self).progress() == old(
                self,
            ).progress().visit(document@),
            old(self).progress().novel(document@) && res is Err ==> {
                &&& final(self).progress() == old(self).progress().error(document@)
                &&& final(self).knowledge_graph() == old(self).knowledge_graph()
                &&& final(self).quads() == old(self).quads()
                &&& final(self).taken_blanks() == old(self).taken_blanks()
                &&& final(self).blank_room() == old(self).blank_room()
            },
    {
        proof {
            use_type_invariant(&self.progress);
        }
        let outcome = self.lookup.lookup(&document);
        let ghost given = outcome;
        let ghost answered = self.lookup;
        assert(exists|asked_of: &mut L|
            #![auto]
            *asked_of == old(self).lookup && *final(asked_of) == answered && call_ensures(
                L::lookup,
                (asked_of, &document),
                given,
            ));
        let res = self.record(document, outcome);
        proof {
            lemma_recorded_grows::<S>(
                old(self).state(),
                document@,
                outcome_view(given),
                self.state(),
            );
        }
        res
    }

    /// The work of one round on the candidates that were found: every
    /// candidate is investigated in turn, whatever the outcome of each.
    /// Returns whether the crawl has converged, that is whether there was
    /// no candidate.
    ///
    /// The resolver is asked once for each candidate, in their order, and
    /// the state afterwards is what recording its answers in that order
    /// makes of the state before, as [`resolved`] says. So none of the
    /// candidates is novel afterwards, and nothing else has been decided
    /// that was not decided before.
    pub fn round(&mut self, candidates: &Vec<NamedNode>) -> (converged: bool)
        ensures
            converged == (candidates.len() == 0),
            converged ==> final(self).same_state(old(self)) && final(self).resolver() == old(
                self,
            ).resolver(),
            old(self).progress().decides(named_views(candidates@).to_set(), final(self).progress()),
            forall|i: int|
                0 <= i < candidates.len() ==> !final(self).progress().novel(
                    #[trigger] candidates[i]@,
                ),
            grown(old(self).state(), final(self).state()),
            final(self).curiosity() == old(self).curiosity(),
            exists|outcomes: Seq<Result<Graph, LookupError>>, resolvers: Seq<L>|
                #![auto]
                {
                    &&& outcomes.len() == candidates.len()
                    &&& resolvers.len() == candidates.len() + 1
                    &&& resolvers[0] == old(self).resolver()
                    &&& resolvers.last() == final(self).resolver()
                    // each answer, a graph or an error, is what the resolver, as it
                    // was left by the lookup before, gave for the candidate
                    &&& forall|i: int|
                        #![trigger outcomes[i]]
                        0 <= i < candidates.len() ==> (outcomes[i] is Ok || outcomes[i] is Err)
                            && exists|document: NamedNode, asked_of: &mut L|
                            #![auto]
                            {
                                &&& document@ == candidates[i]@
                                &&& *asked_of == resolvers[i]
                                &&& *final(asked_of) == resolvers[i + 1]
                                &&& call_ensures(L::lookup, (asked_of, &document), outcomes[i])
                            }
                    &&& resolved::<S>(
                        old(self).state(),
                        named_views(candidates@),
                        outcome_views(outcomes),
                        final(self).state(),
                    )
                },
    {
        let ghost ids = named_views(candidates@);
        let ghost mut outcomes: Seq<Result<Graph, LookupError>> = Seq::empty();
        let ghost mut resolvers: Seq<L> = seq![self.resolver()];
        let mut i: usize = 0;
        proof {
            use_type_invariant(&self.progress);
            assert(ids.take(0) =~= Seq::empty());
            assert(outcome_views(outcomes) =~= Seq::empty());
            assert(resolved::<S>(
                old(self).state(),
                ids.take(0),
                outcome_views(outcomes),
                self.state(),
            ));
        }
        assert(old(self).progress().decided().union(ids.take(0).to_set()) =~= old(
            self,
        ).progress().decided());
        if candidates.len() == 0 {
            proof {
                assert(ids.to_set() =~= ids.take(0).to_set());
                assert(ids.take(0) =~= ids);
                assert(resolved::<S>(
                    old(self).state(),
                    named_views(candidates@),
                    outcome_views(outcomes),
                    self.state(),
                ));
                assert(resolvers.last() == self.resolver());
            }
            return true;
        }
        while i < candidates.len()
            invariant
                i <= candidates.len(),
                ids == named_views(candidates@),
                old(self).progress().wf(),
                old(self).progress().decides(ids.take(i as int).to_set(), self.progress()),
                grown(old(self).state(), self.state()),
                self.curiosity() == old(self).curiosity(),
                outcomes.len() == i,
                resolvers.len() == i + 1,
                resolvers[0] == old(self).resolver(),
                resolvers.last() == self.resolver(),
                forall|k: int|
                    #![trigger outcomes[k]]
                    0 <= k < i ==> (outcomes[k] is Ok || outcomes[k] is Err) && exists|
                        document: NamedNode,
                        asked_of: &mut L,
                    |
                        #![auto]
                        {
                            &&& document@ == candidates[k]@
                            &&& *asked_of == resolvers[k]
                            &&& *final(asked_of) == resolvers[k + 1]
                            &&& call_ensures(L::lookup, (asked_of, &document), outcomes[k])
                        },
                resolved::<S>(
                    old(self).state(),
                    ids.take(i as int),
                    outcome_views(outcomes),
                    self.state(),
                ),
            decreases candidates.len() - i,
        {
            let nn = candidates[i].clone();
            let ghost document = nn;
            let ghost before = self.state();
            let ghost resolver_before = self.resolver();
            let ghost outcomes_before = outcomes;
            let ghost resolvers_before = resolvers;
            let answer = self.lookup.lookup(&nn);
            let ghost outcome = answer;
            let ghost resolver_after = self.lookup;
            assert(exists|d: NamedNode, asked_of: &mut L|
                #![auto]
                {
                    &&& d@ == candidates[i as int]@
                    &&& *asked_of == resolver_before
                    &&& *final(asked_of) == resolver_after
                    &&& call_ensures(L::lookup, (asked_of, &d), outcome)
                }) by {
                assert(exists|asked_of: &mut L|
                    #![auto]
                    {
                        &&& document@ == candidates[i as int]@
                        &&& *asked_of == resolver_before
                        &&& *final(asked_of) == resolver_after
                        &&& call_ensures(L::lookup, (asked_of, &document), outcome)
                    });
            }
            assert(self.state() == before);
            let _ = self.record(nn, answer);
            proof {
                let id = ids[i as int];
                let longer = ids.take(i as int + 1);
                outcomes = outcomes_before.push(outcome);
                resolvers = resolvers_before.push(resolver_after);
                assert(longer =~= ids.take(i as int).push(id));
                lemma_to_set_push(ids.take(i as int), id);
                lemma_recorded_grows::<S>(before, id, outcome_view(outcome), self.state());
                lemma_grown_twice(old(self).state(), before, self.state());
                assert(self.progress().decided() =~= old(self).progress().decided().union(
                    longer.to_set(),
                ));
                assert(outcome_views(outcomes) =~= outcome_views(outcomes_before).push(
                    outcome_view(outcome),
                ));
                assert(longer.drop_last() =~= ids.take(i as int));
                assert(outcome_views(outcomes).drop_last() =~= outcome_views(outcomes_before));
                assert(longer.last() == id);
                assert(outcome_views(outcomes).last() == outcome_view(outcome));
                assert(resolved::<S>(
                    old(self).state(),
                    longer.drop_last(),
                    outcome_views(outcomes).drop_last(),
                    before,
                ));
                assert(recorded::<S>(before, longer.last(), outcome_views(outcomes).last(), self.state()));
                assert(resolved::<S>(
                    old(self).state(),
                    longer,
                    outcome_views(outcomes),
                    self.state(),
                ));
                assert forall|k: int|
                    #![trigger outcomes[k]]
                    0 <= k < i + 1 implies (outcomes[k] is Ok || outcomes[k] is Err) && exists|
                    document: NamedNode,
                    asked_of: &mut L,
                |
                    #![auto]
                    {
                        &&& document@ == candidates[k]@
                        &&& *asked_of == resolvers[k]
                        &&& *final(asked_of) == resolvers[k + 1]
                        &&& call_ensures(L::lookup, (asked_of, &document), outcomes[k])
                    } by {
                    if k < i {
                        assert(outcomes[k] == outcomes_before[k]);
                        assert(resolvers[k] == resolvers_before[k]);
                        assert(resolvers[k + 1] == resolvers_before[k + 1]);
                    } else {
                        assert(outcomes[k] == outcome);
                        assert(resolvers[k] == resolver_before);
                        assert(resolvers[k + 1] == resolver_after);
                    }
                }
            }
            i += 1;
        }
        proof {
            assert(ids.take(i as int) =~= ids);
            assert forall|k: int| 0 <= k < candidates.len() implies !self.progress().novel(
                #[trigger] candidates[k]@,
            ) by {
                assert(ids[k] == candidates[k]@);
                assert(ids.to_set().contains(ids[k]));
                assert(self.progress().decided().contains(ids[k]));
            }
        }
        false
    }

    /// Runs rounds until one finds nothing to do. Returns whether that
    /// happened: `Ok(false)` only after as many rounds as a `usize` counts,
    /// every one of which had work to do.
    ///
    /// `Ok(true)` comes only where the store, as it is in the end, binds no
    /// named node that is novel in the end; an error is the store's answer
    /// to a query of the round that was the last. Every round before had
    /// candidates, found in the store as it then was, and decided exactly
    /// those; the state has grown as [`grown`] says.
    pub fn crawl(&mut self) -> (res: Result<bool, EvaluationError>)
        ensures
            crawled::<S>(
                old(self).curiosity(),
                old(self).progress(),
                final(self).progress(),
                usize::MAX as nat,
                res is Ok && res->Ok_0 == false,
            ),
            old(self).curiosity().len() == 0 ==> res matches Ok(true),
            grown(old(self).state(), final(self).state()),
            final(self).curiosity() == old(self).curiosity(),
            res matches Ok(true) ==> converged_on(
                final(self).knowledge_graph(),
                final(self).curiosity(),
                final(self).progress(),
            ),
            res matches Err(e) ==> failed_on(
                final(self).knowledge_graph(),
                final(self).curiosity(),
                e,
            ),
    {
        self.crawl_within(usize::MAX)
    }

    /// Runs rounds until one finds nothing to do, but at most `limit` of
    /// them. Returns whether a round found nothing to do: `Ok(false)` only
    /// after `limit` rounds, every one of which had work to do.
    ///
    /// `Ok(true)` comes only where the store, as it is in the end, binds no
    /// named node that is novel in the end; an error is the store's answer
    /// to a query of the round that was the last. Every round before had
    /// candidates, found in the store as it then was, and decided exactly
    /// those; the state has grown as [`grown`] says.
    pub fn crawl_within(&mut self, limit: usize) -> (res: Result<bool, EvaluationError>)
        ensures
            crawled::<S>(
                old(self).curiosity(),
                old(self).progress(),
                final(self).progress(),
                limit as nat,
                res is Ok && res->Ok_0 == false,
            ),
            limit == 0 ==> res matches Ok(false),
            limit > 0 && old(self).curiosity().len() == 0 ==> res matches Ok(true),
            grown(old(self).state(), final(self).state()),
            final(self).curiosity() == old(self).curiosity(),
            res matches Ok(true) ==> converged_on(
                final(self).knowledge_graph(),
                final(self).curiosity(),
                final(self).progress(),
            ),
            res matches Err(e) ==> failed_on(
                final(self).knowledge_graph(),
                final(self).curiosity(),
                e,
            ),
    {
        proof {
            use_type_invariant(&self.progress);
        }
        let ghost texts = self.curiosity();
        let ghost mut states: Seq<ProgressView> = seq![self.progress()];
        let ghost mut stores: Seq<S> = Seq::empty();
        let mut done: usize = 0;
        while done < limit
            invariant
                done <= limit,
                rounds(states),
                states.len() == done + 1,
                stores.len() == done,
                states[0] == old(self).progress(),
                states.last() == self.progress(),
                forall|k: int|
                    #![trigger stores[k]]
                    0 <= k < stores.len() ==> round_on(
                        &stores[k],
                        texts,
                        states[k],
                        states[k + 1],
                    ),
                old(self).curiosity().len() == 0 ==> done == 0,
                grown(old(self).state(), self.state()),
                self.curiosity() == old(self).curiosity(),
                texts == old(self).curiosity(),
            decreases limit - done,
        {
            let ghost before = self.state();
            let ghost store = *self.knowledge_graph();
            let ghost states_before = states;
            let ghost stores_before = stores;
            let outcome = self.next();
            proof {
                lemma_grown_twice(old(self).state(), before, self.state());
            }
            match outcome {
                Err(e) => {
                    return Err(e);
                },
                Ok(true) => {
                    return Ok(true);
                },
                Ok(false) => {
                    proof {
                        let longer = states.push(self.progress());
                        assert forall|k: int| 0 <= k < longer.len() - 1 implies (
                        #[trigger] longer[k]).round_to(longer[k + 1]) by {
                            if k < states.len() - 1 {
                                assert(states[k].round_to(states[k + 1]));
                            }
                        }
                        states = longer;
                        stores = stores_before.push(store);
                        assert forall|k: int|
                            #![trigger stores[k]]
                            0 <= k < stores.len() implies round_on(
                            &stores[k],
                            texts,
                            states[k],
                            states[k + 1],
                        ) by {
                            if k < stores_before.len() {
                                assert(stores[k] == stores_before[k]);
                                assert(states[k] == states_before[k]);
                                assert(states[k + 1] == states_before[k + 1]);
                            } else {
                                assert(stores[k] == store);
                            }
                        }
                    }
                },
            }
            done += 1;
        }
        Ok(false)
    }

    /// One round: finds the candidates and, if there are any, investigates
    /// them all. Returns whether the crawl has converged, that is whether
    /// there was no candidate.
    ///
    /// The store is asked the queries of the curiosity, as
    /// [`Agent::curious`] says. If it fails to answer one, its error is
    /// returned and nothing changes. If its answers bind no named node that
    /// is novel, the crawl has converged and nothing changes. Otherwise the
    /// novel named nodes that they bind are the candidates, and each of them
    /// is looked up once and the answer recorded, as [`Agent::round`] says:
    /// the round decides them and nothing else.
    pub fn next(&mut self) -> (res: Result<bool, EvaluationError>)
        ensures
            final(self).progress().wf(),
            final(self).curiosity() == old(self).curiosity(),
            grown(old(self).state(), final(self).state()),
            !(res matches Ok(false)) ==> final(self).same_state(old(self))
                && final(self).resolver() == old(self).resolver(),
            old(self).curiosity().len() == 0 ==> res matches Ok(true),
            res matches Ok(true) ==> converged_on(
                old(self).knowledge_graph(),
                old(self).curiosity(),
                old(self).progress(),
            ),
            res matches Err(e) ==> failed_on(
                old(self).knowledge_graph(),
                old(self).curiosity(),
                e,
            ),
            res matches Ok(false) ==> {
                &&& old(self).progress().round_to(final(self).progress())
                &&& round_on(
                    old(self).knowledge_graph(),
                    old(self).curiosity(),
                    old(self).progress(),
                    final(self).progress(),
                )
            },
            res matches Ok(false) ==> exists|
                found: Seq<NamedNode>,
                outcomes: Seq<Result<Graph, LookupError>>,
                resolvers: Seq<L>,
            |
                #![auto]
                {
                    &&& found_on(
                        old(self).knowledge_graph(),
                        old(self).curiosity(),
                        old(self).progress(),
                        named_views(found),
                    )
                    &&& outcomes.len() == found.len()
                    &&& resolvers.len() == found.len() + 1
                    &&& resolvers[0] == old(self).resolver()
                    &&& resolvers.last() == final(self).resolver()
                    &&& forall|i: int|
                        #![trigger outcomes[i]]
                        0 <= i < found.len() ==> (outcomes[i] is Ok || outcomes[i] is Err)
                            && exists|document: NamedNode, asked_of: &mut L|
                            #![auto]
                            {
                                &&& document@ == found[i]@
                                &&& *asked_of == resolvers[i]
                                &&& *final(asked_of) == resolvers[i + 1]
                                &&& call_ensures(L::lookup, (asked_of, &document), outcomes[i])
                            }
                    &&& resolved::<S>(
                        old(self).state(),
                        named_views(found),
                        outcome_views(outcomes),
                        final(self).state(),
                    )
                },
    {
        proof {
            use_type_invariant(&self.progress);
        }
        let found = self.curious();
        let ghost answers = choose|answers: Seq<Result<QueryResults, EvaluationError>>|
            #![auto]
            asked(self.knowledge_graph(), self.curiosity(), answers) && selected(
                self.curiosity().len(),
                answers,
                self.progress(),
                found,
            );
        let curious = match found {
            Ok(curious) => curious,
            Err(e) => {
                proof {
                    assert(failed_on(self.knowledge_graph(), self.curiosity(), e)) by {
                        assert(asked(self.knowledge_graph(), self.curiosity(), answers));
                    }
                }
                return Err(e);
            },
        };
        proof {
            lemma_distinct(candidates(gathered(answers), self.progress()));
            assert(found_on(
                self.knowledge_graph(),
                self.curiosity(),
                self.progress(),
                named_views(curious@),
            )) by {
                assert(asked(self.knowledge_graph(), self.curiosity(), answers));
            }
        }
        let converged = self.round(&curious);
        proof {
            if !converged {
                let id = curious[0]@;
                assert(old(self).progress().novel(id));
                assert(!self.progress().novel(id));
                assert(named_views(curious@)[0] == id);
            }
        }
        Ok(converged)
    }
}

/// Whether the store, asked the queries with these texts, answers every
/// one, and `found` are the candidates that its answers bind: the named
/// nodes that are novel in `progress`, each once, in the order in which they
/// are first bound.
pub open spec fn found_on<S: Store>(
    store: &S,
    texts: Seq<Seq<char>>,
    progress: ProgressView,
    found: Seq<Seq<char>>,
) -> bool {
    exists|answers: Seq<Result<QueryResults, EvaluationError>>|
        #![auto]
        {
            &&& asked(store, texts, answers)
            &&& answers.len() == texts.len()
            &&& forall|i: int| 0 <= i < answers.len() ==> (#[trigger] answers[i]) is Ok
            &&& found == distinct(candidates(gathered(answers), progress))
        }
}

/// Whether the store, asked the queries with these texts, answers every
/// one and binds no named node that is novel in `progress`.
pub open spec fn converged_on<S: Store>(
    store: &S,
    texts: Seq<Seq<char>>,
    progress: ProgressView,
) -> bool {
    found_on(store, texts, progress, Seq::empty())
}

/// Whether the store, asked the queries with these texts in turn, answers
/// one of them with the error `e`, after it has answered those before it.
pub open spec fn failed_on<S: Store>(store: &S, texts: Seq<Seq<char>>, e: EvaluationError) -> bool {
    exists|answers: Seq<Result<QueryResults, EvaluationError>>|
        #![auto]
        {
            &&& asked(store, texts, answers)
            &&& answers.len() > 0
            &&& forall|i: int| 0 <= i < answers.len() - 1 ==> (#[trigger] answers[i]) is Ok
            &&& answers.last() == Err::<QueryResults, EvaluationError>(e)
        }
}

/// Whether `after` is `before` after one round on this store that had work
/// to do: the store's answers bind candidates, and exactly these are
/// decided besides what was.
pub open spec fn round_on<S: Store>(
    store: &S,
    texts: Seq<Seq<char>>,
    before: ProgressView,
    after: ProgressView,
) -> bool {
    exists|found: Seq<Seq<char>>|
        #![auto]
        {
            &&& found_on(store, texts, before, found)
            &&& found.len() > 0
            &&& before.decides(found.to_set(), after)
        }
}

/// Whether `after` is the record of a crawl that began at `before` and ran
/// at most `limit` rounds. There is a sequence of records from `before` to
/// `after`, one for each round that had work to do, and a store for each
/// such round, in which the round found its candidates; and if the crawl
/// gave up, `gave_up`, these were `limit` rounds.
pub open spec fn crawled<S: Store>(
    texts: Seq<Seq<char>>,
    before: ProgressView,
    after: ProgressView,
    limit: nat,
    gave_up: bool,
) -> bool {
    exists|states: Seq<ProgressView>, stores: Seq<S>|
        #![auto]
        {
            &&& rounds(states)
            &&& states[0] == before
            &&& states.last() == after
            &&& states.len() <= limit + 1
            &&& gave_up ==> states.len() == limit + 1
            &&& stores.len() == states.len() - 1
            &&& forall|k: int|
                #![trigger stores[k]]
                0 <= k < stores.len() ==> round_on(
                    &stores[k],
                    texts,
                    states[k],
                    states[k + 1],
                )
        }
}

/// A crawl over a closed world converges. If everything that the crawl has
/// decided lies in a finite set of documents, and the crawl was allowed
/// more rounds than there are documents not yet decided at its start, then
/// it did not give up: a round found nothing left to do.
pub proof fn lemma_crawl_terminates<S: Store>(
    texts: Seq<Seq<char>>,
    before: ProgressView,
    after: ProgressView,
    limit: nat,
    gave_up: bool,
    documents: Set<Seq<char>>,
)
    requires
        crawled::<S>(texts, before, after, limit, gave_up),
        documents.finite(),
        after.decided().subset_of(documents),
        limit + before.decided().len() > documents.len(),
    ensures
        !gave_up,
{
    let (states, stores) = choose|states: Seq<ProgressView>, stores: Seq<S>|
        #![auto]
        {
            &&& rounds(states)
            &&& states[0] == before
            &&& states.last() == after
            &&& states.len() <= limit + 1
            &&& gave_up ==> states.len() == limit + 1
            &&& stores.len() == states.len() - 1
            &&& forall|k: int|
                #![trigger stores[k]]
                0 <= k < stores.len() ==> round_on(
                    &stores[k],
                    texts,
                    states[k],
                    states[k + 1],
                )
        };
    crate::crawl_progress::lemma_rounds_bounded(states, documents);
}

/// A crawl over a closed world converges within as many rounds as the
/// world has documents. The world is closed under the queries if whatever
/// store is asked them binds only identifiers of a finite set of documents.
/// If what was decided at the start lies in that set too, and the crawl was
/// allowed more rounds than there are documents not yet decided at its
/// start, then it did not give up, and all that it has decided lies in the
/// set.
pub proof fn lemma_crawl_terminates_in_closed_world<S: Store>(
    texts: Seq<Seq<char>>,
    before: ProgressView,
    after: ProgressView,
    limit: nat,
    gave_up: bool,
    documents: Set<Seq<char>>,
)
    requires
        crawled::<S>(texts, before, after, limit, gave_up),
        documents.finite(),
        before.decided().subset_of(documents),
        forall|store: S, progress: ProgressView, found: Seq<Seq<char>>|
            #[trigger] found_on(&store, texts, progress, found) ==> found.to_set().subset_of(
                documents,
            ),
        limit + before.decided().len() > documents.len(),
    ensures
        !gave_up,
        after.decided().subset_of(documents),
{
    let (states, stores) = choose|states: Seq<ProgressView>, stores: Seq<S>|
        #![auto]
        {
            &&& rounds(states)
            &&& states[0] == before
            &&& states.last() == after
            &&& states.len() <= limit + 1
            &&& gave_up ==> states.len() == limit + 1
            &&& stores.len() == states.len() - 1
            &&& forall|k: int|
                #![trigger stores[k]]
                0 <= k < stores.len() ==> round_on(
                    &stores[k],
                    texts,
                    states[k],
                    states[k + 1],
                )
        };
    lemma_rounds_stay_in::<S>(texts, states, stores, documents, states.len() - 1);
    crate::crawl_progress::lemma_rounds_bounded(states, documents);
}

/// In a closed world every record of a crawl lies in the set of documents.
proof fn lemma_rounds_stay_in<S: Store>(
    texts: Seq<Seq<char>>,
    states: Seq<ProgressView>,
    stores: Seq<S>,
    documents: Set<Seq<char>>,
    upto: int,
)
    requires
        0 <= upto < states.len(),
        stores.len() == states.len() - 1,
        states[0].decided().subset_of(documents),
        forall|k: int|
            #![trigger stores[k]]
            0 <= k < stores.len() ==> round_on(&stores[k], texts, states[k], states[k + 1]),
        forall|store: S, progress: ProgressView, found: Seq<Seq<char>>|
            #[trigger] found_on(&store, texts, progress, found) ==> found.to_set().subset_of(
                documents,
            ),
    ensures
        states[upto].decided().subset_of(documents),
    decreases upto,
{
    if upto > 0 {
        lemma_rounds_stay_in::<S>(texts, states, stores, documents, upto - 1);
        let store = stores[upto - 1];
        assert(round_on(&store, texts, states[upto - 1], states[upto]));
        let found = choose|found: Seq<Seq<char>>|
            #![auto]
            {
                &&& found_on(&store, texts, states[upto - 1], found)
                &&& found.len() > 0
                &&& states[upto - 1].decides(found.to_set(), states[upto])
            };
        assert(found_on(&store, texts, states[upto - 1], found));
    }
}

/// Progress is monotonic over a crawl. Whatever was visited before is
/// visited after, whatever was errored before is errored after, nothing
/// has become novel again, and the two sets are apart before and after.
pub proof fn lemma_crawl_monotonic<S: Store>(
    texts: Seq<Seq<char>>,
    before: ProgressView,
    after: ProgressView,
    limit: nat,
    gave_up: bool,
)
    requires
        crawled::<S>(texts, before, after, limit, gave_up),
    ensures
        before.wf(),
        after.wf(),
        before.visited.subset_of(after.visited),
        before.errored.subset_of(after.errored),
        before.precedes(after),
{
    let (states, stores) = choose|states: Seq<ProgressView>, stores: Seq<S>|
        #![auto]
        {
            &&& rounds(states)
            &&& states[0] == before
            &&& states.last() == after
            &&& states.len() <= limit + 1
            &&& gave_up ==> states.len() == limit + 1
            &&& stores.len() == states.len() - 1
            &&& forall|k: int|
                #![trigger stores[k]]
                0 <= k < stores.len() ==> round_on(
                    &stores[k],
                    texts,
                    states[k],
                    states[k + 1],
                )
        };
    crate::crawl_progress::lemma_progress_monotonic(states, 0, states.len() - 1);
}

/// Documents keep their blank nodes to themselves. When the contents of
/// one document and then of another are noted, no blank node of the second
/// has the label of a blank node of the first: the store holds both sets
/// of quads, and the labels used by the two are apart.
pub proof fn lemma_documents_keep_blank_nodes_apart<S: Store>(
    quads: Set<QuadView>,
    taken: Set<Seq<char>>,
    first: Seq<TripleView>,
    first_document: Seq<char>,
    quads_between: Set<QuadView>,
    taken_between: Set<Seq<char>>,
    second: Seq<TripleView>,
    second_document: Seq<char>,
    quads_after: Set<QuadView>,
    taken_after: Set<Seq<char>>,
)
    requires
        noted::<S>(quads, taken, first, first_document, quads_between, taken_between),
        noted::<S>(quads_between, taken_between, second, second_document, quads_after, taken_after),
    ensures
        exists|one: Map<Seq<char>, Seq<char>>, other: Map<Seq<char>, Seq<char>>|
            #![auto]
            {
                &&& quads_after == quads.union(
                    in_graph::<S>(rename_all(first, one), first_document),
                ).union(in_graph::<S>(rename_all(second, other), second_document))
                &&& blanks(rename_all(first, one)).disjoint(blanks(rename_all(second, other)))
            },
{
    let one = choose|renaming: Map<Seq<char>, Seq<char>>|
        #![auto]
        {
            &&& hygienic(renaming, first, taken)
            &&& quads_between == quads.union(in_graph::<S>(rename_all(first, renaming), first_document))
            &&& taken.union(blanks(rename_all(first, renaming))).subset_of(taken_between)
        };
    let other = choose|renaming: Map<Seq<char>, Seq<char>>|
        #![auto]
        {
            &&& hygienic(renaming, second, taken_between)
            &&& quads_after == quads_between.union(
                in_graph::<S>(rename_all(second, renaming), second_document),
            )
            &&& taken_between.union(blanks(rename_all(second, renaming))).subset_of(taken_after)
        };
    let renamed = rename_all(second, other);
    lemma_renamed_blanks(other, second);
    assert forall|id: Seq<char>| blanks(renamed).contains(id) implies !taken_between.contains(
        id,
    ) by {
        let a = choose|a: Seq<char>| #[trigger] other.contains_key(a) && other[a] == id;
    }
    assert(blanks(rename_all(first, one)).disjoint(blanks(renamed))) by {
        assert forall|id: Seq<char>|
            blanks(rename_all(first, one)).contains(id) implies !blanks(renamed).contains(id) by {
            assert(taken.union(blanks(rename_all(first, one))).contains(id));
        }
    }
}

impl<S: Store, L> Store for Agent<S, L> {
    closed spec fn quads(&self) -> Set<QuadView> {
        self.knowlege_graph.quads()
    }

    open spec fn stored_literal(value: Seq<char>, datatype: Seq<char>) -> NodeView {
        S::stored_literal(value, datatype)
    }

    fn insert(&mut self, quad: Quad) {
        self.knowlege_graph.insert(quad)
    }

    /// The answer of the store of what is known.
    fn query(&self, query: Query) -> (res: Result<QueryResults, EvaluationError>)
        ensures
            call_ensures(S::query, (self.knowledge_graph(), query), res),
    {
        self.knowlege_graph.query(query)
    }
}

} // verus!
