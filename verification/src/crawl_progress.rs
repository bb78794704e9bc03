//! Tracks the progress of a crawl: which identifiers have been looked at,
//! and with what outcome.
use crate::model::NamedNode;
use vstd::hash_set::StringHashSet;
use vstd::prelude::*;

verus! {

/// The mathematical value of a [`CrawlProgress`]: the identifiers that were
/// investigated with success, and those whose investigation failed.
pub struct ProgressView {
    pub visited: Set<Seq<char>>,
    pub errored: Set<Seq<char>>,
}

impl ProgressView {
    /// An identifier is novel when nothing has been decided about it.
    pub open spec fn novel(self, iri: Seq<char>) -> bool {
        !self.visited.contains(iri) && !self.errored.contains(iri)
    }

    /// The identifiers about which something has been decided.
    pub open spec fn decided(self) -> Set<Seq<char>> {
        self.visited.union(self.errored)
    }

    /// No identifier is both visited and errored, and only finitely many
    /// are either.
    pub open spec fn wf(self) -> bool {
        &&& self.visited.finite()
        &&& self.errored.finite()
        &&& self.visited.disjoint(self.errored)
    }

    /// The record after `iri` was investigated with success.
    pub open spec fn visit(self, iri: Seq<char>) -> ProgressView {
        ProgressView { visited: self.visited.insert(iri), errored: self.errored.remove(iri) }
    }

    /// The record after the investigation of `iri` failed.
    pub open spec fn error(self, iri: Seq<char>) -> ProgressView {
        ProgressView { visited: self.visited.remove(iri), errored: self.errored.insert(iri) }
    }

    /// Whether `later` can follow `self` in one crawl: nothing that was
    /// decided has become novel again.
    pub open spec fn precedes(self, later: ProgressView) -> bool {
        self.decided().subset_of(later.decided())
    }

    /// Whether `later` is `self` after the identifiers `ids` were decided:
    /// what was visited stays visited, what was errored stays errored, and
    /// exactly `ids` are decided besides.
    pub open spec fn decides(self, ids: Set<Seq<char>>, later: ProgressView) -> bool {
        &&& later.wf()
        &&& self.visited.subset_of(later.visited)
        &&& self.errored.subset_of(later.errored)
        &&& later.decided() == self.decided().union(ids)
    }

    /// Whether `later` is `self` after one round that had work to do: some
    /// identifier that was novel is decided, and no decision was taken back.
    pub open spec fn round_to(self, later: ProgressView) -> bool {
        &&& later.wf()
        &&& self.visited.subset_of(later.visited)
        &&& self.errored.subset_of(later.errored)
        &&& exists|id: Seq<char>| self.novel(id) && !#[trigger] later.novel(id)
    }
}

/// Whether the records are those of a crawl, taken before its first round
/// and after each round that had work to do.
pub open spec fn rounds(states: Seq<ProgressView>) -> bool {
    &&& states.len() >= 1
    &&& states[0].wf()
    &&& forall|k: int| 0 <= k < states.len() - 1 ==> (#[trigger] states[k]).round_to(states[k + 1])
}

/// The record of one crawl. It starts empty and only grows.
pub struct CrawlProgress {
    visited: StringHashSet,
    errors: StringHashSet,
}

impl View for CrawlProgress {
    type V = ProgressView;

    closed spec fn view(&self) -> ProgressView {
        ProgressView { visited: self.visited@, errored: self.errors@ }
    }
}

impl Default for CrawlProgress {
    fn default() -> (res: Self)
        ensures
            res@.visited == Set::<Seq<char>>::empty(),
            res@.errored == Set::<Seq<char>>::empty(),
            res@.wf(),
    {
        CrawlProgress { visited: StringHashSet::new(), errors: StringHashSet::new() }
    }
}

impl CrawlProgress {
    /// The record is well formed at all times.
    #[verifier::type_invariant]
    pub open spec fn inv(self) -> bool {
        self@.wf()
    }

    /// Whether nothing has been decided about `iri` yet.
    pub fn novel(&self, iri: &NamedNode) -> (res: bool)
        ensures
            res == self@.novel(iri@),
            self@.wf(),
    {
        proof {
            use_type_invariant(self);
        }
        let st = iri.as_str();
        !(self.visited.contains(st) || self.errors.contains(st))
    }

    /// Whether `iri` was investigated with success.
    pub fn is_visited(&self, iri: &NamedNode) -> (res: bool)
        ensures
            res == self@.visited.contains(iri@),
    {
        self.visited.contains(iri.as_str())
    }

    /// Whether the investigation of `iri` failed.
    pub fn is_errored(&self, iri: &NamedNode) -> (res: bool)
        ensures
            res == self@.errored.contains(iri@),
    {
        self.errors.contains(iri.as_str())
    }

    /// Records that `iri` was investigated with success. Should it have
    /// been recorded as failed, that record is dropped.
    pub fn visit(&mut self, iri: NamedNode)
        ensures
            final(self)@ == old(self)@.visit(iri@),
            final(self)@.wf(),
    {
        proof {
            use_type_invariant(&*self);
        }
        let mut errors = StringHashSet::new();
        core::mem::swap(&mut self.errors, &mut errors);
        errors.remove(iri.as_str());
        self.errors = errors;
        let mut visited = StringHashSet::new();
        core::mem::swap(&mut self.visited, &mut visited);
        visited.insert(iri.into_string());
        self.visited = visited;
    }

    /// Records that the investigation of `iri` failed. Should it have been
    /// recorded as visited, that record is dropped.
    pub fn error(&mut self, iri: NamedNode)
        ensures
            final(self)@ == old(self)@.error(iri@),
            final(self)@.wf(),
    {
        proof {
            use_type_invariant(&*self);
        }
        let mut visited = StringHashSet::new();
        core::mem::swap(&mut self.visited, &mut visited);
        visited.remove(iri.as_str());
        self.visited = visited;
        let mut errors = StringHashSet::new();
        core::mem::swap(&mut self.errors, &mut errors);
        errors.insert(iri.into_string());
        self.errors = errors;
    }
}

/// Recording an outcome twice is the same as recording it once.
pub proof fn lemma_marks_idempotent(progress: ProgressView, iri: Seq<char>)
    ensures
        progress.visit(iri).visit(iri) == progress.visit(iri),
        progress.error(iri).error(iri) == progress.error(iri),
{
    assert(progress.visit(iri).visit(iri).visited =~= progress.visit(iri).visited);
    assert(progress.visit(iri).visit(iri).errored =~= progress.visit(iri).errored);
    assert(progress.error(iri).error(iri).visited =~= progress.error(iri).visited);
    assert(progress.error(iri).error(iri).errored =~= progress.error(iri).errored);
}

/// Recording an outcome never makes a decided identifier novel again, keeps
/// the two sets apart, and leaves the recorded identifier decided.
pub proof fn lemma_marks_monotonic(progress: ProgressView, iri: Seq<char>)
    requires
        progress.wf(),
    ensures
        progress.precedes(progress.visit(iri)),
        progress.precedes(progress.error(iri)),
        progress.visit(iri).wf(),
        progress.error(iri).wf(),
        !progress.visit(iri).novel(iri),
        !progress.error(iri).novel(iri),
        progress.visit(iri).decided() == progress.decided().insert(iri),
        progress.error(iri).decided() == progress.decided().insert(iri),
{
    assert(progress.visit(iri).decided() =~= progress.decided().insert(iri));
    assert(progress.error(iri).decided() =~= progress.decided().insert(iri));
}

/// Deciding a novel identifier is a round's worth of progress on its own:
/// the other set is untouched, and the record grows by that identifier.
pub proof fn lemma_mark_novel(progress: ProgressView, iri: Seq<char>)
    requires
        progress.wf(),
        progress.novel(iri),
    ensures
        progress.decides(set![iri], progress.visit(iri)),
        progress.decides(set![iri], progress.error(iri)),
{
    assert(progress.visit(iri).errored =~= progress.errored);
    assert(progress.error(iri).visited =~= progress.visited);
    assert(progress.visit(iri).decided() =~= progress.decided().union(set![iri]));
    assert(progress.error(iri).decided() =~= progress.decided().union(set![iri]));
}

/// Progress is monotonic. Over any sequence of rounds the decided
/// identifiers never become fewer, a visited one stays visited and an
/// errored one stays errored, and at every point the two sets are apart.
pub proof fn lemma_progress_monotonic(states: Seq<ProgressView>, i: int, j: int)
    requires
        rounds(states),
        0 <= i <= j < states.len(),
    ensures
        states[i].wf(),
        states[j].wf(),
        states[i].visited.subset_of(states[j].visited),
        states[i].errored.subset_of(states[j].errored),
        states[i].precedes(states[j]),
    decreases j - i,
{
    if i == 0 {
    } else {
        assert(states[i - 1].round_to(states[i]));
    }
    if i < j {
        lemma_progress_monotonic(states, i, j - 1);
        assert(states[j - 1].round_to(states[j]));
    }
}

/// A crawl over a closed world ends. If all that is ever decided lies in a
/// finite set of documents, the rounds that had work to do are at most as
/// many as the documents that were still novel before the first of them.
pub proof fn lemma_rounds_bounded(states: Seq<ProgressView>, documents: Set<Seq<char>>)
    requires
        rounds(states),
        documents.finite(),
        states.last().decided().subset_of(documents),
    ensures
        states.len() - 1 + states[0].decided().len() <= documents.len(),
    decreases states.len(),
{
    let last = states.last();
    lemma_progress_monotonic(states, 0, states.len() - 1);
    if states.len() == 1 {
        vstd::set_lib::lemma_len_subset(last.decided(), documents);
    } else {
        let init = states.drop_last();
        let prev = init.last();
        assert(prev == states[states.len() - 2]);
        assert(prev.round_to(last));
        assert(rounds(init)) by {
            assert forall|k: int| 0 <= k < init.len() - 1 implies (#[trigger] init[k]).round_to(
                init[k + 1],
            ) by {
                assert(states[k].round_to(states[k + 1]));
            }
        }
        let id = choose|id: Seq<char>| prev.novel(id) && !#[trigger] last.novel(id);
        let smaller = documents.remove(id);
        assert(prev.decided().subset_of(smaller));
        lemma_rounds_bounded(init, smaller);
        assert(documents.contains(id));
    }
}

} // verus!
