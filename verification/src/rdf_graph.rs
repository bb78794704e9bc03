//! Graphs of triples, and the merge that keeps blank nodes apart.
//!
//! A blank node label means something only inside the document it was
//! written in. Before triples are added to a graph, every blank node in them
//! is therefore given a new label that the graph has not used: the same new
//! label wherever the old one occurred, different new labels for different
//! old ones.
use crate::model::{
    is_blank_node_id, lemma_numbered_blank_id_unique, node_wf, numbered_blank, numbered_blank_id,
    Triple, TripleView,
};
use crate::types::{NodeView, RdfNode};
use vstd::hash_map::StringHashMap;
use vstd::prelude::*;

verus! {

/// The mathematical values of a list of triples.
pub open spec fn triple_views(triples: Seq<Triple>) -> Seq<TripleView> {
    triples.map_values(|t: Triple| t@)
}

/// The blank node labels that a node uses: its own, if it is a blank node.
pub open spec fn node_blanks(node: NodeView) -> Set<Seq<char>> {
    match node {
        NodeView::Blank(id) => set![id],
        _ => Set::empty(),
    }
}

/// The blank node labels that a triple uses.
pub open spec fn triple_blanks(triple: TripleView) -> Set<Seq<char>> {
    node_blanks(triple.subject).union(node_blanks(triple.object))
}

/// The blank node labels that occur anywhere in a list of triples.
pub open spec fn blanks(triples: Seq<TripleView>) -> Set<Seq<char>> {
    Set::new(
        |id: Seq<char>|
            exists|i: int| 0 <= i < triples.len() && #[trigger] triple_blanks(triples[i]).contains(id),
    )
}

/// A node with its blank node label replaced as `renaming` says.
pub open spec fn rename_node(node: NodeView, renaming: Map<Seq<char>, Seq<char>>) -> NodeView {
    match node {
        NodeView::Blank(id) => NodeView::Blank(renaming[id]),
        _ => node,
    }
}

/// A triple with its blank node labels replaced as `renaming` says.
pub open spec fn rename_triple(
    triple: TripleView,
    renaming: Map<Seq<char>, Seq<char>>,
) -> TripleView {
    TripleView {
        subject: rename_node(triple.subject, renaming),
        predicate: triple.predicate,
        object: rename_node(triple.object, renaming),
    }
}

/// A list of triples with its blank node labels replaced as `renaming` says.
pub open spec fn rename_all(
    triples: Seq<TripleView>,
    renaming: Map<Seq<char>, Seq<char>>,
) -> Seq<TripleView> {
    Seq::new(triples.len(), |i: int| rename_triple(triples[i], renaming))
}

/// Whether `renaming` renames the blank nodes of `incoming` without
/// conflating any: it covers exactly the labels of `incoming`, gives
/// different labels different new labels, and every new label is a valid
/// one that `taken` does not hold.
pub open spec fn hygienic(
    renaming: Map<Seq<char>, Seq<char>>,
    incoming: Seq<TripleView>,
    taken: Set<Seq<char>>,
) -> bool {
    &&& renaming.dom() == blanks(incoming)
    &&& forall|a: Seq<char>, b: Seq<char>|
        renaming.contains_key(a) && renaming.contains_key(b) && renaming[a] == renaming[b] ==> a
            == b
    &&& forall|a: Seq<char>| #[trigger]
        renaming.contains_key(a) ==> is_blank_node_id(renaming[a]) && !taken.contains(renaming[a])
}

/// Whether `result` is `existing` followed by `incoming`, the latter with
/// its blank nodes renamed away from those of `existing`.
pub open spec fn merged(
    existing: Seq<TripleView>,
    incoming: Seq<TripleView>,
    result: Seq<TripleView>,
) -> bool {
    exists|renaming: Map<Seq<char>, Seq<char>>|
        #![auto]
        hygienic(renaming, incoming, blanks(existing)) && result == existing + rename_all(
            incoming,
            renaming,
        )
}

/// The labels of the blank nodes whose numbers are below `bound`.
pub open spec fn numbered_below(bound: u128) -> Set<Seq<char>> {
    Set::new(|id: Seq<char>| exists|k: u128| k < bound && id == #[trigger] numbered_blank_id(k))
}

/// No other number has the label of blank node `number`.
spec fn number_unique(number: u128) -> bool {
    forall|other: u128| #[trigger]
        numbered_blank_id(other) == numbered_blank_id(number) ==> other == number
}

/// The table of a renaming in progress: the labels met so far have numbers
/// from `lo` up to `next`, one each, and the label of each number is valid
/// and like no other.
spec fn table_ok(numbers: Map<Seq<char>, u128>, lo: u128, next: u128) -> bool {
    &&& lo <= next
    &&& forall|a: Seq<char>| #[trigger] numbers.contains_key(a) ==> lo <= numbers[a] < next
    &&& forall|a: Seq<char>, b: Seq<char>|
        numbers.contains_key(a) && numbers.contains_key(b) && numbers[a] == numbers[b] ==> a == b
    &&& forall|a: Seq<char>| #[trigger]
        numbers.contains_key(a) ==> number_unique(numbers[a]) && is_blank_node_id(
            numbered_blank_id(numbers[a]),
        )
}

/// The renaming that a table of numbers stands for: each label goes to the
/// label of its number.
spec fn labels_of(numbers: Map<Seq<char>, u128>) -> Map<Seq<char>, Seq<char>> {
    Map::new(|a: Seq<char>| numbers.contains_key(a), |a: Seq<char>| numbered_blank_id(numbers[a]))
}

/// The blank node labels of a list grow by those of the triple added.
proof fn lemma_blanks_push(triples: Seq<TripleView>, triple: TripleView)
    ensures
        blanks(triples.push(triple)) == blanks(triples).union(triple_blanks(triple)),
{
    let longer = triples.push(triple);
    assert forall|id: Seq<char>| blanks(longer).contains(id) implies blanks(triples).union(
        triple_blanks(triple),
    ).contains(id) by {
        let i = choose|i: int| 0 <= i < longer.len() && #[trigger] triple_blanks(longer[i]).contains(id);
        if i < triples.len() {
            assert(triple_blanks(triples[i]).contains(id));
        }
    }
    assert forall|id: Seq<char>|
        blanks(triples).union(triple_blanks(triple)).contains(id) implies blanks(longer).contains(
        id,
    ) by {
        if blanks(triples).contains(id) {
            let i = choose|i: int|
                0 <= i < triples.len() && #[trigger] triple_blanks(triples[i]).contains(id);
            assert(triple_blanks(longer[i]).contains(id));
        } else {
            assert(triple_blanks(longer[triples.len() as int]).contains(id));
        }
    }
    assert(blanks(longer) =~= blanks(triples).union(triple_blanks(triple)));
}

/// The blank node labels of a concatenation are those of its two parts.
pub proof fn lemma_blanks_concat(first: Seq<TripleView>, second: Seq<TripleView>)
    ensures
        blanks(first + second) == blanks(first).union(blanks(second)),
    decreases second.len(),
{
    if second.len() == 0 {
        assert(first + second =~= first);
        assert(blanks(second) =~= Set::empty());
        assert(blanks(first).union(blanks(second)) =~= blanks(first));
    } else {
        let init = second.drop_last();
        let last = second.last();
        assert(second =~= init.push(last));
        assert(first + second =~= (first + init).push(last));
        lemma_blanks_concat(first, init);
        lemma_blanks_push(first + init, last);
        lemma_blanks_push(init, last);
        assert(blanks(first + second) =~= blanks(first).union(blanks(second)));
    }
}

/// The name of one blank node on the way into a graph: the number the
/// label had been given, or the next free one.
fn rename_bn(
    label: &str,
    renames: &mut StringHashMap<u128>,
    next: &mut u128,
    Ghost(lo): Ghost<u128>,
) -> (res: String)
    requires
        table_ok(old(renames)@, lo, *old(next)),
        *old(next) < u128::MAX,
    ensures
        table_ok(final(renames)@, lo, *final(next)),
        final(renames)@.contains_key(label@),
        res@ == numbered_blank_id(final(renames)@[label@]),
        is_blank_node_id(res@),
        old(renames)@.contains_key(label@) ==> final(renames)@ == old(renames)@ && *final(next)
            == *old(next),
        !old(renames)@.contains_key(label@) ==> final(renames)@ == old(renames)@.insert(
            label@,
            *old(next),
        ) && *final(next) == *old(next) + 1,
{
    let known = match renames.get(label) {
        Some(number) => Some(*number),
        None => None,
    };
    let number = match known {
        Some(number) => number,
        None => {
            let number = *next;
            renames.insert(label.to_owned(), number);
            *next = number + 1;
            number
        },
    };
    let res = numbered_blank(number);
    proof {
        lemma_numbered_blank_id_unique(number);
    }
    res
}

/// A node on the way into a graph: a blank node under its new name, any
/// other node as it is.
fn rename_node_in(
    node: &RdfNode,
    renames: &mut StringHashMap<u128>,
    next: &mut u128,
    Ghost(lo): Ghost<u128>,
) -> (res: RdfNode)
    requires
        table_ok(old(renames)@, lo, *old(next)),
        *old(next) < u128::MAX,
        node_wf(node@),
    ensures
        table_ok(final(renames)@, lo, *final(next)),
        res@ == rename_node(node@, labels_of(final(renames)@)),
        node_wf(res@),
        res@ is Literal <==> node@ is Literal,
        forall|a: Seq<char>| #[trigger]
            old(renames)@.contains_key(a) ==> final(renames)@.contains_key(a)
                && final(renames)@[a] == old(renames)@[a],
        final(renames)@.dom() == old(renames)@.dom().union(node_blanks(node@)),
        *old(next) <= *final(next) <= *old(next) + 1,
{
    match node {
        RdfNode::Blank(id) => {
            let renamed = rename_bn(id.as_str(), renames, next, Ghost(lo));
            assert(final(renames)@.dom() =~= old(renames)@.dom().union(node_blanks(node@)));
            RdfNode::Blank(renamed)
        },
        _ => {
            assert(final(renames)@.dom() =~= old(renames)@.dom().union(node_blanks(node@)));
            node.clone()
        },
    }
}

/// Renames the blank nodes of `inp` with numbers from `*next` on, and leaves
/// in `*next` a number above all that were used.
///
/// The same label gets the same number wherever it occurs, different labels
/// get different numbers, and the numbers used lie between the old and the
/// new value of `*next`.
pub(crate) fn rename_blanks(inp: &Vec<Triple>, next: &mut u128) -> (res: (
    Vec<Triple>,
    Ghost<Map<Seq<char>, Seq<char>>>,
))
    requires
        *old(next) + 2 * inp.len() <= u128::MAX,
    ensures
        triple_views(res.0@) == rename_all(triple_views(inp@), res.1@),
        hygienic(res.1@, triple_views(inp@), numbered_below(*old(next))),
        forall|a: Seq<char>| #[trigger]
            res.1@.contains_key(a) ==> numbered_below(*final(next)).contains(res.1@[a]),
        numbered_below(*old(next)).subset_of(numbered_below(*final(next))),
        *old(next) <= *final(next) <= *old(next) + 2 * inp.len(),
{
    let ghost lo = *next;
    let ghost views = triple_views(inp@);
    let mut renames: StringHashMap<u128> = StringHashMap::new();
    let mut out: Vec<Triple> = Vec::new();
    let mut i: usize = 0;
    assert(blanks(views.take(0)) =~= Set::empty());
    assert(renames@.dom() =~= Set::empty());
    while i < inp.len()
        invariant
            i <= inp.len(),
            views == triple_views(inp@),
            lo + 2 * inp.len() <= u128::MAX,
            table_ok(renames@, lo, *next),
            *next <= lo + 2 * i,
            renames@.dom() == blanks(views.take(i as int)),
            out.len() == i,
            forall|j: int|
                0 <= j < i ==> (#[trigger] out[j])@ == rename_triple(views[j], labels_of(renames@)),
        decreases inp.len() - i,
    {
        let triple = &inp[i];
        let ghost before = renames@;
        let subject = rename_node_in(triple.subject(), &mut renames, next, Ghost(lo));
        let ghost between = renames@;
        let object = rename_node_in(triple.object(), &mut renames, next, Ghost(lo));
        let renamed = Triple::new(subject, triple.predicate().clone(), object);
        proof {
            assert(views[i as int] == triple@);
            assert(renamed@.subject == rename_node(triple@.subject, labels_of(renames@))) by {
                if let NodeView::Blank(id) = triple@.subject {
                    assert(between.contains_key(id));
                    assert(renames@.contains_key(id) && renames@[id] == between[id]);
                }
            }
            assert(renamed@ == rename_triple(views[i as int], labels_of(renames@)));
            assert forall|j: int| 0 <= j < i implies (#[trigger] out[j])@ == rename_triple(
                views[j],
                labels_of(renames@),
            ) by {
                assert(triple_blanks(views.take(i as int)[j]).subset_of(before.dom()));
                if let NodeView::Blank(id) = views[j].subject {
                    assert(triple_blanks(views.take(i as int)[j]).contains(id));
                    assert(before.contains_key(id));
                    assert(between.contains_key(id) && between[id] == before[id]);
                    assert(renames@.contains_key(id) && renames@[id] == between[id]);
                }
                if let NodeView::Blank(id) = views[j].object {
                    assert(triple_blanks(views.take(i as int)[j]).contains(id));
                    assert(before.contains_key(id));
                    assert(between.contains_key(id) && between[id] == before[id]);
                    assert(renames@.contains_key(id) && renames@[id] == between[id]);
                }
            }
            assert(views.take(i as int + 1) =~= views.take(i as int).push(views[i as int]));
            lemma_blanks_push(views.take(i as int), views[i as int]);
            assert(renames@.dom() =~= blanks(views.take(i as int + 1)));
        }
        out.push(renamed);
        i += 1;
    }
    let ghost renaming = labels_of(renames@);
    proof {
        assert(views.take(i as int) =~= views);
        assert(triple_views(out@) =~= rename_all(views, renaming));
        assert(renaming.dom() =~= renames@.dom());
        assert forall|a: Seq<char>, b: Seq<char>|
            renaming.contains_key(a) && renaming.contains_key(b) && renaming[a]
                == renaming[b] implies a == b by {
            assert(number_unique(renames@[a]));
        }
        assert forall|a: Seq<char>| #[trigger] renaming.contains_key(a) implies is_blank_node_id(
            renaming[a],
        ) && !numbered_below(lo).contains(renaming[a]) && numbered_below(*next).contains(
            renaming[a],
        ) by {
            assert(renames@.contains_key(a));
            assert(number_unique(renames@[a]));
            assert(renaming[a] == numbered_blank_id(renames@[a]));
        }
        assert forall|id: Seq<char>| numbered_below(lo).contains(id) implies numbered_below(
            *next,
        ).contains(id) by {
            let k = choose|k: u128| k < lo && id == #[trigger] numbered_blank_id(k);
            assert(k < *next && id == numbered_blank_id(k));
        }
    }
    (out, Ghost(renaming))
}

/// A graph: a list of triples whose blank nodes were all named by the graph
/// itself, so that none of them can be mistaken for a blank node of another
/// document that was merged into it.
#[derive(Debug, PartialEq)]
pub struct Graph {
    triples: Vec<Triple>,
    next_blank: u128,
}

impl View for Graph {
    type V = Seq<TripleView>;

    closed spec fn view(&self) -> Seq<TripleView> {
        triple_views(self.triples@)
    }
}

impl Default for Graph {
    fn default() -> (res: Self)
        ensures
            res@ == Seq::<TripleView>::empty(),
    {
        let res = Graph { triples: Vec::new(), next_blank: 0 };
        assert(res@ =~= Seq::<TripleView>::empty());
        res
    }
}

impl Clone for Graph {
    fn clone(&self) -> (res: Self)
        ensures
            res@ == self@,
    {
        proof {
            use_type_invariant(self);
        }
        let mut triples: Vec<Triple> = Vec::new();
        let mut i: usize = 0;
        while i < self.triples.len()
            invariant
                i <= self.triples.len(),
                triples.len() == i,
                forall|j: int| 0 <= j < i ==> (#[trigger] triples[j])@ == self.triples[j]@,
            decreases self.triples.len() - i,
        {
            triples.push(self.triples[i].clone());
            i += 1;
        }
        assert(triple_views(triples@) =~= triple_views(self.triples@));
        Graph { triples, next_blank: self.next_blank }
    }
}

impl IntoIterator for Graph {
    type IntoIter = std::vec::IntoIter<Triple>;

    type Item = Triple;

    /// The triples, in their order, one after the other.
    fn into_iter(self) -> (res: std::vec::IntoIter<Triple>)
        ensures
            triple_views(vstd::std_specs::vec::into_iter_elts(res)) == self@,
    {
        broadcast use vstd::std_specs::vec::axiom_spec_into_iter;

        self.triples.into_iter()
    }
}

impl Graph {
    #[verifier::type_invariant]
    spec fn inv(self) -> bool {
        &&& self.next_blank <= 2 * self.triples.len()
        &&& blanks(triple_views(self.triples@)).subset_of(numbered_below(self.next_blank))
    }

    /// A graph of the given triples, with their blank nodes renamed.
    ///
    /// The new labels are fresh within this graph. Two graphs made apart may
    /// use the same labels: their blank nodes are kept apart when one is
    /// merged into the other, or into a store, not before.
    pub fn new(ts: Vec<Triple>) -> (res: Self)
        ensures
            merged(Seq::empty(), triple_views(ts@), res@),
    {
        let mut ret = Graph::default();
        ret.extend_hygienic(ts);
        ret
    }

    /// Adds triples to this graph, first renaming their blank nodes to
    /// labels that the graph does not hold.
    ///
    /// The triples that the graph held stay as they are and come first; the
    /// added ones follow in their order.
    pub fn extend_hygienic(&mut self, other: Vec<Triple>)
        ensures
            merged(old(self)@, triple_views(other@), final(self)@),
    {
        proof {
            use_type_invariant(&*self);
        }
        let mut held = Graph::default();
        core::mem::swap(self, &mut held);
        let mut next = held.next_blank;
        let (mut renamed, Ghost(renaming)) = rename_blanks(&other, &mut next);
        let ghost incoming = triple_views(other@);
        let ghost fresh = triple_views(renamed@);
        let mut triples = held.triples;
        let ghost existing = triple_views(triples@);
        triples.append(&mut renamed);
        proof {
            assert(triple_views(triples@) =~= existing + fresh);
            lemma_blanks_concat(existing, fresh);
            lemma_renamed_blanks(renaming, incoming);
            assert forall|a: Seq<char>| #[trigger] renaming.contains_key(a) implies !blanks(
                existing,
            ).contains(renaming[a]) by {}
            assert(hygienic(renaming, incoming, blanks(existing)));
        }
        *self = Graph { triples, next_blank: next };
    }

    /// The number of triples.
    pub fn len(&self) -> (res: usize)
        ensures
            res == self@.len(),
    {
        self.triples.len()
    }

    /// The triples, in their order.
    pub fn triples(&self) -> (res: &Vec<Triple>)
        ensures
            triple_views(res@) == self@,
    {
        &self.triples
    }

    /// The triples, in their order, as the graph gives them up.
    pub fn into_triples(self) -> (res: Vec<Triple>)
        ensures
            triple_views(res@) == self@,
    {
        self.triples
    }
}

/// The blank nodes of renamed triples have the labels that the renaming
/// gives out.
pub proof fn lemma_renamed_blanks(renaming: Map<Seq<char>, Seq<char>>, incoming: Seq<TripleView>)
    requires
        renaming.dom() == blanks(incoming),
    ensures
        forall|id: Seq<char>|
            blanks(rename_all(incoming, renaming)).contains(id) ==> exists|a: Seq<char>|
                #[trigger] renaming.contains_key(a) && renaming[a] == id,
{
    let fresh = rename_all(incoming, renaming);
    assert forall|id: Seq<char>| blanks(fresh).contains(id) implies exists|a: Seq<char>|
        #[trigger] renaming.contains_key(a) && renaming[a] == id by {
        let i = choose|i: int| 0 <= i < fresh.len() && #[trigger] triple_blanks(fresh[i]).contains(id);
        if fresh[i].subject == NodeView::Blank(id) {
            let label = incoming[i].subject->Blank_0;
            assert(triple_blanks(incoming[i]).contains(label));
            assert(renaming.contains_key(label) && renaming[label] == id);
        } else {
            let label = incoming[i].object->Blank_0;
            assert(triple_blanks(incoming[i]).contains(label));
            assert(renaming.contains_key(label) && renaming[label] == id);
        }
    }
}

/// Merging never conflates blank nodes. In a merged graph the triples that
/// were there stay unchanged; no blank node of the added triples has a label
/// that the graph held before; and two blank nodes of the added triples have
/// the same label after the merge exactly if they had the same label before.
pub proof fn lemma_merge_keeps_blank_nodes_apart(
    existing: Seq<TripleView>,
    incoming: Seq<TripleView>,
    result: Seq<TripleView>,
)
    requires
        merged(existing, incoming, result),
    ensures
        result.len() == existing.len() + incoming.len(),
        result.take(existing.len() as int) == existing,
        blanks(result.skip(existing.len() as int)).disjoint(blanks(existing)),
        forall|i: int, j: int|
            #![trigger incoming[i], incoming[j]]
            0 <= i < incoming.len() && 0 <= j < incoming.len() ==> same_blanks(
                incoming[i],
                incoming[j],
                result[existing.len() + i],
                result[existing.len() + j],
            ),
{
    let renaming = choose|renaming: Map<Seq<char>, Seq<char>>|
        #![auto]
        hygienic(renaming, incoming, blanks(existing)) && result == existing + rename_all(
            incoming,
            renaming,
        );
    let fresh = rename_all(incoming, renaming);
    assert(result.take(existing.len() as int) =~= existing);
    assert(result.skip(existing.len() as int) =~= fresh);
    lemma_renamed_blanks(renaming, incoming);
    assert forall|i: int, j: int|
        #![trigger incoming[i], incoming[j]]
        0 <= i < incoming.len() && 0 <= j < incoming.len() implies same_blanks(
        incoming[i],
        incoming[j],
        result[existing.len() + i],
        result[existing.len() + j],
    ) by {
        assert(result[existing.len() + i] == fresh[i]);
        assert(result[existing.len() + j] == fresh[j]);
        lemma_renaming_keeps_apart(renaming, incoming, blanks(existing), i, j);
    }
}

/// Whether two nodes are told apart after a renaming exactly as they were
/// before: where both were blank nodes they still are, and they have one
/// label now exactly if they had one label then.
pub open spec fn same_identity(a: NodeView, b: NodeView, a2: NodeView, b2: NodeView) -> bool {
    (a is Blank && b is Blank) ==> {
        &&& a2 is Blank
        &&& b2 is Blank
        &&& (a2 == b2 <==> a == b)
    }
}

/// Whether the blank nodes of two triples are told apart after a renaming
/// exactly as they were before, whichever places they stand in.
pub open spec fn same_blanks(a: TripleView, b: TripleView, a2: TripleView, b2: TripleView) -> bool {
    &&& same_identity(a.subject, b.subject, a2.subject, b2.subject)
    &&& same_identity(a.subject, b.object, a2.subject, b2.object)
    &&& same_identity(a.object, b.subject, a2.object, b2.subject)
    &&& same_identity(a.object, b.object, a2.object, b2.object)
}

proof fn lemma_renaming_keeps_apart(
    renaming: Map<Seq<char>, Seq<char>>,
    incoming: Seq<TripleView>,
    taken: Set<Seq<char>>,
    i: int,
    j: int,
)
    requires
        hygienic(renaming, incoming, taken),
        0 <= i < incoming.len(),
        0 <= j < incoming.len(),
    ensures
        same_blanks(
            incoming[i],
            incoming[j],
            rename_triple(incoming[i], renaming),
            rename_triple(incoming[j], renaming),
        ),
{
    assert forall|a: NodeView, b: NodeView|
        (a == incoming[i].subject || a == incoming[i].object) && (b == incoming[j].subject || b
            == incoming[j].object) implies same_identity(
        a,
        b,
        rename_node(a, renaming),
        rename_node(b, renaming),
    ) by {
        if a is Blank && b is Blank {
            let la = a->Blank_0;
            let lb = b->Blank_0;
            assert(triple_blanks(incoming[i]).contains(la));
            assert(triple_blanks(incoming[j]).contains(lb));
            assert(renaming.contains_key(la));
            assert(renaming.contains_key(lb));
        }
    }
}

} // verus!
