//! What an agent is curious about: a list of `SELECT` queries whose answers
//! name the things it may want to look at next.
use crate::sparql::{is_select_text, Query, QueryResults};
use crate::store::Store;
use crate::types::{NodeView, RdfNode};
use oxigraph::sparql::EvaluationError;
use vstd::prelude::*;

verus! {

/// The texts of a list of queries.
pub open spec fn query_texts(queries: Seq<Query>) -> Seq<Seq<char>> {
    queries.map_values(|q: Query| q@)
}

/// The mathematical values of a list of nodes.
pub open spec fn node_views(nodes: Seq<RdfNode>) -> Seq<NodeView> {
    nodes.map_values(|n: RdfNode| n@)
}

/// The mathematical values of the rows of an answer.
pub open spec fn row_views(rows: Seq<Vec<RdfNode>>) -> Seq<Seq<NodeView>> {
    rows.map_values(|row: Vec<RdfNode>| node_views(row@))
}

/// Whether every text is a `SELECT` query.
pub open spec fn all_select(texts: Seq<Seq<char>>) -> bool {
    forall|i: int| 0 <= i < texts.len() ==> is_select_text(#[trigger] texts[i])
}

fn is_select(q: &Query) -> (res: bool)
    ensures
        res == is_select_text(q@),
{
    q.is_select()
}

/// Appends to `terms` every term that the rows bind: row after row, and
/// inside a row in its order.
pub fn bound_terms(rows: &Vec<Vec<RdfNode>>, terms: &mut Vec<RdfNode>)
    ensures
        node_views(final(terms)@) == node_views(old(terms)@) + row_views(rows@).flatten(),
{
    let ghost before = node_views(terms@);
    let mut i: usize = 0;
    assert(row_views(rows@).take(0).flatten() =~= Seq::<NodeView>::empty());
    assert(before + Seq::<NodeView>::empty() =~= before);
    while i < rows.len()
        invariant
            i <= rows.len(),
            node_views(terms@) == before + row_views(rows@).take(i as int).flatten(),
        decreases rows.len() - i,
    {
        let row = &rows[i];
        let ghost sofar = node_views(terms@);
        let mut j: usize = 0;
        assert(sofar + node_views(row@).take(0) =~= sofar);
        while j < row.len()
            invariant
                j <= row.len(),
                node_views(terms@) == sofar + node_views(row@).take(j as int),
            decreases row.len() - j,
        {
            terms.push(row[j].clone());
            proof {
                assert(node_views(terms@) =~= (sofar + node_views(row@).take(j as int)).push(
                    row[j as int]@,
                ));
                assert(node_views(row@).take(j as int + 1) =~= node_views(row@).take(j as int).push(
                    row[j as int]@,
                ));
                assert(node_views(terms@) =~= sofar + node_views(row@).take(j as int + 1));
            }
            j += 1;
        }
        proof {
            let views = row_views(rows@);
            assert(node_views(row@).take(j as int) =~= node_views(row@));
            assert(views.take(i as int + 1) =~= views.take(i as int).push(views[i as int]));
            views.take(i as int).lemma_flatten_push(views[i as int]);
            assert(views[i as int] == node_views(row@));
            assert(node_views(terms@) =~= before + views.take(i as int + 1).flatten());
        }
        i += 1;
    }
    assert(row_views(rows@).take(i as int) =~= row_views(rows@));
}

/// A list of queries, every one a `SELECT`.
pub struct Curiosity {
    /// queries in this list must all be select statements
    curiosity: Vec<Query>,
}

impl View for Curiosity {
    type V = Seq<Seq<char>>;

    closed spec fn view(&self) -> Seq<Seq<char>> {
        query_texts(self.curiosity@)
    }
}

impl Curiosity {
    #[verifier::type_invariant]
    spec fn inv(self) -> bool {
        all_select(query_texts(self.curiosity@))
    }

    /// Takes the queries if every one of them is a `SELECT`, and refuses
    /// them all otherwise.
    pub fn create(curiosity: Vec<Query>) -> (res: Result<Self, ()>)
        ensures
            res is Ok <==> all_select(query_texts(curiosity@)),
            res matches Ok(made) ==> made@ == query_texts(curiosity@),
    {
        let ghost texts = query_texts(curiosity@);
        let mut i: usize = 0;
        while i < curiosity.len()
            invariant
                i <= curiosity.len(),
                texts == query_texts(curiosity@),
                forall|j: int| 0 <= j < i ==> is_select_text(#[trigger] texts[j]),
            decreases curiosity.len() - i,
        {
            if !is_select(&curiosity[i]) {
                assert(!is_select_text(texts[i as int]));
                return Err(());
            }
            i += 1;
        }
        Ok(Self { curiosity })
    }

    /// The queries.
    pub fn queries(&self) -> (res: &Vec<Query>)
        ensures
            query_texts(res@) == self@,
            all_select(self@),
    {
        proof {
            use_type_invariant(self);
        }
        &self.curiosity
    }

    /// Asks the store every query in turn and collects every term that every
    /// solution binds. The first query that the store fails to evaluate ends
    /// the collection with the store's error.
    ///
    /// What the store answers is the store's affair; the result is made of
    /// its answers as [`collected`] says, and each answer is read as
    /// [`bound_terms`] says. Without a query there is nothing to ask, and
    /// nothing comes back.
    pub fn curious<S: Store>(&self, store: &S) -> (res: Result<Vec<RdfNode>, EvaluationError>)
        ensures
            self@.len() == 0 ==> (res matches Ok(terms) && terms.len() == 0),
            exists|answers: Seq<Result<QueryResults, EvaluationError>>|
                #![auto]
                asked(store, self@, answers) && collected(self@.len(), answers, res),
    {
        proof {
            use_type_invariant(self);
        }
        let mut terms: Vec<RdfNode> = Vec::new();
        let ghost mut answers: Seq<Result<QueryResults, EvaluationError>> = Seq::empty();
        let mut i: usize = 0;
        assert(node_views(terms@) =~= gathered(answers));
        while i < self.curiosity.len()
            invariant
                i <= self.curiosity.len(),
                all_select(query_texts(self.curiosity@)),
                self.curiosity.len() == 0 ==> terms.len() == 0,
                answers.len() == i,
                asked(store, query_texts(self.curiosity@), answers),
                forall|j: int| 0 <= j < i ==> (#[trigger] answers[j]) is Ok,
                node_views(terms@) == gathered(answers),
            decreases self.curiosity.len() - i,
        {
            let cur = self.curiosity[i].clone();
            let ghost asked_with = cur;
            assert(is_select_text(query_texts(self.curiosity@)[i as int]));
            let answer = store.query(cur);
            let ghost before = answers;
            proof {
                let longer = answers.push(answer);
                assert(answered(store, query_texts(self.curiosity@)[i as int], answer)) by {
                    assert(asked_with@ == query_texts(self.curiosity@)[i as int]);
                    assert(call_ensures(S::query, (store, asked_with), answer));
                }
                assert forall|j: int| 0 <= j < longer.len() implies answered(
                    store,
                    query_texts(self.curiosity@)[j],
                    #[trigger] longer[j],
                ) by {
                    if j < i {
                        assert(longer[j] == answers[j]);
                    }
                }
                assert(longer.drop_last() =~= answers);
                answers = longer;
            }
            match answer {
                Err(e) => {
                    proof {
                        assert(answers.last() == Err::<QueryResults, EvaluationError>(e));
                        assert(collected(self@.len(), answers, Err(e)));
                    }
                    return Err(e);
                },
                Ok(QueryResults::Solutions(rows)) => {
                    bound_terms(&rows, &mut terms);
                    proof {
                        assert(answers.drop_last() =~= before);
                        assert(bound_by(answers.last()) == row_views(rows@).flatten());
                        assert(node_views(terms@) == gathered(answers));
                    }
                },
                Ok(_) => {
                    assert(false);
                },
            }
            i += 1;
        }
        proof {
            assert(collected(self@.len(), answers, Ok(terms)));
        }
        Ok(terms)
    }
}

/// What an answer contributes to the collection: the terms that its
/// solutions bind, row after row; nothing, if it holds no solutions.
pub open spec fn bound_by(answer: Result<QueryResults, EvaluationError>) -> Seq<NodeView> {
    match answer {
        Ok(QueryResults::Solutions(rows)) => row_views(rows@).flatten(),
        _ => Seq::empty(),
    }
}

/// What a list of answers contributes, answer after answer.
pub open spec fn gathered(answers: Seq<Result<QueryResults, EvaluationError>>) -> Seq<NodeView>
    decreases answers.len(),
{
    if answers.len() == 0 {
        Seq::empty()
    } else {
        gathered(answers.drop_last()) + bound_by(answers.last())
    }
}

/// Whether `answer` is what the store gave when it was asked the query
/// with the given text.
pub open spec fn answered<S: Store>(
    store: &S,
    text: Seq<char>,
    answer: Result<QueryResults, EvaluationError>,
) -> bool {
    exists|query: Query| #[trigger] query@ == text && call_ensures(S::query, (store, query), answer)
}

/// Whether `answers` are what the store gave when it was asked the first
/// of the queries, one answer for each and in their order.
pub open spec fn asked<S: Store>(
    store: &S,
    texts: Seq<Seq<char>>,
    answers: Seq<Result<QueryResults, EvaluationError>>,
) -> bool {
    &&& answers.len() <= texts.len()
    &&& forall|i: int|
        0 <= i < answers.len() ==> answered(store, texts[i], #[trigger] answers[i])
}

/// Whether `res` is what comes of asking `queries` queries and getting
/// `answers`. Either every query was answered, and the result holds what
/// the answers bind, in their order; or the last answer is an error, no
/// answer before it is one, no query after it was asked, and the result is
/// that error.
pub open spec fn collected(
    queries: nat,
    answers: Seq<Result<QueryResults, EvaluationError>>,
    res: Result<Vec<RdfNode>, EvaluationError>,
) -> bool {
    &&& forall|i: int| 0 <= i < answers.len() - 1 ==> (#[trigger] answers[i]) is Ok
    &&& match res {
        Ok(terms) => {
            &&& answers.len() == queries
            &&& queries > 0 ==> answers.last() is Ok
            &&& node_views(terms@) == gathered(answers)
        },
        Err(e) => answers.len() > 0 && answers.last() == Err::<QueryResults, EvaluationError>(e),
    }
}

} // verus!
