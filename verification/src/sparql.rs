//! Pattern queries, and what a query engine answers.
//!
//! A query is kept as its text. oxigraph's SPARQL parser decides whether a
//! text is a query, and of which of the four forms; the answer has the name
//! [`sparql_form`].
use crate::types::RdfNode;
use oxigraph::sparql::{EvaluationError, ParseError};
use vstd::prelude::*;

verus! {

#[verifier::external_type_specification]
#[verifier::external_body]
pub struct ExEvaluationError(EvaluationError);

#[verifier::external_type_specification]
#[verifier::external_body]
pub struct ExParseError(ParseError);

/// The four forms of a SPARQL query.
#[derive(Clone, Copy, Debug, PartialEq, Eq)]
pub enum QueryForm {
    /// Binds variables: the only read-only form whose answer is a table.
    Select,
    /// Builds a graph from a template.
    Construct,
    /// Describes resources as a graph.
    Describe,
    /// Answers yes or no.
    Ask,
}

/// The form of the query that `oxigraph::sparql::Query::parse` reads from
/// the text, without a base IRI; `None` where it reads no query.
pub uninterp spec fn sparql_form(text: Seq<char>) -> Option<QueryForm>;

/// Whether the text is a `SELECT` query.
pub open spec fn is_select_text(text: Seq<char>) -> bool {
    sparql_form(text) == Some(QueryForm::Select)
}

/// Parses the text with `oxigraph::sparql::Query::parse`, without a base
/// IRI, and tells the four variants of the parsed query apart. Claims: the
/// parser accepts or refuses a text, and picks the form, by the text alone,
/// as [`sparql_form`] names it.
#[verifier::external_body]
fn parse_form(text: &str) -> (res: Result<QueryForm, ParseError>)
    ensures
        res is Ok <==> sparql_form(text@) is Some,
        res matches Ok(form) ==> sparql_form(text@) == Some(form),
{
    Ok(
        match oxigraph::sparql::Query::parse(text, None)? {
            oxigraph::sparql::Query::Select { .. } => QueryForm::Select,
            oxigraph::sparql::Query::Construct { .. } => QueryForm::Construct,
            oxigraph::sparql::Query::Describe { .. } => QueryForm::Describe,
            oxigraph::sparql::Query::Ask { .. } => QueryForm::Ask,
        },
    )
}

/// A SPARQL query that has been parsed once: its text and its form.
#[derive(Debug)]
pub struct Query {
    text: String,
    form: QueryForm,
}

impl View for Query {
    type V = Seq<char>;

    closed spec fn view(&self) -> Seq<char> {
        self.text@
    }
}

impl Clone for Query {
    fn clone(&self) -> (res: Self)
        ensures
            res@ == self@,
    {
        proof {
            use_type_invariant(self);
        }
        Query { text: self.text.clone(), form: self.form }
    }
}

impl Query {
    #[verifier::type_invariant]
    spec fn inv(self) -> bool {
        sparql_form(self.text@) == Some(self.form)
    }

    /// Parses a query.
    pub fn parse(text: &str) -> (res: Result<Query, ParseError>)
        ensures
            res is Ok <==> sparql_form(text@) is Some,
            res matches Ok(query) ==> query@ == text@,
    {
        match parse_form(text) {
            Ok(form) => Ok(Query { text: text.to_owned(), form }),
            Err(e) => Err(e),
        }
    }

    /// The text of the query.
    pub fn as_str(&self) -> (res: &str)
        ensures
            res@ == self@,
            sparql_form(self@) is Some,
    {
        proof {
            use_type_invariant(self);
        }
        self.text.as_str()
    }

    /// The form of the query.
    pub fn form(&self) -> (res: QueryForm)
        ensures
            sparql_form(self@) == Some(res),
    {
        proof {
            use_type_invariant(self);
        }
        self.form
    }

    /// Whether the query is a `SELECT`.
    pub fn is_select(&self) -> (res: bool)
        ensures
            res == is_select_text(self@),
    {
        match self.form() {
            QueryForm::Select => true,
            _ => false,
        }
    }
}

impl core::str::FromStr for Query {
    type Err = ParseError;

    /// Parses a query, as [`Query::parse`] does.
    fn from_str(text: &str) -> (res: Result<Query, ParseError>)
        ensures
            res is Ok <==> sparql_form(text@) is Some,
            res matches Ok(query) ==> query@ == text@,
    {
        Query::parse(text)
    }
}

/// What a query engine answers.
#[derive(Debug)]
pub enum QueryResults {
    /// The answer to a `SELECT`: one row for each solution, holding the
    /// terms that the solution binds, in the order of the variables.
    Solutions(Vec<Vec<RdfNode>>),
    /// The answer to an `ASK`.
    Boolean(bool),
    /// The answer to a `CONSTRUCT` or a `DESCRIBE`: subject, predicate and
    /// object of each triple.
    Graph(Vec<(RdfNode, RdfNode, RdfNode)>),
}

} // verus!
