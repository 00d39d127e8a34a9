//! A verified evaluator for MongoDB-style declarative query documents.
//!
//! A query document (itself a JSON-like [`Value`](value::Value)) is compiled
//! once into a predicate tree ([`Query`](query::Query)) and then evaluated
//! against many candidate values, yielding `Result<bool, QueryError>`.

pub mod compare;
pub mod laws;
pub mod operator;
pub mod ops;
pub mod path;
pub mod query;
pub mod value;

use value::Value;
use vstd::prelude::*;

pub use compare::value_partial_cmp;
pub use operator::{CustomOperator, NoCustomOperators, OperatorContainer};
pub use ops::BaseOperators;
pub use query::{BaseQuerier, Condition, Query};

verus! {

/// A failure during query evaluation. Compilation never fails; these arise
/// only while a compiled tree is walked.
#[derive(Debug, PartialEq, Eq)]
pub enum QueryError {
    /// An operator name had no registration, custom or standard.
    UnsupportedOperator { operator: String },
    /// A standard operator received a condition of the wrong shape.
    OperatorError { operator: String, reason: String },
}

/// Specification-level model of a [`QueryError`].
pub enum QueryErrorView {
    UnsupportedOperator { operator: Seq<char> },
    OperatorError { operator: Seq<char>, reason: Seq<char> },
}

/// The view of a query error.
pub open spec fn err_view(e: QueryError) -> QueryErrorView {
    match e {
        QueryError::UnsupportedOperator { operator } => QueryErrorView::UnsupportedOperator {
            operator: operator@,
        },
        QueryError::OperatorError { operator, reason } => QueryErrorView::OperatorError {
            operator: operator@,
            reason: reason@,
        },
    }
}

impl View for QueryError {
    type V = QueryErrorView;

    open spec fn view(&self) -> QueryErrorView {
        err_view(*self)
    }
}

/// The view of an evaluation result.
pub open spec fn res_view(r: Result<bool, QueryError>) -> Result<bool, QueryErrorView> {
    match r {
        Result::Ok(b) => Ok(b),
        Result::Err(e) => Err(err_view(e)),
    }
}

/// The capability object that supplies the standard operators: the second
/// tier of the operator registry, consulted when no custom operator has the
/// name. What each name means is pinned by the two specification members.
pub trait OperatorProvider {
    /// Whether this provider has an operator under `name`.
    spec fn spec_has(&self, name: Seq<char>) -> bool;

    /// The outcome of the operator under `name` on an evaluatee (absent when
    /// the field did not exist) and a condition value.
    spec fn spec_apply(
        &self,
        name: Seq<char>,
        evaluatee: Option<value::ValueView>,
        condition: value::ValueView,
    ) -> Result<bool, QueryErrorView>;

    /// Look the operator up and run it: `None` exactly when this provider
    /// has no operator under `name`.
    fn apply(&self, name: &str, evaluatee: Option<&Value>, condition: &Value) -> (r: Option<
        Result<bool, QueryError>,
    >)
        ensures
            r is Some <==> self.spec_has(name@),
            r matches Some(res) ==> res_view(res) == self.spec_apply(
                name@,
                path::opt_view(evaluatee),
                condition@,
            ),
    ;
}

} // verus!
