//! The built-in standard operators and the provider that supplies them.

use crate::compare::{compare_spec, value_partial_cmp};
use crate::path::opt_view;
use crate::value::{arr_contains, lemma_array_view, str_eq, value_eq, Value, ValueView};
use crate::{res_view, OperatorProvider, QueryError, QueryErrorView};
use std::cmp::Ordering;
use vstd::prelude::*;

verus! {

/// `exists`: with a boolean condition `b`, matches when `b` equals the
/// presence of the evaluatee; any other condition shape is an operator
/// error.
pub open spec fn spec_exists(e: Option<ValueView>, c: ValueView) -> Result<bool, QueryErrorView> {
    match c {
        ValueView::Bool(b) => Ok(b == (e is Some)),
        _ => Err(
            QueryErrorView::OperatorError {
                operator: "exists"@,
                reason: "non-boolean condition"@,
            },
        ),
    }
}

/// `eq`: structural equality with the condition; an absent evaluatee never
/// matches.
pub open spec fn spec_eq(e: Option<ValueView>, c: ValueView) -> Result<bool, QueryErrorView> {
    match e {
        Option::Some(x) => Ok(x == c),
        Option::None => Ok(false),
    }
}

/// `ne`: the logical negation of `eq`.
pub open spec fn spec_ne(e: Option<ValueView>, c: ValueView) -> Result<bool, QueryErrorView> {
    match e {
        Option::Some(x) => Ok(x != c),
        Option::None => Ok(true),
    }
}

/// `gt`: the evaluatee is present and strictly above the condition in the
/// partial order of [`compare_spec`].
pub open spec fn spec_gt(e: Option<ValueView>, c: ValueView) -> Result<bool, QueryErrorView> {
    Ok(e matches Some(x) && compare_spec(x, c) == Some(Ordering::Greater))
}

/// `gte`: present and above or equal.
pub open spec fn spec_gte(e: Option<ValueView>, c: ValueView) -> Result<bool, QueryErrorView> {
    Ok(
        e matches Some(x) && (compare_spec(x, c) == Some(Ordering::Greater) || compare_spec(x, c)
            == Some(Ordering::Equal)),
    )
}

/// `lt`: present and strictly below.
pub open spec fn spec_lt(e: Option<ValueView>, c: ValueView) -> Result<bool, QueryErrorView> {
    Ok(e matches Some(x) && compare_spec(x, c) == Some(Ordering::Less))
}

/// `lte`: present and below or equal.
pub open spec fn spec_lte(e: Option<ValueView>, c: ValueView) -> Result<bool, QueryErrorView> {
    Ok(
        e matches Some(x) && (compare_spec(x, c) == Some(Ordering::Less) || compare_spec(x, c)
            == Some(Ordering::Equal)),
    )
}

/// Whether the two sequences share an element.
pub open spec fn seqs_intersect(a: Seq<ValueView>, b: Seq<ValueView>) -> bool {
    exists|i: int, j: int| 0 <= i < a.len() && 0 <= j < b.len() && a[i] == b[j]
}

/// `in`: with an array condition, an array evaluatee matches when the two
/// arrays share an element, any other present evaluatee when the condition
/// array holds it, and an absent evaluatee never; a non-array condition is
/// an operator error.
pub open spec fn spec_in(e: Option<ValueView>, c: ValueView) -> Result<bool, QueryErrorView> {
    match c {
        ValueView::Array(cond) => Ok(
            match e {
                Option::Some(x) => match x {
                    ValueView::Array(ev) => seqs_intersect(cond, ev),
                    _ => cond.contains(x),
                },
                Option::None => false,
            },
        ),
        _ => Err(
            QueryErrorView::OperatorError {
                operator: "in"@,
                reason: "condition must be a list"@,
            },
        ),
    }
}

/// `nin`: the logical negation of `in`; its error is `in`'s error.
pub open spec fn spec_nin(e: Option<ValueView>, c: ValueView) -> Result<bool, QueryErrorView> {
    match spec_in(e, c) {
        Result::Ok(b) => Ok(!b),
        Result::Err(er) => Err(er),
    }
}

/// Whether `name` is one of the nine built-in operator names.
pub open spec fn base_has(name: Seq<char>) -> bool {
    ||| name == "exists"@
    ||| name == "eq"@
    ||| name == "ne"@
    ||| name == "gt"@
    ||| name == "gte"@
    ||| name == "lt"@
    ||| name == "lte"@
    ||| name == "in"@
    ||| name == "nin"@
}

/// The outcome of the built-in operator under `name`.
pub open spec fn base_apply(name: Seq<char>, e: Option<ValueView>, c: ValueView) -> Result<
    bool,
    QueryErrorView,
> {
    if name == "exists"@ {
        spec_exists(e, c)
    } else if name == "eq"@ {
        spec_eq(e, c)
    } else if name == "ne"@ {
        spec_ne(e, c)
    } else if name == "gt"@ {
        spec_gt(e, c)
    } else if name == "gte"@ {
        spec_gte(e, c)
    } else if name == "lt"@ {
        spec_lt(e, c)
    } else if name == "lte"@ {
        spec_lte(e, c)
    } else if name == "in"@ {
        spec_in(e, c)
    } else {
        spec_nin(e, c)
    }
}

/// The provider of the built-in standard operators
/// `exists, eq, ne, gt, gte, lt, lte, in, nin`.
#[derive(Debug)]
pub struct BaseOperators {}

impl BaseOperators {
    /// Whether `should_exist` (a boolean) equals the presence of the
    /// evaluatee.
    pub fn exists_op(evaluatee: Option<&Value>, should_exist: &Value) -> (r: Result<bool, QueryError>)
        ensures
            res_view(r) == spec_exists(opt_view(evaluatee), should_exist@),
    {
        match should_exist {
            Value::Bool(b) => {
                if *b {
                    Ok(evaluatee.is_some())
                } else {
                    Ok(evaluatee.is_none())
                }
            },
            _ => Err(
                QueryError::OperatorError {
                    operator: String::from_str("exists"),
                    reason: String::from_str("non-boolean condition"),
                },
            ),
        }
    }

    /// Whether the evaluatee is present and structurally equal to the
    /// condition.
    pub fn eq(evaluatee: Option<&Value>, condition: &Value) -> (r: Result<bool, QueryError>)
        ensures
            res_view(r) == spec_eq(opt_view(evaluatee), condition@),
    {
        match evaluatee {
            Option::Some(x) => Ok(value_eq(x, condition)),
            Option::None => Ok(false),
        }
    }

    /// The negation of [`BaseOperators::eq`].
    pub fn ne(evaluatee: Option<&Value>, condition: &Value) -> (r: Result<bool, QueryError>)
        ensures
            res_view(r) == spec_ne(opt_view(evaluatee), condition@),
    {
        match BaseOperators::eq(evaluatee, condition) {
            Result::Ok(b) => Ok(!b),
            Result::Err(e) => Err(e),
        }
    }

    /// Whether the evaluatee is present and strictly above the condition.
    pub fn gt(evaluatee: Option<&Value>, condition: &Value) -> (r: Result<bool, QueryError>)
        ensures
            res_view(r) == spec_gt(opt_view(evaluatee), condition@),
    {
        match evaluatee {
            Option::Some(x) => match value_partial_cmp(x, condition) {
                Option::Some(Ordering::Greater) => Ok(true),
                _ => Ok(false),
            },
            Option::None => Ok(false),
        }
    }

    /// Whether the evaluatee is present and above or equal to the condition.
    pub fn gte(evaluatee: Option<&Value>, condition: &Value) -> (r: Result<bool, QueryError>)
        ensures
            res_view(r) == spec_gte(opt_view(evaluatee), condition@),
    {
        match evaluatee {
            Option::Some(x) => match value_partial_cmp(x, condition) {
                Option::Some(Ordering::Greater) => Ok(true),
                Option::Some(Ordering::Equal) => Ok(true),
                _ => Ok(false),
            },
            Option::None => Ok(false),
        }
    }

    /// Whether the evaluatee is present and strictly below the condition.
    pub fn lt(evaluatee: Option<&Value>, condition: &Value) -> (r: Result<bool, QueryError>)
        ensures
            res_view(r) == spec_lt(opt_view(evaluatee), condition@),
    {
        match evaluatee {
            Option::Some(x) => match value_partial_cmp(x, condition) {
                Option::Some(Ordering::Less) => Ok(true),
                _ => Ok(false),
            },
            Option::None => Ok(false),
        }
    }

    /// Whether the evaluatee is present and below or equal to the condition.
    pub fn lte(evaluatee: Option<&Value>, condition: &Value) -> (r: Result<bool, QueryError>)
        ensures
            res_view(r) == spec_lte(opt_view(evaluatee), condition@),
    {
        match evaluatee {
            Option::Some(x) => match value_partial_cmp(x, condition) {
                Option::Some(Ordering::Less) => Ok(true),
                Option::Some(Ordering::Equal) => Ok(true),
                _ => Ok(false),
            },
            Option::None => Ok(false),
        }
    }

    /// Whether the evaluatee meets the condition array: sharing an element
    /// when the evaluatee is itself an array, membership otherwise.
    #[verifier::loop_isolation(false)]
    pub fn is_in(evaluatee: Option<&Value>, condition: &Value) -> (r: Result<bool, QueryError>)
        ensures
            res_view(r) == spec_in(opt_view(evaluatee), condition@),
    {
        match condition {
            Value::Array(cond) => {
                proof {
                    lemma_array_view(*cond);
                }
                let ghost cv = crate::value::views_of_seq(cond@);
                match evaluatee {
                    Option::Some(x) => match x {
                        Value::Array(ev) => {
                            proof {
                                lemma_array_view(*ev);
                            }
                            let ghost evv = crate::value::views_of_seq(ev@);
                            let n = cond.len();
                            let m = ev.len();
                            let mut i: usize = 0;
                            while i < n
                                invariant
                                    0 <= i <= n,
                                    forall|a: int, b: int|
                                        0 <= a < i && 0 <= b < m ==> cv[a] != evv[b],
                                decreases n - i,
                            {
                                let mut j: usize = 0;
                                while j < m
                                    invariant
                                        0 <= i < n,
                                        0 <= j <= m,
                                        forall|b: int| 0 <= b < j ==> cv[i as int] != evv[b],
                                    decreases m - j,
                                {
                                    if value_eq(&cond[i], &ev[j]) {
                                        proof {
                                            assert(cv[i as int] == evv[j as int]);
                                            assert(seqs_intersect(cv, evv));
                                        }
                                        return Ok(true);
                                    }
                                    j = j + 1;
                                }
                                i = i + 1;
                            }
                            Ok(false)
                        },
                        _ => Ok(arr_contains(cond, x)),
                    },
                    Option::None => Ok(false),
                }
            },
            _ => Err(
                QueryError::OperatorError {
                    operator: String::from_str("in"),
                    reason: String::from_str("condition must be a list"),
                },
            ),
        }
    }

    /// The negation of [`BaseOperators::is_in`].
    pub fn nin(evaluatee: Option<&Value>, condition: &Value) -> (r: Result<bool, QueryError>)
        ensures
            res_view(r) == spec_nin(opt_view(evaluatee), condition@),
    {
        match BaseOperators::is_in(evaluatee, condition) {
            Result::Ok(b) => Ok(!b),
            Result::Err(e) => Err(e),
        }
    }
}

impl OperatorProvider for BaseOperators {
    open spec fn spec_has(&self, name: Seq<char>) -> bool {
        base_has(name)
    }

    open spec fn spec_apply(
        &self,
        name: Seq<char>,
        evaluatee: Option<ValueView>,
        condition: ValueView,
    ) -> Result<bool, QueryErrorView> {
        base_apply(name, evaluatee, condition)
    }

    fn apply(&self, name: &str, evaluatee: Option<&Value>, condition: &Value) -> (r: Option<
        Result<bool, QueryError>,
    >) {
        if str_eq(name, "exists") {
            Some(BaseOperators::exists_op(evaluatee, condition))
        } else if str_eq(name, "eq") {
            Some(BaseOperators::eq(evaluatee, condition))
        } else if str_eq(name, "ne") {
            Some(BaseOperators::ne(evaluatee, condition))
        } else if str_eq(name, "gt") {
            Some(BaseOperators::gt(evaluatee, condition))
        } else if str_eq(name, "gte") {
            Some(BaseOperators::gte(evaluatee, condition))
        } else if str_eq(name, "lt") {
            Some(BaseOperators::lt(evaluatee, condition))
        } else if str_eq(name, "lte") {
            Some(BaseOperators::lte(evaluatee, condition))
        } else if str_eq(name, "in") {
            Some(BaseOperators::is_in(evaluatee, condition))
        } else if str_eq(name, "nin") {
            Some(BaseOperators::nin(evaluatee, condition))
        } else {
            None
        }
    }
}

} // verus!
