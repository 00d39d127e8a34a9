//! Laws of the evaluator, stated over the specification walk and proved for
//! every provider and candidate.

use crate::ops::BaseOperators;
use crate::path::{extract_spec, split_path};
use crate::query::{
    eval_cond, eval_query, negate_result, ConditionView, QueryView,
};
use crate::value::ValueView;
use crate::{OperatorProvider, QueryErrorView};
use vstd::prelude::*;

verus! {

/// Negation law: evaluating `Not { op }` on any candidate yields exactly
/// the logical negation of evaluating `op` on it; an error in the inner
/// tree passes through unchanged.
pub proof fn lemma_not_negates<P: OperatorProvider>(prov: P, op: QueryView, v: Option<ValueView>)
    ensures
        eval_cond(prov, ConditionView::Not { op }, v) == negate_result(eval_query(prov, op, v)),
        eval_query(prov, op, v) matches Ok(b) ==> eval_cond(prov, ConditionView::Not { op }, v)
            == Ok::<bool, QueryErrorView>(!b),
{
}

/// Vacuous combinators: on any candidate, an empty compound and an empty
/// `$and` match, an empty `$or` does not, and an empty `$nor` matches.
pub proof fn lemma_empty_combinators<P: OperatorProvider>(prov: P, v: Option<ValueView>)
    ensures
        eval_query(prov, QueryView::Compound(Seq::empty()), v) == Ok::<bool, QueryErrorView>(true),
        eval_cond(prov, ConditionView::And(Seq::empty()), v) == Ok::<bool, QueryErrorView>(true),
        eval_cond(prov, ConditionView::Or(Seq::empty()), v) == Ok::<bool, QueryErrorView>(false),
        eval_cond(prov, ConditionView::Nor(Seq::empty()), v) == Ok::<bool, QueryErrorView>(true),
{
}

/// An operator name outside the provider's set surfaces an
/// `UnsupportedOperator` error on every candidate and condition value — an
/// error outcome, never a `false` match.
pub proof fn lemma_unknown_operator_errors<P: OperatorProvider>(
    prov: P,
    operator: Seq<char>,
    condition: ValueView,
    v: Option<ValueView>,
)
    requires
        !prov.spec_has(operator),
    ensures
        eval_cond(prov, ConditionView::Operator { operator, condition }, v) == Err::<
            bool,
            QueryErrorView,
        >(QueryErrorView::UnsupportedOperator { operator }),
{
}

/// `$exists` characterises presence: under the built-in operators, the
/// condition `{field: {"$exists": should}}` matches a candidate exactly
/// when `should` equals whether the field path resolves on it — so
/// `$exists: true` matches exactly the candidates where the path yields a
/// value, and `$exists: false` exactly the complement.
pub proof fn lemma_exists_characterises_presence(
    field_name: Seq<char>,
    should: bool,
    v: Option<ValueView>,
)
    ensures
        eval_cond(
            BaseOperators {  },
            ConditionView::Field {
                field_name,
                op: QueryView::Compound(
                    seq![
                        ConditionView::Operator {
                            operator: "exists"@,
                            condition: ValueView::Bool(should),
                        },
                    ],
                ),
            },
            v,
        ) == Ok::<bool, QueryErrorView>(
            should == (extract_spec(v, split_path(field_name), 0) is Some),
        ),
{
    let exists_cond = ConditionView::Operator {
        operator: "exists"@,
        condition: ValueView::Bool(should),
    };
    let extracted = extract_spec(v, split_path(field_name), 0);
    assert(eval_cond(BaseOperators {  }, exists_cond, extracted) == Ok::<bool, QueryErrorView>(
        should == (extracted is Some),
    ));
    assert(seq![exists_cond][0] == exists_cond);
    assert(crate::query::eval_conds(BaseOperators {  }, seq![exists_cond], extracted, 1)
        == Ok::<bool, QueryErrorView>(true));
    assert(crate::query::eval_conds(BaseOperators {  }, seq![exists_cond], extracted, 0)
        == Ok::<bool, QueryErrorView>(should == (extracted is Some)));
}

} // verus!
