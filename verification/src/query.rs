//! The predicate tree: compiling a query document into it and evaluating it
//! against candidate values.

use crate::value::{
    lemma_array_view, lemma_object_view, str_eq, views_of_fields, views_of_seq, Value, ValueView,
};
use vstd::prelude::*;

verus! {

/// A compiled query document: a scalar or sequence membership predicate, or
/// an implicitly AND-ed list of conditions compiled from an object's
/// key/value pairs.
#[derive(Debug)]
pub enum Query {
    NullScalar,
    NumericScalar(i64),
    BooleanScalar(bool),
    StringScalar(String),
    Sequence(Vec<Value>),
    Compound(Vec<Condition>),
}

/// One key/value pair of a query object: a logical combinator, a negation,
/// a field match, or a named operator invocation.
#[derive(Debug)]
pub enum Condition {
    And(Vec<Query>),
    Or(Vec<Query>),
    Nor(Vec<Query>),
    Not { op: Query },
    /// Condition evaluation on a (dotted) field of the candidate.
    Field { field_name: String, op: Query },
    /// A non-compound operator whose key started with `$`.
    Operator { operator: String, condition: Value },
}

/// Specification-level model of a [`Query`].
pub enum QueryView {
    NullScalar,
    NumericScalar(int),
    BooleanScalar(bool),
    StringScalar(Seq<char>),
    Sequence(Seq<ValueView>),
    Compound(Seq<ConditionView>),
}

/// Specification-level model of a [`Condition`].
pub enum ConditionView {
    And(Seq<QueryView>),
    Or(Seq<QueryView>),
    Nor(Seq<QueryView>),
    Not { op: QueryView },
    Field { field_name: Seq<char>, op: QueryView },
    Operator { operator: Seq<char>, condition: ValueView },
}

/// The view of a query node.
pub open spec fn query_view(q: Query) -> QueryView
    decreases q, 0int,
{
    match q {
        Query::NullScalar => QueryView::NullScalar,
        Query::NumericScalar(n) => QueryView::NumericScalar(n as int),
        Query::BooleanScalar(b) => QueryView::BooleanScalar(b),
        Query::StringScalar(s) => QueryView::StringScalar(s@),
        Query::Sequence(items) => QueryView::Sequence(views_of_seq(items@)),
        Query::Compound(conds) => QueryView::Compound(
            Seq::new(conds@.len(), |i: int| if 0 <= i < conds@.len() {
                cond_view(conds@[i])
            } else {
                ConditionView::And(Seq::empty())
            }),
        ),
    }
}

/// The view of a condition node.
pub open spec fn cond_view(c: Condition) -> ConditionView
    decreases c, 1int,
{
    match c {
        Condition::And(qs) => ConditionView::And(views_of_subqueries(qs)),
        Condition::Or(qs) => ConditionView::Or(views_of_subqueries(qs)),
        Condition::Nor(qs) => ConditionView::Nor(views_of_subqueries(qs)),
        Condition::Not { op } => ConditionView::Not { op: query_view(op) },
        Condition::Field { field_name, op } => ConditionView::Field {
            field_name: field_name@,
            op: query_view(op),
        },
        Condition::Operator { operator, condition } => ConditionView::Operator {
            operator: operator@,
            condition: condition@,
        },
    }
}

/// The views of a combinator's sub-queries, in order.
pub open spec fn views_of_subqueries(qs: Vec<Query>) -> Seq<QueryView>
    decreases qs, 0int,
{
    Seq::new(qs@.len(), |i: int| if 0 <= i < qs@.len() {
        query_view(qs@[i])
    } else {
        QueryView::NullScalar
    })
}

impl View for Query {
    type V = QueryView;

    open spec fn view(&self) -> QueryView {
        query_view(*self)
    }
}

impl View for Condition {
    type V = ConditionView;

    open spec fn view(&self) -> ConditionView {
        cond_view(*self)
    }
}

/// The views of a list of queries, in order.
pub open spec fn views_of_queries(qs: Seq<Query>) -> Seq<QueryView> {
    Seq::new(qs.len(), |i: int| qs[i]@)
}

/// The views of a list of conditions, in order.
pub open spec fn views_of_conds(cs: Seq<Condition>) -> Seq<ConditionView> {
    Seq::new(cs.len(), |i: int| cs[i]@)
}

/// The view of a compound query is the list of its condition views.
pub proof fn lemma_compound_view(conds: Vec<Condition>)
    ensures
        Query::Compound(conds)@ == QueryView::Compound(views_of_conds(conds@)),
{
    let q = Query::Compound(conds);
    assert(q@->Compound_0 =~= views_of_conds(conds@));
}

/// The view of a sequence query is the list of its element views.
pub proof fn lemma_sequence_view(items: Vec<Value>)
    ensures
        Query::Sequence(items)@ == QueryView::Sequence(views_of_seq(items@)),
{
}

/// The views of the three combinators are the lists of their sub-query
/// views.
pub proof fn lemma_combinator_views(qs: Vec<Query>)
    ensures
        Condition::And(qs)@ == ConditionView::And(views_of_queries(qs@)),
        Condition::Or(qs)@ == ConditionView::Or(views_of_queries(qs@)),
        Condition::Nor(qs)@ == ConditionView::Nor(views_of_queries(qs@)),
{
    assert(views_of_subqueries(qs) =~= views_of_queries(qs@));
}

/// Compile a query document into a predicate tree. Compilation is total:
/// scalars and arrays become the matching membership predicate, and an
/// object becomes one condition per key/value pair, in the document's key
/// order.
pub open spec fn compile(v: ValueView) -> QueryView
    decreases v, 0int,
{
    match v {
        ValueView::Null => QueryView::NullScalar,
        ValueView::Bool(b) => QueryView::BooleanScalar(b),
        ValueView::Number(n) => QueryView::NumericScalar(n),
        ValueView::String(s) => QueryView::StringScalar(s),
        ValueView::Array(items) => QueryView::Sequence(items),
        ValueView::Object(fields) => QueryView::Compound(compile_conds(fields, 0)),
    }
}

/// Compile an object's key/value pairs, from pair `j` on, into conditions.
pub open spec fn compile_conds(fields: Seq<(Seq<char>, ValueView)>, j: int) -> Seq<ConditionView>
    decreases fields, fields.len() - j, 9int,
{
    if j < 0 || j >= fields.len() {
        Seq::empty()
    } else {
        seq![compile_cond(fields[j].0, fields[j].1)] + compile_conds(fields, j + 1)
    }
}

/// Compile one key/value pair:
/// - `$and`/`$or`/`$nor` take their sub-queries from an array value (any
///   other shape gives the empty, vacuous, sub-query list);
/// - `$not` compiles its value as a single sub-query;
/// - any other key starting with `$` records an operator invocation, the
///   `$` stripped and the value stored unparsed;
/// - any other key is a dotted field path whose value compiles recursively.
pub open spec fn compile_cond(key: Seq<char>, val: ValueView) -> ConditionView
    decreases val, 8int,
{
    if key == "$and"@ {
        ConditionView::And(compile_list_of(val))
    } else if key == "$or"@ {
        ConditionView::Or(compile_list_of(val))
    } else if key == "$nor"@ {
        ConditionView::Nor(compile_list_of(val))
    } else if key == "$not"@ {
        ConditionView::Not { op: compile(val) }
    } else if key.len() > 0 && key[0] == '$' {
        ConditionView::Operator { operator: key.subrange(1, key.len() as int), condition: val }
    } else {
        ConditionView::Field { field_name: key, op: compile(val) }
    }
}

/// The sub-queries of a combinator: each element of an array value,
/// compiled; the empty list for any other shape.
pub open spec fn compile_list_of(val: ValueView) -> Seq<QueryView>
    decreases val, 7int,
{
    match val {
        ValueView::Array(items) => compile_list(items, 0),
        _ => Seq::empty(),
    }
}

/// Compile the elements of an array, from element `j` on, as sub-queries.
pub open spec fn compile_list(items: Seq<ValueView>, j: int) -> Seq<QueryView>
    decreases items, items.len() - j, 6int,
{
    if j < 0 || j >= items.len() {
        Seq::empty()
    } else {
        seq![compile(items[j])] + compile_list(items, j + 1)
    }
}

/// Characterisation of [`compile_list`]: one compiled sub-query per
/// element, in order.
pub proof fn lemma_compile_list(items: Seq<ValueView>, j: int)
    requires
        0 <= j <= items.len(),
    ensures
        compile_list(items, j).len() == items.len() - j,
        forall|l: int|
            j <= l < items.len() ==> compile_list(items, j)[l - j] == compile(
                #[trigger] items[l],
            ),
    decreases items.len() - j,
{
    if j < items.len() {
        lemma_compile_list(items, j + 1);
    }
}

/// Characterisation of [`compile_conds`]: one condition per key/value pair,
/// in order.
pub proof fn lemma_compile_conds(fields: Seq<(Seq<char>, ValueView)>, j: int)
    requires
        0 <= j <= fields.len(),
    ensures
        compile_conds(fields, j).len() == fields.len() - j,
        forall|l: int|
            j <= l < fields.len() ==> compile_conds(fields, j)[l - j] == compile_cond(
                (#[trigger] fields[l]).0,
                fields[l].1,
            ),
    decreases fields.len() - j,
{
    if j < fields.len() {
        lemma_compile_conds(fields, j + 1);
    }
}

impl Query {
    /// Compile a query document into its predicate tree.
    pub fn from_value(v: &Value) -> (q: Query)
        ensures
            q@ == compile(v@),
        decreases *v, 1int,
    {
        match v {
            Value::Null => Query::NullScalar,
            Value::Bool(b) => Query::BooleanScalar(*b),
            Value::Number(n) => Query::NumericScalar(*n),
            Value::String(s) => Query::StringScalar(s.clone()),
            Value::Array(items) => {
                let mut out: Vec<Value> = Vec::new();
                let n = items.len();
                let mut i: usize = 0;
                while i < n
                    invariant
                        0 <= i <= n,
                        n == items@.len(),
                        out@.len() == i,
                        forall|l: int| 0 <= l < i ==> out@[l]@ == items@[l]@,
                    decreases n - i,
                {
                    out.push(items[i].duplicate());
                    i = i + 1;
                }
                proof {
                    lemma_array_view(*items);
                    lemma_sequence_view(out);
                    assert(views_of_seq(out@) =~= views_of_seq(items@));
                }
                Query::Sequence(out)
            },
            Value::Object(fields) => {
                proof {
                    lemma_object_view(*fields);
                }
                let conds = Condition::from_map(fields);
                proof {
                    lemma_compound_view(conds);
                }
                Query::Compound(conds)
            },
        }
    }
}

impl Condition {
    /// Compile an object's key/value pairs into conditions, one per pair,
    /// in order.
    #[verifier::loop_isolation(false)]
    pub fn from_map(fields: &Vec<(String, Value)>) -> (r: Vec<Condition>)
        ensures
            views_of_conds(r@) == compile_conds(views_of_fields(fields@), 0),
        decreases *fields, 9int,
    {
        let ghost fv = views_of_fields(fields@);
        proof {
            lemma_compile_conds(fv, 0);
        }
        let mut out: Vec<Condition> = Vec::new();
        let n = fields.len();
        let mut i: usize = 0;
        while i < n
            invariant
                0 <= i <= n,
                out@.len() == i,
                forall|l: int| 0 <= l < i ==> out@[l]@ == compile_cond(fv[l].0, fv[l].1),
            decreases n - i,
        {
            let key = &fields[i].0;
            let val = &fields[i].1;
            proof {
                assert(fv[i as int] == (key@, val@));
            }
            let cond: Condition = if str_eq(key.as_str(), "$and") {
                let qs = compound_condition_from_value(val);
                proof {
                    lemma_combinator_views(qs);
                }
                Condition::And(qs)
            } else if str_eq(key.as_str(), "$or") {
                let qs = compound_condition_from_value(val);
                proof {
                    lemma_combinator_views(qs);
                }
                Condition::Or(qs)
            } else if str_eq(key.as_str(), "$nor") {
                let qs = compound_condition_from_value(val);
                proof {
                    lemma_combinator_views(qs);
                }
                Condition::Nor(qs)
            } else if str_eq(key.as_str(), "$not") {
                Condition::Not { op: Query::from_value(val) }
            } else {
                let klen = key.as_str().unicode_len();
                if klen > 0 && key.as_str().get_char(0) == '$' {
                    let stripped = key.as_str().substring_char(1, klen).to_owned();
                    Condition::Operator { operator: stripped, condition: val.duplicate() }
                } else {
                    Condition::Field { field_name: key.clone(), op: Query::from_value(val) }
                }
            };
            out.push(cond);
            i = i + 1;
        }
        proof {
            assert(views_of_conds(out@) =~= compile_conds(fv, 0));
        }
        out
    }
}

/// The sub-query list of a logical combinator: each element of an array
/// value compiled as a query; the empty list for any other shape.
#[verifier::loop_isolation(false)]
fn compound_condition_from_value(v: &Value) -> (r: Vec<Query>)
    ensures
        views_of_queries(r@) == compile_list_of(v@),
    decreases *v, 2int,
{
    match v {
        Value::Array(items) => {
            proof {
                lemma_array_view(*items);
                lemma_compile_list(views_of_seq(items@), 0);
            }
            let ghost iv = views_of_seq(items@);
            let mut out: Vec<Query> = Vec::new();
            let n = items.len();
            let mut i: usize = 0;
            while i < n
                invariant
                    0 <= i <= n,
                    out@.len() == i,
                    forall|l: int| 0 <= l < i ==> out@[l]@ == compile(iv[l]),
                decreases n - i,
            {
                out.push(Query::from_value(&items[i]));
                i = i + 1;
            }
            proof {
                assert forall|l: int| 0 <= l < n implies views_of_queries(out@)[l] == compile_list(
                    iv,
                    0,
                )[l] by {
                    assert(out@[l]@ == compile(iv[l]));
                    assert(compile_list(iv, 0)[l - 0] == compile(iv[l]));
                }
                assert(views_of_queries(out@) =~= compile_list(iv, 0));
            }
            out
        },
        _ => {
            let out: Vec<Query> = Vec::new();
            proof {
                assert(views_of_queries(out@) =~= Seq::<QueryView>::empty());
            }
            out
        },
    }
}

/// Scalar matching: the candidate equals the scalar, or is an array holding
/// an equal element (implicit membership), or is absent and never matches.
pub open spec fn scalar_matches(v: Option<ValueView>, scalar: ValueView) -> bool {
    match v {
        Option::Some(x) => x == scalar || match x {
            ValueView::Array(items) => items.contains(scalar),
            _ => false,
        },
        Option::None => false,
    }
}

/// Sequence matching: an array candidate must equal the sequence
/// element-wise; any other present candidate matches when the sequence
/// holds it; an absent candidate never matches.
pub open spec fn sequence_matches(v: Option<ValueView>, sv: Seq<ValueView>) -> bool {
    match v {
        Option::Some(x) => match x {
            ValueView::Array(items) => items == sv,
            _ => sv.contains(x),
        },
        Option::None => false,
    }
}

/// Negate a match outcome, passing an error through unchanged.
pub open spec fn negate_result(r: Result<bool, crate::QueryErrorView>) -> Result<
    bool,
    crate::QueryErrorView,
> {
    match r {
        Result::Ok(b) => Ok(!b),
        Result::Err(e) => Err(e),
    }
}

/// Evaluate a query node against an optional candidate, with the standard
/// operators of `prov` and no custom operators. The first error aborts the
/// walk.
pub open spec fn eval_query<P: crate::OperatorProvider>(
    prov: P,
    q: QueryView,
    v: Option<ValueView>,
) -> Result<bool, crate::QueryErrorView>
    decreases q, 0int,
{
    match q {
        QueryView::NullScalar => Ok(scalar_matches(v, ValueView::Null)),
        QueryView::NumericScalar(n) => Ok(scalar_matches(v, ValueView::Number(n))),
        QueryView::BooleanScalar(b) => Ok(scalar_matches(v, ValueView::Bool(b))),
        QueryView::StringScalar(s) => Ok(scalar_matches(v, ValueView::String(s))),
        QueryView::Sequence(sv) => Ok(sequence_matches(v, sv)),
        QueryView::Compound(cs) => eval_conds(prov, cs, v, 0),
    }
}

/// Conjunction over the conditions from `j` on: `false` at the first
/// non-matching condition, `true` when the list is exhausted (vacuously for
/// the empty list), the first error otherwise.
pub open spec fn eval_conds<P: crate::OperatorProvider>(
    prov: P,
    cs: Seq<ConditionView>,
    v: Option<ValueView>,
    j: int,
) -> Result<bool, crate::QueryErrorView>
    decreases cs, cs.len() - j, 3int,
{
    if j < 0 || j >= cs.len() {
        Ok(true)
    } else {
        match eval_cond(prov, cs[j], v) {
            Result::Ok(true) => eval_conds(prov, cs, v, j + 1),
            Result::Ok(false) => Ok(false),
            Result::Err(e) => Err(e),
        }
    }
}

/// Evaluate one condition against an optional candidate.
pub open spec fn eval_cond<P: crate::OperatorProvider>(
    prov: P,
    c: ConditionView,
    v: Option<ValueView>,
) -> Result<bool, crate::QueryErrorView>
    decreases c, 2int,
{
    match c {
        ConditionView::And(qs) => eval_all(prov, qs, v, 0),
        ConditionView::Or(qs) => eval_any(prov, qs, v, 0),
        ConditionView::Nor(qs) => negate_result(eval_any(prov, qs, v, 0)),
        ConditionView::Not { op } => negate_result(eval_query(prov, op, v)),
        ConditionView::Field { field_name, op } => eval_query(
            prov,
            op,
            crate::path::extract_spec(v, crate::path::split_path(field_name), 0),
        ),
        ConditionView::Operator { operator, condition } => if prov.spec_has(operator) {
            prov.spec_apply(operator, v, condition)
        } else {
            Err(crate::QueryErrorView::UnsupportedOperator { operator })
        },
    }
}

/// Conjunction over the sub-queries from `j` on, with short-circuit and
/// error propagation; vacuously `true` for the empty list.
pub open spec fn eval_all<P: crate::OperatorProvider>(
    prov: P,
    qs: Seq<QueryView>,
    v: Option<ValueView>,
    j: int,
) -> Result<bool, crate::QueryErrorView>
    decreases qs, qs.len() - j, 1int,
{
    if j < 0 || j >= qs.len() {
        Ok(true)
    } else {
        match eval_query(prov, qs[j], v) {
            Result::Ok(true) => eval_all(prov, qs, v, j + 1),
            Result::Ok(false) => Ok(false),
            Result::Err(e) => Err(e),
        }
    }
}

/// Disjunction over the sub-queries from `j` on, with short-circuit and
/// error propagation; vacuously `false` for the empty list.
pub open spec fn eval_any<P: crate::OperatorProvider>(
    prov: P,
    qs: Seq<QueryView>,
    v: Option<ValueView>,
    j: int,
) -> Result<bool, crate::QueryErrorView>
    decreases qs, qs.len() - j, 1int,
{
    if j < 0 || j >= qs.len() {
        Ok(false)
    } else {
        match eval_query(prov, qs[j], v) {
            Result::Ok(true) => Ok(true),
            Result::Ok(false) => eval_any(prov, qs, v, j + 1),
            Result::Err(e) => Err(e),
        }
    }
}

/// No operator condition anywhere in the tree bears a name in `names`.
/// Custom operators are consulted before standard ones, so evaluation with
/// a custom container promises the standard outcome only for trees that
/// avoid the container's names.
pub open spec fn query_avoids(q: QueryView, names: Set<Seq<char>>) -> bool
    decreases q, 0int,
{
    match q {
        QueryView::Compound(cs) => conds_avoid(cs, names, 0),
        _ => true,
    }
}

/// All conditions from `j` on avoid `names`.
pub open spec fn conds_avoid(cs: Seq<ConditionView>, names: Set<Seq<char>>, j: int) -> bool
    decreases cs, cs.len() - j, 3int,
{
    if j < 0 || j >= cs.len() {
        true
    } else {
        cond_avoids(cs[j], names) && conds_avoid(cs, names, j + 1)
    }
}

/// The condition's operator name, and every name below it, avoids `names`.
pub open spec fn cond_avoids(c: ConditionView, names: Set<Seq<char>>) -> bool
    decreases c, 2int,
{
    match c {
        ConditionView::And(qs) => queries_avoid(qs, names, 0),
        ConditionView::Or(qs) => queries_avoid(qs, names, 0),
        ConditionView::Nor(qs) => queries_avoid(qs, names, 0),
        ConditionView::Not { op } => query_avoids(op, names),
        ConditionView::Field { field_name: _, op } => query_avoids(op, names),
        ConditionView::Operator { operator, condition: _ } => !names.contains(operator),
    }
}

/// All sub-queries from `j` on avoid `names`.
pub open spec fn queries_avoid(qs: Seq<QueryView>, names: Set<Seq<char>>, j: int) -> bool
    decreases qs, qs.len() - j, 1int,
{
    if j < 0 || j >= qs.len() {
        true
    } else {
        query_avoids(qs[j], names) && queries_avoid(qs, names, j + 1)
    }
}

/// [`conds_avoid`] holds exactly when every condition avoids the names.
pub proof fn lemma_conds_avoid(cs: Seq<ConditionView>, names: Set<Seq<char>>, j: int)
    requires
        0 <= j <= cs.len(),
    ensures
        conds_avoid(cs, names, j) <==> (forall|l: int|
            j <= l < cs.len() ==> cond_avoids(#[trigger] cs[l], names)),
    decreases cs.len() - j,
{
    if j < cs.len() {
        lemma_conds_avoid(cs, names, j + 1);
    }
}

/// [`queries_avoid`] holds exactly when every sub-query avoids the names.
pub proof fn lemma_queries_avoid(qs: Seq<QueryView>, names: Set<Seq<char>>, j: int)
    requires
        0 <= j <= qs.len(),
    ensures
        queries_avoid(qs, names, j) <==> (forall|l: int|
            j <= l < qs.len() ==> query_avoids(#[trigger] qs[l], names)),
    decreases qs.len() - j,
{
    if j < qs.len() {
        lemma_queries_avoid(qs, names, j + 1);
    }
}

/// Every tree avoids the empty name set.
pub proof fn lemma_query_avoids_empty(q: QueryView)
    ensures
        query_avoids(q, Set::empty()),
    decreases q, 0int,
{
    match q {
        QueryView::Compound(cs) => lemma_conds_avoid_empty(cs, 0),
        _ => {},
    }
}

/// Every condition list avoids the empty name set.
pub proof fn lemma_conds_avoid_empty(cs: Seq<ConditionView>, j: int)
    ensures
        conds_avoid(cs, Set::empty(), j),
    decreases cs, cs.len() - j, 3int,
{
    if 0 <= j < cs.len() {
        lemma_cond_avoids_empty(cs[j]);
        lemma_conds_avoid_empty(cs, j + 1);
    }
}

/// Every condition avoids the empty name set.
pub proof fn lemma_cond_avoids_empty(c: ConditionView)
    ensures
        cond_avoids(c, Set::empty()),
    decreases c, 2int,
{
    match c {
        ConditionView::And(qs) => lemma_queries_avoid_empty(qs, 0),
        ConditionView::Or(qs) => lemma_queries_avoid_empty(qs, 0),
        ConditionView::Nor(qs) => lemma_queries_avoid_empty(qs, 0),
        ConditionView::Not { op } => lemma_query_avoids_empty(op),
        ConditionView::Field { field_name: _, op } => lemma_query_avoids_empty(op),
        ConditionView::Operator { operator, condition: _ } => {
            assert(!Set::<Seq<char>>::empty().contains(operator));
        },
    }
}

/// Every sub-query list avoids the empty name set.
pub proof fn lemma_queries_avoid_empty(qs: Seq<QueryView>, j: int)
    ensures
        queries_avoid(qs, Set::empty(), j),
    decreases qs, qs.len() - j, 1int,
{
    if 0 <= j < qs.len() {
        lemma_query_avoids_empty(qs[j]);
        lemma_queries_avoid_empty(qs, j + 1);
    }
}

/// Whether the candidate matches a scalar: equal to it, or an array
/// holding an equal element.
pub fn matches_scalar(value: Option<&Value>, scalar: &Value) -> (r: bool)
    ensures
        r == scalar_matches(crate::path::opt_view(value), scalar@),
{
    match value {
        Option::Some(x) => {
            if crate::value::value_eq(x, scalar) {
                true
            } else {
                match x {
                    Value::Array(items) => {
                        proof {
                            lemma_array_view(*items);
                        }
                        crate::value::arr_contains(items, scalar)
                    },
                    _ => false,
                }
            }
        },
        Option::None => false,
    }
}

/// Whether the candidate matches a sequence: element-wise equal when it is
/// an array, a member of the sequence otherwise.
pub fn matches_sequence(value: Option<&Value>, seq_vals: &Vec<Value>) -> (r: bool)
    ensures
        r == sequence_matches(crate::path::opt_view(value), views_of_seq(seq_vals@)),
{
    match value {
        Option::Some(x) => match x {
            Value::Array(items) => {
                proof {
                    lemma_array_view(*items);
                }
                crate::value::array_values_eq(items, seq_vals)
            },
            _ => crate::value::arr_contains(seq_vals, x),
        },
        Option::None => false,
    }
}

impl Query {
    /// Evaluate this query on an optional candidate with the standard
    /// operators of `provider` and no custom operators. The result is
    /// exactly the outcome of the specification walk [`eval_query`].
    pub fn evaluate<P: crate::OperatorProvider>(&self, value: Option<&Value>, provider: &P) -> (r:
        Result<bool, crate::QueryError>)
        ensures
            crate::res_view(r) == eval_query(*provider, self@, crate::path::opt_view(value)),
    {
        let empty: crate::OperatorContainer<crate::NoCustomOperators> =
            crate::OperatorContainer::new();
        proof {
            lemma_query_avoids_empty(self@);
        }
        self.evaluate_with_custom_ops(value, provider, &empty)
    }

    /// Evaluate this query on an optional candidate, consulting the custom
    /// operators first and the standard operators of `provider` second. For
    /// a tree whose operator names all avoid the custom container, the
    /// result is exactly the outcome of the specification walk
    /// [`eval_query`]; a tree that reaches a custom operator yields
    /// whatever that operator decides.
    #[verifier::loop_isolation(false)]
    pub fn evaluate_with_custom_ops<P: crate::OperatorProvider, Op: crate::CustomOperator>(
        &self,
        value: Option<&Value>,
        provider: &P,
        custom_ops: &crate::OperatorContainer<Op>,
    ) -> (r: Result<bool, crate::QueryError>)
        ensures
            query_avoids(self@, custom_ops.names()) ==> crate::res_view(r) == eval_query(
                *provider,
                self@,
                crate::path::opt_view(value),
            ),
        decreases *self,
    {
        let ghost vv = crate::path::opt_view(value);
        let ghost names = custom_ops.names();
        match self {
            Query::NullScalar => Ok(matches_scalar(value, &Value::Null)),
            Query::NumericScalar(n) => Ok(matches_scalar(value, &Value::Number(*n))),
            Query::BooleanScalar(b) => Ok(matches_scalar(value, &Value::Bool(*b))),
            Query::StringScalar(s) => Ok(matches_scalar(value, &Value::String(s.clone()))),
            Query::Sequence(seq_vals) => {
                proof {
                    lemma_sequence_view(*seq_vals);
                }
                Ok(matches_sequence(value, seq_vals))
            },
            Query::Compound(conds) => {
                proof {
                    lemma_compound_view(*conds);
                }
                let ghost csv = views_of_conds(conds@);
                proof {
                    if query_avoids(self@, names) {
                        lemma_conds_avoid(csv, names, 0);
                    }
                }
                let n = conds.len();
                let mut i: usize = 0;
                while i < n
                    invariant
                        0 <= i <= n,
                        query_avoids(self@, names) ==> eval_conds(*provider, csv, vv, 0)
                            == eval_conds(*provider, csv, vv, i as int),
                    decreases n - i,
                {
                    let res = conds[i].evaluate_with_ops(value, provider, custom_ops);
                    proof {
                        assert(csv[i as int] == conds@[i as int]@);
                    }
                    match res {
                        Result::Ok(b) => {
                            if !b {
                                return Ok(false);
                            }
                        },
                        Result::Err(e) => {
                            return Err(e);
                        },
                    }
                    i = i + 1;
                }
                Ok(true)
            },
        }
    }
}

impl Condition {
    /// Evaluate this condition on an optional candidate, custom operators
    /// first, the standard operators of `provider` second.
    #[verifier::loop_isolation(false)]
    pub fn evaluate_with_ops<P: crate::OperatorProvider, Op: crate::CustomOperator>(
        &self,
        value: Option<&Value>,
        provider: &P,
        custom_ops: &crate::OperatorContainer<Op>,
    ) -> (r: Result<bool, crate::QueryError>)
        ensures
            cond_avoids(self@, custom_ops.names()) ==> crate::res_view(r) == eval_cond(
                *provider,
                self@,
                crate::path::opt_view(value),
            ),
        decreases *self,
    {
        let ghost vv = crate::path::opt_view(value);
        let ghost names = custom_ops.names();
        match self {
            Condition::And(qs) => {
                proof {
                    lemma_combinator_views(*qs);
                    if cond_avoids(self@, names) {
                        lemma_queries_avoid(views_of_queries(qs@), names, 0);
                    }
                }
                let ghost qsv = views_of_queries(qs@);
                let n = qs.len();
                let mut i: usize = 0;
                while i < n
                    invariant
                        0 <= i <= n,
                        cond_avoids(self@, names) ==> eval_all(*provider, qsv, vv, 0) == eval_all(
                            *provider,
                            qsv,
                            vv,
                            i as int,
                        ),
                    decreases n - i,
                {
                    let res = qs[i].evaluate_with_custom_ops(value, provider, custom_ops);
                    proof {
                        assert(qsv[i as int] == qs@[i as int]@);
                    }
                    match res {
                        Result::Ok(b) => {
                            if !b {
                                return Ok(false);
                            }
                        },
                        Result::Err(e) => {
                            return Err(e);
                        },
                    }
                    i = i + 1;
                }
                Ok(true)
            },
            Condition::Or(qs) => {
                proof {
                    lemma_combinator_views(*qs);
                    if cond_avoids(self@, names) {
                        lemma_queries_avoid(views_of_queries(qs@), names, 0);
                    }
                }
                let ghost qsv = views_of_queries(qs@);
                let n = qs.len();
                let mut i: usize = 0;
                while i < n
                    invariant
                        0 <= i <= n,
                        cond_avoids(self@, names) ==> eval_any(*provider, qsv, vv, 0) == eval_any(
                            *provider,
                            qsv,
                            vv,
                            i as int,
                        ),
                    decreases n - i,
                {
                    let res = qs[i].evaluate_with_custom_ops(value, provider, custom_ops);
                    proof {
                        assert(qsv[i as int] == qs@[i as int]@);
                    }
                    match res {
                        Result::Ok(b) => {
                            if b {
                                return Ok(true);
                            }
                        },
                        Result::Err(e) => {
                            return Err(e);
                        },
                    }
                    i = i + 1;
                }
                Ok(false)
            },
            Condition::Nor(qs) => {
                proof {
                    lemma_combinator_views(*qs);
                    if cond_avoids(self@, names) {
                        lemma_queries_avoid(views_of_queries(qs@), names, 0);
                    }
                }
                let ghost qsv = views_of_queries(qs@);
                let n = qs.len();
                let mut i: usize = 0;
                while i < n
                    invariant
                        0 <= i <= n,
                        cond_avoids(self@, names) ==> eval_any(*provider, qsv, vv, 0) == eval_any(
                            *provider,
                            qsv,
                            vv,
                            i as int,
                        ),
                    decreases n - i,
                {
                    let res = qs[i].evaluate_with_custom_ops(value, provider, custom_ops);
                    proof {
                        assert(qsv[i as int] == qs@[i as int]@);
                    }
                    match res {
                        Result::Ok(b) => {
                            if b {
                                return Ok(false);
                            }
                        },
                        Result::Err(e) => {
                            return Err(e);
                        },
                    }
                    i = i + 1;
                }
                Ok(true)
            },
            Condition::Not { op } => {
                match op.evaluate_with_custom_ops(value, provider, custom_ops) {
                    Result::Ok(b) => Ok(!b),
                    Result::Err(e) => Err(e),
                }
            },
            Condition::Field { field_name, op } => {
                let segments = crate::path::split_dotted(field_name.as_str());
                let field = crate::path::extract(value, &segments);
                match &field {
                    Option::Some(fv) => op.evaluate_with_custom_ops(
                        Some(fv),
                        provider,
                        custom_ops,
                    ),
                    Option::None => op.evaluate_with_custom_ops(None, provider, custom_ops),
                }
            },
            Condition::Operator { operator, condition } => {
                match custom_ops.find(operator.as_str()) {
                    Option::Some(custom) => custom.evaluate(value, condition),
                    Option::None => match provider.apply(operator.as_str(), value, condition) {
                        Option::Some(res) => res,
                        Option::None => Err(
                            crate::QueryError::UnsupportedOperator { operator: operator.clone() },
                        ),
                    },
                }
            },
        }
    }
}

/// A querier that compiles with no provider choice to make and evaluates
/// with the built-in standard operators.
#[derive(Debug)]
pub struct BaseQuerier {
    /// The compiled predicate tree.
    pub query: Query,
}

impl BaseQuerier {
    /// Compile `query_doc` into a querier. Compilation is total: it never
    /// fails, whatever the document's shape.
    pub fn new(query_doc: &Value) -> (q: BaseQuerier)
        ensures
            q.query@ == compile(query_doc@),
    {
        BaseQuerier { query: Query::from_value(query_doc) }
    }

    /// Evaluate the compiled query on an optional candidate with the
    /// built-in standard operators: the result is exactly the outcome of
    /// the specification walk [`eval_query`] under [`crate::BaseOperators`].
    pub fn evaluate(&self, value: Option<&Value>) -> (r: Result<bool, crate::QueryError>)
        ensures
            crate::res_view(r) == eval_query(
                crate::BaseOperators {  },
                self.query@,
                crate::path::opt_view(value),
            ),
    {
        self.query.evaluate(value, &crate::BaseOperators {  })
    }

    /// Evaluate with caller-supplied custom operators, consulted before the
    /// built-in ones. For a tree whose operator names all avoid the custom
    /// container, the result is exactly the standard outcome.
    pub fn evaluate_with_custom_ops<Op: crate::CustomOperator>(
        &self,
        value: Option<&Value>,
        custom_ops: &crate::OperatorContainer<Op>,
    ) -> (r: Result<bool, crate::QueryError>)
        ensures
            query_avoids(self.query@, custom_ops.names()) ==> crate::res_view(r) == eval_query(
                crate::BaseOperators {  },
                self.query@,
                crate::path::opt_view(value),
            ),
    {
        self.query.evaluate_with_custom_ops(value, &crate::BaseOperators {  }, custom_ops)
    }
}

} // verus!
