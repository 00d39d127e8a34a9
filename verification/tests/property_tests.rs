use mongoquery::path::{extract, split_dotted};
use mongoquery::value::{value_eq, Value};
use mongoquery::{value_partial_cmp, BaseQuerier, QueryError};
use std::cmp::Ordering;

fn s(x: &str) -> Value {
    Value::String(x.to_string())
}

fn n(x: i64) -> Value {
    Value::Number(x)
}

fn arr(items: Vec<Value>) -> Value {
    Value::Array(items)
}

fn obj(pairs: Vec<(&str, Value)>) -> Value {
    Value::Object(pairs.into_iter().map(|(k, v)| (k.to_string(), v)).collect())
}

fn food() -> Value {
    obj(vec![("qty", n(25)), ("ratings", arr(vec![n(5), n(8), n(9)]))])
}

fn fruit() -> Value {
    obj(vec![("qty", n(10)), ("ratings", arr(vec![n(5), n(9)]))])
}

fn matches(query: Value, doc: &Value) -> bool {
    BaseQuerier::new(&query).evaluate(Some(doc)).unwrap()
}

#[test]
fn test_end_to_end() {
    let food_v = food();
    let fruit_v = fruit();

    let gt = obj(vec![("qty", obj(vec![("$gt", n(20))]))]);
    assert!(matches(gt.duplicate(), &food_v));
    assert!(!matches(gt, &fruit_v));

    let in_q = obj(vec![("ratings", obj(vec![("$in", arr(vec![n(5), n(6)]))]))]);
    assert!(matches(in_q.duplicate(), &food_v));
    assert!(matches(in_q, &fruit_v));

    let or_q = obj(vec![(
        "$or",
        arr(vec![obj(vec![("qty", obj(vec![("$lt", n(15))]))])]),
    )]);
    assert!(!matches(or_q.duplicate(), &food_v));
    assert!(matches(or_q, &fruit_v));
}

#[test]
fn test_not_negates() {
    // `$not` inverts the inner predicate on every candidate.
    let food_v = food();
    let fruit_v = fruit();
    for doc in [&food_v, &fruit_v] {
        let plain = obj(vec![("qty", obj(vec![("$gt", n(20))]))]);
        let negated = obj(vec![(
            "qty",
            obj(vec![("$not", obj(vec![("$gt", n(20))]))]),
        )]);
        assert_eq!(matches(negated, doc), !matches(plain, doc));
    }
}

#[test]
fn test_empty_combinators() {
    let doc = obj(vec![("a", n(1))]);
    assert_eq!(
        matches(obj(vec![("$and", arr(vec![]))]), &doc),
        true
    );
    assert_eq!(matches(obj(vec![("$or", arr(vec![]))]), &doc), false);
    assert_eq!(matches(obj(vec![("$nor", arr(vec![]))]), &doc), true);
    assert_eq!(matches(obj(vec![]), &doc), true);
}

#[test]
fn test_broadcast_extract() {
    let memos = arr(vec![
        obj(vec![("memo", s("on time"))]),
        obj(vec![("memo", s("approved"))]),
    ]);

    let broadcast = extract(Some(&memos), &split_dotted("memo"));
    assert_eq!(
        broadcast,
        Some(arr(vec![s("on time"), s("approved")]))
    );

    let positional = extract(Some(&memos), &split_dotted("1.memo"));
    assert_eq!(positional, Some(s("approved")));

    // The scalar-in-array fallback makes the broadcast result match the
    // plain scalar query.
    let doc = obj(vec![("memos", memos)]);
    assert!(matches(obj(vec![("memos.memo", s("on time"))]), &doc));
}

#[test]
fn test_extract_edges() {
    let memos = arr(vec![
        obj(vec![("memo", s("on time"))]),
        obj(vec![("memo", s("approved"))]),
        s("dangling"),
    ]);
    // Broadcast fails as a whole when any single element fails.
    assert_eq!(extract(Some(&memos), &split_dotted("memo")), None);
    // An out-of-range index fails.
    assert_eq!(extract(Some(&memos), &split_dotted("9.memo")), None);
    // Null absorbs the remaining path.
    let doc = obj(vec![("a", Value::Null)]);
    assert_eq!(extract(Some(&doc), &split_dotted("a.b.c")), Some(Value::Null));
    // An empty path returns the value unchanged.
    let empty: Vec<String> = vec![];
    assert_eq!(extract(Some(&doc), &empty), Some(doc.duplicate()));
    // An absent value yields nothing.
    assert_eq!(extract(None, &split_dotted("a")), None);
}

#[test]
fn test_comparator_symmetry() {
    let samples = vec![
        Value::Null,
        Value::Bool(false),
        Value::Bool(true),
        n(-3),
        n(0),
        n(42),
        s(""),
        s("abc"),
        s("abd"),
        arr(vec![n(1), n(2)]),
        arr(vec![s("x"), n(9), Value::Null, n(0), n(1)]),
        obj(vec![("k", n(1))]),
    ];
    for a in &samples {
        for b in &samples {
            let ab = value_partial_cmp(a, b);
            let ba = value_partial_cmp(b, a);
            assert_eq!(ab == Some(Ordering::Greater), ba == Some(Ordering::Less));
            assert_eq!(ab == Some(Ordering::Equal), ba == Some(Ordering::Equal));
            assert_eq!(ab.is_none(), ba.is_none());
        }
    }

    // Arrays compare by length alone, whatever their elements hold.
    let two = arr(vec![obj(vec![("z", n(9))]), s("q")]);
    let five = arr(vec![n(1), n(1), n(1), n(1), n(1)]);
    assert_eq!(value_partial_cmp(&two, &five), Some(Ordering::Less));
    assert_eq!(value_partial_cmp(&five, &two), Some(Ordering::Greater));
}

#[test]
fn test_comparator_quirks() {
    // A boolean compares with a number as the number 1, whatever its value.
    assert_eq!(
        value_partial_cmp(&Value::Bool(false), &n(0)),
        Some(Ordering::Greater)
    );
    assert_eq!(
        value_partial_cmp(&Value::Bool(true), &n(1)),
        Some(Ordering::Equal)
    );
    assert_eq!(
        value_partial_cmp(&n(2), &Value::Bool(true)),
        Some(Ordering::Greater)
    );
    // Booleans order false before true.
    assert_eq!(
        value_partial_cmp(&Value::Bool(false), &Value::Bool(true)),
        Some(Ordering::Less)
    );
    // Strings order lexicographically.
    assert_eq!(value_partial_cmp(&s("abc"), &s("abd")), Some(Ordering::Less));
    assert_eq!(value_partial_cmp(&s("ab"), &s("abc")), Some(Ordering::Less));
    // Mixed scalar pairings are incomparable.
    assert_eq!(value_partial_cmp(&s("1"), &n(1)), None);
    assert_eq!(value_partial_cmp(&obj(vec![]), &obj(vec![])), None);
    assert_eq!(value_partial_cmp(&Value::Null, &n(0)), None);
}

#[test]
fn test_exists_partition() {
    // For every candidate, exactly one of `$exists: true` / `$exists: false`
    // matches.
    let docs = vec![
        obj(vec![("a", n(1))]),
        obj(vec![("b", n(2))]),
        obj(vec![("a", Value::Null)]),
        Value::Null,
        n(7),
    ];
    for doc in &docs {
        let there = matches(
            obj(vec![("a", obj(vec![("$exists", Value::Bool(true))]))]),
            doc,
        );
        let gone = matches(
            obj(vec![("a", obj(vec![("$exists", Value::Bool(false))]))]),
            doc,
        );
        assert_ne!(there, gone);
    }
}

#[test]
fn test_unknown_operator_errors() {
    let doc = obj(vec![("a", n(1))]);
    let querier = BaseQuerier::new(&obj(vec![(
        "a",
        obj(vec![("$bogus", n(1))]),
    )]));
    let outcome = querier.evaluate(Some(&doc));
    match outcome {
        Err(QueryError::UnsupportedOperator { operator }) => assert_eq!(operator, "bogus"),
        other => panic!("expected an unsupported-operator error, found {:?}", other),
    }
}

#[test]
fn test_operator_errors() {
    let doc = obj(vec![("a", n(1))]);

    let querier = BaseQuerier::new(&obj(vec![("a", obj(vec![("$exists", n(5))]))]));
    match querier.evaluate(Some(&doc)) {
        Err(QueryError::OperatorError { operator, reason }) => {
            assert_eq!(operator, "exists");
            assert_eq!(reason, "non-boolean condition");
        }
        other => panic!("expected an operator error, found {:?}", other),
    }

    let querier = BaseQuerier::new(&obj(vec![("a", obj(vec![("$in", n(5))]))]));
    match querier.evaluate(Some(&doc)) {
        Err(QueryError::OperatorError { operator, reason }) => {
            assert_eq!(operator, "in");
            assert_eq!(reason, "condition must be a list");
        }
        other => panic!("expected an operator error, found {:?}", other),
    }

    // `nin` surfaces `in`'s error unchanged.
    let querier = BaseQuerier::new(&obj(vec![("a", obj(vec![("$nin", n(5))]))]));
    match querier.evaluate(Some(&doc)) {
        Err(QueryError::OperatorError { operator, .. }) => assert_eq!(operator, "in"),
        other => panic!("expected an operator error, found {:?}", other),
    }
}

#[test]
fn test_scalar_membership() {
    // A scalar query matches an array candidate holding an equal element.
    let doc = food();
    assert!(matches(obj(vec![("ratings", n(5))]), &doc));
    assert!(!matches(obj(vec![("ratings", n(6))]), &doc));
    // A sequence query against an array candidate requires exact equality.
    assert!(matches(
        obj(vec![("ratings", arr(vec![n(5), n(8), n(9)]))]),
        &doc
    ));
    assert!(!matches(
        obj(vec![("ratings", arr(vec![n(9), n(8), n(5)]))]),
        &doc
    ));
}

#[test]
fn test_value_equality() {
    assert!(value_eq(&n(3), &n(3)));
    assert!(!value_eq(&n(3), &Value::Bool(true)));
    assert!(value_eq(
        &obj(vec![("a", arr(vec![n(1), Value::Null]))]),
        &obj(vec![("a", arr(vec![n(1), Value::Null]))])
    ));
    assert!(!value_eq(
        &obj(vec![("a", n(1))]),
        &obj(vec![("b", n(1))])
    ));
    let v = arr(vec![s("x"), obj(vec![("k", n(2))])]);
    assert!(value_eq(&v, &v.duplicate()));
}

#[test]
fn test_split_and_index_parsing() {
    let segs = split_dotted("a.10.b");
    assert_eq!(segs, vec!["a".to_string(), "10".to_string(), "b".to_string()]);
    assert_eq!(split_dotted(""), vec!["".to_string()]);
    assert_eq!(
        split_dotted("a..b"),
        vec!["a".to_string(), "".to_string(), "b".to_string()]
    );

    // A segment that is not a plain run of digits is a field name, so it
    // broadcasts over an array instead of indexing it.
    let items = arr(vec![obj(vec![("x", n(1))]), obj(vec![("x", n(2))])]);
    assert_eq!(
        extract(Some(&items), &split_dotted("x")),
        Some(arr(vec![n(1), n(2)]))
    );
    assert_eq!(extract(Some(&items), &split_dotted("0.x")), Some(n(1)));
}
