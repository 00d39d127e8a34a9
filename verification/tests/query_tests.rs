use mongoquery::value::Value;
use mongoquery::{BaseQuerier, CustomOperator, OperatorContainer, QueryError};

fn s(x: &str) -> Value {
    Value::String(x.to_string())
}

fn n(x: i64) -> Value {
    Value::Number(x)
}

fn arr(items: Vec<Value>) -> Value {
    Value::Array(items)
}

fn obj(pairs: Vec<(&str, Value)>) -> Value {
    Value::Object(pairs.into_iter().map(|(k, v)| (k.to_string(), v)).collect())
}

fn food() -> Value {
    obj(vec![
        ("_id", n(100)),
        ("type", s("food")),
        ("item", s("xyz")),
        ("qty", n(25)),
        ("ratings", arr(vec![n(5), n(8), n(9)])),
        (
            "memos",
            arr(vec![
                obj(vec![("memo", s("on time")), ("by", s("shipping"))]),
                obj(vec![("memo", s("approved")), ("by", s("billing"))]),
            ]),
        ),
    ])
}

fn fruit() -> Value {
    obj(vec![
        ("_id", n(101)),
        ("type", s("fruit")),
        ("item", s("jkl")),
        ("qty", n(10)),
        ("ratings", arr(vec![n(5), n(9)])),
        (
            "memos",
            arr(vec![
                obj(vec![("memo", s("on time")), ("by", s("payment"))]),
                obj(vec![("memo", s("delayed")), ("by", s("shipping"))]),
            ]),
        ),
    ])
}

fn query(query: Value, collection: Vec<&Value>) -> Vec<&Value> {
    let querier = BaseQuerier::new(&query);
    collection
        .into_iter()
        .filter(|e| querier.evaluate(Some(e)).unwrap())
        .collect()
}

struct MyCustomOperator {
    evaluatee_greater_than: i64,
}

impl CustomOperator for MyCustomOperator {
    fn evaluate(
        &self,
        evaluatee: Option<&Value>,
        _condition: &Value,
    ) -> Result<bool, QueryError> {
        if let Some(Value::Number(v)) = evaluatee {
            Ok(*v > self.evaluatee_greater_than)
        } else {
            Ok(false)
        }
    }
}

fn query_custom<'a>(
    query: Value,
    collection: Vec<&'a Value>,
    custom_ops: &OperatorContainer<MyCustomOperator>,
) -> Vec<&'a Value> {
    let querier = BaseQuerier::new(&query);
    collection
        .into_iter()
        .filter(|e| {
            querier
                .evaluate_with_custom_ops(Some(e), custom_ops)
                .unwrap()
        })
        .collect()
}

fn records() -> Vec<Value> {
    vec![
        obj(vec![("a", n(5)), ("b", n(5)), ("c", Value::Null)]),
        obj(vec![("a", n(3)), ("b", Value::Null), ("c", n(8))]),
        obj(vec![("a", Value::Null), ("b", n(3)), ("c", n(9))]),
        obj(vec![("a", n(1)), ("b", n(2)), ("c", n(3))]),
        obj(vec![("a", n(2)), ("c", n(5))]),
        obj(vec![("a", n(3)), ("b", n(2))]),
        obj(vec![("a", n(4))]),
        obj(vec![("b", n(2)), ("c", n(4))]),
        obj(vec![("b", n(2))]),
        obj(vec![("c", n(6))]),
    ]
}

#[test]
fn test_query_test_simple_lookup() {
    let food_v = food();
    let fruit_v = fruit();
    let all = || vec![&food_v, &fruit_v];
    let empty: Vec<&Value> = vec![];

    assert_eq!(vec![&fruit_v], query(obj(vec![("type", s("fruit"))]), all()));
    assert_eq!(empty, query(obj(vec![("type", s("ham"))]), all()));
    assert_eq!(all(), query(obj(vec![("memos.memo", s("on time"))]), all()));
    assert_eq!(
        vec![&fruit_v],
        query(obj(vec![("memos.by", s("payment"))]), all())
    );
    assert_eq!(
        vec![&food_v],
        query(obj(vec![("memos.1.memo", s("approved"))]), all())
    );
}

#[test]
fn test_query_test_comparison() {
    let food_v = food();
    let fruit_v = fruit();
    let all = || vec![&food_v, &fruit_v];

    assert_eq!(
        vec![&food_v],
        query(obj(vec![("qty", obj(vec![("$eq", n(25))]))]), all())
    );
    assert_eq!(
        vec![&food_v],
        query(obj(vec![("qty", obj(vec![("$gt", n(20))]))]), all())
    );
    assert_eq!(
        all(),
        query(obj(vec![("qty", obj(vec![("$gte", n(10))]))]), all())
    );
    assert_eq!(
        vec![&fruit_v],
        query(obj(vec![("qty", obj(vec![("$lt", n(20))]))]), all())
    );
    assert_eq!(
        vec![&fruit_v],
        query(obj(vec![("qty", obj(vec![("$lte", n(10))]))]), all())
    );

    assert_eq!(
        all(),
        query(
            obj(vec![("ratings", obj(vec![("$in", arr(vec![n(5), n(6)]))]))]),
            all()
        )
    );
    assert_eq!(
        vec![&fruit_v],
        query(
            obj(vec![("qty", obj(vec![("$in", arr(vec![n(10), n(42)]))]))]),
            all()
        )
    );
    assert_eq!(
        vec![&food_v],
        query(
            obj(vec![("qty", obj(vec![("$nin", arr(vec![n(10), n(42)]))]))]),
            all()
        )
    );

    assert_eq!(
        vec![&food_v],
        query(obj(vec![("qty", obj(vec![("$ne", n(10))]))]), all())
    );
}

#[test]
fn test_query_test_element() {
    let food_v = food();
    let fruit_v = fruit();
    let all = || vec![&food_v, &fruit_v];
    let empty: Vec<&Value> = vec![];

    assert_eq!(
        all(),
        query(obj(vec![("qty", obj(vec![("$exists", Value::Bool(true))]))]), all())
    );
    assert_eq!(
        empty,
        query(obj(vec![("foo", obj(vec![("$exists", Value::Bool(true))]))]), all())
    );

    let records = records();
    let records_ref: Vec<_> = records.iter().collect();

    assert_eq!(
        records_ref[..7],
        query(
            obj(vec![("a", obj(vec![("$exists", Value::Bool(true))]))]),
            records_ref.clone()
        )
    );
    assert_eq!(
        vec![records_ref[4], records_ref[6], records_ref[9]],
        query(
            obj(vec![("b", obj(vec![("$exists", Value::Bool(false))]))]),
            records_ref.clone()
        )
    );

    assert_eq!(
        vec![records_ref[5], records_ref[6], records_ref[8]],
        query(
            obj(vec![("c", obj(vec![("$exists", Value::Bool(false))]))]),
            records_ref.clone()
        )
    );
}

#[test]
fn test_query_test_custom_ops() {
    let records = records();
    let records_ref: Vec<_> = records.iter().collect();

    let mut custom_ops: OperatorContainer<MyCustomOperator> = OperatorContainer::new();
    custom_ops.insert(
        "custom_op",
        MyCustomOperator {
            evaluatee_greater_than: 4,
        },
    );
    assert_eq!(
        vec![records_ref[0]],
        query_custom(
            obj(vec![("a", obj(vec![("$custom_op", Value::Bool(true))]))]),
            records_ref,
            &custom_ops
        )
    );
}

#[test]
fn test_custom_op_replacement() {
    // A later insert under the same name replaces the earlier operator.
    let doc = obj(vec![("a", n(5))]);
    let mut custom_ops: OperatorContainer<MyCustomOperator> = OperatorContainer::new();
    custom_ops.insert(
        "custom_op",
        MyCustomOperator {
            evaluatee_greater_than: 100,
        },
    );
    custom_ops.insert(
        "custom_op",
        MyCustomOperator {
            evaluatee_greater_than: 4,
        },
    );
    let querier = BaseQuerier::new(&obj(vec![(
        "a",
        obj(vec![("$custom_op", Value::Bool(true))]),
    )]));
    assert!(querier
        .evaluate_with_custom_ops(Some(&doc), &custom_ops)
        .unwrap());
}

#[test]
fn test_custom_op_overrides_standard() {
    // A custom operator under a built-in name takes precedence.
    let doc = obj(vec![("a", n(5))]);
    let mut custom_ops: OperatorContainer<MyCustomOperator> = OperatorContainer::new();
    custom_ops.insert(
        "eq",
        MyCustomOperator {
            evaluatee_greater_than: 4,
        },
    );
    let querier = BaseQuerier::new(&obj(vec![("a", obj(vec![("$eq", n(0))]))]));
    // The standard `eq` would say false (5 != 0); the override says 5 > 4.
    assert!(querier
        .evaluate_with_custom_ops(Some(&doc), &custom_ops)
        .unwrap());
    assert!(!querier.evaluate(Some(&doc)).unwrap());
}

#[test]
fn test_query_match_1() {
    let doc = obj(vec![
        ("item", s("journal")),
        ("qty", n(25)),
        ("size", obj(vec![("h", n(14)), ("w", n(21)), ("uom", s("cm"))])),
        ("status", s("A")),
    ]);
    let query = BaseQuerier::new(&obj(vec![("item", s("journal"))]));
    assert!(query.evaluate(Some(&doc)).unwrap());

    let query = BaseQuerier::new(&obj(vec![("size", obj(vec![("h", n(14))]))]));
    assert!(query.evaluate(Some(&doc)).unwrap());
}

#[test]
fn test_query_match_empty_values() {
    let doc = obj(vec![
        ("item", s("journal")),
        ("qty", n(25)),
        ("size", obj(vec![("h", n(14)), ("w", n(21)), ("uom", s("cm"))])),
        ("status", s("A")),
    ]);
    let query = BaseQuerier::new(&obj(vec![]));
    assert!(query.evaluate(Some(&doc)).unwrap());

    let doc = Value::Null;
    let query = BaseQuerier::new(&Value::Null);
    assert!(query.evaluate(Some(&doc)).unwrap());
}
