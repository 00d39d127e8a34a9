use mongoquery::value::Value;
use mongoquery::{BaseQuerier, Condition, Query};

fn s(x: &str) -> Value {
    Value::String(x.to_string())
}

fn n(x: i64) -> Value {
    Value::Number(x)
}

fn arr(items: Vec<Value>) -> Value {
    Value::Array(items)
}

fn obj(pairs: Vec<(&str, Value)>) -> Value {
    Value::Object(pairs.into_iter().map(|(k, v)| (k.to_string(), v)).collect())
}

#[test]
fn test_parse_query_1() {
    let v: Value = obj(vec![
        ("status", obj(vec![("$in", arr(vec![s("A"), s("D")]))])),
        ("qty", obj(vec![("$lt", n(30))])),
        ("size", obj(vec![("h", n(14)), ("w", n(21)), ("uom", s("cm"))])),
        ("size.uom", s("in")),
    ]);
    let op = BaseQuerier::new(&v);
    println!("{:#?}", op);
}

#[test]
fn test_parse_query_2() {
    let v = obj(vec![("status", s("D"))]);
    let op = BaseQuerier::new(&v);
    println!("{:#?}", op);
}

#[test]
fn test_parse_query_3() {
    let v = obj(vec![(
        "$or",
        arr(vec![
            obj(vec![("status", s("A"))]),
            obj(vec![("qty", obj(vec![("$lt", n(30))]))]),
        ]),
    )]);
    let op = BaseQuerier::new(&v);
    println!("{:#?}", op);
}

#[test]
fn test_compiled_shape() {
    let v = obj(vec![
        ("$not", n(3)),
        ("$custom", s("x")),
        ("field", n(1)),
    ]);
    let q = Query::from_value(&v);
    match q {
        Query::Compound(conds) => {
            assert_eq!(conds.len(), 3);
            assert!(matches!(conds[0], Condition::Not { .. }));
            match &conds[1] {
                Condition::Operator {
                    operator,
                    condition,
                } => {
                    assert_eq!(operator, "custom");
                    assert_eq!(*condition, s("x"));
                }
                other => panic!("expected an operator condition, found {:?}", other),
            }
            match &conds[2] {
                Condition::Field { field_name, .. } => assert_eq!(field_name, "field"),
                other => panic!("expected a field condition, found {:?}", other),
            }
        }
        other => panic!("expected a compound query, found {:?}", other),
    }
}

#[test]
fn test_compile_combinator_degenerates() {
    // A combinator whose value is not an array degenerates to the empty
    // sub-query list, so `$and`/`$nor` match vacuously and `$or` does not.
    let and_q = BaseQuerier::new(&obj(vec![("$and", n(3))]));
    let or_q = BaseQuerier::new(&obj(vec![("$or", s("nope"))]));
    let nor_q = BaseQuerier::new(&obj(vec![("$nor", Value::Null)]));
    let doc = obj(vec![("a", n(1))]);
    assert_eq!(and_q.evaluate(Some(&doc)).unwrap(), true);
    assert_eq!(or_q.evaluate(Some(&doc)).unwrap(), false);
    assert_eq!(nor_q.evaluate(Some(&doc)).unwrap(), true);
}

#[test]
fn test_compile_scalars() {
    assert!(matches!(Query::from_value(&Value::Null), Query::NullScalar));
    assert!(matches!(
        Query::from_value(&n(7)),
        Query::NumericScalar(7)
    ));
    assert!(matches!(
        Query::from_value(&Value::Bool(true)),
        Query::BooleanScalar(true)
    ));
    match Query::from_value(&s("abc")) {
        Query::StringScalar(st) => assert_eq!(st, "abc"),
        other => panic!("expected a string scalar, found {:?}", other),
    }
    match Query::from_value(&arr(vec![n(1), n(2)])) {
        Query::Sequence(items) => assert_eq!(items, vec![n(1), n(2)]),
        other => panic!("expected a sequence, found {:?}", other),
    }
}
