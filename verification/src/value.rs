//! The JSON-like value model that queries are compiled from and evaluated
//! against: a tagged union of null, booleans, integers, strings, arrays and
//! objects, together with its specification-level view.

use vstd::prelude::*;

verus! {

/// Specification-level model of a [`Value`]: the same tree shape over
/// mathematical types (`int`, `Seq<char>`, `Seq`).
pub enum ValueView {
    Null,
    Bool(bool),
    Number(int),
    String(Seq<char>),
    Array(Seq<ValueView>),
    Object(Seq<(Seq<char>, ValueView)>),
}

/// A JSON-like value: the shape that query documents and candidate values
/// share. An object is an ordered list of key/value pairs; a lookup returns
/// the first pair with a matching key.
#[derive(Debug, PartialEq, Eq)]
pub enum Value {
    Null,
    Bool(bool),
    Number(i64),
    String(String),
    Array(Vec<Value>),
    Object(Vec<(String, Value)>),
}

/// The view of a value: the same tree over mathematical types.
pub open spec fn view_of(v: Value) -> ValueView
    decreases v,
{
    match v {
        Value::Null => ValueView::Null,
        Value::Bool(b) => ValueView::Bool(b),
        Value::Number(n) => ValueView::Number(n as int),
        Value::String(s) => ValueView::String(s@),
        Value::Array(items) => ValueView::Array(
            Seq::new(items@.len(), |i: int| if 0 <= i < items@.len() {
                view_of(items@[i])
            } else {
                ValueView::Null
            }),
        ),
        Value::Object(fields) => ValueView::Object(
            Seq::new(fields@.len(), |i: int| if 0 <= i < fields@.len() {
                (fields@[i].0@, view_of(fields@[i].1))
            } else {
                (Seq::empty(), ValueView::Null)
            }),
        ),
    }
}

impl View for Value {
    type V = ValueView;

    open spec fn view(&self) -> ValueView {
        view_of(*self)
    }
}

impl DeepView for Value {
    type V = ValueView;

    open spec fn deep_view(&self) -> ValueView {
        view_of(*self)
    }
}

/// The views of the elements of an array of values, in order.
pub open spec fn views_of_seq(items: Seq<Value>) -> Seq<ValueView> {
    Seq::new(items.len(), |i: int| items[i]@)
}

/// The views of the key/value pairs of an object, in order.
pub open spec fn views_of_fields(fields: Seq<(String, Value)>) -> Seq<(Seq<char>, ValueView)> {
    Seq::new(fields.len(), |i: int| (fields[i].0@, fields[i].1@))
}

/// The view of an array value is the array of the element views.
pub proof fn lemma_array_view(items: Vec<Value>)
    ensures
        Value::Array(items)@ == ValueView::Array(views_of_seq(items@)),
{
    let v = Value::Array(items);
    assert(v@->Array_0 =~= views_of_seq(items@));
}

/// The view of an object value is the list of the pair views.
pub proof fn lemma_object_view(fields: Vec<(String, Value)>)
    ensures
        Value::Object(fields)@ == ValueView::Object(views_of_fields(fields@)),
{
    let v = Value::Object(fields);
    assert(v@->Object_0 =~= views_of_fields(fields@));
}

/// Character-wise equality of two string slices, proved against the views.
pub fn str_eq(a: &str, b: &str) -> (r: bool)
    ensures
        r == (a@ == b@),
{
    let alen = a.unicode_len();
    let blen = b.unicode_len();
    if alen != blen {
        return false;
    }
    let mut i: usize = 0;
    while i < alen
        invariant
            0 <= i <= alen,
            alen == a@.len(),
            alen == b@.len(),
            forall|j: int| 0 <= j < i ==> a@[j] == b@[j],
        decreases alen - i,
    {
        let ca = a.get_char(i);
        let cb = b.get_char(i);
        if ca != cb {
            return false;
        }
        i = i + 1;
    }
    proof {
        assert(a@ =~= b@);
    }
    true
}

/// Structural equality of two values, proved equivalent to equality of the
/// views. Object equality is order-sensitive: the same keys in the same order.
pub fn value_eq(a: &Value, b: &Value) -> (r: bool)
    ensures
        r == (a@ == b@),
    decreases *a,
{
    match (a, b) {
        (Value::Null, Value::Null) => true,
        (Value::Bool(x), Value::Bool(y)) => *x == *y,
        (Value::Number(x), Value::Number(y)) => *x == *y,
        (Value::String(x), Value::String(y)) => str_eq(x.as_str(), y.as_str()),
        (Value::Array(x), Value::Array(y)) => {
            proof {
                lemma_array_view(*x);
                lemma_array_view(*y);
            }
            array_values_eq(x, y)
        },
        (Value::Object(x), Value::Object(y)) => {
            proof {
                lemma_object_view(*x);
                lemma_object_view(*y);
            }
            object_fields_eq(x, y)
        },
        _ => false,
    }
}

/// Element-wise equality of two arrays of values.
pub(crate) fn array_values_eq(x: &Vec<Value>, y: &Vec<Value>) -> (r: bool)
    ensures
        r == (views_of_seq(x@) == views_of_seq(y@)),
    decreases *x,
{
    proof {
        assert(views_of_seq(x@).len() == x@.len());
        assert(views_of_seq(y@).len() == y@.len());
    }
    if x.len() != y.len() {
        return false;
    }
    let n = x.len();
    let mut i: usize = 0;
    while i < n
        invariant
            0 <= i <= n,
            n == x@.len(),
            n == y@.len(),
            forall|j: int| 0 <= j < i ==> x@[j]@ == y@[j]@,
        decreases n - i,
    {
        if !value_eq(&x[i], &y[i]) {
            proof {
                assert(views_of_seq(x@)[i as int] != views_of_seq(y@)[i as int]);
            }
            return false;
        }
        i = i + 1;
    }
    proof {
        assert(views_of_seq(x@) =~= views_of_seq(y@));
    }
    true
}

/// Pair-wise equality of two objects' field lists.
fn object_fields_eq(x: &Vec<(String, Value)>, y: &Vec<(String, Value)>) -> (r: bool)
    ensures
        r == (views_of_fields(x@) == views_of_fields(y@)),
    decreases *x,
{
    if x.len() != y.len() {
        return false;
    }
    let n = x.len();
    let mut i: usize = 0;
    while i < n
        invariant
            0 <= i <= n,
            n == x@.len(),
            n == y@.len(),
            forall|j: int| 0 <= j < i ==> x@[j].0@ == y@[j].0@ && x@[j].1@ == y@[j].1@,
        decreases n - i,
    {
        if !str_eq(x[i].0.as_str(), y[i].0.as_str()) {
            proof {
                assert(views_of_fields(x@)[i as int] != views_of_fields(y@)[i as int]);
            }
            return false;
        }
        if !value_eq(&x[i].1, &y[i].1) {
            proof {
                assert(views_of_fields(x@)[i as int] != views_of_fields(y@)[i as int]);
            }
            return false;
        }
        i = i + 1;
    }
    proof {
        assert forall|j: int| 0 <= j < n implies views_of_fields(x@)[j] == views_of_fields(y@)[j] by {
            assert(x@[j].0@ == y@[j].0@ && x@[j].1@ == y@[j].1@);
        }
        assert(views_of_fields(x@) =~= views_of_fields(y@));
    }
    true
}

/// Whether some element of `items` equals `x`.
pub fn arr_contains(items: &Vec<Value>, x: &Value) -> (r: bool)
    ensures
        r == views_of_seq(items@).contains(x@),
{
    let n = items.len();
    let mut i: usize = 0;
    while i < n
        invariant
            0 <= i <= n,
            n == items@.len(),
            forall|j: int| 0 <= j < i ==> views_of_seq(items@)[j] != x@,
        decreases n - i,
    {
        if value_eq(&items[i], x) {
            proof {
                assert(views_of_seq(items@)[i as int] == x@);
            }
            return true;
        }
        i = i + 1;
    }
    proof {
        assert forall|j: int| 0 <= j < views_of_seq(items@).len() implies views_of_seq(items@)[j]
            != x@ by {}
    }
    false
}

impl Value {
    /// A deep copy of this value, with an identical view.
    #[verifier::loop_isolation(false)]
    pub fn duplicate(&self) -> (r: Value)
        ensures
            r@ == self@,
        decreases *self,
    {
        match self {
            Value::Null => Value::Null,
            Value::Bool(b) => Value::Bool(*b),
            Value::Number(n) => Value::Number(*n),
            Value::String(s) => Value::String(s.clone()),
            Value::Array(items) => {
                let n = items.len();
                let mut out: Vec<Value> = Vec::new();
                let mut i: usize = 0;
                while i < n
                    invariant
                        0 <= i <= n,
                        n == items@.len(),
                        out@.len() == i,
                        forall|j: int| 0 <= j < i ==> out@[j]@ == items@[j]@,
                    decreases n - i,
                {
                    out.push(items[i].duplicate());
                    i = i + 1;
                }
                proof {
                    lemma_array_view(*items);
                    lemma_array_view(out);
                    assert(views_of_seq(out@) =~= views_of_seq(items@));
                }
                Value::Array(out)
            },
            Value::Object(fields) => {
                let n = fields.len();
                let mut out: Vec<(String, Value)> = Vec::new();
                let mut i: usize = 0;
                while i < n
                    invariant
                        0 <= i <= n,
                        n == fields@.len(),
                        out@.len() == i,
                        forall|j: int|
                            0 <= j < i ==> out@[j].0@ == fields@[j].0@ && out@[j].1@
                                == fields@[j].1@,
                    decreases n - i,
                {
                    out.push((fields[i].0.clone(), fields[i].1.duplicate()));
                    i = i + 1;
                }
                proof {
                    lemma_object_view(*fields);
                    lemma_object_view(out);
                    assert forall|j: int| 0 <= j < n implies views_of_fields(out@)[j]
                        == views_of_fields(fields@)[j] by {
                        assert(out@[j].0@ == fields@[j].0@ && out@[j].1@ == fields@[j].1@);
                    }
                    assert(views_of_fields(out@) =~= views_of_fields(fields@));
                }
                Value::Object(out)
            },
        }
    }
}

} // verus!
