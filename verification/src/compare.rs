//! The partial order on values used by the `gt`/`gte`/`lt`/`lte` operators.
//!
//! Only same-type scalars, arrays (by length alone) and the boolean/number
//! pairing are comparable; every other pairing is incomparable (`None`).

use crate::value::{lemma_array_view, Value, ValueView};
use std::cmp::Ordering;
use vstd::prelude::*;

verus! {

/// Ordering of two mathematical integers.
pub open spec fn int_cmp(x: int, y: int) -> Ordering {
    if x < y {
        Ordering::Less
    } else if x > y {
        Ordering::Greater
    } else {
        Ordering::Equal
    }
}

/// Lexicographic ordering of two character sequences by code point, the
/// ordering Rust gives string slices.
pub open spec fn lex_cmp(x: Seq<char>, y: Seq<char>) -> Ordering
    decreases x.len(),
{
    if x.len() == 0 && y.len() == 0 {
        Ordering::Equal
    } else if x.len() == 0 {
        Ordering::Less
    } else if y.len() == 0 {
        Ordering::Greater
    } else if (x[0] as u32) < (y[0] as u32) {
        Ordering::Less
    } else if (y[0] as u32) < (x[0] as u32) {
        Ordering::Greater
    } else {
        lex_cmp(x.subrange(1, x.len() as int), y.subrange(1, y.len() as int))
    }
}

/// The partial order on value views:
/// - same-type scalars compare natively (numbers as integers, strings
///   lexicographically, `false` before `true`);
/// - two arrays compare by length only;
/// - a boolean compares with a number as the number `1`, whichever side it
///   stands on and whatever its value;
/// - every other pairing is incomparable.
pub open spec fn compare_spec(a: ValueView, b: ValueView) -> Option<Ordering> {
    match (a, b) {
        (ValueView::Null, ValueView::Null) => Some(Ordering::Equal),
        (ValueView::Bool(x), ValueView::Bool(y)) => Some(int_cmp(x as int, y as int)),
        (ValueView::Number(x), ValueView::Number(y)) => Some(int_cmp(x, y)),
        (ValueView::String(x), ValueView::String(y)) => Some(lex_cmp(x, y)),
        (ValueView::Array(x), ValueView::Array(y)) => Some(
            int_cmp(x.len() as int, y.len() as int),
        ),
        (ValueView::Bool(_), ValueView::Number(y)) => Some(int_cmp(1, y)),
        (ValueView::Number(x), ValueView::Bool(_)) => Some(int_cmp(x, 1)),
        _ => None,
    }
}

/// Ordering of two machine integers.
fn i64_cmp(x: i64, y: i64) -> (r: Ordering)
    ensures
        r == int_cmp(x as int, y as int),
{
    if x < y {
        Ordering::Less
    } else if x > y {
        Ordering::Greater
    } else {
        Ordering::Equal
    }
}

/// Lexicographic comparison of two string slices, character by character.
fn str_lex_cmp(a: &str, b: &str) -> (r: Ordering)
    ensures
        r == lex_cmp(a@, b@),
    decreases a@.len(),
{
    let alen = a.unicode_len();
    let blen = b.unicode_len();
    if alen == 0 && blen == 0 {
        Ordering::Equal
    } else if alen == 0 {
        Ordering::Less
    } else if blen == 0 {
        Ordering::Greater
    } else {
        let ca = a.get_char(0);
        let cb = b.get_char(0);
        if (ca as u32) < (cb as u32) {
            Ordering::Less
        } else if (cb as u32) < (ca as u32) {
            Ordering::Greater
        } else {
            let a2 = a.substring_char(1, alen);
            let b2 = b.substring_char(1, blen);
            str_lex_cmp(a2, b2)
        }
    }
}

/// Compare two values under the partial order of [`compare_spec`].
pub fn value_partial_cmp(lhs: &Value, rhs: &Value) -> (r: Option<Ordering>)
    ensures
        r == compare_spec(lhs@, rhs@),
{
    match (lhs, rhs) {
        (Value::Null, Value::Null) => Some(Ordering::Equal),
        (Value::Bool(x), Value::Bool(y)) => {
            let xi: i64 = if *x {
                1
            } else {
                0
            };
            let yi: i64 = if *y {
                1
            } else {
                0
            };
            Some(i64_cmp(xi, yi))
        },
        (Value::Number(x), Value::Number(y)) => Some(i64_cmp(*x, *y)),
        (Value::String(x), Value::String(y)) => Some(str_lex_cmp(x.as_str(), y.as_str())),
        (Value::Array(x), Value::Array(y)) => {
            proof {
                lemma_array_view(*x);
                lemma_array_view(*y);
            }
            if x.len() < y.len() {
                Some(Ordering::Less)
            } else if x.len() > y.len() {
                Some(Ordering::Greater)
            } else {
                Some(Ordering::Equal)
            }
        },
        (Value::Bool(_), Value::Number(y)) => Some(i64_cmp(1, *y)),
        (Value::Number(x), Value::Bool(_)) => Some(i64_cmp(*x, 1)),
        _ => None,
    }
}

/// Lexicographic comparison is antisymmetric: swapping the sides swaps
/// `Less` and `Greater` and preserves `Equal`.
pub proof fn lemma_lex_cmp_antisymmetry(x: Seq<char>, y: Seq<char>)
    ensures
        (lex_cmp(x, y) == Ordering::Greater) <==> (lex_cmp(y, x) == Ordering::Less),
        (lex_cmp(x, y) == Ordering::Equal) <==> (lex_cmp(y, x) == Ordering::Equal),
    decreases x.len(),
{
    if x.len() != 0 && y.len() != 0 && !((x[0] as u32) < (y[0] as u32)) && !((y[0] as u32) < (
    x[0] as u32)) {
        lemma_lex_cmp_antisymmetry(
            x.subrange(1, x.len() as int),
            y.subrange(1, y.len() as int),
        );
    }
}

/// Comparator symmetry: `compare(a, b)` is `Some(Greater)` exactly when
/// `compare(b, a)` is `Some(Less)`, `Some(Equal)` exactly when the swapped
/// comparison is `Some(Equal)`, and incomparable exactly when the swapped
/// comparison is.
pub proof fn lemma_compare_symmetry(a: ValueView, b: ValueView)
    ensures
        (compare_spec(a, b) == Some(Ordering::Greater)) <==> (compare_spec(b, a) == Some(
            Ordering::Less,
        )),
        (compare_spec(a, b) == Some(Ordering::Equal)) <==> (compare_spec(b, a) == Some(
            Ordering::Equal,
        )),
        compare_spec(a, b) is None <==> compare_spec(b, a) is None,
{
    match (a, b) {
        (ValueView::String(x), ValueView::String(y)) => {
            lemma_lex_cmp_antisymmetry(x, y);
            lemma_lex_cmp_antisymmetry(y, x);
        },
        _ => {},
    }
}

/// Two arrays compare by length alone, whatever their elements hold.
pub proof fn lemma_compare_arrays_by_length(x: Seq<ValueView>, y: Seq<ValueView>)
    ensures
        compare_spec(ValueView::Array(x), ValueView::Array(y)) == Some(
            int_cmp(x.len() as int, y.len() as int),
        ),
{
}

} // verus!
