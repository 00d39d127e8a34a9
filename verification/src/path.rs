//! The field path resolver: splitting a dotted path into segments and
//! extracting the (possibly broadcast) sub-value a path names on a candidate.

use crate::value::{str_eq, Value, ValueView};
use vstd::prelude::*;

verus! {

/// Index of the first `'.'` in `s`, or `-1` if there is none.
pub open spec fn first_dot(s: Seq<char>) -> int
    decreases s.len(),
{
    if s.len() == 0 {
        -1
    } else if s[0] == '.' {
        0
    } else {
        let r = first_dot(s.subrange(1, s.len() as int));
        if r < 0 {
            -1
        } else {
            r + 1
        }
    }
}

/// `s` split on `'.'`: always at least one segment, and a dot at either end
/// or two dots in a row yield an empty segment.
pub open spec fn split_path(s: Seq<char>) -> Seq<Seq<char>>
    decreases s.len(),
{
    let i = first_dot(s);
    if i < 0 || i >= s.len() {
        seq![s]
    } else {
        seq![s.subrange(0, i)] + split_path(s.subrange(i + 1, s.len() as int))
    }
}

/// `c` is an ASCII decimal digit.
pub open spec fn is_digit(c: char) -> bool {
    48 <= (c as u32) <= 57
}

/// `s` is one or more ASCII decimal digits.
pub open spec fn is_digits(s: Seq<char>) -> bool {
    s.len() > 0 && forall|i: int| 0 <= i < s.len() ==> is_digit(s[i])
}

/// The number the digit sequence `s` writes in decimal.
pub open spec fn digits_value(s: Seq<char>) -> int
    decreases s.len(),
{
    if s.len() == 0 {
        0
    } else {
        10 * digits_value(s.subrange(0, s.len() - 1)) + ((s[s.len() - 1] as u32) - 48)
    }
}

/// A path segment read as a non-negative array index: defined exactly when
/// the segment is all decimal digits and its value fits a 64-bit signed
/// integer; any other segment is treated as a field name.
pub open spec fn parse_index(s: Seq<char>) -> Option<int> {
    if is_digits(s) && digits_value(s) <= i64::MAX as int {
        Some(digits_value(s))
    } else {
        None
    }
}

/// The value a digit sequence writes is non-negative.
pub proof fn lemma_digits_value_nonneg(s: Seq<char>)
    requires
        forall|i: int| 0 <= i < s.len() ==> is_digit(s[i]),
    ensures
        digits_value(s) >= 0,
    decreases s.len(),
{
    if s.len() > 0 {
        lemma_digits_value_nonneg(s.subrange(0, s.len() - 1));
    }
}

/// A digit prefix never writes a larger number than the whole sequence.
pub proof fn lemma_digits_value_monotone(s: Seq<char>, i: int)
    requires
        forall|j: int| 0 <= j < s.len() ==> is_digit(s[j]),
        0 <= i <= s.len(),
    ensures
        digits_value(s.subrange(0, i)) <= digits_value(s),
    decreases s.len() - i,
{
    if i == s.len() {
        assert(s.subrange(0, i) =~= s);
    } else {
        let t = s.subrange(0, i + 1);
        assert(t.subrange(0, t.len() - 1) =~= s.subrange(0, i));
        lemma_digits_value_nonneg(s.subrange(0, i));
        assert(digits_value(t) == 10 * digits_value(s.subrange(0, i)) + ((s[i] as u32) - 48));
        lemma_digits_value_monotone(s, i + 1);
    }
}

/// The value of the first pair of `fields` whose key is `key`, if any.
pub open spec fn lookup_field(fields: Seq<(Seq<char>, ValueView)>, key: Seq<char>) -> Option<
    ValueView,
>
    decreases fields.len(),
{
    if fields.len() == 0 {
        None
    } else if fields[0].0 == key {
        Some(fields[0].1)
    } else {
        lookup_field(fields.subrange(1, fields.len() as int), key)
    }
}

/// Characterisation of [`lookup_field`]: `None` exactly when no pair has the
/// key, and otherwise the value of the first pair that does.
pub proof fn lemma_lookup_field(fields: Seq<(Seq<char>, ValueView)>, key: Seq<char>)
    ensures
        lookup_field(fields, key) is None ==> forall|j: int|
            0 <= j < fields.len() ==> fields[j].0 != key,
        lookup_field(fields, key) is Some ==> exists|j: int|
            {
                &&& 0 <= j < fields.len()
                &&& fields[j].0 == key
                &&& lookup_field(fields, key) == Some(fields[j].1)
                &&& forall|l: int| 0 <= l < j ==> fields[l].0 != key
            },
    decreases fields.len(),
{
    if fields.len() > 0 && fields[0].0 != key {
        let rest = fields.subrange(1, fields.len() as int);
        lemma_lookup_field(rest, key);
        assert(forall|l: int| 1 <= l < fields.len() ==> fields[l] == rest[l - 1]);
        if lookup_field(rest, key) is Some {
            let j = choose|j: int|
                {
                    &&& 0 <= j < rest.len()
                    &&& rest[j].0 == key
                    &&& lookup_field(rest, key) == Some(rest[j].1)
                    &&& forall|l: int| 0 <= l < j ==> rest[l].0 != key
                };
            assert(fields[j + 1].0 == key);
            assert(lookup_field(fields, key) == Some(fields[j + 1].1));
            assert(forall|l: int| 0 <= l < j + 1 ==> fields[l].0 != key);
        }
    }
}

/// Resolve `path` (from segment `k` on) against an optional value.
/// An empty remaining path returns the value unchanged.
pub open spec fn extract_spec(entry: Option<ValueView>, path: Seq<Seq<char>>, k: int) -> Option<
    ValueView,
>
    decreases path.len() - k, entry, 1int,
{
    if k < 0 || k >= path.len() {
        entry
    } else {
        match entry {
            Option::None => None,
            Option::Some(v) => extract_from(v, path, k),
        }
    }
}

/// Resolve a non-empty remaining path against a present value.
pub open spec fn extract_from(v: ValueView, path: Seq<Seq<char>>, k: int) -> Option<ValueView>
    decreases path.len() - k, v, 3int,
{
    if k < 0 || k >= path.len() {
        Some(v)
    } else {
        match v {
            ValueView::Null => Some(ValueView::Null),
            ValueView::Array(items) => match parse_index(path[k]) {
                Option::Some(n) => if 0 <= n < items.len() {
                    extract_spec(Some(items[n]), path, k + 1)
                } else {
                    extract_spec(None, path, k + 1)
                },
                Option::None => match extract_each(items, path, k, 0) {
                    Option::Some(results) => Some(ValueView::Array(results)),
                    Option::None => None,
                },
            },
            ValueView::Object(fields) => extract_spec(lookup_field(fields, path[k]), path, k + 1),
            _ => None,
        }
    }
}

/// Broadcast resolution: the whole remaining path resolved independently
/// against every element of `items` from element `j` on; `None` as soon as
/// any single element fails.
pub open spec fn extract_each(items: Seq<ValueView>, path: Seq<Seq<char>>, k: int, j: int) -> Option<
    Seq<ValueView>,
>
    decreases path.len() - k, items, items.len() - j, 2int,
{
    if j < 0 || j >= items.len() {
        Some(Seq::empty())
    } else {
        match extract_from(items[j], path, k) {
            Option::None => None,
            Option::Some(r) => match extract_each(items, path, k, j + 1) {
                Option::None => None,
                Option::Some(rest) => Some(seq![r] + rest),
            },
        }
    }
}

/// Characterisation of [`extract_each`]: it succeeds exactly when every
/// element resolves, and then gives the element results in order.
pub proof fn lemma_extract_each(items: Seq<ValueView>, path: Seq<Seq<char>>, k: int, j: int)
    requires
        0 <= j <= items.len(),
    ensures
        extract_each(items, path, k, j) is Some <==> forall|l: int|
            j <= l < items.len() ==> extract_from(#[trigger] items[l], path, k) is Some,
        extract_each(items, path, k, j) matches Some(results) ==> {
            &&& results.len() == items.len() - j
            &&& forall|l: int|
                j <= l < items.len() ==> extract_from(#[trigger] items[l], path, k) == Some(
                    results[l - j],
                )
        },
    decreases items.len() - j,
{
    if j < items.len() {
        lemma_extract_each(items, path, k, j + 1);
    }
}

/// `first_dot` is the index of a dot with no dot before it.
pub proof fn lemma_first_dot_is(s: Seq<char>, i: int)
    requires
        0 <= i < s.len(),
        s[i] == '.',
        forall|j: int| 0 <= j < i ==> s[j] != '.',
    ensures
        first_dot(s) == i,
    decreases s.len(),
{
    if i > 0 {
        let rest = s.subrange(1, s.len() as int);
        assert(forall|j: int| 1 <= j < s.len() ==> s[j] == rest[j - 1]);
        lemma_first_dot_is(rest, i - 1);
    }
}

/// `first_dot` is negative when no character is a dot.
pub proof fn lemma_first_dot_none(s: Seq<char>)
    requires
        forall|j: int| 0 <= j < s.len() ==> s[j] != '.',
    ensures
        first_dot(s) < 0,
    decreases s.len(),
{
    if s.len() > 0 {
        let rest = s.subrange(1, s.len() as int);
        assert(forall|j: int| 1 <= j < s.len() ==> s[j] == rest[j - 1]);
        lemma_first_dot_none(rest);
    }
}

/// Split `s` on `'.'` into its path segments.
#[verifier::loop_isolation(false)]
pub fn split_dotted(s: &str) -> (r: Vec<String>)
    ensures
        r.deep_view() == split_path(s@),
{
    let len = s.unicode_len();
    let mut out: Vec<String> = Vec::new();
    let mut start: usize = 0;
    let mut i: usize = 0;
    proof {
        assert(s@.subrange(0, len as int) =~= s@);
        assert(out.deep_view() =~= Seq::<Seq<char>>::empty());
        assert(out.deep_view() + split_path(s@) =~= split_path(s@));
    }
    while i < len
        invariant
            0 <= start <= i <= len,
            len == s@.len(),
            split_path(s@) == out.deep_view() + split_path(s@.subrange(start as int, len as int)),
            forall|j: int| start <= j < i ==> s@[j] != '.',
        decreases len - i,
    {
        let c = s.get_char(i);
        if c == '.' {
            let seg = s.substring_char(start, i).to_owned();
            proof {
                let suffix = s@.subrange(start as int, len as int);
                assert(forall|j: int| 0 <= j < i - start ==> suffix[j] == s@[start + j]);
                lemma_first_dot_is(suffix, i - start);
                assert(suffix.subrange(0, i - start) =~= s@.subrange(start as int, i as int));
                assert(suffix.subrange(i - start + 1, suffix.len() as int) =~= s@.subrange(
                    i + 1,
                    len as int,
                ));
                assert(seg@ == s@.subrange(start as int, i as int));
            }
            let ghost old_out = out.deep_view();
            out.push(seg);
            proof {
                assert(out.deep_view() =~= old_out + seq![seg@]);
                assert(split_path(s@) =~= out.deep_view() + split_path(
                    s@.subrange(i + 1, len as int),
                ));
            }
            start = i + 1;
        }
        i = i + 1;
    }
    let seg = s.substring_char(start, len).to_owned();
    proof {
        let suffix = s@.subrange(start as int, len as int);
        assert(forall|j: int| 0 <= j < len - start ==> suffix[j] == s@[start + j]);
        lemma_first_dot_none(suffix);
        assert(split_path(suffix) == seq![suffix]);
    }
    let ghost old_out = out.deep_view();
    out.push(seg);
    proof {
        assert(out.deep_view() =~= old_out + seq![seg@]);
        assert(split_path(s@) =~= out.deep_view());
    }
    out
}

/// Read a path segment as a non-negative array index, if it is one.
#[verifier::loop_isolation(false)]
pub fn parse_index_str(s: &str) -> (r: Option<u64>)
    ensures
        match r {
            Option::Some(n) => parse_index(s@) == Some(n as int),
            Option::None => parse_index(s@) is None,
        },
{
    let len = s.unicode_len();
    if len == 0 {
        return None;
    }
    let mut acc: u64 = 0;
    let mut i: usize = 0;
    while i < len
        invariant
            0 <= i <= len,
            len == s@.len(),
            forall|j: int| 0 <= j < i ==> is_digit(s@[j]),
            acc as int == digits_value(s@.subrange(0, i as int)),
            acc <= 0x7fff_ffff_ffff_ffff,
        decreases len - i,
    {
        let c = s.get_char(i);
        let cu = c as u32;
        if cu < 48 || cu > 57 {
            return None;
        }
        let d = (cu - 48) as u64;
        proof {
            let t = s@.subrange(0, i + 1);
            assert(t.subrange(0, t.len() - 1) =~= s@.subrange(0, i as int));
            assert(t[t.len() - 1] == s@[i as int]);
        }
        if acc > 922_337_203_685_477_580 || (acc == 922_337_203_685_477_580 && d > 7) {
            proof {
                assert(digits_value(s@.subrange(0, i + 1)) > i64::MAX as int);
                if is_digits(s@) {
                    lemma_digits_value_monotone(s@, i + 1);
                }
            }
            return None;
        }
        acc = acc * 10 + d;
        i = i + 1;
    }
    proof {
        assert(s@.subrange(0, len as int) =~= s@);
    }
    Some(acc)
}

/// The view of an optional borrowed value.
pub open spec fn opt_view(entry: Option<&Value>) -> Option<ValueView> {
    match entry {
        Option::Some(v) => Some(v@),
        Option::None => None,
    }
}

/// The view of an optional owned value.
pub open spec fn opt_value_view(o: Option<Value>) -> Option<ValueView> {
    match o {
        Option::Some(v) => Some(v@),
        Option::None => None,
    }
}

/// First value in `fields` under `key`, if any.
#[verifier::loop_isolation(false)]
pub fn object_get<'a>(fields: &'a Vec<(String, Value)>, key: &str) -> (r: Option<&'a Value>)
    ensures
        opt_view(r) == lookup_field(crate::value::views_of_fields(fields@), key@),
{
    let ghost fv = crate::value::views_of_fields(fields@);
    proof {
        lemma_lookup_field(fv, key@);
    }
    let n = fields.len();
    let mut i: usize = 0;
    while i < n
        invariant
            0 <= i <= n,
            n == fields@.len(),
            forall|j: int| 0 <= j < i ==> fv[j].0 != key@,
        decreases n - i,
    {
        if str_eq(fields[i].0.as_str(), key) {
            proof {
                assert(fv[i as int].0 == key@);
                assert(lookup_field(fv, key@) is Some);
                let j = choose|j: int|
                    {
                        &&& 0 <= j < fv.len()
                        &&& fv[j].0 == key@
                        &&& lookup_field(fv, key@) == Some(fv[j].1)
                        &&& forall|l: int| 0 <= l < j ==> fv[l].0 != key@
                    };
                assert(j == i);
            }
            return Some(&fields[i].1);
        }
        i = i + 1;
    }
    proof {
        if lookup_field(fv, key@) is Some {
            let j = choose|j: int|
                {
                    &&& 0 <= j < fv.len()
                    &&& fv[j].0 == key@
                    &&& lookup_field(fv, key@) == Some(fv[j].1)
                    &&& forall|l: int| 0 <= l < j ==> fv[l].0 != key@
                };
            assert(false);
        }
    }
    None
}

/// Resolve a split path against an optional candidate value, per the rules
/// of [`extract_spec`]: an empty path returns the value unchanged; `null`
/// absorbs any remaining path; objects look the segment up as a key; arrays
/// index positionally when the segment is a non-negative integer and
/// otherwise broadcast the whole remaining path over their elements, failing
/// if any element fails; any other value fails.
pub fn extract(entry: Option<&Value>, path: &Vec<String>) -> (r: Option<Value>)
    ensures
        opt_value_view(r) == extract_spec(opt_view(entry), path.deep_view(), 0),
{
    extract_rec(entry, path, 0)
}

/// Resolve the remaining path (segment `k` on) against an optional value.
fn extract_rec(entry: Option<&Value>, path: &Vec<String>, k: usize) -> (r: Option<Value>)
    requires
        k <= path@.len(),
    ensures
        opt_value_view(r) == extract_spec(opt_view(entry), path.deep_view(), k as int),
    decreases path@.len() - k, entry, 1int,
{
    if k == path.len() {
        match entry {
            Option::Some(v) => Some(v.duplicate()),
            Option::None => None,
        }
    } else {
        match entry {
            Option::Some(v) => extract_from_rec(v, path, k),
            Option::None => None,
        }
    }
}

/// Resolve the remaining path (segment `k` on) against a present value.
#[verifier::loop_isolation(false)]
fn extract_from_rec(v: &Value, path: &Vec<String>, k: usize) -> (r: Option<Value>)
    requires
        k < path@.len(),
    ensures
        opt_value_view(r) == extract_from(v@, path.deep_view(), k as int),
    decreases path@.len() - k, *v, 3int,
{
    let ghost spath = path.deep_view();
    let plen = path.len();
    proof {
        assert(spath[k as int] == path@[k as int]@);
        assert(k < plen);
    }
    match v {
        Value::Null => Some(Value::Null),
        Value::Array(items) => {
            proof {
                crate::value::lemma_array_view(*items);
            }
            let ghost iv = crate::value::views_of_seq(items@);
            match parse_index_str(path[k].as_str()) {
                Option::Some(n) => {
                    if n < items.len() as u64 {
                        let idx = n as usize;
                        extract_rec(Some(&items[idx]), path, k + 1)
                    } else {
                        extract_rec(None, path, k + 1)
                    }
                },
                Option::None => {
                    let n = items.len();
                    let mut out: Vec<Value> = Vec::new();
                    let mut j: usize = 0;
                    proof {
                        lemma_extract_each(iv, spath, k as int, 0);
                    }
                    while j < n
                        invariant
                            0 <= j <= n,
                            n == items@.len(),
                            out@.len() == j,
                            forall|l: int|
                                0 <= l < j ==> extract_from(#[trigger] iv[l], spath, k as int)
                                    == Some(out@[l]@),
                        decreases n - j,
                    {
                        match extract_from_rec(&items[j], path, k) {
                            Option::Some(r) => {
                                out.push(r);
                            },
                            Option::None => {
                                proof {
                                    assert(extract_from(iv[j as int], spath, k as int) is None);
                                }
                                return None;
                            },
                        }
                        j = j + 1;
                    }
                    proof {
                        assert(extract_each(iv, spath, k as int, 0) is Some);
                        let results = extract_each(iv, spath, k as int, 0)->Some_0;
                        crate::value::lemma_array_view(out);
                        assert forall|l: int| 0 <= l < n implies crate::value::views_of_seq(out@)[l]
                            == results[l] by {
                            assert(extract_from(iv[l], spath, k as int) == Some(results[l]));
                            assert(extract_from(iv[l], spath, k as int) == Some(out@[l]@));
                        }
                        assert(crate::value::views_of_seq(out@) =~= results);
                    }
                    Some(Value::Array(out))
                },
            }
        },
        Value::Object(fields) => {
            proof {
                crate::value::lemma_object_view(*fields);
            }
            let got = object_get(fields, path[k].as_str());
            extract_rec(got, path, k + 1)
        },
        _ => None,
    }
}

} // verus!
