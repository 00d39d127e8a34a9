//! Custom operators: the first tier of the operator registry, supplied by
//! the caller per evaluation call and consulted before the standard
//! operators, so a caller can extend or override the built-in names.

use crate::value::{str_eq, Value};
use crate::QueryError;
use vstd::prelude::*;

verus! {

/// A caller-supplied operator. An implementation judges an evaluatee (the
/// value the operator is asked about, absent when the field did not exist)
/// against a condition taken verbatim from the query document:
/// `Ok(true)` for a match, `Ok(false)` for no match, and `Err(_)` to fail
/// the whole evaluation call. Nothing is assumed of an implementation, so
/// evaluation promises an exact result only for trees that reach no custom
/// operator.
pub trait CustomOperator {
    /// Judge `evaluatee` against `condition`.
    fn evaluate(&self, evaluatee: Option<&Value>, condition: &Value) -> Result<bool, QueryError>;
}

/// A custom operator that never matches: the element type of the empty
/// container used when an evaluation supplies no custom operators.
pub struct NoCustomOperators {}

impl CustomOperator for NoCustomOperators {
    fn evaluate(&self, _evaluatee: Option<&Value>, _condition: &Value) -> Result<bool, QueryError> {
        Ok(false)
    }
}

/// A named collection of custom operators. A later insert under a name that
/// is already present replaces the earlier operator.
pub struct OperatorContainer<Op: CustomOperator> {
    entries: Vec<(String, Op)>,
}

impl<Op: CustomOperator> OperatorContainer<Op> {
    /// The set of names this container has an operator under.
    pub closed spec fn names(&self) -> Set<Seq<char>> {
        Set::new(
            |n: Seq<char>|
                exists|i: int| 0 <= i < self.entries@.len() && self.entries@[i].0@ == n,
        )
    }

    /// An empty container.
    pub fn new() -> (r: OperatorContainer<Op>)
        ensures
            r.names() == Set::<Seq<char>>::empty(),
    {
        let r = OperatorContainer { entries: Vec::new() };
        proof {
            assert(r.names() =~= Set::<Seq<char>>::empty());
        }
        r
    }

    /// Register `operator` under `name`, replacing any operator already
    /// there.
    pub fn insert(&mut self, name: &str, operator: Op)
        ensures
            final(self).names() == old(self).names().insert(name@),
    {
        let n = self.entries.len();
        let mut i: usize = 0;
        while i < n
            invariant
                0 <= i <= n,
                n == self.entries@.len(),
                *self == *old(self),
                forall|j: int| 0 <= j < i ==> self.entries@[j].0@ != name@,
            decreases n - i,
        {
            if str_eq(self.entries[i].0.as_str(), name) {
                let ghost before = *self;
                self.entries.set(i, (String::from_str(name), operator));
                proof {
                    assert forall|m: Seq<char>| self.names().contains(m) <==> before.names().insert(
                        name@,
                    ).contains(m) by {
                        if m == name@ {
                            assert(self.entries@[i as int].0@ == m);
                        } else {
                            assert forall|j: int|
                                0 <= j < self.entries@.len() && self.entries@[j].0@
                                    == m implies before.names().contains(m) by {
                                assert(before.entries@[j].0@ == m);
                            }
                            assert forall|j: int|
                                0 <= j < before.entries@.len() && before.entries@[j].0@
                                    == m implies self.names().contains(m) by {
                                assert(j != i);
                                assert(self.entries@[j].0@ == m);
                            }
                        }
                    }
                    assert(self.names() =~= before.names().insert(name@));
                }
                return ;
            }
            i = i + 1;
        }
        let ghost before = *self;
        self.entries.push((String::from_str(name), operator));
        proof {
            assert forall|m: Seq<char>| self.names().contains(m) <==> before.names().insert(
                name@,
            ).contains(m) by {
                let len = before.entries@.len();
                assert(self.entries@[len as int].0@ == name@);
                if m != name@ {
                    assert forall|j: int|
                        0 <= j < self.entries@.len() && self.entries@[j].0@
                            == m implies before.names().contains(m) by {
                        assert(j < len);
                        assert(before.entries@[j].0@ == m);
                    }
                    assert forall|j: int|
                        0 <= j < len && before.entries@[j].0@ == m implies self.names().contains(
                        m,
                    ) by {
                        assert(self.entries@[j].0@ == m);
                    }
                }
            }
            assert(self.names() =~= before.names().insert(name@));
        }
    }

    /// The operator under `name`, if one was registered.
    pub fn find(&self, name: &str) -> (r: Option<&Op>)
        ensures
            r is Some <==> self.names().contains(name@),
    {
        let n = self.entries.len();
        let mut i: usize = 0;
        while i < n
            invariant
                0 <= i <= n,
                n == self.entries@.len(),
                forall|j: int| 0 <= j < i ==> self.entries@[j].0@ != name@,
            decreases n - i,
        {
            if str_eq(self.entries[i].0.as_str(), name) {
                proof {
                    assert(self.entries@[i as int].0@ == name@);
                }
                return Some(&self.entries[i].1);
            }
            i = i + 1;
        }
        None
    }
}

} // verus!
