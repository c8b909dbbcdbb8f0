//! The interpreter: runtime values, the execution modes, and the evaluation
//! of lowered programs.
use std::io::Write;

use vstd::prelude::*;

use crate::ast::BinaryOp;
use crate::diagnostics::{Diagnostic, Phase, SourceSpan};
use crate::ast::UnaryOp;
use crate::externs::ExternRegistry;
use crate::resolver::SymbolKind;
use crate::standard_runtime::{lookup_standard_runtime_name, StandardRuntimeAction};
use crate::tir::{
    TypedActionDecl, TypedRecordField, TypedBindingPattern, TypedCallArg, TypedDecl, TypedIrModule, TypedStmt, TypedStmtKind, TypedSymbol,
     TypedBindingPatternKind, TypedExpr, TypedExprKind, TypedLiteral, TypedPattern,
    TypedPatternKind, TypedTarget,
};
use crate::types::{find_key_spec, Type};
use crate::text::{concat, concat3, i64_text, push_char, str_eq};

verus! {

broadcast use vstd::std_specs::vec::group_vec_axioms;

/// A runtime value. Records keep their fields sorted by name; tuples are
/// lists at run time.
#[derive(Debug, PartialEq)]
pub enum Value {
    Bool(bool),
    Int(i64),
    Dec(String),
    Text(String),
    NoneValue,
    ResultOk(Box<Value>),
    ResultErr(Box<Value>),
    OptionSome(Box<Value>),
    OptionNone,
    Record(Vec<(String, Value)>),
    List(Vec<Value>),
    MapValue(Vec<(Value, Value)>),
    Callable(String),
    Variant { enum_name: String, variant: String, fields: Vec<(String, Value)> },
}

/// Structural equality of two lists of values.
pub open spec fn values_same(xs: Seq<Value>, ys: Seq<Value>) -> bool
    decreases xs, 0int,
{
    if xs.len() != ys.len() {
        false
    } else if xs.len() == 0 {
        true
    } else {
        proof {
            assert(decreases_to!(xs => xs.drop_last()));
        }
        values_same(xs.drop_last(), ys.drop_last()) && value_same(xs.last(), ys.last())
    }
}

/// Structural equality of two lists of named values.
pub open spec fn fields_same(xs: Seq<(String, Value)>, ys: Seq<(String, Value)>) -> bool
    decreases xs, 0int,
{
    if xs.len() != ys.len() {
        false
    } else if xs.len() == 0 {
        true
    } else {
        proof {
            assert(decreases_to!(xs => xs.drop_last()));
            assert(decreases_to!(xs => xs.last()));
        }
        fields_same(xs.drop_last(), ys.drop_last()) && xs.last().0@ == ys.last().0@
            && value_same(xs.last().1, ys.last().1)
    }
}

/// Structural equality of two lists of key/value pairs.
pub open spec fn pairs_same(xs: Seq<(Value, Value)>, ys: Seq<(Value, Value)>) -> bool
    decreases xs, 0int,
{
    if xs.len() != ys.len() {
        false
    } else if xs.len() == 0 {
        true
    } else {
        proof {
            assert(decreases_to!(xs => xs.drop_last()));
            assert(decreases_to!(xs => xs.last()));
        }
        pairs_same(xs.drop_last(), ys.drop_last()) && value_same(xs.last().0, ys.last().0)
            && value_same(xs.last().1, ys.last().1)
    }
}

/// Structural equality of values: the same constructor with equal parts.
pub open spec fn value_same(a: Value, b: Value) -> bool
    decreases a, 1int,
{
    match (a, b) {
        (Value::Bool(x), Value::Bool(y)) => x == y,
        (Value::Int(x), Value::Int(y)) => x == y,
        (Value::Dec(x), Value::Dec(y)) => x@ == y@,
        (Value::Text(x), Value::Text(y)) => x@ == y@,
        (Value::NoneValue, Value::NoneValue) => true,
        (Value::OptionNone, Value::OptionNone) => true,
        (Value::ResultOk(x), Value::ResultOk(y)) => value_same(*x, *y),
        (Value::ResultErr(x), Value::ResultErr(y)) => value_same(*x, *y),
        (Value::OptionSome(x), Value::OptionSome(y)) => value_same(*x, *y),
        (Value::Callable(x), Value::Callable(y)) => x@ == y@,
        (Value::List(xs), Value::List(ys)) => {
            proof {
                assert(decreases_to!(a => xs));
                assert(decreases_to!(xs => xs@));
            }
            values_same(xs@, ys@)
        },
        (Value::Record(xs), Value::Record(ys)) => {
            proof {
                assert(decreases_to!(a => xs));
                assert(decreases_to!(xs => xs@));
            }
            fields_same(xs@, ys@)
        },
        (Value::MapValue(xs), Value::MapValue(ys)) => {
            proof {
                assert(decreases_to!(a => xs));
                assert(decreases_to!(xs => xs@));
            }
            pairs_same(xs@, ys@)
        },
        (Value::Variant { enum_name: e1, variant: v1, fields: f1 }, Value::Variant { enum_name: e2, variant: v2, fields: f2 }) => {
            proof {
                assert(decreases_to!(a => f1));
                assert(decreases_to!(f1 => f1@));
            }
            e1@ == e2@ && v1@ == v2@ && fields_same(f1@, f2@)
        },
        _ => false,
    }
}


/// `values_same` holds exactly when the lists agree at every index.
pub proof fn lemma_values_same(xs: Seq<Value>, ys: Seq<Value>)
    ensures
        values_same(xs, ys) <==> (xs.len() == ys.len() && forall|i: int| 0 <= i < xs.len() ==> #[trigger] value_same(xs[i], ys[i])),
    decreases xs.len(),
{
    if xs.len() != ys.len() {
        assert(!values_same(xs, ys));
    } else if xs.len() == 0 {
        assert(values_same(xs, ys));
    } else {
        assert(values_same(xs, ys) == (values_same(xs.drop_last(), ys.drop_last()) && value_same(xs.last(), ys.last())));
        lemma_values_same(xs.drop_last(), ys.drop_last());
        if forall|i: int| 0 <= i < xs.len() ==> #[trigger] value_same(xs[i], ys[i]) {
            assert forall|i: int| 0 <= i < xs.drop_last().len() implies #[trigger] value_same(xs.drop_last()[i], ys.drop_last()[i]) by {
                assert(value_same(xs[i], ys[i]));
            }
        }
        if values_same(xs, ys) {
            assert forall|i: int| 0 <= i < xs.len() implies #[trigger] value_same(xs[i], ys[i]) by {
                if i < xs.len() - 1 {
                    assert(value_same(xs.drop_last()[i], ys.drop_last()[i]));
                }
            }
        }
    }
}

/// `fields_same` holds exactly when the lists agree at every index.
pub proof fn lemma_fields_same(xs: Seq<(String, Value)>, ys: Seq<(String, Value)>)
    ensures
        fields_same(xs, ys) <==> (xs.len() == ys.len() && forall|i: int| 0 <= i < xs.len() ==> (#[trigger] xs[i]).0@ == ys[i].0@ && value_same(xs[i].1, ys[i].1)),
    decreases xs.len(),
{
    if xs.len() != ys.len() {
        assert(!fields_same(xs, ys));
    } else if xs.len() == 0 {
        assert(fields_same(xs, ys));
    } else {
        assert(fields_same(xs, ys) == (fields_same(xs.drop_last(), ys.drop_last()) && xs.last().0@ == ys.last().0@ && value_same(xs.last().1, ys.last().1)));
        lemma_fields_same(xs.drop_last(), ys.drop_last());
        if forall|i: int| 0 <= i < xs.len() ==> (#[trigger] xs[i]).0@ == ys[i].0@ && value_same(xs[i].1, ys[i].1) {
            assert forall|i: int| 0 <= i < xs.drop_last().len() implies (#[trigger] xs.drop_last()[i]).0@ == ys.drop_last()[i].0@ && value_same(xs.drop_last()[i].1, ys.drop_last()[i].1) by {
                assert(xs[i].0@ == ys[i].0@ && value_same(xs[i].1, ys[i].1));
            }
        }
        if fields_same(xs, ys) {
            assert forall|i: int| 0 <= i < xs.len() implies (#[trigger] xs[i]).0@ == ys[i].0@ && value_same(xs[i].1, ys[i].1) by {
                if i < xs.len() - 1 {
                    assert(xs.drop_last()[i].0@ == ys.drop_last()[i].0@ && value_same(xs.drop_last()[i].1, ys.drop_last()[i].1));
                }
            }
        }
    }
}

/// `pairs_same` holds exactly when the lists agree at every index.
pub proof fn lemma_pairs_same(xs: Seq<(Value, Value)>, ys: Seq<(Value, Value)>)
    ensures
        pairs_same(xs, ys) <==> (xs.len() == ys.len() && forall|i: int| 0 <= i < xs.len() ==> value_same((#[trigger] xs[i]).0, ys[i].0) && value_same(xs[i].1, ys[i].1)),
    decreases xs.len(),
{
    if xs.len() != ys.len() {
        assert(!pairs_same(xs, ys));
    } else if xs.len() == 0 {
        assert(pairs_same(xs, ys));
    } else {
        assert(pairs_same(xs, ys) == (pairs_same(xs.drop_last(), ys.drop_last()) && value_same(xs.last().0, ys.last().0) && value_same(xs.last().1, ys.last().1)));
        lemma_pairs_same(xs.drop_last(), ys.drop_last());
        if forall|i: int| 0 <= i < xs.len() ==> value_same((#[trigger] xs[i]).0, ys[i].0) && value_same(xs[i].1, ys[i].1) {
            assert forall|i: int| 0 <= i < xs.drop_last().len() implies value_same((#[trigger] xs.drop_last()[i]).0, ys.drop_last()[i].0) && value_same(xs.drop_last()[i].1, ys.drop_last()[i].1) by {
                assert(value_same(xs[i].0, ys[i].0) && value_same(xs[i].1, ys[i].1));
            }
        }
        if pairs_same(xs, ys) {
            assert forall|i: int| 0 <= i < xs.len() implies value_same((#[trigger] xs[i]).0, ys[i].0) && value_same(xs[i].1, ys[i].1) by {
                if i < xs.len() - 1 {
                    assert(value_same(xs.drop_last()[i].0, ys.drop_last()[i].0) && value_same(xs.drop_last()[i].1, ys.drop_last()[i].1));
                }
            }
        }
    }
}

/// Structural equality of values, as the language's `==` compares them.
pub fn values_equal(a: &Value, b: &Value) -> (r: bool)
    ensures
        r == value_same(*a, *b),
    decreases *a, 1int,
{
    match (a, b) {
        (Value::Bool(x), Value::Bool(y)) => *x == *y,
        (Value::Int(x), Value::Int(y)) => *x == *y,
        (Value::Dec(x), Value::Dec(y)) => str_eq(x.as_str(), y.as_str()),
        (Value::Text(x), Value::Text(y)) => str_eq(x.as_str(), y.as_str()),
        (Value::NoneValue, Value::NoneValue) => true,
        (Value::OptionNone, Value::OptionNone) => true,
        (Value::ResultOk(x), Value::ResultOk(y)) => values_equal(x, y),
        (Value::ResultErr(x), Value::ResultErr(y)) => values_equal(x, y),
        (Value::OptionSome(x), Value::OptionSome(y)) => values_equal(x, y),
        (Value::Callable(x), Value::Callable(y)) => str_eq(x.as_str(), y.as_str()),
        (Value::List(xs), Value::List(ys)) => {
            proof {
                assert forall|i: int| 0 <= i < xs@.len() implies decreases_to!(*a => #[trigger] xs@[i]) by {
                    assert(decreases_to!(*a => xs@[i]));
                }
            }
            lists_equal(xs, ys, Ghost(*a))
        },
        (Value::Record(xs), Value::Record(ys)) => {
            proof {
                assert forall|i: int| 0 <= i < xs@.len() implies decreases_to!(*a => #[trigger] xs@[i].1) by {
                    assert(decreases_to!(*a => xs@[i].1));
                }
            }
            fields_equal(xs, ys, Ghost(*a))
        },
        (Value::MapValue(xs), Value::MapValue(ys)) => {
            proof {
                assert forall|i: int| 0 <= i < xs@.len() implies decreases_to!(*a => #[trigger] xs@[i].0) && decreases_to!(*a => xs@[i].1) by {
                    assert(decreases_to!(*a => xs@[i].0));
                    assert(decreases_to!(*a => xs@[i].1));
                }
            }
            pairs_equal(xs, ys, Ghost(*a))
        },
        (Value::Variant { enum_name: e1, variant: v1, fields: f1 }, Value::Variant { enum_name: e2, variant: v2, fields: f2 }) => {
            proof {
                assert forall|i: int| 0 <= i < f1@.len() implies decreases_to!(*a => #[trigger] f1@[i].1) by {
                    assert(decreases_to!(*a => f1@[i].1));
                }
            }
            str_eq(e1.as_str(), e2.as_str()) && str_eq(v1.as_str(), v2.as_str()) && fields_equal(f1, f2, Ghost(*a))
        },
        _ => false,
    }
}

fn lists_equal(xs: &Vec<Value>, ys: &Vec<Value>, Ghost(parent): Ghost<Value>) -> (r: bool)
    requires
        forall|i: int| 0 <= i < xs@.len() ==> decreases_to!(parent => #[trigger] xs@[i]),
    ensures
        r == values_same(xs@, ys@),
    decreases parent, 0int,
{
    proof {
        lemma_values_same(xs@, ys@);
    }
    if xs.len() != ys.len() {
        return false;
    }
    let mut i: usize = 0;
    while i < xs.len()
        invariant
            i <= xs@.len(),
            xs@.len() == ys@.len(),
            forall|k: int| 0 <= k < xs@.len() ==> decreases_to!(parent => #[trigger] xs@[k]),
            forall|k: int| 0 <= k < i ==> #[trigger] value_same(xs@[k], ys@[k]),
            values_same(xs@, ys@) <==> (forall|k: int| 0 <= k < xs@.len() ==> #[trigger] value_same(xs@[k], ys@[k])),
        decreases xs@.len() - i,
    {
        assert(decreases_to!(parent => xs@[i as int]));
        if !values_equal(&xs[i], &ys[i]) {
            return false;
        }
        i = i + 1;
    }
    true
}

fn fields_equal(xs: &Vec<(String, Value)>, ys: &Vec<(String, Value)>, Ghost(parent): Ghost<Value>) -> (r: bool)
    requires
        forall|i: int| 0 <= i < xs@.len() ==> decreases_to!(parent => #[trigger] xs@[i].1),
    ensures
        r == fields_same(xs@, ys@),
    decreases parent, 0int,
{
    proof {
        lemma_fields_same(xs@, ys@);
    }
    if xs.len() != ys.len() {
        return false;
    }
    let mut i: usize = 0;
    while i < xs.len()
        invariant
            i <= xs@.len(),
            xs@.len() == ys@.len(),
            forall|k: int| 0 <= k < xs@.len() ==> decreases_to!(parent => #[trigger] xs@[k].1),
            forall|k: int| 0 <= k < i ==> (#[trigger] xs@[k]).0@ == ys@[k].0@ && value_same(xs@[k].1, ys@[k].1),
            fields_same(xs@, ys@) <==> (forall|k: int| 0 <= k < xs@.len() ==> (#[trigger] xs@[k]).0@ == ys@[k].0@ && value_same(xs@[k].1, ys@[k].1)),
        decreases xs@.len() - i,
    {
        assert(decreases_to!(parent => xs@[i as int].1));
        if !str_eq(xs[i].0.as_str(), ys[i].0.as_str()) || !values_equal(&xs[i].1, &ys[i].1) {
            return false;
        }
        i = i + 1;
    }
    true
}

fn pairs_equal(xs: &Vec<(Value, Value)>, ys: &Vec<(Value, Value)>, Ghost(parent): Ghost<Value>) -> (r: bool)
    requires
        forall|i: int| 0 <= i < xs@.len() ==> decreases_to!(parent => #[trigger] xs@[i].0) && decreases_to!(parent => xs@[i].1),
    ensures
        r == pairs_same(xs@, ys@),
    decreases parent, 0int,
{
    proof {
        lemma_pairs_same(xs@, ys@);
    }
    if xs.len() != ys.len() {
        return false;
    }
    let mut i: usize = 0;
    while i < xs.len()
        invariant
            i <= xs@.len(),
            xs@.len() == ys@.len(),
            forall|k: int| 0 <= k < xs@.len() ==> decreases_to!(parent => #[trigger] xs@[k].0) && decreases_to!(parent => xs@[k].1),
            forall|k: int| 0 <= k < i ==> value_same((#[trigger] xs@[k]).0, ys@[k].0) && value_same(xs@[k].1, ys@[k].1),
            pairs_same(xs@, ys@) <==> (forall|k: int| 0 <= k < xs@.len() ==> value_same((#[trigger] xs@[k]).0, ys@[k].0) && value_same(xs@[k].1, ys@[k].1)),
        decreases xs@.len() - i,
    {
        assert(decreases_to!(parent => xs@[i as int].0));
        assert(decreases_to!(parent => xs@[i as int].1));
        if !values_equal(&xs[i].0, &ys[i].0) || !values_equal(&xs[i].1, &ys[i].1) {
            return false;
        }
        i = i + 1;
    }
    true
}

/// Structural equality is symmetric: when `a` equals `b`, `b` equals `a`, so
/// `a == b` and `b == a` evaluate alike.
pub proof fn value_same_is_symmetric(a: Value, b: Value)
    requires
        value_same(a, b),
    ensures
        value_same(b, a),
    decreases a,
{
    match (a, b) {
        (Value::ResultOk(x), Value::ResultOk(y)) => value_same_is_symmetric(*x, *y),
        (Value::ResultErr(x), Value::ResultErr(y)) => value_same_is_symmetric(*x, *y),
        (Value::OptionSome(x), Value::OptionSome(y)) => value_same_is_symmetric(*x, *y),
        (Value::List(xs), Value::List(ys)) => {
            lemma_values_same(xs@, ys@);
            assert forall|i: int| 0 <= i < ys@.len() implies #[trigger] value_same(ys@[i], xs@[i]) by {
                assert(decreases_to!(a => xs@[i]));
                assert(value_same(xs@[i], ys@[i]));
                value_same_is_symmetric(xs@[i], ys@[i]);
            }
            lemma_values_same(ys@, xs@);
        },
        (Value::Record(xs), Value::Record(ys)) => {
            lemma_fields_same(xs@, ys@);
            assert forall|i: int| 0 <= i < ys@.len() implies (#[trigger] ys@[i]).0@ == xs@[i].0@ && value_same(ys@[i].1, xs@[i].1) by {
                assert(decreases_to!(a => xs@[i].1));
                assert(xs@[i].0@ == ys@[i].0@ && value_same(xs@[i].1, ys@[i].1));
                value_same_is_symmetric(xs@[i].1, ys@[i].1);
            }
            lemma_fields_same(ys@, xs@);
        },
        (Value::MapValue(xs), Value::MapValue(ys)) => {
            lemma_pairs_same(xs@, ys@);
            assert forall|i: int| 0 <= i < ys@.len() implies value_same((#[trigger] ys@[i]).0, xs@[i].0) && value_same(ys@[i].1, xs@[i].1) by {
                assert(decreases_to!(a => xs@[i].0));
                assert(decreases_to!(a => xs@[i].1));
                assert(value_same(xs@[i].0, ys@[i].0) && value_same(xs@[i].1, ys@[i].1));
                value_same_is_symmetric(xs@[i].0, ys@[i].0);
                value_same_is_symmetric(xs@[i].1, ys@[i].1);
            }
            lemma_pairs_same(ys@, xs@);
        },
        (Value::Variant { fields: f1, .. }, Value::Variant { fields: f2, .. }) => {
            lemma_fields_same(f1@, f2@);
            assert forall|i: int| 0 <= i < f2@.len() implies (#[trigger] f2@[i]).0@ == f1@[i].0@ && value_same(f2@[i].1, f1@[i].1) by {
                assert(decreases_to!(a => f1@[i].1));
                assert(f1@[i].0@ == f2@[i].0@ && value_same(f1@[i].1, f2@[i].1));
                value_same_is_symmetric(f1@[i].1, f2@[i].1);
            }
            lemma_fields_same(f2@, f1@);
        },
        _ => {},
    }
}

/// Structural equality is transitive.
pub proof fn value_same_is_transitive(a: Value, b: Value, c: Value)
    requires
        value_same(a, b),
        value_same(b, c),
    ensures
        value_same(a, c),
    decreases a,
{
    match (a, b, c) {
        (Value::ResultOk(x), Value::ResultOk(y), Value::ResultOk(z)) => value_same_is_transitive(*x, *y, *z),
        (Value::ResultErr(x), Value::ResultErr(y), Value::ResultErr(z)) => value_same_is_transitive(*x, *y, *z),
        (Value::OptionSome(x), Value::OptionSome(y), Value::OptionSome(z)) => value_same_is_transitive(*x, *y, *z),
        (Value::List(xs), Value::List(ys), Value::List(zs)) => {
            lemma_values_same(xs@, ys@);
            lemma_values_same(ys@, zs@);
            assert forall|i: int| 0 <= i < xs@.len() implies #[trigger] value_same(xs@[i], zs@[i]) by {
                assert(decreases_to!(a => xs@[i]));
                assert(value_same(xs@[i], ys@[i]));
                assert(value_same(ys@[i], zs@[i]));
                value_same_is_transitive(xs@[i], ys@[i], zs@[i]);
            }
            lemma_values_same(xs@, zs@);
        },
        (Value::Record(xs), Value::Record(ys), Value::Record(zs)) => {
            lemma_fields_same(xs@, ys@);
            lemma_fields_same(ys@, zs@);
            assert forall|i: int| 0 <= i < xs@.len() implies (#[trigger] xs@[i]).0@ == zs@[i].0@ && value_same(xs@[i].1, zs@[i].1) by {
                assert(decreases_to!(a => xs@[i].1));
                assert(xs@[i].0@ == ys@[i].0@ && value_same(xs@[i].1, ys@[i].1));
                assert(ys@[i].0@ == zs@[i].0@ && value_same(ys@[i].1, zs@[i].1));
                value_same_is_transitive(xs@[i].1, ys@[i].1, zs@[i].1);
            }
            lemma_fields_same(xs@, zs@);
        },
        (Value::MapValue(xs), Value::MapValue(ys), Value::MapValue(zs)) => {
            lemma_pairs_same(xs@, ys@);
            lemma_pairs_same(ys@, zs@);
            assert forall|i: int| 0 <= i < xs@.len() implies value_same((#[trigger] xs@[i]).0, zs@[i].0) && value_same(xs@[i].1, zs@[i].1) by {
                assert(decreases_to!(a => xs@[i].0));
                assert(decreases_to!(a => xs@[i].1));
                assert(value_same(xs@[i].0, ys@[i].0) && value_same(xs@[i].1, ys@[i].1));
                assert(value_same(ys@[i].0, zs@[i].0) && value_same(ys@[i].1, zs@[i].1));
                value_same_is_transitive(xs@[i].0, ys@[i].0, zs@[i].0);
                value_same_is_transitive(xs@[i].1, ys@[i].1, zs@[i].1);
            }
            lemma_pairs_same(xs@, zs@);
        },
        (Value::Variant { fields: f1, .. }, Value::Variant { fields: f2, .. }, Value::Variant { fields: f3, .. }) => {
            lemma_fields_same(f1@, f2@);
            lemma_fields_same(f2@, f3@);
            assert forall|i: int| 0 <= i < f1@.len() implies (#[trigger] f1@[i]).0@ == f3@[i].0@ && value_same(f1@[i].1, f3@[i].1) by {
                assert(decreases_to!(a => f1@[i].1));
                assert(f1@[i].0@ == f2@[i].0@ && value_same(f1@[i].1, f2@[i].1));
                assert(f2@[i].0@ == f3@[i].0@ && value_same(f2@[i].1, f3@[i].1));
                value_same_is_transitive(f1@[i].1, f2@[i].1, f3@[i].1);
            }
            lemma_fields_same(f1@, f3@);
        },
        _ => {},
    }
}

/// Structural equality is reflexive: every value equals itself.
pub proof fn value_same_is_reflexive(v: Value)
    ensures
        value_same(v, v),
    decreases v,
{
    match v {
        Value::ResultOk(x) => value_same_is_reflexive(*x),
        Value::ResultErr(x) => value_same_is_reflexive(*x),
        Value::OptionSome(x) => value_same_is_reflexive(*x),
        Value::List(xs) => {
            assert forall|i: int| 0 <= i < xs@.len() implies #[trigger] value_same(xs@[i], xs@[i]) by {
                assert(decreases_to!(v => xs@[i]));
                value_same_is_reflexive(xs@[i]);
            }
            lemma_values_same(xs@, xs@);
        },
        Value::Record(xs) => {
            assert forall|i: int| 0 <= i < xs@.len() implies (#[trigger] xs@[i]).0@ == xs@[i].0@ && value_same(xs@[i].1, xs@[i].1) by {
                assert(decreases_to!(v => xs@[i].1));
                value_same_is_reflexive(xs@[i].1);
            }
            lemma_fields_same(xs@, xs@);
        },
        Value::MapValue(xs) => {
            assert forall|i: int| 0 <= i < xs@.len() implies value_same((#[trigger] xs@[i]).0, xs@[i].0) && value_same(xs@[i].1, xs@[i].1) by {
                assert(decreases_to!(v => xs@[i].0));
                assert(decreases_to!(v => xs@[i].1));
                value_same_is_reflexive(xs@[i].0);
                value_same_is_reflexive(xs@[i].1);
            }
            lemma_pairs_same(xs@, xs@);
        },
        Value::Variant { fields, .. } => {
            assert forall|i: int| 0 <= i < fields@.len() implies (#[trigger] fields@[i]).0@ == fields@[i].0@ && value_same(fields@[i].1, fields@[i].1) by {
                assert(decreases_to!(v => fields@[i].1));
                value_same_is_reflexive(fields@[i].1);
            }
            lemma_fields_same(fields@, fields@);
        },
        _ => {},
    }
}

impl Value {
    /// An independent copy of the value, structurally equal to it.
    pub fn snapshot(&self) -> (r: Value)
        ensures
            value_same(r, *self),
        decreases *self, 1int,
    {
        match self {
            Value::Bool(b) => Value::Bool(*b),
            Value::Int(i) => Value::Int(*i),
            Value::Dec(d) => Value::Dec(d.clone()),
            Value::Text(t) => Value::Text(t.clone()),
            Value::NoneValue => Value::NoneValue,
            Value::OptionNone => Value::OptionNone,
            Value::ResultOk(x) => Value::ResultOk(Box::new(x.snapshot())),
            Value::ResultErr(x) => Value::ResultErr(Box::new(x.snapshot())),
            Value::OptionSome(x) => Value::OptionSome(Box::new(x.snapshot())),
            Value::Callable(n) => Value::Callable(n.clone()),
            Value::List(xs) => {
                proof {
                    assert forall|i: int| 0 <= i < xs@.len() implies decreases_to!(*self => #[trigger] xs@[i]) by {
                        assert(decreases_to!(*self => xs@[i]));
                    }
                }
                Value::List(snapshot_list(xs, Ghost(*self)))
            },
            Value::Record(xs) => {
                proof {
                    assert forall|i: int| 0 <= i < xs@.len() implies decreases_to!(*self => #[trigger] xs@[i].1) by {
                        assert(decreases_to!(*self => xs@[i].1));
                    }
                }
                Value::Record(snapshot_fields(xs, Ghost(*self)))
            },
            Value::MapValue(xs) => {
                proof {
                    assert forall|i: int| 0 <= i < xs@.len() implies decreases_to!(*self => #[trigger] xs@[i].0) && decreases_to!(*self => xs@[i].1) by {
                        assert(decreases_to!(*self => xs@[i].0));
                        assert(decreases_to!(*self => xs@[i].1));
                    }
                }
                Value::MapValue(snapshot_pairs(xs, Ghost(*self)))
            },
            Value::Variant { enum_name, variant, fields } => {
                proof {
                    assert forall|i: int| 0 <= i < fields@.len() implies decreases_to!(*self => #[trigger] fields@[i].1) by {
                        assert(decreases_to!(*self => fields@[i].1));
                    }
                }
                Value::Variant { enum_name: enum_name.clone(), variant: variant.clone(), fields: snapshot_fields(fields, Ghost(*self)) }
            },
        }
    }
}

fn snapshot_list(xs: &Vec<Value>, Ghost(parent): Ghost<Value>) -> (r: Vec<Value>)
    requires
        forall|i: int| 0 <= i < xs@.len() ==> decreases_to!(parent => #[trigger] xs@[i]),
    ensures
        values_same(r@, xs@),
    decreases parent, 0int,
{
    let mut out: Vec<Value> = Vec::new();
    let mut i: usize = 0;
    while i < xs.len()
        invariant
            i <= xs@.len(),
            out@.len() == i,
            forall|k: int| 0 <= k < xs@.len() ==> decreases_to!(parent => #[trigger] xs@[k]),
            forall|k: int| 0 <= k < i ==> #[trigger] value_same(out@[k], xs@[k]),
        decreases xs@.len() - i,
    {
        assert(decreases_to!(parent => xs@[i as int]));
        out.push(xs[i].snapshot());
        i = i + 1;
    }
    proof {
        lemma_values_same(out@, xs@);
    }
    out
}

fn snapshot_fields(xs: &Vec<(String, Value)>, Ghost(parent): Ghost<Value>) -> (r: Vec<(String, Value)>)
    requires
        forall|i: int| 0 <= i < xs@.len() ==> decreases_to!(parent => #[trigger] xs@[i].1),
    ensures
        fields_same(r@, xs@),
    decreases parent, 0int,
{
    let mut out: Vec<(String, Value)> = Vec::new();
    let mut i: usize = 0;
    while i < xs.len()
        invariant
            i <= xs@.len(),
            out@.len() == i,
            forall|k: int| 0 <= k < xs@.len() ==> decreases_to!(parent => #[trigger] xs@[k].1),
            forall|k: int| 0 <= k < i ==> (#[trigger] out@[k]).0@ == xs@[k].0@ && value_same(out@[k].1, xs@[k].1),
        decreases xs@.len() - i,
    {
        assert(decreases_to!(parent => xs@[i as int].1));
        out.push((xs[i].0.clone(), xs[i].1.snapshot()));
        i = i + 1;
    }
    proof {
        lemma_fields_same(out@, xs@);
    }
    out
}

fn snapshot_pairs(xs: &Vec<(Value, Value)>, Ghost(parent): Ghost<Value>) -> (r: Vec<(Value, Value)>)
    requires
        forall|i: int| 0 <= i < xs@.len() ==> decreases_to!(parent => #[trigger] xs@[i].0) && decreases_to!(parent => xs@[i].1),
    ensures
        pairs_same(r@, xs@),
    decreases parent, 0int,
{
    let mut out: Vec<(Value, Value)> = Vec::new();
    let mut i: usize = 0;
    while i < xs.len()
        invariant
            i <= xs@.len(),
            out@.len() == i,
            forall|k: int| 0 <= k < xs@.len() ==> decreases_to!(parent => #[trigger] xs@[k].0) && decreases_to!(parent => xs@[k].1),
            forall|k: int| 0 <= k < i ==> value_same((#[trigger] out@[k]).0, xs@[k].0) && value_same(out@[k].1, xs@[k].1),
        decreases xs@.len() - i,
    {
        assert(decreases_to!(parent => xs@[i as int].0));
        assert(decreases_to!(parent => xs@[i as int].1));
        out.push((xs[i].0.snapshot(), xs[i].1.snapshot()));
        i = i + 1;
    }
    proof {
        lemma_pairs_same(out@, xs@);
    }
    out
}


/// The result of running `main`.
#[derive(Debug, PartialEq)]
pub struct RunResult {
    pub value: Value,
}

/// One failed expectation of a test.
#[derive(Debug, Clone, PartialEq)]
pub struct TestFailure {
    pub span: SourceSpan,
    pub message: String,
}

/// The outcome of one test: its name, whether it passed, and its failed
/// expectations.
#[derive(Debug, Clone, PartialEq)]
pub struct TestResult {
    pub name: String,
    pub passed: bool,
    pub failures: Vec<TestFailure>,
}

/// How strictly a program runs: `release` skips contracts, examples and
/// expectations; `checked` and `debug` enforce them; `debug` also traces
/// steps; `tooling` runs like `release`.
#[derive(Debug, Clone, Copy, PartialEq, Eq, Structural)]
pub enum ExecutionMode {
    Release,
    Checked,
    Debug,
    Tooling,
}

/// The command-line name of a mode.
pub open spec fn mode_text(m: ExecutionMode) -> Seq<char> {
    match m {
        ExecutionMode::Release => "release"@,
        ExecutionMode::Checked => "checked"@,
        ExecutionMode::Debug => "debug"@,
        ExecutionMode::Tooling => "tooling"@,
    }
}

impl ExecutionMode {
    /// The mode named `value` on the command line, if any.
    pub fn parse_cli(value: &str) -> (r: Option<ExecutionMode>)
        ensures
            r matches Some(m) ==> mode_text(m) == value@,
            r is None ==> forall|m: ExecutionMode| mode_text(m) != value@,
    {
        if str_eq(value, "release") {
            Some(ExecutionMode::Release)
        } else if str_eq(value, "checked") {
            Some(ExecutionMode::Checked)
        } else if str_eq(value, "debug") {
            Some(ExecutionMode::Debug)
        } else if str_eq(value, "tooling") {
            Some(ExecutionMode::Tooling)
        } else {
            proof {
                assert forall|m: ExecutionMode| mode_text(m) != value@ by {
                    match m {
                        ExecutionMode::Release => {},
                        ExecutionMode::Checked => {},
                        ExecutionMode::Debug => {},
                        ExecutionMode::Tooling => {},
                    }
                }
            }
            None
        }
    }

    /// The command-line name of the mode.
    pub fn as_cli_str(self) -> (r: &'static str)
        ensures
            r@ == mode_text(self),
    {
        match self {
            ExecutionMode::Release => "release",
            ExecutionMode::Checked => "checked",
            ExecutionMode::Debug => "debug",
            ExecutionMode::Tooling => "tooling",
        }
    }

    /// Whether contracts, examples and expectations are enforced.
    pub open spec fn spec_enforces_checkable(self) -> bool {
        self is Checked || self is Debug
    }

    fn enforces_checkable(self) -> (r: bool)
        ensures
            r == self.spec_enforces_checkable(),
    {
        matches!(self, ExecutionMode::Checked | ExecutionMode::Debug)
    }
}

/// Distinct modes have distinct command-line names, so reading back the
/// name of a mode gives the mode.
pub proof fn mode_names_differ(a: ExecutionMode, b: ExecutionMode)
    ensures
        mode_text(a) == mode_text(b) ==> a == b,
{
    reveal_strlit("release");
    reveal_strlit("checked");
    reveal_strlit("debug");
    reveal_strlit("tooling");
    if a != b && mode_text(a) == mode_text(b) {
        assert(mode_text(a)[0] == mode_text(b)[0]);
    }
}

/// A runtime diagnostic.
fn runtime_error(span: &SourceSpan, message: String) -> (r: Diagnostic)
    ensures
        r.phase == Phase::Runtime,
        r.message == message,
{
    Diagnostic::new(span.duplicate(), Phase::Runtime, message)
}

/// A failure carrying one runtime diagnostic.
fn runtime_fail<T>(span: &SourceSpan, message: String) -> (r: Result<T, Vec<Diagnostic>>)
    ensures
        r matches Err(ds) && ds@.len() == 1 && ds@[0].phase == Phase::Runtime && ds@[0].message == message,
{
    Err(crate::diagnostics::one(runtime_error(span, message)))
}

/// `Name: cannot call `operation` on Variant`.
fn invalid_access_error(span: &SourceSpan, error_name: &str, operation: &str, actual_variant: &str) -> (r: Diagnostic)
    ensures
        r.phase == Phase::Runtime,
        r.message@ == error_name@ + ": cannot call `"@ + operation@ + "` on "@ + actual_variant@,
{
    let mut m = concat(error_name, ": cannot call `");
    m.append(operation);
    m.append("` on ");
    m.append(actual_variant);
    runtime_error(span, m)
}

/// The name of a value's runtime variant.
pub open spec fn variant_name_of(v: Value) -> Seq<char> {
    match v {
        Value::Bool(_) => "Bool"@,
        Value::Int(_) => "Int"@,
        Value::Dec(_) => "Dec"@,
        Value::Text(_) => "Text"@,
        Value::NoneValue => "None"@,
        Value::ResultOk(_) => "Ok"@,
        Value::ResultErr(_) => "Err"@,
        Value::OptionSome(_) => "Some"@,
        Value::OptionNone => "None"@,
        Value::Record(_) => "Record"@,
        Value::List(_) => "List"@,
        Value::MapValue(_) => "Map"@,
        Value::Callable(_) => "Callable"@,
        Value::Variant { .. } => "Variant"@,
    }
}

fn runtime_variant_name(value: &Value) -> (r: &'static str)
    ensures
        r@ == variant_name_of(*value),
{
    match value {
        Value::Bool(_) => "Bool",
        Value::Int(_) => "Int",
        Value::Dec(_) => "Dec",
        Value::Text(_) => "Text",
        Value::NoneValue => "None",
        Value::ResultOk(_) => "Ok",
        Value::ResultErr(_) => "Err",
        Value::OptionSome(_) => "Some",
        Value::OptionNone => "None",
        Value::Record(_) => "Record",
        Value::List(_) => "List",
        Value::MapValue(_) => "Map",
        Value::Callable(_) => "Callable",
        Value::Variant { .. } => "Variant",
    }
}

impl Value {
    /// `Ok(value)`.
    pub fn ok(value: Value) -> (r: Value)
        ensures
            r == Value::ResultOk(Box::new(value)),
    {
        Value::ResultOk(Box::new(value))
    }

    /// `Err(Text(message))`.
    pub fn err_text(message: String) -> (r: Value)
        ensures
            r == Value::ResultErr(Box::new(Value::Text(message))),
    {
        Value::ResultErr(Box::new(Value::Text(message)))
    }

    /// The boolean a condition evaluated to; anything else is an error.
    fn as_bool(&self, span: &SourceSpan) -> (r: Result<bool, Vec<Diagnostic>>)
        ensures
            match *self {
                Value::Bool(b) => r == Ok::<bool, Vec<Diagnostic>>(b),
                _ => r is Err,
            },
            r matches Err(ds) ==> crate::diagnostics::failure_of(ds@, Phase::Runtime),
    {
        match self {
            Value::Bool(b) => Ok(*b),
            other => {
                let m = concat("expected Bool, found ", other.debug_text().as_str());
                runtime_fail(span, m)
            },
        }
    }

    /// How the value is shown in diagnostics and by the interactive session:
    /// `Int(6)`, `Text("a")`, `Ok(())`, `Some(Int(1))`, `List([...])` and so on.
    pub fn debug_text(&self) -> (r: String)
        ensures
            r@ == value_text(*self),
        decreases *self, 1int,
    {
        match self {
            Value::Bool(b) => if *b { String::from_str("Bool(true)") } else { String::from_str("Bool(false)") },
            Value::Int(i) => concat3("Int(", i64_text(*i).as_str(), ")"),
            Value::Dec(d) => concat3("Dec(", d.as_str(), ")"),
            Value::Text(t) => concat3("Text(", crate::text::debug_quoted(t.as_str()).as_str(), ")"),
            Value::NoneValue => String::from_str("None"),
            Value::OptionNone => String::from_str("None"),
            Value::ResultOk(x) => concat3("Ok(", result_payload_text(x).as_str(), ")"),
            Value::ResultErr(x) => concat3("Err(", result_payload_text(x).as_str(), ")"),
            Value::OptionSome(x) => concat3("Some(", result_payload_text(x).as_str(), ")"),
            Value::Callable(n) => concat3("Callable(", n.as_str(), ")"),
            Value::List(xs) => {
                proof {
                    assert forall|k: int| 0 <= k < xs@.len() implies decreases_to!(*self => #[trigger] xs@[k]) by {
                        assert(decreases_to!(*self => xs@[k]));
                    }
                }
                let mut s = String::new();
                let mut i: usize = 0;
                while i < xs.len()
                    invariant
                        i <= xs@.len(),
                        forall|k: int| 0 <= k < xs@.len() ==> decreases_to!(*self => #[trigger] xs@[k]),
                        s@ == list_text(xs@.subrange(0, i as int)),
                    decreases xs@.len() - i,
                {
                    proof {
                        assert(xs@.subrange(0, i + 1).drop_last() =~= xs@.subrange(0, i as int));
                        assert(decreases_to!(*self => xs@[i as int]));
                    }
                    if i != 0 {
                        s.append(", ");
                    }
                    s.append(xs[i].debug_text().as_str());
                    i = i + 1;
                }
                proof {
                    assert(xs@.subrange(0, xs@.len() as int) =~= xs@);
                }
                concat3("List([", s.as_str(), "])")
            },
            Value::Record(fields) => {
                proof {
                    assert forall|k: int| 0 <= k < fields@.len() implies decreases_to!(*self => #[trigger] fields@[k].1) by {
                        assert(decreases_to!(*self => fields@[k].1));
                    }
                }
                let s = fields_debug_text(fields, Ghost(*self));
                concat3("Record({", s.as_str(), "})")
            },
            Value::MapValue(entries) => {
                proof {
                    assert forall|k: int| 0 <= k < entries@.len() implies decreases_to!(*self => #[trigger] entries@[k].0)
                        && decreases_to!(*self => entries@[k].1) by {
                        assert(decreases_to!(*self => entries@[k].0));
                        assert(decreases_to!(*self => entries@[k].1));
                    }
                }
                let mut s = String::new();
                let mut i: usize = 0;
                while i < entries.len()
                    invariant
                        i <= entries@.len(),
                        forall|k: int| 0 <= k < entries@.len() ==> decreases_to!(*self => #[trigger] entries@[k].0)
                            && decreases_to!(*self => entries@[k].1),
                        s@ == entries_text(entries@.subrange(0, i as int)),
                    decreases entries@.len() - i,
                {
                    proof {
                        assert(entries@.subrange(0, i + 1).drop_last() =~= entries@.subrange(0, i as int));
                        assert(decreases_to!(*self => entries@[i as int].0));
                        assert(decreases_to!(*self => entries@[i as int].1));
                    }
                    if i != 0 {
                        s.append(", ");
                    }
                    s.append("(");
                    s.append(entries[i].0.debug_text().as_str());
                    s.append(", ");
                    s.append(entries[i].1.debug_text().as_str());
                    s.append(")");
                    i = i + 1;
                }
                proof {
                    assert(entries@.subrange(0, entries@.len() as int) =~= entries@);
                }
                concat3("Map([", s.as_str(), "])")
            },
            Value::Variant { enum_name, variant, fields } => {
                proof {
                    assert forall|k: int| 0 <= k < fields@.len() implies decreases_to!(*self => #[trigger] fields@[k].1) by {
                        assert(decreases_to!(*self => fields@[k].1));
                    }
                }
                let mut s = concat3(enum_name.as_str(), "::", variant.as_str());
                if fields.len() != 0 {
                    let inner = fields_debug_text(fields, Ghost(*self));
                    s.append("({");
                    s.append(inner.as_str());
                    s.append("})");
                }
                s
            },
        }
    }
}

/// The fields of a record or variant shown as `"name": value`, separated by
/// commas.
fn fields_debug_text(fields: &Vec<(String, Value)>, Ghost(parent): Ghost<Value>) -> (r: String)
    requires
        forall|k: int| 0 <= k < fields@.len() ==> decreases_to!(parent => #[trigger] fields@[k].1),
    ensures
        r@ == fields_text(fields@),
    decreases parent, 0int,
{
    let mut s = String::new();
    let mut i: usize = 0;
    while i < fields.len()
        invariant
            i <= fields@.len(),
            forall|k: int| 0 <= k < fields@.len() ==> decreases_to!(parent => #[trigger] fields@[k].1),
            s@ == fields_text(fields@.subrange(0, i as int)),
        decreases fields@.len() - i,
    {
        proof {
            assert(fields@.subrange(0, i + 1).drop_last() =~= fields@.subrange(0, i as int));
            assert(decreases_to!(parent => fields@[i as int].1));
        }
        if i != 0 {
            s.append(", ");
        }
        s.append(crate::text::debug_quoted(fields[i].0.as_str()).as_str());
        s.append(": ");
        s.append(fields[i].1.debug_text().as_str());
        i = i + 1;
    }
    proof {
        assert(fields@.subrange(0, fields@.len() as int) =~= fields@);
    }
    s
}

/// A text in double quotes, escaped as debug formatting does.
pub open spec fn quoted(t: Seq<char>) -> Seq<char> {
    seq!['"'] + crate::text::escaped(t) + seq!['"']
}

/// How a value is shown: `Bool(true)`, `Int(6)`, `Dec(1.5)`, `Text("a")`,
/// `None`, `Ok(..)`, `Err(..)`, `Some(..)`, `List([..])`,
/// `Record({"f": ..})`, `Map([(k, v)])`, `Enum::Variant({"f": ..})` and
/// `Callable(name)`.
pub open spec fn value_text(v: Value) -> Seq<char>
    decreases v, 1int,
{
    match v {
        Value::Bool(b) => if b { "Bool(true)"@ } else { "Bool(false)"@ },
        Value::Int(i) => "Int("@ + crate::text::int_text(i as int) + ")"@,
        Value::Dec(d) => "Dec("@ + d@ + ")"@,
        Value::Text(t) => "Text("@ + quoted(t@) + ")"@,
        Value::NoneValue => "None"@,
        Value::OptionNone => "None"@,
        Value::ResultOk(x) => "Ok("@ + payload_text(*x) + ")"@,
        Value::ResultErr(x) => "Err("@ + payload_text(*x) + ")"@,
        Value::OptionSome(x) => "Some("@ + payload_text(*x) + ")"@,
        Value::Callable(n) => "Callable("@ + n@ + ")"@,
        Value::List(xs) => {
            proof {
                assert(decreases_to!(v => xs));
                assert(decreases_to!(xs => xs@));
            }
            "List(["@ + list_text(xs@) + "])"@
        },
        Value::Record(fs) => {
            proof {
                assert(decreases_to!(v => fs));
                assert(decreases_to!(fs => fs@));
            }
            "Record({"@ + fields_text(fs@) + "})"@
        },
        Value::MapValue(es) => {
            proof {
                assert(decreases_to!(v => es));
                assert(decreases_to!(es => es@));
            }
            "Map(["@ + entries_text(es@) + "])"@
        },
        Value::Variant { enum_name, variant, fields } => {
            proof {
                assert(decreases_to!(v => fields));
                assert(decreases_to!(fields => fields@));
            }
            enum_name@ + "::"@ + variant@ + if fields@.len() == 0 {
                Seq::empty()
            } else {
                "({"@ + fields_text(fields@) + "})"@
            }
        },
    }
}

/// How the payload of `Ok`, `Err` and `Some` is shown: text quoted, `None`
/// as `()`, an absent option as `None`, anything else as its value text.
pub open spec fn payload_text(v: Value) -> Seq<char>
    decreases v, 2int,
{
    match v {
        Value::Text(t) => quoted(t@),
        Value::NoneValue => "()"@,
        Value::OptionNone => "None"@,
        _ => value_text(v),
    }
}

/// The texts of values separated by `, `.
pub open spec fn list_text(xs: Seq<Value>) -> Seq<char>
    decreases xs, 0int,
{
    if xs.len() == 0 {
        Seq::empty()
    } else {
        proof {
            assert(decreases_to!(xs => xs.drop_last()));
            assert(decreases_to!(xs => xs.last()));
        }
        if xs.len() == 1 {
            value_text(xs.last())
        } else {
            list_text(xs.drop_last()) + ", "@ + value_text(xs.last())
        }
    }
}

/// Named values shown as `"name": value`, separated by `, `.
pub open spec fn fields_text(xs: Seq<(String, Value)>) -> Seq<char>
    decreases xs, 0int,
{
    if xs.len() == 0 {
        Seq::empty()
    } else {
        proof {
            assert(decreases_to!(xs => xs.drop_last()));
            assert(decreases_to!(xs => xs.last()));
        }
        let one = quoted(xs.last().0@) + ": "@ + value_text(xs.last().1);
        if xs.len() == 1 {
            one
        } else {
            fields_text(xs.drop_last()) + ", "@ + one
        }
    }
}

/// Key/value pairs shown as `(key, value)`, separated by `, `.
pub open spec fn entries_text(xs: Seq<(Value, Value)>) -> Seq<char>
    decreases xs, 0int,
{
    if xs.len() == 0 {
        Seq::empty()
    } else {
        proof {
            assert(decreases_to!(xs => xs.drop_last()));
            assert(decreases_to!(xs => xs.last()));
        }
        let one = "("@ + value_text(xs.last().0) + ", "@ + value_text(xs.last().1) + ")"@;
        if xs.len() == 1 {
            one
        } else {
            entries_text(xs.drop_last()) + ", "@ + one
        }
    }
}

/// How the payload of `Ok`, `Err` and `Some` is shown: text quoted, `None`
/// as `()`, an absent option as `None`, anything else as its debug text.
fn result_payload_text(v: &Value) -> (r: String)
    ensures
        r@ == payload_text(*v),
    decreases *v, 2int,
{
    match v {
        Value::Text(t) => crate::text::debug_quoted(t.as_str()),
        Value::NoneValue => String::from_str("()"),
        Value::OptionNone => String::from_str("None"),
        other => other.debug_text(),
    }
}

/// What an integer operator gives for two integers: the sum, difference or
/// product when it fits in `Int`, Rust's truncating quotient and remainder
/// when the divisor is not zero and the result fits; `None` otherwise.
pub open spec fn int_operation(op: BinaryOp, a: i64, b: i64) -> Option<i64> {
    match op {
        BinaryOp::Add => a.checked_add(b),
        BinaryOp::Subtract => a.checked_sub(b),
        BinaryOp::Multiply => a.checked_mul(b),
        BinaryOp::Divide => a.checked_div(b),
        BinaryOp::Modulo => a.checked_rem(b),
        _ => None,
    }
}

/// Whether `op` is one of the arithmetic operators.
pub open spec fn is_arithmetic(op: BinaryOp) -> bool {
    op is Add || op is Subtract || op is Multiply || op is Divide || op is Modulo
}

/// The comparison an ordering operator makes of two integers.
pub open spec fn int_comparison(op: BinaryOp, a: i64, b: i64) -> bool {
    match op {
        BinaryOp::Less => a < b,
        BinaryOp::LessEqual => a <= b,
        BinaryOp::Greater => a > b,
        _ => a >= b,
    }
}

/// Whether `op` is one of the ordering operators.
pub open spec fn is_ordering(op: BinaryOp) -> bool {
    op is Less || op is LessEqual || op is Greater || op is GreaterEqual
}

/// What a binary operator gives for two values where its result does not
/// depend on text: checked integer arithmetic, integer comparisons,
/// structural equality and the boolean connectives; `None` elsewhere.
pub open spec fn binary_value(op: BinaryOp, left: Value, right: Value) -> Option<Value> {
    if is_arithmetic(op) {
        match (left, right) {
            (Value::Int(a), Value::Int(b)) => match int_operation(op, a, b) {
                Some(n) => Some(Value::Int(n)),
                None => None,
            },
            _ => None,
        }
    } else if op is Equal {
        Some(Value::Bool(value_same(left, right)))
    } else if op is NotEqual {
        Some(Value::Bool(!value_same(left, right)))
    } else if is_ordering(op) {
        match (left, right) {
            (Value::Int(a), Value::Int(b)) => Some(Value::Bool(int_comparison(op, a, b))),
            _ => None,
        }
    } else {
        match (left, right) {
            (Value::Bool(a), Value::Bool(b)) => Some(Value::Bool(if op is And { a && b } else { a || b })),
            _ => None,
        }
    }
}

/// A runtime failure.
pub open spec fn runtime_failure(ds: Seq<Diagnostic>) -> bool {
    crate::diagnostics::failure_of(ds, Phase::Runtime)
}

/// Applies a binary operator to two evaluated operands. Integer arithmetic
/// that would overflow, and division or remainder by zero, are runtime
/// errors.
pub fn eval_binary(op: BinaryOp, left: Value, right: Value, span: &SourceSpan) -> (r: Result<Value, Vec<Diagnostic>>)
    ensures
        r matches Err(ds) ==> runtime_failure(ds@),
        binary_value(op, left, right) matches Some(v) ==> r == Ok::<Value, Vec<Diagnostic>>(v),
        is_arithmetic(op) ==> match (left, right) {
            (Value::Int(a), Value::Int(b)) => match int_operation(op, a, b) {
                Some(n) => r == Ok::<Value, Vec<Diagnostic>>(Value::Int(n)),
                None => r is Err,
            },
            (Value::Text(a), Value::Text(b)) => if op is Add {
                r matches Ok(Value::Text(s)) && s@ == a@ + b@
            } else {
                r is Err
            },
            _ => r is Err,
        },
        op is Equal ==> r == Ok::<Value, Vec<Diagnostic>>(Value::Bool(value_same(left, right))),
        op is NotEqual ==> r == Ok::<Value, Vec<Diagnostic>>(Value::Bool(!value_same(left, right))),
        is_ordering(op) ==> match (left, right) {
            (Value::Int(a), Value::Int(b)) => r == Ok::<Value, Vec<Diagnostic>>(Value::Bool(int_comparison(op, a, b))),
            _ => r is Err,
        },
        op is And ==> match (left, right) {
            (Value::Bool(a), Value::Bool(b)) => r == Ok::<Value, Vec<Diagnostic>>(Value::Bool(a && b)),
            _ => r is Err,
        },
        op is Or ==> match (left, right) {
            (Value::Bool(a), Value::Bool(b)) => r == Ok::<Value, Vec<Diagnostic>>(Value::Bool(a || b)),
            _ => r is Err,
        },
{
    match op {
        BinaryOp::Add | BinaryOp::Subtract | BinaryOp::Multiply | BinaryOp::Divide | BinaryOp::Modulo => {
            let symbol = match op {
                BinaryOp::Add => "+",
                BinaryOp::Subtract => "-",
                BinaryOp::Multiply => "*",
                BinaryOp::Divide => "/",
                _ => "%",
            };
            match (&left, &right) {
                (Value::Int(a), Value::Int(b)) => {
                    let (a, b) = (*a, *b);
                    let result = match op {
                        BinaryOp::Add => a.checked_add(b),
                        BinaryOp::Subtract => a.checked_sub(b),
                        BinaryOp::Multiply => a.checked_mul(b),
                        BinaryOp::Divide => a.checked_div(b),
                        _ => a.checked_rem(b),
                    };
                    match result {
                        Some(n) => Ok(Value::Int(n)),
                        None => {
                            let mut m = concat3("integer operation `", symbol, "` on ");
                            m.append(i64_text(a).as_str());
                            m.append(" and ");
                            m.append(i64_text(b).as_str());
                            m.append(" overflows or divides by zero");
                            runtime_fail(span, m)
                        },
                    }
                },
                (Value::Text(a), Value::Text(b)) => {
                    if matches!(op, BinaryOp::Add) {
                        Ok(Value::Text(concat(a.as_str(), b.as_str())))
                    } else {
                        unsupported_operands(symbol, &left, &right, span)
                    }
                },
                _ => unsupported_operands(symbol, &left, &right, span),
            }
        },
        BinaryOp::Equal => Ok(Value::Bool(values_equal(&left, &right))),
        BinaryOp::NotEqual => Ok(Value::Bool(!values_equal(&left, &right))),
        BinaryOp::Less | BinaryOp::LessEqual | BinaryOp::Greater | BinaryOp::GreaterEqual => {
            match (&left, &right) {
                (Value::Int(a), Value::Int(b)) => {
                    let result = match op {
                        BinaryOp::Less => *a < *b,
                        BinaryOp::LessEqual => *a <= *b,
                        BinaryOp::Greater => *a > *b,
                        _ => *a >= *b,
                    };
                    Ok(Value::Bool(result))
                },
                _ => {
                    let mut m = String::from_str("comparison expects Int operands, found ");
                    m.append(left.debug_text().as_str());
                    m.append(" and ");
                    m.append(right.debug_text().as_str());
                    runtime_fail(span, m)
                },
            }
        },
        BinaryOp::And => {
            let a = left.as_bool(span)?;
            let b = right.as_bool(span)?;
            Ok(Value::Bool(a && b))
        },
        BinaryOp::Or => {
            let a = left.as_bool(span)?;
            let b = right.as_bool(span)?;
            Ok(Value::Bool(a || b))
        },
    }
}

fn unsupported_operands(symbol: &str, left: &Value, right: &Value, span: &SourceSpan) -> (r: Result<Value, Vec<Diagnostic>>)
    ensures
        r matches Err(ds) && runtime_failure(ds@),
{
    let mut m = concat3("unsupported `", symbol, "` operands ");
    m.append(left.debug_text().as_str());
    m.append(" and ");
    m.append(right.debug_text().as_str());
    runtime_fail(span, m)
}

/// A value as stored where a type is expected: where an option is
/// expected, `None` and the absent option become the absent option, a
/// present option keeps its payload (itself adjusted to the inner type), and
/// any other value becomes a present option of it; elsewhere the value stays.
pub open spec fn coerced(value: Value, expected: Type) -> Value
    decreases expected,
{
    match expected {
        Type::Option(inner) => match value {
            Value::OptionSome(v) => Value::OptionSome(Box::new(coerced(*v, *inner))),
            Value::OptionNone | Value::NoneValue => Value::OptionNone,
            other => Value::OptionSome(Box::new(coerced(other, *inner))),
        },
        _ => value,
    }
}

/// A value stored where a type is expected: an optional type wraps a plain
/// value in `Some` and turns `None` into the absent option, recursively.
pub fn coerce_value_to_type(value: Value, expected: &Type) -> (r: Value)
    ensures
        r == coerced(value, *expected),
    decreases expected,
{
    match expected {
        Type::Option(inner) => match value {
            Value::OptionSome(v) => Value::OptionSome(Box::new(coerce_value_to_type(*v, inner))),
            Value::OptionNone | Value::NoneValue => Value::OptionNone,
            other => Value::OptionSome(Box::new(coerce_value_to_type(other, inner))),
        },
        _ => value,
    }
}


impl TypedTarget {
    /// The position of the outermost step of the target.
    pub fn span(&self) -> (r: &SourceSpan)
        ensures
            *r == match *self {
                TypedTarget::Name { span, .. } => span,
                TypedTarget::Field { span, .. } => span,
                TypedTarget::Index { span, .. } => span,
            },
    {
        match self {
            TypedTarget::Name { span, .. } => span,
            TypedTarget::Field { span, .. } => span,
            TypedTarget::Index { span, .. } => span,
        }
    }

    /// The type of the place the target denotes.
    pub fn ty(&self) -> (r: &Type)
        ensures
            *r == match *self {
                TypedTarget::Name { ty, .. } => ty,
                TypedTarget::Field { ty, .. } => ty,
                TypedTarget::Index { ty, .. } => ty,
            },
    {
        match self {
            TypedTarget::Name { ty, .. } => ty,
            TypedTarget::Field { ty, .. } => ty,
            TypedTarget::Index { ty, .. } => ty,
        }
    }
}

/// Writes `text` to standard output (std's `write!` on `std::io::stdout()`).
/// Nothing is claimed of the outcome, which depends on the environment.
#[verifier::external_body]
fn write_stdout(text: &str) -> (r: Result<(), String>) {
    match write!(std::io::stdout(), "{}", text) {
        Ok(()) => Ok(()),
        Err(error) => Err(error.to_string()),
    }
}

/// Writes `text` to standard error (std's `write!` on `std::io::stderr()`).
/// Nothing is claimed of the outcome, which depends on the environment.
#[verifier::external_body]
fn write_stderr(text: &str) -> (r: Result<(), String>) {
    match write!(std::io::stderr(), "{}", text) {
        Ok(()) => Ok(()),
        Err(error) => Err(error.to_string()),
    }
}

/// Reads one line of standard input (std's `Stdin::read_line`): the number
/// of bytes read and the line with its terminator. Nothing is claimed of the
/// outcome, which depends on the environment.
#[verifier::external_body]
fn read_stdin_line() -> (r: Result<(usize, String), String>) {
    let mut line = String::new();
    match std::io::stdin().read_line(&mut line) {
        Ok(count) => Ok((count, line)),
        Err(error) => Err(error.to_string()),
    }
}

/// What a running program may ask of its environment: console output and
/// input, and text files. Nothing is assumed of the answers.
pub trait RuntimeHost {
    /// Writes `text` (then a newline when `newline`) to standard output, or
    /// to standard error when `stderr`.
    fn write_console(&self, text: &str, newline: bool, stderr: bool) -> Result<(), String>;

    /// Reads a line of input: `None` at the end of input, else the line
    /// with its terminator.
    fn read_line(&self) -> Result<Option<String>, String>;

    /// The contents of the text file at `path`.
    fn read_text(&self, path: &str) -> Result<String, String>;

    /// Replaces the contents of the file at `path` with `content`.
    fn write_text(&self, path: &str, content: &str) -> Result<(), String>;

    /// Appends `content` to the file at `path`, creating it if needed.
    fn append_text(&self, path: &str, content: &str) -> Result<(), String>;

    /// Whether a file or directory exists at `path`.
    fn path_exists(&self, path: &str) -> bool;
}

/// The host of the standard streams: console actions use the process's
/// standard input, output and error; it offers no file access.
pub struct ConsoleHost;

impl RuntimeHost for ConsoleHost {
    fn write_console(&self, text: &str, newline: bool, stderr: bool) -> Result<(), String> {
        let first = if stderr { write_stderr(text) } else { write_stdout(text) };
        match first {
            Ok(()) => {
                if newline {
                    if stderr { write_stderr("\n") } else { write_stdout("\n") }
                } else {
                    Ok(())
                }
            },
            Err(e) => Err(e),
        }
    }

    fn read_line(&self) -> Result<Option<String>, String> {
        match read_stdin_line() {
            Ok((count, line)) => if count == 0 { Ok(None) } else { Ok(Some(line)) },
            Err(e) => Err(e),
        }
    }

    fn read_text(&self, path: &str) -> Result<String, String> {
        Err(concat3("cannot read `", path, "`: file access is not available on the console host"))
    }

    fn write_text(&self, path: &str, content: &str) -> Result<(), String> {
        Err(concat3("cannot write `", path, "`: file access is not available on the console host"))
    }

    fn append_text(&self, path: &str, content: &str) -> Result<(), String> {
        Err(concat3("cannot append to `", path, "`: file access is not available on the console host"))
    }

    fn path_exists(&self, path: &str) -> bool {
        false
    }
}

/// The outcome of executing a statement or a block.
enum ExecFlow {
    Continue,
    ContinueLoop,
    Break,
    Return(Value),
}

/// The evaluation steps a run may still take; each action call and each
/// loop iteration takes one.
pub struct Budget {
    steps: u64,
}

impl Budget {
    /// The steps left.
    pub closed spec fn spec_steps(&self) -> u64 {
        self.steps
    }

    /// A budget no program exhausts in practice.
    pub fn unlimited() -> (r: Budget)
        ensures
            r.spec_steps() == u64::MAX,
    {
        Budget { steps: 18446744073709551615u64 }
    }

    /// Takes one step, or fails when none is left.
    fn tick(&mut self, span: &SourceSpan) -> (r: Result<(), Vec<Diagnostic>>)
        ensures
            r is Ok ==> final(self).steps == old(self).steps - 1,
            r is Err ==> final(self).steps == old(self).steps,
            r is Ok <==> old(self).steps > 0,
            r matches Err(ds) ==> runtime_failure(ds@),
    {
        if self.steps == 0 {
            return runtime_fail(span, String::from_str("evaluation step limit exceeded"));
        }
        self.steps = self.steps - 1;
        Ok(())
    }
}

/// A local environment: names bound to values, each name once.
pub type Env = Vec<(String, Value)>;

/// The value an environment binds to `name`: that of its first entry so
/// named.
pub open spec fn env_lookup(env: Seq<(String, Value)>, name: Seq<char>) -> Option<Value> {
    match find_key_spec(env, name) {
        Some(i) => Some(env[i].1),
        None => None,
    }
}

/// The environment once `name` is bound to `value`: the entry for `name`
/// replaced, or a new entry added at the end.
pub open spec fn env_bind(env: Seq<(String, Value)>, name: String, value: Value) -> Seq<(String, Value)> {
    match find_key_spec(env, name@) {
        Some(i) => env.update(i, (name, value)),
        None => env.push((name, value)),
    }
}

/// Reading a name just bound gives the value bound to it; reading any other
/// name gives what it gave before.
pub proof fn bind_then_lookup(env: Seq<(String, Value)>, name: String, value: Value, other: Seq<char>)
    ensures
        env_lookup(env_bind(env, name, value), name@) == Some(value),
        other != name@ ==> env_lookup(env_bind(env, name, value), other) == env_lookup(env, other),
{
    let bound = env_bind(env, name, value);
    crate::types::lemma_find_key_spec_facts(env, name@);
    crate::types::lemma_find_key_spec_facts(env, other);
    match find_key_spec(env, name@) {
        Some(i) => {
            assert(bound == env.update(i, (name, value)));
            assert forall|k: int| 0 <= k < env.len() implies (#[trigger] env[k]).0@ == bound[k].0@ by {}
            crate::types::lemma_same_names_find(env, bound, name@);
            crate::types::lemma_same_names_find(env, bound, other);
        },
        None => {
            assert(bound == env.push((name, value)));
            crate::types::lemma_push_find(env, (name, value), name@);
            crate::types::lemma_push_find(env, (name, value), other);
            if let Some(j) = find_key_spec(env, other) {
                assert(bound[j] == env[j]);
            }
        },
    }
}

/// Binds `name` to `value` in `env`.
fn env_insert(env: &mut Env, name: String, value: Value)
    ensures
        final(env)@ == env_bind(old(env)@, name, value),
{
    crate::types::assoc_insert(env, name, value);
}

/// The value bound to `name`, if any.
fn env_get<'e>(env: &'e Env, name: &str) -> (r: Option<&'e Value>)
    ensures
        match r {
            Some(v) => env_lookup(env@, name@) == Some(*v),
            None => env_lookup(env@, name@) is None,
        },
{
    match crate::types::find_key(env, name) {
        Some(i) => {
            proof {
                crate::types::lemma_find_key_spec(env@, name@, i as int);
            }
            Some(&env[i].1)
        },
        None => {
            proof {
                crate::types::lemma_find_key_spec_none(env@, name@);
            }
            None
        },
    }
}

/// Removes the binding of `name`, if any.
fn env_remove(env: &mut Env, name: &str)
    ensures
        final(env)@ == match find_key_spec(old(env)@, name@) {
            Some(i) => old(env)@.remove(i),
            None => old(env)@,
        },
{
    match crate::types::find_key(env, name) {
        Some(i) => {
            proof {
                crate::types::lemma_find_key_spec(env@, name@, i as int);
            }
            env.remove(i);
        },
        None => {
            proof {
                crate::types::lemma_find_key_spec_none(env@, name@);
            }
        },
    }
}

/// Copies of every binding.
pub fn env_snapshot(env: &Env) -> (r: Env)
    ensures
        r@.len() == env@.len(),
        forall|i: int| 0 <= i < env@.len() ==> (#[trigger] r@[i]).0 == env@[i].0 && value_same(r@[i].1, env@[i].1),
{
    let mut out: Env = Vec::new();
    let mut i: usize = 0;
    while i < env.len()
        invariant
            i <= env@.len(),
            out@.len() == i,
            forall|k: int| 0 <= k < i ==> (#[trigger] out@[k]).0 == env@[k].0 && value_same(out@[k].1, env@[k].1),
        decreases env@.len() - i,
    {
        out.push((env[i].0.clone(), env[i].1.snapshot()));
        i = i + 1;
    }
    out
}

/// Where `name` goes among a record's fields from position `i` on, and
/// whether it replaces the field there: the first field so named is
/// replaced, unless a field that `name` precedes comes first, before which
/// it is inserted; otherwise it goes at the end.
pub open spec fn field_slot(fields: Seq<(String, Value)>, name: Seq<char>, i: int) -> (int, bool)
    decreases fields.len() - i,
{
    if i < 0 || i >= fields.len() {
        (fields.len() as int, false)
    } else if fields[i].0@ == name {
        (i, true)
    } else if crate::text::seq_before(name, fields[i].0@) {
        (i, false)
    } else {
        field_slot(fields, name, i + 1)
    }
}

/// Inserts `name: value` into a record's fields, kept sorted by name; an
/// existing field of that name is replaced.
fn record_insert(fields: &mut Vec<(String, Value)>, name: String, value: Value)
    ensures
        0 <= field_slot(old(fields)@, name@, 0).0 <= old(fields)@.len(),
        field_slot(old(fields)@, name@, 0).1 ==> final(fields)@ == old(fields)@.update(field_slot(old(fields)@, name@, 0).0, (name, value)),
        !field_slot(old(fields)@, name@, 0).1 ==> final(fields)@ == old(fields)@.insert(field_slot(old(fields)@, name@, 0).0, (name, value)),
{
    let mut i: usize = 0;
    while i < fields.len()
        invariant
            i <= fields@.len(),
            fields@ == old(fields)@,
            field_slot(fields@, name@, 0) == field_slot(fields@, name@, i as int),
        decreases fields@.len() - i,
    {
        if str_eq(fields[i].0.as_str(), name.as_str()) {
            fields.set(i, (name, value));
            return;
        }
        if crate::text::text_before(name.as_str(), fields[i].0.as_str()) {
            fields.insert(i, (name, value));
            return;
        }
        i = i + 1;
    }
    fields.push((name, value));
}

/// The value of an integer, boolean or none literal.
pub open spec fn plain_literal_value(literal: TypedLiteral) -> Option<Value> {
    match literal {
        TypedLiteral::Int(v) => Some(Value::Int(v)),
        TypedLiteral::Bool(b) => Some(Value::Bool(b)),
        TypedLiteral::NoneLiteral => Some(Value::NoneValue),
        _ => None,
    }
}

/// The value of an expression built from integer, boolean and none
/// literals with unary and binary operators, stored at the expression's
/// type; `None` for any other expression, and where an operation fails.
pub open spec fn pure_value(e: TypedExpr) -> Option<Value>
    decreases e,
{
    let v = match e.kind {
        TypedExprKind::Literal(l) => plain_literal_value(l),
        TypedExprKind::Unary { op, expr } => match (op, pure_value(*expr)) {
            (UnaryOp::Negate, Some(Value::Int(i))) => if i == i64::MIN { None } else { Some(Value::Int((-i) as i64)) },
            (UnaryOp::Not, Some(Value::Bool(b))) => Some(Value::Bool(!b)),
            _ => None,
        },
        TypedExprKind::Binary { left, op, right } => match (pure_value(*left), pure_value(*right)) {
            (Some(l), Some(r)) => binary_value(op, l, r),
            _ => None,
        },
        _ => None,
    };
    match v {
        Some(x) => Some(coerced(x, e.ty)),
        None => None,
    }
}

/// The value a literal denotes.
pub open spec fn literal_val(literal: TypedLiteral) -> Value {
    match literal {
        TypedLiteral::Int(v) => Value::Int(v),
        TypedLiteral::Dec(v) => Value::Dec(v),
        TypedLiteral::String(v) => Value::Text(v),
        TypedLiteral::Bool(b) => Value::Bool(b),
        TypedLiteral::NoneLiteral => Value::NoneValue,
    }
}

fn literal_value(literal: &TypedLiteral) -> (r: Value)
    ensures
        plain_literal_value(*literal) matches Some(v) ==> r == v,
        r == literal_val(*literal),
{
    match literal {
        TypedLiteral::Int(v) => Value::Int(*v),
        TypedLiteral::Dec(v) => Value::Dec(v.clone()),
        TypedLiteral::String(v) => Value::Text(v.clone()),
        TypedLiteral::Bool(b) => Value::Bool(*b),
        TypedLiteral::NoneLiteral => Value::NoneValue,
    }
}

/// The value of a top-level constant, which must be a literal.
fn eval_const_expr(expr: &TypedExpr) -> (r: Result<Value, Vec<Diagnostic>>)
    ensures
        r matches Err(ds) ==> runtime_failure(ds@),
        match expr.kind {
            TypedExprKind::Literal(l) => r == Ok::<Value, Vec<Diagnostic>>(coerced(literal_val(l), expr.ty)),
            _ => r is Err,
        },
{
    match &expr.kind {
        TypedExprKind::Literal(literal) => Ok(coerce_value_to_type(literal_value(literal), &expr.ty)),
        _ => runtime_fail(&expr.span, String::from_str("top-level constants currently support literal values only")),
    }
}

/// A decimal written as text with its sign flipped.
pub open spec fn negated_decimal(text: Seq<char>) -> Seq<char> {
    if text.len() > 0 && text[0] == '-' {
        text.subrange(1, text.len() as int)
    } else {
        seq!['-'] + text
    }
}

/// The negation of a decimal written as text: the sign is flipped.
fn negate_decimal(text: &str) -> (r: String)
    ensures
        r@ == negated_decimal(text@),
{
    proof {
        reveal_strlit("-");
    }
    let chars = crate::text::chars_of(text);
    if chars.len() > 0 && chars[0] == '-' {
        crate::text::text_of_range(chars.as_slice(), 1, chars.len())
    } else {
        concat("-", text)
    }
}

/// An expression written back as source-like text: literals as written
/// (text quoted and escaped, the none literal as `none`), names, variants
/// with their arguments in brackets when they have any, calls with their
/// argument values, field and index access, the member operations of
/// results and options, `-` and `not ` before an operand, binary operators
/// between single spaces (`and`, `or` as words), and collections in their
/// brackets with items separated by `, `.
pub open spec fn typed_source_text(e: TypedExpr) -> Seq<char>
    decreases e, 1int,
{
    match e.kind {
        TypedExprKind::Literal(TypedLiteral::Int(v)) => crate::text::int_text(v as int),
        TypedExprKind::Literal(TypedLiteral::Dec(v)) => v@,
        TypedExprKind::Literal(TypedLiteral::String(v)) => seq!['"'] + crate::text::escaped(v@) + seq!['"'],
        TypedExprKind::Literal(TypedLiteral::Bool(b)) => if b { "true"@ } else { "false"@ },
        TypedExprKind::Literal(TypedLiteral::NoneLiteral) => "none"@,
        TypedExprKind::Symbol(symbol) => symbol.name@,
        TypedExprKind::VariantConstructor { variant_name, args, .. } => {
            proof {
                assert(decreases_to!(e => e.kind));
                assert(decreases_to!(e.kind => args));
                assert(decreases_to!(args => args@));
            }
            if args@.len() == 0 {
                variant_name@
            } else {
                variant_name@ + "("@ + typed_texts(args@) + ")"@
            }
        },
        TypedExprKind::Call { callee, args } => {
            proof {
                assert(decreases_to!(e => e.kind));
                assert(decreases_to!(e.kind => args));
                assert(decreases_to!(args => args@));
            }
            typed_source_text(*callee) + "("@ + typed_arg_texts(args@) + ")"@
        },
        TypedExprKind::FieldAccess { base, field } => typed_source_text(*base) + "."@ + field@,
        TypedExprKind::ResultIsOk { target } => typed_source_text(*target) + ".is_ok()"@,
        TypedExprKind::ResultIsErr { target } => typed_source_text(*target) + ".is_err()"@,
        TypedExprKind::ResultValue { target } => typed_source_text(*target) + ".value()"@,
        TypedExprKind::ResultError { target } => typed_source_text(*target) + ".error()"@,
        TypedExprKind::OptionIsSome { target } => typed_source_text(*target) + ".is_some()"@,
        TypedExprKind::OptionIsNone { target } => typed_source_text(*target) + ".is_none()"@,
        TypedExprKind::OptionValue { target } => typed_source_text(*target) + ".value()"@,
        TypedExprKind::Index { base, index } => typed_source_text(*base) + "["@ + typed_source_text(*index) + "]"@,
        TypedExprKind::Unary { op, expr } => (match op {
            UnaryOp::Negate => "-"@,
            UnaryOp::Not => "not "@,
        }) + typed_source_text(*expr),
        TypedExprKind::Binary { left, op, right } => typed_source_text(*left) + " "@ + crate::metadata::binary_op_word(op)
            + " "@ + typed_source_text(*right),
        TypedExprKind::List(items) => {
            proof {
                assert(decreases_to!(e => e.kind));
                assert(decreases_to!(e.kind => items));
                assert(decreases_to!(items => items@));
            }
            "["@ + typed_texts(items@) + "]"@
        },
        TypedExprKind::MapLiteral(entries) => {
            proof {
                assert(decreases_to!(e => e.kind));
                assert(decreases_to!(e.kind => entries));
                assert(decreases_to!(entries => entries@));
            }
            "{"@ + typed_entry_texts(entries@) + "}"@
        },
        TypedExprKind::Tuple(items) => {
            proof {
                assert(decreases_to!(e => e.kind));
                assert(decreases_to!(e.kind => items));
                assert(decreases_to!(items => items@));
            }
            "("@ + typed_texts(items@) + ")"@
        },
    }
}

/// The texts of expressions separated by `, `.
pub open spec fn typed_texts(xs: Seq<TypedExpr>) -> Seq<char>
    decreases xs, 0int,
{
    if xs.len() == 0 {
        Seq::empty()
    } else {
        proof {
            assert(decreases_to!(xs => xs.drop_last()));
            assert(decreases_to!(xs => xs.last()));
        }
        if xs.len() == 1 {
            typed_source_text(xs.last())
        } else {
            typed_texts(xs.drop_last()) + ", "@ + typed_source_text(xs.last())
        }
    }
}

/// Map entries as `key: value`, separated by `, `.
pub open spec fn typed_entry_texts(xs: Seq<(TypedExpr, TypedExpr)>) -> Seq<char>
    decreases xs, 0int,
{
    if xs.len() == 0 {
        Seq::empty()
    } else {
        proof {
            assert(decreases_to!(xs => xs.drop_last()));
            assert(decreases_to!(xs => xs.last()));
        }
        let one = typed_source_text(xs.last().0) + ": "@ + typed_source_text(xs.last().1);
        if xs.len() == 1 {
            one
        } else {
            typed_entry_texts(xs.drop_last()) + ", "@ + one
        }
    }
}

/// The argument values of a call, separated by `, `.
pub open spec fn typed_arg_texts(xs: Seq<TypedCallArg>) -> Seq<char>
    decreases xs, 0int,
{
    if xs.len() == 0 {
        Seq::empty()
    } else {
        proof {
            assert(decreases_to!(xs => xs.drop_last()));
            assert(decreases_to!(xs => xs.last()));
        }
        if xs.len() == 1 {
            typed_source_text(xs.last().expr)
        } else {
            typed_arg_texts(xs.drop_last()) + ", "@ + typed_source_text(xs.last().expr)
        }
    }
}

fn render_binary_op(op: BinaryOp) -> (r: &'static str)
    ensures
        r@ == crate::metadata::binary_op_word(op),
{
    match op {
        BinaryOp::Add => "+",
        BinaryOp::Subtract => "-",
        BinaryOp::Multiply => "*",
        BinaryOp::Divide => "/",
        BinaryOp::Modulo => "%",
        BinaryOp::Equal => "==",
        BinaryOp::NotEqual => "!=",
        BinaryOp::Less => "<",
        BinaryOp::LessEqual => "<=",
        BinaryOp::Greater => ">",
        BinaryOp::GreaterEqual => ">=",
        BinaryOp::And => "and",
        BinaryOp::Or => "or",
    }
}

/// Renders the parts of `items`, joined by `, `.
fn render_all(items: &Vec<TypedExpr>, Ghost(parent): Ghost<TypedExpr>) -> (r: String)
    requires
        forall|i: int| 0 <= i < items@.len() ==> decreases_to!(parent => #[trigger] items@[i]),
    ensures
        r@ == typed_texts(items@),
    decreases parent, 0int,
{
    let mut s = String::new();
    let mut i: usize = 0;
    while i < items.len()
        invariant
            i <= items@.len(),
            s@ == typed_texts(items@.subrange(0, i as int)),
            forall|k: int| 0 <= k < items@.len() ==> decreases_to!(parent => #[trigger] items@[k]),
        decreases items@.len() - i,
    {
        proof {
            assert(decreases_to!(parent => items@[i as int]));
            assert(items@.subrange(0, i + 1).drop_last() =~= items@.subrange(0, i as int));
        }
        if i != 0 {
            s.append(", ");
        }
        s.append(render_typed_expr(&items[i]).as_str());
        i = i + 1;
    }
    proof {
        assert(items@.subrange(0, items@.len() as int) =~= items@);
    }
    s
}

/// An expression written back as source, for contract failure messages.
fn render_typed_expr(expr: &TypedExpr) -> (r: String)
    ensures
        r@ == typed_source_text(*expr),
    decreases *expr, 1int,
{
    proof {
        reveal_strlit("true");
        reveal_strlit("false");
        reveal_strlit("none");
    }
    match &expr.kind {
        TypedExprKind::Literal(TypedLiteral::Int(v)) => i64_text(*v),
        TypedExprKind::Literal(TypedLiteral::Dec(v)) => v.clone(),
        TypedExprKind::Literal(TypedLiteral::String(v)) => crate::text::debug_quoted(v.as_str()),
        TypedExprKind::Literal(TypedLiteral::Bool(b)) => if *b { String::from_str("true") } else { String::from_str("false") },
        TypedExprKind::Literal(TypedLiteral::NoneLiteral) => String::from_str("none"),
        TypedExprKind::Symbol(symbol) => symbol.name.clone(),
        TypedExprKind::VariantConstructor { variant_name, args, .. } => {
            proof {
                assert forall|i: int| 0 <= i < args@.len() implies decreases_to!(*expr => #[trigger] args@[i]) by {
                    assert(decreases_to!(*expr => args@[i]));
                }
            }
            let inner = render_all(args, Ghost(*expr));
            if args.len() == 0 {
                variant_name.clone()
            } else {
                let mut s = concat3(variant_name.as_str(), "(", inner.as_str());
                s.append(")");
                s
            }
        },
        TypedExprKind::Call { callee, args } => {
            proof {
                assert(decreases_to!(*expr => **callee));
                assert forall|k: int| 0 <= k < args@.len() implies decreases_to!(*expr => #[trigger] args@[k].expr) by {
                    assert(decreases_to!(*expr => args@[k].expr));
                }
            }
            let mut inner = String::new();
            let mut i: usize = 0;
            while i < args.len()
                invariant
                    i <= args@.len(),
                    inner@ == typed_arg_texts(args@.subrange(0, i as int)),
                    forall|k: int| 0 <= k < args@.len() ==> decreases_to!(*expr => #[trigger] args@[k].expr),
                decreases args@.len() - i,
            {
                proof {
                    assert(decreases_to!(*expr => args@[i as int].expr));
                    assert(args@.subrange(0, i + 1).drop_last() =~= args@.subrange(0, i as int));
                }
                if i != 0 {
                    inner.append(", ");
                }
                inner.append(render_typed_expr(&args[i].expr).as_str());
                i = i + 1;
            }
            proof {
                assert(args@.subrange(0, args@.len() as int) =~= args@);
            }
            let mut s = render_typed_expr(callee);
            s.append("(");
            s.append(inner.as_str());
            s.append(")");
            s
        },
        TypedExprKind::FieldAccess { base, field } => concat3(render_typed_expr(base).as_str(), ".", field.as_str()),
        TypedExprKind::ResultIsOk { target } => concat(render_typed_expr(target).as_str(), ".is_ok()"),
        TypedExprKind::ResultIsErr { target } => concat(render_typed_expr(target).as_str(), ".is_err()"),
        TypedExprKind::ResultValue { target } => concat(render_typed_expr(target).as_str(), ".value()"),
        TypedExprKind::ResultError { target } => concat(render_typed_expr(target).as_str(), ".error()"),
        TypedExprKind::OptionIsSome { target } => concat(render_typed_expr(target).as_str(), ".is_some()"),
        TypedExprKind::OptionIsNone { target } => concat(render_typed_expr(target).as_str(), ".is_none()"),
        TypedExprKind::OptionValue { target } => concat(render_typed_expr(target).as_str(), ".value()"),
        TypedExprKind::Index { base, index } => {
            let mut s = concat3(render_typed_expr(base).as_str(), "[", render_typed_expr(index).as_str());
            s.append("]");
            s
        },
        TypedExprKind::Unary { op, expr: inner } => {
            let prefix = match op {
                UnaryOp::Negate => "-",
                UnaryOp::Not => "not ",
            };
            concat(prefix, render_typed_expr(inner).as_str())
        },
        TypedExprKind::Binary { left, op, right } => {
            let mut s = concat3(render_typed_expr(left).as_str(), " ", render_binary_op(*op));
            s.append(" ");
            s.append(render_typed_expr(right).as_str());
            s
        },
        TypedExprKind::List(items) => {
            proof {
                assert forall|i: int| 0 <= i < items@.len() implies decreases_to!(*expr => #[trigger] items@[i]) by {
                    assert(decreases_to!(*expr => items@[i]));
                }
            }
            concat3("[", render_all(items, Ghost(*expr)).as_str(), "]")
        },
        TypedExprKind::Tuple(items) => {
            proof {
                assert forall|i: int| 0 <= i < items@.len() implies decreases_to!(*expr => #[trigger] items@[i]) by {
                    assert(decreases_to!(*expr => items@[i]));
                }
            }
            concat3("(", render_all(items, Ghost(*expr)).as_str(), ")")
        },
        TypedExprKind::MapLiteral(entries) => {
            proof {
                assert forall|k: int| 0 <= k < entries@.len() implies decreases_to!(*expr => #[trigger] entries@[k].0)
                    && decreases_to!(*expr => entries@[k].1) by {
                    assert(decreases_to!(*expr => entries@[k].0));
                    assert(decreases_to!(*expr => entries@[k].1));
                }
            }
            let mut inner = String::new();
            let mut i: usize = 0;
            while i < entries.len()
                invariant
                    i <= entries@.len(),
                    inner@ == typed_entry_texts(entries@.subrange(0, i as int)),
                    forall|k: int| 0 <= k < entries@.len() ==> decreases_to!(*expr => #[trigger] entries@[k].0)
                        && decreases_to!(*expr => entries@[k].1),
                decreases entries@.len() - i,
            {
                proof {
                    assert(decreases_to!(*expr => entries@[i as int].0));
                    assert(decreases_to!(*expr => entries@[i as int].1));
                    assert(entries@.subrange(0, i + 1).drop_last() =~= entries@.subrange(0, i as int));
                }
                if i != 0 {
                    inner.append(", ");
                }
                inner.append(render_typed_expr(&entries[i].0).as_str());
                inner.append(": ");
                inner.append(render_typed_expr(&entries[i].1).as_str());
                i = i + 1;
            }
            proof {
                assert(entries@.subrange(0, entries@.len() as int) =~= entries@);
            }
            concat3("{", inner.as_str(), "}")
        },
    }
}


/// The type of the first field named `field` from position `j` on.
pub open spec fn first_field_type(fields: Seq<TypedRecordField>, field: Seq<char>, j: int) -> Option<Type>
    decreases fields.len() - j,
{
    if j < 0 || j >= fields.len() {
        None
    } else if fields[j].name@ == field {
        Some(fields[j].ty)
    } else {
        first_field_type(fields, field, j + 1)
    }
}

/// The type of field `field` of the first record named `record`, looking
/// from declaration `i` on.
pub open spec fn record_field_lookup(decls: Seq<TypedDecl>, record: Seq<char>, field: Seq<char>, i: int) -> Option<Type>
    decreases decls.len() - i,
{
    if i < 0 || i >= decls.len() {
        None
    } else {
        match decls[i] {
            TypedDecl::Record(r) => if r.name@ == record {
                first_field_type(r.fields@, field, 0)
            } else {
                record_field_lookup(decls, record, field, i + 1)
            },
            _ => record_field_lookup(decls, record, field, i + 1),
        }
    }
}

/// A failed run reports at least one diagnostic, each of the runtime or the
/// extern phase.
pub open spec fn exec_failure(ds: Seq<Diagnostic>) -> bool {
    ds.len() > 0 && forall|i: int| 0 <= i < ds.len() ==> (#[trigger] ds[i]).phase == Phase::Runtime
        || ds[i].phase == Phase::Extern
}

/// An execution step either succeeds or reports an execution failure.
pub open spec fn exec_outcome<T>(r: Result<T, Vec<Diagnostic>>) -> bool {
    r matches Err(ds) ==> exec_failure(ds@)
}

/// Whether example blocks run when an action is called.
struct CallOptions {
    run_examples: bool,
}

/// One step from a target's root to the place it denotes.
enum PathStep {
    Field(String),
    Index(Value),
}

/// The result type of an action's type; `Unknown` for anything else.
fn action_result_type(ty: &Type) -> (r: &Type)
    ensures
        *r == result_type_of(*ty),
{
    match ty {
        Type::Action(a) => &a.result,
        _ => ty,
    }
}

/// The text argument at `index` of a standard runtime call.
fn expect_text_arg(args: &Vec<Value>, span: &SourceSpan, name: &str, index: usize) -> (r: Result<String, Vec<Diagnostic>>)
    requires
        index < 2,
    ensures
        exec_outcome(r),
        index < args@.len() && args@[index as int] is Text ==> (r matches Ok(t) && args@[index as int] == Value::Text(t)),
        !(index < args@.len() && args@[index as int] is Text) ==> r is Err,
{
    if index >= args.len() {
        let mut m = concat3("runtime action `", name, "` expected argument ");
        m.append(crate::text::usize_text(index + 1).as_str());
        return runtime_fail(span, m);
    }
    match &args[index] {
        Value::Text(t) => Ok(t.clone()),
        other => {
            let mut m = concat3("runtime action `", name, "` argument ");
            m.append(crate::text::usize_text(index + 1).as_str());
            m.append(" expected Text, found ");
            m.append(other.debug_text().as_str());
            runtime_fail(span, m)
        },
    }
}

/// The value of the first map entry whose key equals `key`, from `k` on.
pub open spec fn map_entry_value(entries: Seq<(Value, Value)>, key: Value, k: int) -> Option<Value>
    decreases entries.len() - k,
{
    if k < 0 || k >= entries.len() {
        None
    } else if value_same(entries[k].0, key) {
        Some(entries[k].1)
    } else {
        map_entry_value(entries, key, k + 1)
    }
}

/// What indexing `base` by `index` gives: the element of a list at a
/// non-negative position within it, or the value of the first map entry
/// whose key equals the index; `None` otherwise.
pub open spec fn indexed_value(base: Value, index: Value) -> Option<Value> {
    match base {
        Value::List(items) => match index {
            Value::Int(i) => if 0 <= i < items@.len() { Some(items@[i as int]) } else { None },
            _ => None,
        },
        Value::MapValue(entries) => map_entry_value(entries@, index, 0),
        _ => None,
    }
}

/// The element of a list or the value of a map key.
fn index_value(base: Value, index: Value, span: &SourceSpan) -> (r: Result<Value, Vec<Diagnostic>>)
    ensures
        exec_outcome(r),
        match indexed_value(base, index) {
            Some(v) => r == Ok::<Value, Vec<Diagnostic>>(v),
            None => r is Err,
        },
{
    match base {
        Value::List(mut items) => {
            let i = match index {
                Value::Int(i) => {
                    if i < 0 {
                        return runtime_fail(span, concat("list index must be a non-negative Int, found ", index.debug_text().as_str()));
                    }
                    i
                },
                other => {
                    return runtime_fail(span, concat("list index must be a non-negative Int, found ", other.debug_text().as_str()));
                },
            };
            if (i as u64) >= (items.len() as u64) {
                return runtime_fail(span, concat3("list index ", i64_text(i).as_str(), " is out of bounds"));
            }
            let position = i as usize;
            Ok(items.remove(position))
        },
        Value::MapValue(mut entries) => {
            let ghost all = entries@;
            assert(indexed_value(base, index) == map_entry_value(all, index, 0));
            let mut k: usize = 0;
            while k < entries.len()
                invariant
                    k <= entries@.len(),
                    entries@ == all,
                    indexed_value(base, index) == map_entry_value(all, index, 0),
                    map_entry_value(all, index, 0) == map_entry_value(all, index, k as int),
                decreases entries@.len() - k,
            {
                if values_equal(&entries[k].0, &index) {
                    let entry = entries.remove(k);
                    return Ok(entry.1);
                }
                k = k + 1;
            }
            runtime_fail(span, String::from_str("map key not found"))
        },
        other => runtime_fail(span, concat("indexing requires a list or map, found ", other.debug_text().as_str())),
    }
}

/// Writes `new_value` at the end of `steps[at..]` inside `value`.
fn set_in(value: Value, steps: &Vec<PathStep>, at: usize, new_value: Value, span: &SourceSpan) -> (r: Result<Value, Vec<Diagnostic>>)
    requires
        at < steps@.len(),
    ensures
        exec_outcome(r),
        steps@[at as int] is Field && !(value is Record) ==> r is Err,
        steps@[at as int] is Index && !(value is List || value is MapValue) ==> r is Err,
        steps@[at as int] matches PathStep::Field(f) ==> (at + 1 == steps@.len() ==> (value matches Value::Record(fields)
            ==> (r matches Ok(Value::Record(out)) && (if field_slot(fields@, f@, 0).1 {
            out@ == fields@.update(field_slot(fields@, f@, 0).0, (f, new_value))
        } else {
            out@ == fields@.insert(field_slot(fields@, f@, 0).0, (f, new_value))
        })))),
        steps@[at as int] matches PathStep::Index(key) ==> (value matches Value::List(items) ==> (!(key matches Value::Int(
            i,
        ) && 0 <= i < items@.len()) ==> r is Err)),
        steps@[at as int] matches PathStep::Index(key) ==> (at + 1 == steps@.len() ==> (value matches Value::List(items) ==> (
        key matches Value::Int(i) ==> (0 <= i < items@.len() ==> (r matches Ok(Value::List(out)) && out@ == items@.update(
            i as int,
            new_value,
        )))))),
    decreases steps@.len() - at,
{
    let ghost v0 = value;
    let n = steps.len();
    let last = at + 1 == n;
    match &steps[at] {
        PathStep::Field(field) => match value {
            Value::Record(mut fields) => {
                if last {
                    record_insert(&mut fields, field.clone(), new_value);
                    return Ok(Value::Record(fields));
                }
                match crate::types::find_key(&fields, field.as_str()) {
                    Some(p) => {
                        let (name, child) = fields.remove(p);
                        let updated = set_in(child, steps, at + 1, new_value, span)?;
                        fields.insert(p, (name, updated));
                        Ok(Value::Record(fields))
                    },
                    None => runtime_fail(span, concat3("record field `", field.as_str(), "` is missing")),
                }
            },
            other => runtime_fail(span, concat("field mutation requires a record, found ", other.debug_text().as_str())),
        },
        PathStep::Index(key) => match value {
            Value::List(mut items) => {
                let i = match key {
                    Value::Int(i) => {
                        if *i < 0 {
                            return runtime_fail(span, concat("list index must be a non-negative Int, found ", key.debug_text().as_str()));
                        }
                        *i
                    },
                    other => {
                        return runtime_fail(span, concat("list index must be a non-negative Int, found ", other.debug_text().as_str()));
                    },
                };
                if (i as u64) >= (items.len() as u64) {
                    return runtime_fail(span, concat3("list index ", i64_text(i).as_str(), " is out of bounds"));
                }
                let position = i as usize;
                if last {
                    items.set(position, new_value);
                    return Ok(Value::List(items));
                }
                let child = items.remove(position);
                let updated = set_in(child, steps, at + 1, new_value, span)?;
                items.insert(position, updated);
                Ok(Value::List(items))
            },
            Value::MapValue(mut entries) => {
                let mut k: usize = 0;
                while k < entries.len()
                    invariant
                        k <= entries@.len(),
                        n == steps@.len(),
                        at < n,
                        last == (at + 1 == n),
                        steps@[at as int] is Index,
                        v0 == value,
                        v0 is MapValue,
                    decreases entries@.len() - k,
                {
                    if values_equal(&entries[k].0, key) {
                        if last {
                            let (existing_key, _) = entries.remove(k);
                            entries.insert(k, (existing_key, new_value));
                            return Ok(Value::MapValue(entries));
                        }
                        let (existing_key, child) = entries.remove(k);
                        let updated = set_in(child, steps, at + 1, new_value, span)?;
                        entries.insert(k, (existing_key, updated));
                        return Ok(Value::MapValue(entries));
                    }
                    k = k + 1;
                }
                if last {
                    entries.push((key.snapshot(), new_value));
                    return Ok(Value::MapValue(entries));
                }
                runtime_fail(span, String::from_str("map key not found"))
            },
            other => runtime_fail(span, concat("index mutation requires a list or map, found ", other.debug_text().as_str())),
        },
    }
}

/// Whether a literal pattern matches a value.
fn literal_matches(literal: &TypedLiteral, value: &Value) -> (r: bool)
    ensures
        r == (match (*literal, *value) {
            (TypedLiteral::NoneLiteral, Value::NoneValue) => true,
            (TypedLiteral::NoneLiteral, Value::OptionNone) => true,
            _ => value_same(literal_val(*literal), *value),
        }),
{
    match (literal, value) {
        (TypedLiteral::NoneLiteral, Value::NoneValue) => true,
        (TypedLiteral::NoneLiteral, Value::OptionNone) => true,
        _ => {
            let expected = literal_value(literal);
            values_equal(&expected, value)
        },
    }
}

/// Whether a record pattern field matches the record's fields: the record
/// has a field of that name, and its first one matches the field's pattern.
pub open spec fn field_pattern_matches(f: crate::tir::TypedRecordPatternField, values: Seq<(String, Value)>) -> bool
    decreases f, 0int,
{
    match crate::types::find_key_spec(values, f.name@) {
        Some(j) => pattern_matches(f.pattern, values[j].1),
        None => false,
    }
}

/// Whether a value matches a pattern: a wildcard or a name matches any
/// value, a literal its value, a tuple pattern a list of as many items that
/// match in order, a record pattern a record with each named field
/// matching, `Some`, `Ok` and `Err` their one payload, `None` an absent
/// option or `None`, and a variant of an enum the same variant with
/// matching fields.
pub open spec fn pattern_matches(p: TypedPattern, v: Value) -> bool
    decreases p, 1int,
{
    match p.kind {
        TypedPatternKind::Wildcard => true,
        TypedPatternKind::Literal(l) => match (l, v) {
            (TypedLiteral::NoneLiteral, Value::NoneValue) => true,
            (TypedLiteral::NoneLiteral, Value::OptionNone) => true,
            _ => value_same(literal_val(l), v),
        },
        TypedPatternKind::Binding(_) => true,
        TypedPatternKind::Tuple(items) => match v {
            Value::List(values) => values@.len() == items@.len() && forall|k: int|
                0 <= k < items@.len() ==> {
                    proof {
                        assert(decreases_to!(p => items@[k]));
                    }
                    pattern_matches(#[trigger] items@[k], values@[k])
                },
            _ => false,
        },
        TypedPatternKind::Record { fields, .. } => match v {
            Value::Record(values) => forall|k: int|
                0 <= k < fields@.len() ==> {
                    proof {
                        assert(decreases_to!(p => fields@[k]));
                    }
                    field_pattern_matches(#[trigger] fields@[k], values@)
                },
            _ => false,
        },
        TypedPatternKind::Variant { variant_type, variant_name, args, .. } => {
            if variant_type@ == "Option"@ {
                if variant_name@ == "Some"@ {
                    match v {
                        Value::OptionSome(inner) => args@.len() == 1 && {
                            proof {
                                assert(decreases_to!(p => args@[0]));
                            }
                            pattern_matches(args@[0], *inner)
                        },
                        _ => false,
                    }
                } else {
                    (v is OptionNone || v is NoneValue) && args@.len() == 0
                }
            } else if variant_type@ == "Result"@ {
                match (variant_name@ == "Ok"@, v) {
                    (true, Value::ResultOk(inner)) | (false, Value::ResultErr(inner)) => args@.len() == 1 && {
                        proof {
                            assert(decreases_to!(p => args@[0]));
                        }
                        pattern_matches(args@[0], *inner)
                    },
                    _ => false,
                }
            } else {
                match v {
                    Value::Variant { enum_name, variant, fields } => {
                        &&& enum_name@ == variant_type@
                        &&& variant@ == variant_name@
                        &&& fields@.len() == args@.len()
                        &&& forall|k: int|
                            0 <= k < args@.len() ==> {
                                proof {
                                    assert(decreases_to!(p => args@[k]));
                                }
                                pattern_matches(#[trigger] args@[k], fields@[k].1)
                            }
                    },
                    _ => false,
                }
            }
        },
    }
}

/// Matches a value against a pattern, collecting the values of the names it
/// binds.
fn match_pattern(pattern: &TypedPattern, value: &Value, bindings: &mut Env) -> (r: bool)
    ensures
        r == pattern_matches(*pattern, *value),
    decreases *pattern,
{
    match &pattern.kind {
        TypedPatternKind::Wildcard => true,
        TypedPatternKind::Literal(literal) => literal_matches(literal, value),
        TypedPatternKind::Binding(name) => {
            env_insert(bindings, name.clone(), value.snapshot());
            true
        },
        TypedPatternKind::Tuple(items) => match value {
            Value::List(values) => {
                if values.len() != items.len() {
                    return false;
                }
                proof {
                    assert forall|k: int| 0 <= k < items@.len() implies decreases_to!(*pattern => #[trigger] items@[k]) by {
                        assert(decreases_to!(*pattern => items@[k]));
                    }
                }
                let mut i: usize = 0;
                while i < items.len()
                    invariant
                        i <= items@.len(),
                        values@.len() == items@.len(),
                        forall|k: int| 0 <= k < items@.len() ==> decreases_to!(*pattern => #[trigger] items@[k]),
                        forall|k: int| 0 <= k < i ==> pattern_matches(#[trigger] items@[k], values@[k]),
                        pattern.kind == TypedPatternKind::Tuple(*items),
                        *value == Value::List(*values),
                    decreases items@.len() - i,
                {
                    proof {
                        assert(decreases_to!(*pattern => items@[i as int]));
                    }
                    if !match_pattern(&items[i], &values[i], bindings) {
                        return false;
                    }
                    i = i + 1;
                }
                true
            },
            _ => false,
        },
        TypedPatternKind::Record { fields, .. } => match value {
            Value::Record(values) => {
                proof {
                    assert forall|k: int| 0 <= k < fields@.len() implies decreases_to!(*pattern => #[trigger] fields@[k].pattern) by {
                        assert(decreases_to!(*pattern => fields@[k].pattern));
                    }
                }
                let mut i: usize = 0;
                while i < fields.len()
                    invariant
                        i <= fields@.len(),
                        forall|k: int| 0 <= k < fields@.len() ==> decreases_to!(*pattern => #[trigger] fields@[k].pattern),
                        forall|k: int| 0 <= k < i ==> field_pattern_matches(#[trigger] fields@[k], values@),
                        (pattern.kind matches TypedPatternKind::Record { fields: fs, .. } && fs == *fields),
                        *value == Value::Record(*values),
                    decreases fields@.len() - i,
                {
                    let field = &fields[i];
                    let v = match crate::types::lookup(values, field.name.as_str()) {
                        Some(v) => v,
                        None => {
                            proof {
                                assert(!field_pattern_matches(fields@[i as int], values@));
                            }
                            return false;
                        },
                    };
                    proof {
                        assert(decreases_to!(*pattern => fields@[i as int].pattern));
                    }
                    if !match_pattern(&field.pattern, v, bindings) {
                        proof {
                            assert(!field_pattern_matches(fields@[i as int], values@));
                        }
                        return false;
                    }
                    i = i + 1;
                }
                true
            },
            _ => false,
        },
        TypedPatternKind::Variant { variant_type, variant_name, args, .. } => {
            let owner = variant_type.as_str();
            let name = variant_name.as_str();
            let payload: Option<&Value> = if str_eq(owner, "Option") {
                if str_eq(name, "Some") {
                    match value {
                        Value::OptionSome(inner) => Some(&**inner),
                        _ => {
                            return false;
                        },
                    }
                } else {
                    return matches!(value, Value::OptionNone | Value::NoneValue) && args.len() == 0;
                }
            } else if str_eq(owner, "Result") {
                if str_eq(name, "Ok") {
                    match value {
                        Value::ResultOk(inner) => Some(&**inner),
                        _ => {
                            return false;
                        },
                    }
                } else {
                    match value {
                        Value::ResultErr(inner) => Some(&**inner),
                        _ => {
                            return false;
                        },
                    }
                }
            } else {
                None
            };
            match payload {
                Some(inner) => {
                    if args.len() != 1 {
                        return false;
                    }
                    proof {
                        assert(decreases_to!(*pattern => args@[0]));
                    }
                    match_pattern(&args[0], inner, bindings)
                },
                None => match value {
                    Value::Variant { enum_name, variant, fields } => {
                        if !str_eq(enum_name.as_str(), owner) || !str_eq(variant.as_str(), name) || fields.len() != args.len() {
                            return false;
                        }
                        proof {
                            assert forall|k: int| 0 <= k < args@.len() implies decreases_to!(*pattern => #[trigger] args@[k]) by {
                                assert(decreases_to!(*pattern => args@[k]));
                            }
                        }
                        let mut i: usize = 0;
                        while i < args.len()
                            invariant
                                i <= args@.len(),
                                fields@.len() == args@.len(),
                                forall|k: int| 0 <= k < args@.len() ==> decreases_to!(*pattern => #[trigger] args@[k]),
                                forall|k: int| 0 <= k < i ==> pattern_matches(#[trigger] args@[k], fields@[k].1),
                                (pattern.kind matches TypedPatternKind::Variant { args: a, variant_type: vt, variant_name: vn, .. } && a
                                    == *args && vt@ != "Option"@ && vt@ != "Result"@ && vt@ == enum_name@ && vn@ == variant@),
                                *value == (Value::Variant { enum_name: *enum_name, variant: *variant, fields: *fields }),
                            decreases args@.len() - i,
                        {
                            proof {
                                assert(decreases_to!(*pattern => args@[i as int]));
                            }
                            if !match_pattern(&args[i], &fields[i].1, bindings) {
                                return false;
                            }
                            i = i + 1;
                        }
                        true
                    },
                    _ => false,
                },
            }
        },
    }
}

/// Whether a value has the shape a binding pattern takes apart: any value
/// for a name, a list of as many items for a tuple pattern, a record with
/// each named field for a record pattern.
pub open spec fn binding_fits(k: TypedBindingPatternKind, v: Value) -> bool {
    match k {
        TypedBindingPatternKind::Name(_) => true,
        TypedBindingPatternKind::Tuple(bs) => v matches Value::List(items) && items@.len() == bs@.len(),
        TypedBindingPatternKind::Record { fields, .. } => v matches Value::Record(values) && forall|i: int|
            0 <= i < fields@.len() ==> crate::types::find_key_spec(values@, (#[trigger] fields@[i]).field@) is Some,
    }
}

/// Binds the names of a `let` or `var` pattern to the parts of a value.
fn bind_pattern(pattern: &TypedBindingPattern, value: Value, env: &mut Env, span: &SourceSpan) -> (r: Result<(), Vec<Diagnostic>>)
    ensures
        exec_outcome(r),
        r is Ok <==> binding_fits(pattern.kind, value),
        pattern.kind matches TypedBindingPatternKind::Name(b) ==> final(env)@ == env_bind(old(env)@, b.name, value),
{
    let ghost v0 = value;
    match &pattern.kind {
        TypedBindingPatternKind::Name(binding) => {
            env_insert(env, binding.name.clone(), value);
            Ok(())
        },
        TypedBindingPatternKind::Tuple(bindings) => match value {
            Value::List(items) => {
                if items.len() != bindings.len() {
                    return runtime_fail(span, String::from_str("tuple destructuring found a value of a different arity"));
                }
                let mut i: usize = 0;
                while i < bindings.len()
                    invariant
                        i <= bindings@.len(),
                        items@.len() == bindings@.len(),
                    decreases bindings@.len() - i,
                {
                    let v = coerce_value_to_type(items[i].snapshot(), &bindings[i].ty);
                    env_insert(env, bindings[i].name.clone(), v);
                    i = i + 1;
                }
                Ok(())
            },
            other => runtime_fail(span, concat("tuple destructuring requires a tuple, found ", other.debug_text().as_str())),
        },
        TypedBindingPatternKind::Record { fields, .. } => match value {
            Value::Record(values) => {
                let mut i: usize = 0;
                while i < fields.len()
                    invariant
                        i <= fields@.len(),
                        forall|k: int| 0 <= k < i ==> crate::types::find_key_spec(values@, (#[trigger] fields@[k]).field@) is Some,
                        (pattern.kind matches TypedBindingPatternKind::Record { fields: fs, .. } && fs == *fields),
                        v0 == Value::Record(values),
                        v0 == value,
                    decreases fields@.len() - i,
                {
                    let field = &fields[i];
                    match crate::types::lookup(&values, field.field.as_str()) {
                        Some(v) => {
                            let copy = coerce_value_to_type(v.snapshot(), &field.binding.ty);
                            env_insert(env, field.binding.name.clone(), copy);
                        },
                        None => {
                            proof {
                                assert(crate::types::find_key_spec(values@, fields@[i as int].field@) is None);
                            }
                            return runtime_fail(span, concat3("record field `", field.field.as_str(), "` is missing"));
                        },
                    }
                    i = i + 1;
                }
                Ok(())
            },
            other => runtime_fail(span, concat("record destructuring requires a record, found ", other.debug_text().as_str())),
        },
    }
}


/// Runs the actions and tests of a lowered module.
pub struct Interpreter<'a, H: RuntimeHost> {
    module: &'a TypedIrModule,
    globals: Env,
    externs: ExternRegistry,
    host: H,
    pub mode: ExecutionMode,
}

impl<'a> Interpreter<'a, ConsoleHost> {
    /// An interpreter in `checked` mode on the standard streams, for a
    /// module that needs no extern configuration.
    pub fn new(module: &'a TypedIrModule) -> (r: Result<Self, Vec<Diagnostic>>)
        ensures
            exec_outcome(r),
            r matches Ok(i) ==> i.spec_mode() == ExecutionMode::Checked,
            r is Ok <==> !crate::externs::declares_some_extern(*module) && consts_literal(module.declarations@),
            r matches Ok(i) ==> i.module_spec() == *module,
    {
        let externs = ExternRegistry::from_module(module)?;
        Self::with_externs_and_mode(module, externs, ExecutionMode::Checked)
    }

    /// An interpreter in `mode` on the standard streams.
    pub fn new_with_mode(module: &'a TypedIrModule, mode: ExecutionMode) -> (r: Result<Self, Vec<Diagnostic>>)
        ensures
            exec_outcome(r),
            r matches Ok(i) ==> i.spec_mode() == mode,
            r is Ok <==> !crate::externs::declares_some_extern(*module) && consts_literal(module.declarations@),
            r matches Ok(i) ==> i.module_spec() == *module,
    {
        let externs = ExternRegistry::from_module(module)?;
        Self::with_externs_and_mode(module, externs, mode)
    }

    /// An interpreter in `checked` mode whose externs are bound by the
    /// configuration text `config`, read from `externs_path`.
    pub fn from_path(module: &'a TypedIrModule, externs_path: &str, config: &str) -> (r: Result<Self, Vec<Diagnostic>>)
        ensures
            exec_outcome(r),
            r matches Ok(i) ==> i.spec_mode() == ExecutionMode::Checked,
    {
        let externs = ExternRegistry::from_config_text(module, Some(externs_path), Some(config))?;
        Self::with_externs_and_mode(module, externs, ExecutionMode::Checked)
    }

    /// An interpreter in `mode` whose externs are bound by the configuration
    /// text `config`, read from `externs_path`.
    pub fn from_path_with_mode(module: &'a TypedIrModule, externs_path: &str, config: &str, mode: ExecutionMode) -> (r: Result<Self, Vec<Diagnostic>>)
        ensures
            exec_outcome(r),
            r matches Ok(i) ==> i.spec_mode() == mode,
    {
        let externs = ExternRegistry::from_config_text(module, Some(externs_path), Some(config))?;
        Self::with_externs_and_mode(module, externs, mode)
    }

    /// An interpreter in `checked` mode with the given externs.
    pub fn with_externs(module: &'a TypedIrModule, externs: ExternRegistry) -> (r: Result<Self, Vec<Diagnostic>>)
        ensures
            exec_outcome(r),
            r matches Ok(i) ==> i.spec_mode() == ExecutionMode::Checked,
            r is Ok <==> consts_literal(module.declarations@),
    {
        Self::with_externs_and_mode(module, externs, ExecutionMode::Checked)
    }

    /// An interpreter in `mode` with the given externs. The module's
    /// constants, which must be literals, are evaluated first.
    pub fn with_externs_and_mode(module: &'a TypedIrModule, externs: ExternRegistry, mode: ExecutionMode) -> (r: Result<Self, Vec<Diagnostic>>)
        ensures
            exec_outcome(r),
            r matches Ok(i) ==> i.spec_mode() == mode,
            r is Ok <==> consts_literal(module.declarations@),
            r matches Ok(i) ==> i.module_spec() == *module && i.externs_spec() == externs,
    {
        Interpreter::with_host(module, externs, mode, ConsoleHost)
    }
}

/// Whether every constant declared is given by a literal.
pub open spec fn consts_literal(decls: Seq<TypedDecl>) -> bool {
    forall|i: int| 0 <= i < decls.len() ==> ((#[trigger] decls[i]) matches TypedDecl::Const(c) ==> c.value.kind is Literal)
}

/// Whether the module declares an action named `name`.
pub open spec fn declares_action(m: TypedIrModule, name: Seq<char>) -> bool {
    exists|i: int| 0 <= i < m.declarations@.len() && (#[trigger] m.declarations@[i] matches TypedDecl::Action(a) && a.name@ == name)
}

/// The names of the module's tests, in declaration order.
pub open spec fn test_names(decls: Seq<TypedDecl>) -> Seq<Seq<char>>
    decreases decls.len(),
{
    if decls.len() == 0 {
        Seq::empty()
    } else {
        match decls.last() {
            TypedDecl::Test(t) => test_names(decls.drop_last()).push(t.name@),
            _ => test_names(decls.drop_last()),
        }
    }
}

impl<'a, H: RuntimeHost> Interpreter<'a, H> {
    /// The mode the interpreter runs in.
    pub closed spec fn spec_mode(&self) -> ExecutionMode {
        self.mode
    }

    /// The module the interpreter runs.
    pub closed spec fn module_spec(&self) -> TypedIrModule {
        *self.module
    }

    /// The externs the interpreter can call.
    pub closed spec fn externs_spec(&self) -> ExternRegistry {
        self.externs
    }

    /// Whether contracts are enforced and `name` names only actions of the
    /// module, each with a `requires` or `ensures` clause that is `false`:
    /// no standard runtime action and no bound extern.
    pub open spec fn contracts_refuse(&self, name: Seq<char>) -> bool {
        &&& self.spec_mode().spec_enforces_checkable()
        &&& forall|a: StandardRuntimeAction| crate::standard_runtime::qualified_text(a) != name
        &&& !self.externs_spec().binds(name)
        &&& contract_always_fails(self.module_spec(), name)
    }

    /// The value a call of `name` with no arguments gives at once: where
    /// `name` is no standard runtime action and no bound extern, and the
    /// module's first action so named takes no parameters, has no contract
    /// or example clause, and starts by returning a value built from
    /// literals and operators, that value stored at the action's result type.
    pub open spec fn immediate_result(&self, name: Seq<char>) -> Option<Value> {
        if (forall|a: StandardRuntimeAction| crate::standard_runtime::qualified_text(a) != name) && !self.externs_spec().binds(
            name,
        ) {
            match first_action(self.module_spec().declarations@, name) {
                Some(a) => if a.params@.len() == 0 && free_of_clauses(a) {
                    match immediate_return(a.body@) {
                        Some(v) => Some(coerced(v, result_type_of(a.ty))),
                        None => None,
                    }
                } else {
                    None
                },
                None => None,
            }
        } else {
            None
        }
    }

    /// Whether `name` names nothing the interpreter can call: no standard
    /// runtime action, no bound extern and no action of the module.
    pub open spec fn calls_nothing(&self, name: Seq<char>) -> bool {
        &&& forall|a: StandardRuntimeAction| crate::standard_runtime::qualified_text(a) != name
        &&& !self.externs_spec().binds(name)
        &&& !declares_action(self.module_spec(), name)
    }

    /// An interpreter in `mode` with the given externs and host. The
    /// module's constants, which must be literals, are evaluated first.
    pub fn with_host(module: &'a TypedIrModule, externs: ExternRegistry, mode: ExecutionMode, host: H) -> (r: Result<Self, Vec<Diagnostic>>)
        ensures
            exec_outcome(r),
            r matches Ok(i) ==> i.spec_mode() == mode,
            r is Ok <==> consts_literal(module.declarations@),
            r matches Ok(i) ==> i.module_spec() == *module && i.externs_spec() == externs,
    {
        let mut globals: Env = Vec::new();
        let mut i: usize = 0;
        while i < module.declarations.len()
            invariant
                i <= module.declarations@.len(),
                consts_literal(module.declarations@.take(i as int)),
            decreases module.declarations@.len() - i,
        {
            if let TypedDecl::Const(c) = &module.declarations[i] {
                let value = match eval_const_expr(&c.value) {
                    Ok(v) => v,
                    Err(e) => {
                        proof {
                            assert(!(module.declarations@[i as int] matches TypedDecl::Const(c2) ==> c2.value.kind is Literal));
                        }
                        return Err(e);
                    },
                };
                env_insert(&mut globals, c.name.clone(), value);
            }
            proof {
                let t = module.declarations@.take(i + 1);
                assert forall|k: int| 0 <= k < t.len() implies ((#[trigger] t[k]) matches TypedDecl::Const(c) ==> c.value.kind
                    is Literal) by {
                    if k < i {
                        assert(t[k] == module.declarations@.take(i as int)[k]);
                    } else {
                        assert(t[k] == module.declarations@[i as int]);
                    }
                }
            }
            i = i + 1;
        }
        proof {
            assert(module.declarations@.take(i as int) =~= module.declarations@);
        }
        Ok(Interpreter { module, globals, externs, host, mode })
    }

    /// The action named `name`, if the module declares one.
    fn find_action(&self, name: &str) -> (r: Option<&'a TypedActionDecl>)
        ensures
            r matches Some(a) ==> a.name@ == name@ && declares_action(*self.module, name@)
                && exists|i: int| 0 <= i < self.module.declarations@.len() && self.module.declarations@[i] == TypedDecl::Action(*a),
            r is None ==> !declares_action(*self.module, name@),
            match r {
                Some(a) => first_action(self.module.declarations@, name@) == Some(*a),
                None => first_action(self.module.declarations@, name@) is None,
            },
    {
        let decls = &self.module.declarations;
        let mut i: usize = 0;
        proof {
            assert(decls@.subrange(0, decls@.len() as int) =~= decls@);
        }
        while i < decls.len()
            invariant
                i <= decls@.len(),
                decls == &self.module.declarations,
                forall|k: int| 0 <= k < i ==> !(#[trigger] decls@[k] matches TypedDecl::Action(a) && a.name@ == name@),
                first_action(decls@, name@) == first_action(decls@.subrange(i as int, decls@.len() as int), name@),
            decreases decls@.len() - i,
        {
            proof {
                let rest = decls@.subrange(i as int, decls@.len() as int);
                assert(rest[0] == decls@[i as int]);
                assert(rest.subrange(1, rest.len() as int) =~= decls@.subrange(i + 1, decls@.len() as int));
            }
            if let TypedDecl::Action(a) = &decls[i] {
                if str_eq(a.name.as_str(), name) {
                    proof {
                        assert(decls@[i as int] matches TypedDecl::Action(x) && x.name@ == name@);
                        assert(self.module.declarations@[i as int] == TypedDecl::Action(*a));
                    }
                    return Some(a);
                }
            }
            i = i + 1;
        }
        None
    }

    /// The declared type of field `field_name` of record `record_name`.
    fn lookup_record_field_type(&self, record_name: &str, field_name: &str) -> (r: Option<&'a Type>)
        ensures
            match r {
                Some(t) => record_field_lookup(self.module.declarations@, record_name@, field_name@, 0) == Some(*t),
                None => record_field_lookup(self.module.declarations@, record_name@, field_name@, 0) is None,
            },
    {
        let decls = &self.module.declarations;
        let mut i: usize = 0;
        while i < decls.len()
            invariant
                i <= decls@.len(),
                decls == &self.module.declarations,
                record_field_lookup(decls@, record_name@, field_name@, 0) == record_field_lookup(decls@, record_name@, field_name@, i as int),
            decreases decls@.len() - i,
        {
            if let TypedDecl::Record(record) = &decls[i] {
                if str_eq(record.name.as_str(), record_name) {
                    let mut j: usize = 0;
                    while j < record.fields.len()
                        invariant
                            j <= record.fields@.len(),
                            first_field_type(record.fields@, field_name@, 0) == first_field_type(record.fields@, field_name@, j as int),
                            decls == &self.module.declarations,
                            i < decls@.len(),
                            decls@[i as int] == TypedDecl::Record(*record),
                            record.name@ == record_name@,
                            record_field_lookup(decls@, record_name@, field_name@, 0) == record_field_lookup(decls@, record_name@, field_name@, i as int),
                        decreases record.fields@.len() - j,
                    {
                        if str_eq(record.fields[j].name.as_str(), field_name) {
                            return Some(&record.fields[j].ty);
                        }
                        j = j + 1;
                    }
                    return None;
                }
            }
            i = i + 1;
        }
        None
    }

    /// Runs `main`, which must take no parameters.
    pub fn run_main(&self) -> (r: Result<RunResult, Vec<Diagnostic>>)
        ensures
            exec_outcome(r),
            !declares_action(self.module_spec(), "main"@) ==> r is Err,
            self.spec_mode().spec_enforces_checkable() && !self.externs_spec().binds("main"@) && contract_always_fails(
                self.module_spec(),
                "main"@,
            ) ==> r is Err,
            self.immediate_result("main"@) matches Some(v) ==> r == Ok::<RunResult, Vec<Diagnostic>>(RunResult { value: v }),
    {
        proof {
            assert forall|a: StandardRuntimeAction| crate::standard_runtime::qualified_text(a) != "main"@ by {
                crate::standard_runtime::lemma_no_runtime_main(a);
            }
        }
        let action = match self.find_action("main") {
            Some(a) => a,
            None => {
                return runtime_fail(&self.module.span, String::from_str("run requires an action named `main`"));
            },
        };
        if action.params.len() != 0 {
            return runtime_fail(&action.span, String::from_str("run only supports `main()` with no parameters"));
        }
        let value = self.call_action("main", Vec::new())?;
        Ok(RunResult { value })
    }

    /// Runs every test, in declaration order, and reports each outcome. A
    /// failed `expect` fails its test without stopping it; a test passes
    /// exactly when none of its expectations failed.
    pub fn run_tests(&self) -> (r: Result<Vec<TestResult>, Vec<Diagnostic>>)
        ensures
            exec_outcome(r),
            r matches Ok(results) ==> results@.len() == test_names(self.module_spec().declarations@).len()
                && forall|i: int| 0 <= i < results@.len() ==> (#[trigger] results@[i]).name@
                    == test_names(self.module_spec().declarations@)[i]
                    && (results@[i].passed <==> results@[i].failures@.len() == 0),
    {
        let mut budget = Budget::unlimited();
        let mut results: Vec<TestResult> = Vec::new();
        let decls = &self.module.declarations;
        let mut i: usize = 0;
        while i < decls.len()
            invariant
                i <= decls@.len(),
                decls == &self.module.declarations,
                results@.len() == test_names(decls@.subrange(0, i as int)).len(),
                forall|k: int| 0 <= k < results@.len() ==> (#[trigger] results@[k]).name@
                    == test_names(decls@.subrange(0, i as int))[k]
                    && (results@[k].passed <==> results@[k].failures@.len() == 0),
            decreases decls@.len() - i,
        {
            proof {
                assert(decls@.subrange(0, i + 1).drop_last() =~= decls@.subrange(0, i as int));
            }
            if let TypedDecl::Test(test_decl) = &decls[i] {
                let mut env = env_snapshot(&self.globals);
                let mut failures: Vec<TestFailure> = Vec::new();
                let flow = self.execute_block(&test_decl.body, &mut env, &mut failures, true, &mut budget)?;
                if !matches!(flow, ExecFlow::Continue) {
                    return runtime_fail(&test_decl.span, String::from_str("test blocks may not use return, break, or continue"));
                }
                let passed = failures.len() == 0;
                results.push(TestResult { name: test_decl.name.clone(), passed, failures });
            }
            i = i + 1;
        }
        proof {
            assert(decls@.subrange(0, decls@.len() as int) =~= decls@);
        }
        Ok(results)
    }

    /// Evaluates an expression with the module's constants in scope.
    pub fn eval_expression(&self, expr: &TypedExpr) -> (r: Result<Value, Vec<Diagnostic>>)
        ensures
            exec_outcome(r),
            pure_value(*expr) matches Some(v) ==> r == Ok::<Value, Vec<Diagnostic>>(v),
    {
        let mut budget = Budget::unlimited();
        let mut env = env_snapshot(&self.globals);
        self.eval_expr(expr, &mut env, &mut budget)
    }

    /// Evaluates an expression with the module's constants in scope and the
    /// bindings of `env` over them.
    pub fn eval_expression_with_env(&self, expr: &TypedExpr, env: &Env) -> (r: Result<Value, Vec<Diagnostic>>)
        ensures
            exec_outcome(r),
            pure_value(*expr) matches Some(v) ==> r == Ok::<Value, Vec<Diagnostic>>(v),
    {
        let mut budget = Budget::unlimited();
        let mut local = env_snapshot(&self.globals);
        let mut i: usize = 0;
        while i < env.len()
            invariant
                i <= env@.len(),
            decreases env@.len() - i,
        {
            env_insert(&mut local, env[i].0.clone(), env[i].1.snapshot());
            i = i + 1;
        }
        self.eval_expr(expr, &mut local, &mut budget)
    }

    /// Executes one interactive statement against the session's bindings.
    pub fn execute_repl_statement(&self, stmt: &TypedStmt, env: &mut Env) -> (r: Result<(), Vec<Diagnostic>>)
        ensures
            exec_outcome(r),
            is_descriptive(stmt.kind) ==> r is Ok && *final(env) == *old(env),
            stmt.kind == TypedStmtKind::Return(None) ==> r is Err,
            stmt.kind matches TypedStmtKind::Return(Some(e)) ==> (pure_value(e) is Some ==> r is Err),
    {
        let mut budget = Budget::unlimited();
        let mut failures: Vec<TestFailure> = Vec::new();
        match self.execute_stmt(stmt, env, &mut failures, false, &mut budget)? {
            ExecFlow::Continue => Ok(()),
            _ => runtime_fail(&stmt.span, String::from_str("repl statement may not use return, break, or continue")),
        }
    }

    /// Calls the action, standard runtime action or extern `name`; the
    /// action's examples run too in `checked` and `debug` mode.
    pub fn call_action(&self, name: &str, args: Vec<Value>) -> (r: Result<Value, Vec<Diagnostic>>)
        ensures
            exec_outcome(r),
            self.calls_nothing(name@) ==> r is Err,
            self.contracts_refuse(name@) ==> r is Err,
            args@.len() == 0 ==> (self.immediate_result(name@) matches Some(v) ==> r == Ok::<Value, Vec<Diagnostic>>(v)),
    {
        let mut budget = Budget::unlimited();
        self.call_action_with_options(name, args, CallOptions { run_examples: true }, &mut budget)
    }

    /// Calls a callable by name: a standard runtime action, an extern, or an
    /// action of the module, whose contracts are enforced in `checked` and
    /// `debug` mode.
    fn call_action_with_options(&self, name: &str, args: Vec<Value>, options: CallOptions, budget: &mut Budget) -> (r: Result<Value, Vec<Diagnostic>>)
        ensures
            exec_outcome(r),
            final(budget).steps <= old(budget).steps,
            self.calls_nothing(name@) ==> r is Err,
            self.contracts_refuse(name@) ==> r is Err,
            args@.len() == 0 && old(budget).steps > 1 ==> (self.immediate_result(name@) matches Some(v) ==> r == Ok::<
                Value,
                Vec<Diagnostic>,
            >(v)),
        decreases old(budget).steps, *self.module, 0int,
    {
        budget.tick(&self.module.span)?;
        if let Some(action) = lookup_standard_runtime_name(name) {
            return self.call_standard_runtime(action, args, &self.module.span);
        }
        if self.externs.contains(name) {
            return self.externs.call(name, args, &self.module.span);
        }
        let action = match self.find_action(name) {
            Some(a) => a,
            None => {
                return runtime_fail(&self.module.span, concat3("unknown action `", name, "`"));
            },
        };
        if action.params.len() != args.len() {
            let mut m = concat3("action `", name, "` expected ");
            m.append(crate::text::usize_text(action.params.len()).as_str());
            m.append(" arguments, found ");
            m.append(crate::text::usize_text(args.len()).as_str());
            return runtime_fail(&action.span, m);
        }
        let mut env = env_snapshot(&self.globals);
        let mut remaining = args;
        let mut p: usize = 0;
        while p < action.params.len()
            invariant
                p <= action.params@.len(),
                remaining@.len() + p == action.params@.len(),
            decreases action.params@.len() - p,
        {
            let value = remaining.remove(0);
            let coerced = coerce_value_to_type(value, &action.params[p].1);
            env_insert(&mut env, action.params[p].0.clone(), coerced);
            p = p + 1;
        }
        if self.mode.enforces_checkable() {
            self.evaluate_requires(action, &mut env, budget)?;
        }
        let mut failures: Vec<TestFailure> = Vec::new();
        let result = match self.execute_block(&action.body, &mut env, &mut failures, false, budget)? {
            ExecFlow::Continue => Value::NoneValue,
            ExecFlow::Return(v) => v,
            ExecFlow::Break | ExecFlow::ContinueLoop => {
                return runtime_fail(&action.span, String::from_str("break/continue escaped its loop boundary"));
            },
        };
        if self.mode.enforces_checkable() {
            self.evaluate_ensures(action, &env, &result, budget)?;
            if options.run_examples {
                self.evaluate_examples(action, budget)?;
            }
        }
        Ok(coerce_value_to_type(result, action_result_type(&action.ty)))
    }

    /// Checks the action's `requires` clauses against its arguments.
    fn evaluate_requires(&self, action: &TypedActionDecl, env: &mut Env, budget: &mut Budget) -> (r: Result<(), Vec<Diagnostic>>)
        ensures
            exec_outcome(r),
            final(budget).steps <= old(budget).steps,
            requires_refused(*action) ==> r is Err,
            (forall|k: int| 0 <= k < action.body@.len() ==> !((#[trigger] action.body@[k]).kind is RequiresClause)) ==> r is Ok
                && final(budget).steps == old(budget).steps,
        decreases old(budget).steps, *action, 0int,
    {
        let mut i: usize = 0;
        while i < action.body.len()
            invariant
                i <= action.body@.len(),
                budget.steps <= old(budget).steps,
                (forall|k: int| 0 <= k < action.body@.len() ==> !((#[trigger] action.body@[k]).kind is RequiresClause))
                    ==> budget.steps == old(budget).steps,
                forall|k: int| 0 <= k < i ==> !false_requires(#[trigger] action.body@[k]),
            decreases action.body@.len() - i,
        {
            if let TypedStmtKind::RequiresClause(condition) = &action.body[i].kind {
                budget.tick(&condition.span)?;
                let value = self.eval_expr(condition, env, budget)?;
                if !value.as_bool(&condition.span)? {
                    return runtime_fail(&condition.span, concat("requires clause failed: ", render_typed_expr(condition).as_str()));
                }
            }
            i = i + 1;
        }
        Ok(())
    }

    /// Checks the action's `ensures` clauses, with `result` bound to the
    /// value it returned.
    fn evaluate_ensures(&self, action: &TypedActionDecl, env: &Env, result: &Value, budget: &mut Budget) -> (r: Result<(), Vec<Diagnostic>>)
        ensures
            exec_outcome(r),
            final(budget).steps <= old(budget).steps,
            ensures_refused(*action) ==> r is Err,
            (forall|k: int| 0 <= k < action.body@.len() ==> !((#[trigger] action.body@[k]).kind is EnsuresClause)) ==> r is Ok,
        decreases old(budget).steps, *action, 0int,
    {
        let mut ensures_env = env_snapshot(env);
        env_insert(&mut ensures_env, String::from_str("result"), result.snapshot());
        let mut i: usize = 0;
        while i < action.body.len()
            invariant
                i <= action.body@.len(),
                budget.steps <= old(budget).steps,
                forall|k: int| 0 <= k < i ==> !false_ensures(#[trigger] action.body@[k]),
            decreases action.body@.len() - i,
        {
            if let TypedStmtKind::EnsuresClause(condition) = &action.body[i].kind {
                budget.tick(&condition.span)?;
                let value = self.eval_expr(condition, &mut ensures_env, budget)?;
                if !value.as_bool(&condition.span)? {
                    return runtime_fail(&condition.span, concat("ensures clause failed: ", render_typed_expr(condition).as_str()));
                }
            }
            i = i + 1;
        }
        Ok(())
    }

    /// Runs the action's example blocks: each calls the action with its
    /// inputs and compares the outputs.
    fn evaluate_examples(&self, action: &TypedActionDecl, budget: &mut Budget) -> (r: Result<(), Vec<Diagnostic>>)
        ensures
            exec_outcome(r),
            final(budget).steps <= old(budget).steps,
            (forall|k: int| 0 <= k < action.body@.len() ==> !((#[trigger] action.body@[k]).kind is ExampleBlock)) ==> r
                == Ok::<(), Vec<Diagnostic>>(()),
        decreases old(budget).steps, *action, 0int,
    {
        let mut i: usize = 0;
        while i < action.body.len()
            invariant
                i <= action.body@.len(),
                budget.steps <= old(budget).steps,
            decreases action.body@.len() - i,
        {
            proof {
                assert(action.body@[i as int] == action.body@[i as int]);
            }
            let stmt = &action.body[i];
            if let TypedStmtKind::ExampleBlock { name, inputs, outputs } = &stmt.kind {
                let mut input_values: Env = Vec::new();
                let mut j: usize = 0;
                while j < inputs.len()
                    invariant
                        j <= inputs@.len(),
                        i < action.body@.len(),
                        action.body@[i as int].kind is ExampleBlock,
                        budget.steps <= old(budget).steps,
                    decreases inputs@.len() - j,
                {
                    budget.tick(&stmt.span)?;
                    let v = self.eval_example_expr(&inputs[j].1, budget)?;
                    env_insert(&mut input_values, inputs[j].0.clone(), v);
                    j = j + 1;
                }
                let mut args: Vec<Value> = Vec::new();
                let mut p: usize = 0;
                while p < action.params.len()
                    invariant
                        p <= action.params@.len(),
                        i < action.body@.len(),
                        action.body@[i as int].kind is ExampleBlock,
                        budget.steps <= old(budget).steps,
                    decreases action.params@.len() - p,
                {
                    let param_name = &action.params[p].0;
                    match crate::types::find_key(&input_values, param_name.as_str()) {
                        Some(k) => {
                            let (_, v) = input_values.remove(k);
                            args.push(v);
                        },
                        None => {
                            let mut m = concat3("example `", name.as_str(), "` is missing input `");
                            m.append(param_name.as_str());
                            m.append("`");
                            return runtime_fail(&stmt.span, m);
                        },
                    }
                    p = p + 1;
                }
                if input_values.len() != 0 {
                    let mut m = concat3("example `", name.as_str(), "` provides unknown input `");
                    m.append(input_values[0].0.as_str());
                    m.append("`");
                    return runtime_fail(&stmt.span, m);
                }
                budget.tick(&stmt.span)?;
                let actual = self.call_action_with_options(action.name.as_str(), args, CallOptions { run_examples: false }, budget)?;
                let mut k: usize = 0;
                while k < outputs.len()
                    invariant
                        k <= outputs@.len(),
                        i < action.body@.len(),
                        action.body@[i as int].kind is ExampleBlock,
                        budget.steps <= old(budget).steps,
                    decreases outputs@.len() - k,
                {
                    budget.tick(&stmt.span)?;
                    let mut expected = self.eval_example_expr(&outputs[k].1, budget)?;
                    if str_eq(outputs[k].0.as_str(), "result") {
                        expected = coerce_value_to_type(expected, action_result_type(&action.ty));
                    }
                    if !values_equal(&actual, &expected) {
                        let mut m = concat3("example `", name.as_str(), "` failed for output `");
                        m.append(outputs[k].0.as_str());
                        m.append("`: expected ");
                        m.append(expected.debug_text().as_str());
                        m.append(", found ");
                        m.append(actual.debug_text().as_str());
                        return runtime_fail(&stmt.span, m);
                    }
                    k = k + 1;
                }
            }
            i = i + 1;
        }
        Ok(())
    }

    /// Evaluates an example's input or output with only the constants in
    /// scope.
    fn eval_example_expr(&self, expr: &TypedExpr, budget: &mut Budget) -> (r: Result<Value, Vec<Diagnostic>>)
        ensures
            exec_outcome(r),
            final(budget).steps <= old(budget).steps,
            old(budget).steps > 0 ==> (pure_value(*expr) matches Some(v) ==> r == Ok::<Value, Vec<Diagnostic>>(v)),
        decreases old(budget).steps, *expr, 4int,
    {
        let mut env = env_snapshot(&self.globals);
        budget.tick(&expr.span)?;
        self.eval_expr(expr, &mut env, budget)
    }
}

impl<'a, H: RuntimeHost> Interpreter<'a, H> {
    /// Runs the body of a `for each` once for each item, in order, with
    /// `binding` bound to the item; a `break` ends the loop and a `return`
    /// leaves it with its value.
    fn run_for_each(&self, binding: &String, items: Vec<Value>, body: &Vec<TypedStmt>, env: &mut Env, failures: &mut Vec<TestFailure>, in_test: bool, budget: &mut Budget) -> (r: Result<ExecFlow, Vec<Diagnostic>>)
        ensures
            exec_outcome(r),
            final(budget).steps <= old(budget).steps,
            body@.len() == 0 && items@.len() > 0 ==> (r == Ok::<ExecFlow, Vec<Diagnostic>>(ExecFlow::Continue) && (env_lookup(
                final(env)@,
                binding@,
            ) matches Some(w) && value_same(w, items@.last()))),
            old(budget).steps > 0 && items@.len() > 0 ==> (returns_name(body@, binding@) matches Some(ty) ==> (r matches Ok(
                ExecFlow::Return(x),
            ) && exists|s: Value| value_same(s, items@[0]) && x == coerced(s, ty))),
            self.mode.spec_enforces_checkable() && in_test && old(budget).steps >= items@.len() && expects_name(body@, binding@)
                && all_bools(items@) ==> r == Ok::<ExecFlow, Vec<Diagnostic>>(ExecFlow::Continue) && final(failures)@.len()
                == old(failures)@.len() + count_false(items@),
        decreases old(budget).steps, *body, 1int,
    {
        let mut i: usize = 0;
        while i < items.len()
            invariant_except_break
                i == 0 ==> *budget == *old(budget),
            invariant
                i <= items@.len(),
                budget.steps <= old(budget).steps,
                i > 0 ==> !(old(budget).steps > 0 && items@.len() > 0 && returns_name(body@, binding@) is Some),
                body@.len() == 0 && i > 0 ==> (env_lookup(env@, binding@) matches Some(w) && value_same(w, items@[i - 1])),
                self.mode.spec_enforces_checkable() && in_test && old(budget).steps >= items@.len() && expects_name(body@, binding@)
                    && all_bools(items@) ==> budget.steps == old(budget).steps - i && failures@.len() == old(failures)@.len()
                    + count_false(items@.take(i as int)),
            ensures
                self.mode.spec_enforces_checkable() && in_test && old(budget).steps >= items@.len() && expects_name(body@, binding@)
                    && all_bools(items@) ==> i == items@.len() && failures@.len() == old(failures)@.len() + count_false(items@.take(i as int)),
                budget.steps <= old(budget).steps,
                body@.len() == 0 ==> i == items@.len(),
                body@.len() == 0 && i > 0 ==> (env_lookup(env@, binding@) matches Some(w) && value_same(w, items@[i - 1])),
                items@.len() > 0 ==> !(old(budget).steps > 0 && returns_name(body@, binding@) is Some),
            decreases items@.len() - i,
        {
            let item = items[i].snapshot();
            let ghost bound = item;
            let ghost pre = env@;
            env_insert(env, binding.clone(), item);
            proof {
                bind_then_lookup(pre, *binding, bound, binding@);
                assert(items@.take(i + 1).drop_last() =~= items@.take(i as int));
                if all_bools(items@) {
                    assert(items@[i as int] is Bool);
                }
                if i == 0 && returns_name(body@, binding@) is Some {
                    assert(returned_binding(body@[0].kind, env@) == Some((bound, returns_name(body@, binding@)->0)));
                }
            }
            match self.execute_block(body, env, failures, in_test, budget)? {
                ExecFlow::Continue => {},
                ExecFlow::ContinueLoop => {},
                ExecFlow::Break => {
                    break;
                },
                ExecFlow::Return(v) => {
                    proof {
                        if i == 0 && old(budget).steps > 0 && returns_name(body@, binding@) is Some {
                            let ty = returns_name(body@, binding@)->0;
                            let s1 = choose|s1: Value| value_same(s1, bound) && v == coerced(s1, ty);
                            value_same_is_transitive(s1, bound, items@[0]);
                        }
                    }
                    return Ok(ExecFlow::Return(v));
                },
            }
            i = i + 1;
        }
        proof {
            assert(items@.take(items@.len() as int) =~= items@);
        }
        Ok(ExecFlow::Continue)
    }

    /// Executes the statements of a block until one leaves it.
    fn execute_block(&self, block: &Vec<TypedStmt>, env: &mut Env, failures: &mut Vec<TestFailure>, in_test: bool, budget: &mut Budget) -> (r: Result<ExecFlow, Vec<Diagnostic>>)
        ensures
            exec_outcome(r),
            final(budget).steps <= old(budget).steps,
            block@.len() == 0 ==> r == Ok::<ExecFlow, Vec<Diagnostic>>(ExecFlow::Continue) && *final(env) == *old(env)
                && *final(failures) == *old(failures),
            old(budget).steps > 0 ==> (immediate_return(block@) matches Some(v) ==> r == Ok::<ExecFlow, Vec<Diagnostic>>(
                ExecFlow::Return(v),
            )),
            old(budget).steps > 0 && block@.len() > 0 ==> (returned_binding(block@[0].kind, old(env)@) matches Some((v, ty)) ==> (
            r matches Ok(ExecFlow::Return(x)) && exists|s: Value| value_same(s, v) && x == coerced(s, ty))),
            old(budget).steps > 0 && self.mode.spec_enforces_checkable() && in_test && block@.len() == 1 ==> (expect_bound_bool(
                block@[0].kind,
                old(env)@,
            ) matches Some(b) ==> (r == Ok::<ExecFlow, Vec<Diagnostic>>(ExecFlow::Continue) && final(budget).steps == old(
                budget,
            ).steps - 1 && final(failures)@.len() == old(failures)@.len() + if b {
                0nat
            } else {
                1nat
            })),
        decreases old(budget).steps, *block, 0int,
    {
        let mut i: usize = 0;
        while i < block.len()
            invariant
                i <= block@.len(),
                budget.steps <= old(budget).steps,
                i == 0 ==> *budget == *old(budget) && *env == *old(env) && *failures == *old(failures),
                i > 0 ==> !(immediate_return(block@) is Some && old(budget).steps > 0),
                i > 0 ==> !(returned_binding(block@[0].kind, old(env)@) is Some && old(budget).steps > 0),
                old(budget).steps > 0 && self.mode.spec_enforces_checkable() && in_test && block@.len() == 1 && i == 1 ==> (
                expect_bound_bool(block@[0].kind, old(env)@) matches Some(b) ==> (budget.steps == old(budget).steps - 1
                    && failures@.len() == old(failures)@.len() + if b {
                    0nat
                } else {
                    1nat
                })),
            decreases block@.len() - i,
        {
            proof {
                assert(decreases_to!(*block => block@[i as int]));
            }
            match self.execute_stmt(&block[i], env, failures, in_test, budget)? {
                ExecFlow::Continue => {},
                flow => {
                    return Ok(flow);
                },
            }
            i = i + 1;
        }
        Ok(ExecFlow::Continue)
    }

    /// Executes one statement.
    fn execute_stmt(&self, stmt: &TypedStmt, env: &mut Env, failures: &mut Vec<TestFailure>, in_test: bool, budget: &mut Budget) -> (r: Result<ExecFlow, Vec<Diagnostic>>)
        ensures
            exec_outcome(r),
            old(budget).steps > 0 ==> (stmt.kind matches TypedStmtKind::ForEach { binding, iterable, body } ==> (bound_list(
                iterable,
                old(env)@,
            ) matches Some(vs) ==> (body@.len() == 0 && vs.len() > 0 ==> (r == Ok::<ExecFlow, Vec<Diagnostic>>(
                ExecFlow::Continue,
            ) && (env_lookup(final(env)@, binding@) matches Some(w) && value_same(w, vs.last())))))),
            old(budget).steps > 1 ==> (stmt.kind matches TypedStmtKind::ForEach { binding, iterable, body } ==> (bound_list(
                iterable,
                old(env)@,
            ) matches Some(vs) ==> (returns_name(body@, binding@) matches Some(ty) ==> (vs.len() > 0 ==> (r matches Ok(
                ExecFlow::Return(x),
            ) && exists|s: Value| value_same(s, vs[0]) && x == coerced(s, ty)))))),
            old(budget).steps > 0 ==> (returned_binding(stmt.kind, old(env)@) matches Some((v, ty)) ==> (r matches Ok(
                ExecFlow::Return(x),
            ) && exists|s: Value| value_same(s, v) && x == coerced(s, ty))),
            old(budget).steps > 0 && self.mode.spec_enforces_checkable() && in_test ==> (expect_bound_bool(stmt.kind, old(env)@) matches Some(
                b,
            ) ==> (r == Ok::<ExecFlow, Vec<Diagnostic>>(ExecFlow::Continue) && final(budget).steps == old(budget).steps - 1
                && *final(env) == *old(env) && final(failures)@.len() == old(failures)@.len() + if b {
                0nat
            } else {
                1nat
            })),
            self.mode.spec_enforces_checkable() && in_test ==> (stmt.kind matches TypedStmtKind::ForEach { binding, iterable, body } ==> (
            bound_list(iterable, old(env)@) matches Some(vs) ==> (old(budget).steps > vs.len() && expects_name(body@, binding@)
                && all_bools(vs) ==> r == Ok::<ExecFlow, Vec<Diagnostic>>(ExecFlow::Continue) && final(failures)@.len()
                == old(failures)@.len() + count_false(vs)))),
            final(budget).steps <= old(budget).steps,
            is_descriptive(stmt.kind) && old(budget).steps > 0 ==> (r matches Ok(f) && f is Continue)
                && *final(env) == *old(env) && *final(failures) == *old(failures),
            old(budget).steps > 0 ==> match stmt.kind {
                TypedStmtKind::Return(None) => r == Ok::<ExecFlow, Vec<Diagnostic>>(ExecFlow::Return(Value::NoneValue)),
                TypedStmtKind::Return(Some(e)) => pure_value(e) matches Some(v) ==> r == Ok::<ExecFlow, Vec<Diagnostic>>(
                    ExecFlow::Return(v),
                ),
                TypedStmtKind::Assign { target, value } => match target {
                    TypedTarget::Name { symbol, ty, .. } => pure_value(value) matches Some(v) ==> r == Ok::<
                        ExecFlow,
                        Vec<Diagnostic>,
                    >(ExecFlow::Continue) && final(env)@ == env_bind(old(env)@, symbol.name, coerced(v, ty)),
                    _ => true,
                },
                TypedStmtKind::Break => r == Ok::<ExecFlow, Vec<Diagnostic>>(ExecFlow::Break),
                TypedStmtKind::Continue => r == Ok::<ExecFlow, Vec<Diagnostic>>(ExecFlow::ContinueLoop),
                TypedStmtKind::Expect(e) => expect_outcome(
                    self.mode.spec_enforces_checkable(),
                    pure_value(e),
                    in_test,
                    r,
                    old(failures)@.len(),
                    final(failures)@.len(),
                ),
                _ => true,
            },
            old(budget).steps > 0 ==> match stmt.kind {
                TypedStmtKind::Let { pattern, ty, value } | TypedStmtKind::Var { pattern, ty, value } => (pattern.kind matches TypedBindingPatternKind::Name(
                    b,
                ) ==> (pure_value(value) matches Some(v) ==> r == Ok::<ExecFlow, Vec<Diagnostic>>(ExecFlow::Continue) && final(env)@
                    == env_bind(old(env)@, b.name, coerced(v, ty)))),
                _ => true,
            },
            old(budget).steps > 0 && self.mode.spec_enforces_checkable() && in_test ==> (stmt.kind matches TypedStmtKind::Expect(e)
                ==> (pure_value(e) == Some(Value::Bool(false)) ==> final(failures)@.last().span == e.span
                && final(failures)@.last().message@ == "expect expression evaluated to false"@)),
        decreases old(budget).steps, *stmt, 0int,
    {
        budget.tick(&stmt.span)?;
        match &stmt.kind {
            TypedStmtKind::IntentBlock { .. } | TypedStmtKind::ExplainBlock { .. } => Ok(ExecFlow::Continue),
            TypedStmtKind::StepBlock { label, body } => {
                if matches!(self.mode, ExecutionMode::Debug) {
                    let _ = self.host.write_console(label.as_str(), true, true);
                }
                self.execute_block(body, env, failures, in_test, budget)
            },
            TypedStmtKind::RequiresClause(_) | TypedStmtKind::EnsuresClause(_) | TypedStmtKind::ExampleBlock { .. } => Ok(ExecFlow::Continue),
            TypedStmtKind::Let { pattern, ty, value } => {
                let v = self.eval_expr(value, env, budget)?;
                bind_pattern(pattern, coerce_value_to_type(v, ty), env, &stmt.span)?;
                Ok(ExecFlow::Continue)
            },
            TypedStmtKind::Var { pattern, ty, value } => {
                let v = self.eval_expr(value, env, budget)?;
                bind_pattern(pattern, coerce_value_to_type(v, ty), env, &stmt.span)?;
                Ok(ExecFlow::Continue)
            },
            TypedStmtKind::Assign { target, value } => {
                let v = self.eval_expr(value, env, budget)?;
                let new_value = coerce_value_to_type(v, target.ty());
                self.assign_target(target, new_value, env, budget)?;
                Ok(ExecFlow::Continue)
            },
            TypedStmtKind::If { branches, else_branch } => {
                let mut i: usize = 0;
                while i < branches.len()
                    invariant
                        !(stmt.kind is Return || stmt.kind is Break || stmt.kind is Continue || stmt.kind is Expect || stmt.kind is Assign || stmt.kind is Let || stmt.kind is Var || stmt.kind is ForEach),
                        !is_descriptive(stmt.kind),
                        i <= branches@.len(),
                        budget.steps < old(budget).steps,
                    decreases branches@.len() - i,
                {
                    let condition = &branches[i].0;
                    let c = self.eval_expr(condition, env, budget)?;
                    if c.as_bool(&condition.span)? {
                        return self.execute_block(&branches[i].1, env, failures, in_test, budget);
                    }
                    i = i + 1;
                }
                self.execute_block(else_branch, env, failures, in_test, budget)
            },
            TypedStmtKind::While { condition, body } => {
                loop
                    invariant
                        !(stmt.kind is Return || stmt.kind is Break || stmt.kind is Continue || stmt.kind is Expect || stmt.kind is Assign || stmt.kind is Let || stmt.kind is Var || stmt.kind is ForEach),
                        !is_descriptive(stmt.kind),
                        budget.steps < old(budget).steps,
                    decreases budget.steps,
                {
                    let c = self.eval_expr(condition, env, budget)?;
                    if !c.as_bool(&condition.span)? {
                        break;
                    }
                    budget.tick(&stmt.span)?;
                    match self.execute_block(body, env, failures, in_test, budget)? {
                        ExecFlow::Continue => {},
                        ExecFlow::ContinueLoop => {},
                        ExecFlow::Break => {
                            break;
                        },
                        ExecFlow::Return(v) => {
                            return Ok(ExecFlow::Return(v));
                        },
                    }
                }
                Ok(ExecFlow::Continue)
            },
            TypedStmtKind::ForEach { binding, iterable, body } => {
                let ghost listed = bound_list(*iterable, env@);
                let ghost env_before = env@;
                let iterable_value = self.eval_expr(iterable, env, budget)?;
                proof {
                    if listed is Some {
                        if let TypedExprKind::Symbol(sym) = &iterable.kind {
                            let v = env_lookup(env_before, sym.name@).unwrap();
                            let s0 = choose|s0: Value| value_same(s0, v) && iterable_value == coerced(s0, iterable.ty);
                            assert(coerced(s0, iterable.ty) == s0);
                            if let Value::List(xs) = &iterable_value {
                                if let Value::List(vv) = v {
                                    lemma_values_same(xs@, vv@);
                                }
                            }
                        }
                    }
                }
                let items = match iterable_value {
                    Value::List(items) => items,
                    other => {
                        return runtime_fail(&stmt.span, concat("for-each expects a list, found ", other.debug_text().as_str()));
                    },
                };
                let ghost listed_items = items@;
                proof {
                    if let Some(vs) = listed {
                        if all_bools(vs) {
                            assert forall|k: int| 0 <= k < vs.len() implies listed_items[k] == vs[k] by {
                                assert(value_same(listed_items[k], vs[k]));
                                assert(vs[k] is Bool);
                            }
                            assert(listed_items =~= vs);
                        }
                    }
                }
                let flow = self.run_for_each(binding, items, body, env, failures, in_test, budget);
                proof {
                    if let Some(vs) = listed {
                        if vs.len() > 0 {
                            assert(value_same(listed_items[vs.len() - 1], vs[vs.len() - 1]));
                            assert(value_same(listed_items[0], vs[0]));
                            if body@.len() == 0 {
                                let w = env_lookup(env@, binding@).unwrap();
                                value_same_is_transitive(w, listed_items.last(), vs.last());
                            }
                            if let Some(ty) = returns_name(body@, binding@) {
                                if let (true, Ok(ExecFlow::Return(x))) = (old(budget).steps > 1, &flow) {
                                    let s1 = choose|s1: Value| value_same(s1, listed_items[0]) && *x == coerced(s1, ty);
                                    value_same_is_transitive(s1, listed_items[0], vs[0]);
                                }
                            }
                        }
                    }
                }
                flow
            },
            TypedStmtKind::Match { scrutinee, arms } => {
                let value = self.eval_expr(scrutinee, env, budget)?;
                let mut i: usize = 0;
                while i < arms.len()
                    invariant
                        !(stmt.kind is Return || stmt.kind is Break || stmt.kind is Continue || stmt.kind is Expect || stmt.kind is Assign || stmt.kind is Let || stmt.kind is Var || stmt.kind is ForEach),
                        !is_descriptive(stmt.kind),
                        i <= arms@.len(),
                        budget.steps < old(budget).steps,
                    decreases arms@.len() - i,
                {
                    let arm = &arms[i];
                    let mut bindings: Env = Vec::new();
                    if match_pattern(&arm.pattern, &value, &mut bindings) {
                        let mut saved: Vec<(String, Option<Value>)> = Vec::new();
                        let mut k: usize = 0;
                        while k < bindings.len()
                            invariant
                                !(stmt.kind is Return || stmt.kind is Break || stmt.kind is Continue || stmt.kind is Expect || stmt.kind is Assign || stmt.kind is Let || stmt.kind is Var || stmt.kind is ForEach),
                                !is_descriptive(stmt.kind),
                                k <= bindings@.len(),
                            decreases bindings@.len() - k,
                        {
                            let previous = match env_get(env, bindings[k].0.as_str()) {
                                Some(v) => Some(v.snapshot()),
                                None => None,
                            };
                            saved.push((bindings[k].0.clone(), previous));
                            env_insert(env, bindings[k].0.clone(), bindings[k].1.snapshot());
                            k = k + 1;
                        }
                        let flow = self.execute_block(&arm.body, env, failures, in_test, budget);
                        let mut j: usize = saved.len();
                        while j > 0
                            invariant
                                !(stmt.kind is Return || stmt.kind is Break || stmt.kind is Continue || stmt.kind is Expect || stmt.kind is Assign || stmt.kind is Let || stmt.kind is Var || stmt.kind is ForEach),
                                !is_descriptive(stmt.kind),
                                j <= saved@.len(),
                            decreases j,
                        {
                            j = j - 1;
                            match &saved[j].1 {
                                Some(v) => env_insert(env, saved[j].0.clone(), v.snapshot()),
                                None => env_remove(env, saved[j].0.as_str()),
                            }
                        }
                        return flow;
                    }
                    i = i + 1;
                }
                runtime_fail(&stmt.span, concat("no match arm matches value ", value.debug_text().as_str()))
            },
            TypedStmtKind::Return(expr) => match expr {
                Some(e) => {
                    let v = self.eval_expr(e, env, budget)?;
                    Ok(ExecFlow::Return(v))
                },
                None => Ok(ExecFlow::Return(Value::NoneValue)),
            },
            TypedStmtKind::Break => Ok(ExecFlow::Break),
            TypedStmtKind::Continue => Ok(ExecFlow::ContinueLoop),
            TypedStmtKind::Expect(expr) => {
                if !self.mode.enforces_checkable() {
                    return Ok(ExecFlow::Continue);
                }
                let value = self.eval_expr(expr, env, budget)?;
                if !value.as_bool(&expr.span)? {
                    if in_test {
                        failures.push(TestFailure {
                            span: expr.span.duplicate(),
                            message: String::from_str("expect expression evaluated to false"),
                        });
                    } else {
                        return runtime_fail(&expr.span, String::from_str("expect expression evaluated to false"));
                    }
                }
                Ok(ExecFlow::Continue)
            },
            TypedStmtKind::Expr(expr) => {
                let _ = self.eval_expr(expr, env, budget)?;
                Ok(ExecFlow::Continue)
            },
        }
    }

    /// Collects the root name and the steps of an assignment target,
    /// evaluating its index expressions from the outside in.
    fn target_path(&self, target: &TypedTarget, env: &mut Env, budget: &mut Budget) -> (r: Result<(String, Vec<PathStep>), Vec<Diagnostic>>)
        ensures
            exec_outcome(r),
            final(budget).steps <= old(budget).steps,
            target matches TypedTarget::Name { symbol, .. } ==> (r matches Ok(p) && p.0 == symbol.name && p.1@.len() == 0
                && *final(env) == *old(env)),
        decreases old(budget).steps, *target, 0int,
    {
        match target {
            TypedTarget::Name { symbol, .. } => Ok((symbol.name.clone(), Vec::new())),
            TypedTarget::Field { base, field, .. } => {
                proof {
                    assert(decreases_to!(*target => **base));
                }
                let (root, mut steps) = self.target_path(base, env, budget)?;
                steps.push(PathStep::Field(field.clone()));
                Ok((root, steps))
            },
            TypedTarget::Index { base, index, .. } => {
                proof {
                    assert(decreases_to!(*target => **base));
                }
                budget.tick(target.span())?;
                let key = self.eval_expr(index, env, budget)?;
                let (root, mut steps) = self.target_path(base, env, budget)?;
                steps.push(PathStep::Index(key));
                Ok((root, steps))
            },
        }
    }

    /// Stores `value` at the place the target denotes.
    fn assign_target(&self, target: &TypedTarget, value: Value, env: &mut Env, budget: &mut Budget) -> (r: Result<(), Vec<Diagnostic>>)
        ensures
            exec_outcome(r),
            final(budget).steps <= old(budget).steps,
            target matches TypedTarget::Name { symbol, .. } ==> r is Ok && final(env)@ == env_bind(old(env)@, symbol.name, value),
        decreases old(budget).steps, *target, 1int,
    {
        let (root, steps) = self.target_path(target, env, budget)?;
        if steps.len() == 0 {
            env_insert(env, root, value);
            return Ok(());
        }
        let current = match env_get(env, root.as_str()) {
            Some(v) => v.snapshot(),
            None => {
                return runtime_fail(target.span(), concat3("unknown runtime symbol `", root.as_str(), "`"));
            },
        };
        let updated = set_in(current, &steps, 0, value, target.span())?;
        env_insert(env, root, updated);
        Ok(())
    }

    /// Evaluates an expression, storing the result at its type.
    fn eval_expr(&self, expr: &TypedExpr, env: &mut Env, budget: &mut Budget) -> (r: Result<Value, Vec<Diagnostic>>)
        ensures
            exec_outcome(r),
            final(budget).steps <= old(budget).steps,
            pure_value(*expr) matches Some(v) ==> r == Ok::<Value, Vec<Diagnostic>>(v),
            pure_value(*expr) is Some ==> *final(env) == *old(env),
            match expr.kind {
                TypedExprKind::Symbol(sym) => env_lookup(old(env)@, sym.name@) matches Some(v) ==> (r matches Ok(x)
                    && exists|s: Value| value_same(s, v) && x == coerced(s, expr.ty)),
                _ => true,
            },
            expr.kind is Symbol ==> *final(budget) == *old(budget) && *final(env) == *old(env),
        decreases old(budget).steps, *expr, 3int,
    {
        let value = match &expr.kind {
            TypedExprKind::Literal(literal) => literal_value(literal),
            TypedExprKind::Symbol(symbol) => self.resolve_symbol(symbol, env, &expr.span)?,
            TypedExprKind::VariantConstructor { variant_type, variant_name, field_names, args } => {
                proof {
                    assert forall|i: int| 0 <= i < args@.len() implies decreases_to!(*expr => #[trigger] args@[i]) by {
                        assert(decreases_to!(*expr => args@[i]));
                    }
                }
                let mut values = self.eval_list(args, env, budget, Ghost(*expr))?;
                let owner = variant_type.as_str();
                let name = variant_name.as_str();
                if str_eq(owner, "Option") || str_eq(owner, "Result") {
                    if str_eq(name, "None") {
                        Value::OptionNone
                    } else if values.len() != 1 {
                        return runtime_fail(&expr.span, concat3("`", name, "(...)` expects exactly one argument"));
                    } else {
                        let payload = values.remove(0);
                        if str_eq(name, "Some") {
                            Value::OptionSome(Box::new(payload))
                        } else if str_eq(name, "Ok") {
                            Value::ResultOk(Box::new(payload))
                        } else {
                            Value::ResultErr(Box::new(payload))
                        }
                    }
                } else {
                    let mut fields: Vec<(String, Value)> = Vec::new();
                    let mut i: usize = 0;
                    while values.len() > 0 && i < field_names.len()
                        invariant
                            i <= field_names@.len(),
                        decreases field_names@.len() - i,
                    {
                        let v = values.remove(0);
                        fields.push((field_names[i].clone(), v));
                        i = i + 1;
                    }
                    Value::Variant { enum_name: variant_type.clone(), variant: variant_name.clone(), fields }
                }
            },
            TypedExprKind::Call { callee, args } => {
                proof {
                    assert(decreases_to!(*expr => **callee));
                    assert forall|i: int| 0 <= i < args@.len() implies decreases_to!(*expr => #[trigger] args@[i].expr) by {
                        assert(decreases_to!(*expr => args@[i].expr));
                    }
                }
                self.eval_call(callee, args, env, &expr.span, budget, Ghost(*expr))?
            },
            TypedExprKind::FieldAccess { base, field } => {
                let base_value = self.eval_expr(base, env, budget)?;
                match base_value {
                    Value::Record(mut fields) => match crate::types::find_key(&fields, field.as_str()) {
                        Some(p) => fields.remove(p).1,
                        None => {
                            return runtime_fail(&expr.span, concat3("record field `", field.as_str(), "` is missing"));
                        },
                    },
                    other => {
                        return runtime_fail(&expr.span, concat("field access requires a record, found ", other.debug_text().as_str()));
                    },
                }
            },
            TypedExprKind::ResultIsOk { target } => match self.eval_expr(target, env, budget)? {
                Value::ResultOk(_) => Value::Bool(true),
                Value::ResultErr(_) => Value::Bool(false),
                other => {
                    return runtime_fail(&expr.span, concat("built-in operation `is_ok()` expected Result runtime value, found ", runtime_variant_name(&other)));
                },
            },
            TypedExprKind::ResultIsErr { target } => match self.eval_expr(target, env, budget)? {
                Value::ResultOk(_) => Value::Bool(false),
                Value::ResultErr(_) => Value::Bool(true),
                other => {
                    return runtime_fail(&expr.span, concat("built-in operation `is_err()` expected Result runtime value, found ", runtime_variant_name(&other)));
                },
            },
            TypedExprKind::ResultValue { target } => match self.eval_expr(target, env, budget)? {
                Value::ResultOk(v) => *v,
                Value::ResultErr(_) => {
                    return Err(crate::diagnostics::one(invalid_access_error(&expr.span, "InvalidResultValueAccess", "value()", "Err")));
                },
                other => {
                    return runtime_fail(&expr.span, concat("built-in operation `value()` expected Result runtime value, found ", runtime_variant_name(&other)));
                },
            },
            TypedExprKind::ResultError { target } => match self.eval_expr(target, env, budget)? {
                Value::ResultErr(v) => *v,
                Value::ResultOk(_) => {
                    return Err(crate::diagnostics::one(invalid_access_error(&expr.span, "InvalidResultErrorAccess", "error()", "Ok")));
                },
                other => {
                    return runtime_fail(&expr.span, concat("built-in operation `error()` expected Result runtime value, found ", runtime_variant_name(&other)));
                },
            },
            TypedExprKind::OptionIsSome { target } => match self.eval_expr(target, env, budget)? {
                Value::OptionSome(_) => Value::Bool(true),
                Value::OptionNone => Value::Bool(false),
                other => {
                    return runtime_fail(&expr.span, concat("built-in operation `is_some()` expected Option runtime value, found ", runtime_variant_name(&other)));
                },
            },
            TypedExprKind::OptionIsNone { target } => match self.eval_expr(target, env, budget)? {
                Value::OptionSome(_) => Value::Bool(false),
                Value::OptionNone => Value::Bool(true),
                other => {
                    return runtime_fail(&expr.span, concat("built-in operation `is_none()` expected Option runtime value, found ", runtime_variant_name(&other)));
                },
            },
            TypedExprKind::OptionValue { target } => match self.eval_expr(target, env, budget)? {
                Value::OptionSome(v) => *v,
                Value::OptionNone => {
                    return Err(crate::diagnostics::one(invalid_access_error(&expr.span, "InvalidOptionValueAccess", "value()", "None")));
                },
                other => {
                    return runtime_fail(&expr.span, concat("built-in operation `value()` expected Option runtime value, found ", runtime_variant_name(&other)));
                },
            },
            TypedExprKind::Index { base, index } => {
                let base_value = self.eval_expr(base, env, budget)?;
                let index_value_ = self.eval_expr(index, env, budget)?;
                index_value(base_value, index_value_, &expr.span)?
            },
            TypedExprKind::Unary { op, expr: inner } => {
                let v = self.eval_expr(inner, env, budget)?;
                match op {
                    UnaryOp::Negate => match v {
                        Value::Int(i) => {
                            if i == i64::MIN {
                                return runtime_fail(&expr.span, concat3("integer negation of ", i64_text(i).as_str(), " overflows"));
                            }
                            Value::Int(-i)
                        },
                        Value::Dec(d) => Value::Dec(negate_decimal(d.as_str())),
                        other => {
                            return runtime_fail(&expr.span, concat("cannot negate value ", other.debug_text().as_str()));
                        },
                    },
                    UnaryOp::Not => Value::Bool(!v.as_bool(&expr.span)?),
                }
            },
            TypedExprKind::Binary { left, op, right } => {
                let l = self.eval_expr(left, env, budget)?;
                let r = self.eval_expr(right, env, budget)?;
                eval_binary(*op, l, r, &expr.span)?
            },
            TypedExprKind::List(items) => {
                proof {
                    assert forall|i: int| 0 <= i < items@.len() implies decreases_to!(*expr => #[trigger] items@[i]) by {
                        assert(decreases_to!(*expr => items@[i]));
                    }
                }
                Value::List(self.eval_list(items, env, budget, Ghost(*expr))?)
            },
            TypedExprKind::Tuple(items) => {
                proof {
                    assert forall|i: int| 0 <= i < items@.len() implies decreases_to!(*expr => #[trigger] items@[i]) by {
                        assert(decreases_to!(*expr => items@[i]));
                    }
                }
                Value::List(self.eval_list(items, env, budget, Ghost(*expr))?)
            },
            TypedExprKind::MapLiteral(entries) => {
                proof {
                    assert forall|k: int| 0 <= k < entries@.len() implies decreases_to!(*expr => #[trigger] entries@[k].0) by {
                        assert(decreases_to!(*expr => entries@[k].0));
                    }
                    assert forall|k: int| 0 <= k < entries@.len() implies decreases_to!(*expr => #[trigger] entries@[k].1) by {
                        assert(decreases_to!(*expr => entries@[k].1));
                    }
                }
                let mut pairs: Vec<(Value, Value)> = Vec::new();
                let mut i: usize = 0;
                while i < entries.len()
                    invariant
                        i <= entries@.len(),
                        budget.steps <= old(budget).steps,
                        pure_value(*expr) is None,
                        !(expr.kind is Symbol),
                        forall|k: int| 0 <= k < entries@.len() ==> decreases_to!(*expr => #[trigger] entries@[k].0),
                        forall|k: int| 0 <= k < entries@.len() ==> decreases_to!(*expr => #[trigger] entries@[k].1),
                    decreases entries@.len() - i,
                {
                    proof {
                        assert(decreases_to!(*expr => entries@[i as int].0));
                        assert(decreases_to!(*expr => entries@[i as int].1));
                    }
                    let k = self.eval_expr(&entries[i].0, env, budget)?;
                    let v = self.eval_expr(&entries[i].1, env, budget)?;
                    pairs.push((k, v));
                    i = i + 1;
                }
                Value::MapValue(pairs)
            },
        };
        Ok(coerce_value_to_type(value, &expr.ty))
    }

    /// Evaluates a list of expressions that are parts of `parent`, in order.
    fn eval_list(&self, items: &Vec<TypedExpr>, env: &mut Env, budget: &mut Budget, Ghost(parent): Ghost<TypedExpr>) -> (r: Result<Vec<Value>, Vec<Diagnostic>>)
        requires
            forall|i: int| 0 <= i < items@.len() ==> decreases_to!(parent => #[trigger] items@[i]),
        ensures
            exec_outcome(r),
            final(budget).steps <= old(budget).steps,
            r matches Ok(vs) ==> vs@.len() == items@.len() && forall|k: int|
                0 <= k < items@.len() ==> (pure_value(#[trigger] items@[k]) matches Some(v) ==> vs@[k] == v),
            (forall|k: int| 0 <= k < items@.len() ==> pure_value(#[trigger] items@[k]) is Some) ==> (r is Ok
                && *final(env) == *old(env)),
        decreases old(budget).steps, parent, 2int,
    {
        let ghost env0 = *env;
        let mut out: Vec<Value> = Vec::new();
        let mut i: usize = 0;
        while i < items.len()
            invariant
                i <= items@.len(),
                budget.steps <= old(budget).steps,
                forall|k: int| 0 <= k < items@.len() ==> decreases_to!(parent => #[trigger] items@[k]),
                out@.len() == i,
                forall|k: int| 0 <= k < i ==> (pure_value(#[trigger] items@[k]) matches Some(v) ==> out@[k] == v),
                (forall|k: int| 0 <= k < items@.len() ==> pure_value(#[trigger] items@[k]) is Some) ==> *env == env0,
            decreases items@.len() - i,
        {
            proof {
                assert(decreases_to!(parent => items@[i as int]));
            }
            let v = self.eval_expr(&items[i], env, budget)?;
            out.push(v);
            i = i + 1;
        }
        Ok(out)
    }

    /// Evaluates a call: `Some(x)`, a record construction, or a call of a
    /// callable value with evaluated arguments.
    fn eval_call(&self, callee: &TypedExpr, args: &Vec<TypedCallArg>, env: &mut Env, span: &SourceSpan, budget: &mut Budget, Ghost(parent): Ghost<TypedExpr>) -> (r: Result<Value, Vec<Diagnostic>>)
        requires
            decreases_to!(parent => *callee),
            forall|i: int| 0 <= i < args@.len() ==> decreases_to!(parent => #[trigger] args@[i].expr),
        ensures
            exec_outcome(r),
            final(budget).steps <= old(budget).steps,
            callee.kind matches TypedExprKind::Symbol(sym) ==> {
                &&& (sym.kind is None && sym.name@ == "Some"@) ==> ((args@.len() != 1 || args@[0].name is Some) ==> r is Err)
                &&& (sym.kind is None && sym.name@ == "Some"@ && args@.len() == 1 && args@[0].name is None) ==> (
                pure_value(args@[0].expr) matches Some(v) ==> r == Ok::<Value, Vec<Diagnostic>>(
                    Value::OptionSome(Box::new(v)),
                ))
                &&& !(sym.kind is None && sym.name@ == "Some"@) && sym.kind == Some(SymbolKind::Record) ==> ((exists|k: int|
                    0 <= k < args@.len() && (#[trigger] args@[k]).name is None) ==> r is Err)
                &&& !(sym.kind is None && sym.name@ == "Some"@) && sym.kind == Some(SymbolKind::Record) ==> (r matches Ok(
                    v,
                ) ==> v is Record)
            },
        decreases old(budget).steps, parent, 2int,
    {
        if let TypedExprKind::Symbol(symbol) = &callee.kind {
            if symbol.kind.is_none() && str_eq(symbol.name.as_str(), "Some") {
                if args.len() != 1 {
                    return runtime_fail(span, String::from_str("`Some(...)` expects exactly one argument"));
                }
                if args[0].name.is_some() {
                    return runtime_fail(&args[0].expr.span, String::from_str("`Some(...)` does not support named arguments"));
                }
                proof {
                    assert(decreases_to!(parent => args@[0].expr));
                }
                let v = self.eval_expr(&args[0].expr, env, budget)?;
                return Ok(Value::OptionSome(Box::new(v)));
            }
            if symbol.kind == Some(SymbolKind::Record) {
                let record_name: Option<&str> = match &callee.ty {
                    Type::Record(n) => Some(n.as_str()),
                    _ => None,
                };
                let mut fields: Vec<(String, Value)> = Vec::new();
                let mut i: usize = 0;
                while i < args.len()
                    invariant
                        i <= args@.len(),
                        budget.steps <= old(budget).steps,
                        forall|k: int| 0 <= k < args@.len() ==> decreases_to!(parent => #[trigger] args@[k].expr),
                        forall|k: int| 0 <= k < i ==> (#[trigger] args@[k]).name is Some,
                        callee.kind == TypedExprKind::Symbol(*symbol),
                        symbol.kind == Some(SymbolKind::Record),
                    decreases args@.len() - i,
                {
                    let arg = &args[i];
                    let name = match &arg.name {
                        Some(n) => n.clone(),
                        None => {
                            return runtime_fail(&arg.expr.span, String::from_str("record construction requires named arguments"));
                        },
                    };
                    proof {
                        assert(decreases_to!(parent => args@[i as int].expr));
                    }
                    let mut v = self.eval_expr(&arg.expr, env, budget)?;
                    if let Some(rn) = record_name {
                        if let Some(field_ty) = self.lookup_record_field_type(rn, name.as_str()) {
                            v = coerce_value_to_type(v, field_ty);
                        }
                    }
                    record_insert(&mut fields, name, v);
                    i = i + 1;
                }
                return Ok(Value::Record(fields));
            }
        }
        let callee_value = self.eval_expr(callee, env, budget)?;
        let mut values: Vec<Value> = Vec::new();
        let mut i: usize = 0;
        while i < args.len()
            invariant
                i <= args@.len(),
                budget.steps <= old(budget).steps,
                forall|k: int| 0 <= k < args@.len() ==> decreases_to!(parent => #[trigger] args@[k].expr),
            decreases args@.len() - i,
        {
            proof {
                assert(decreases_to!(parent => args@[i as int].expr));
            }
            values.push(self.eval_expr(&args[i].expr, env, budget)?);
            i = i + 1;
        }
        match callee_value {
            Value::Callable(name) => {
                budget.tick(span)?;
                self.call_action_with_options(name.as_str(), values, CallOptions { run_examples: true }, budget)
            },
            other => runtime_fail(span, concat("call target is not callable: ", other.debug_text().as_str())),
        }
    }

    /// The value of a name: a local or constant, or a callable action,
    /// runtime action or extern.
    fn resolve_symbol(&self, symbol: &TypedSymbol, env: &Env, span: &SourceSpan) -> (r: Result<Value, Vec<Diagnostic>>)
        ensures
            exec_outcome(r),
            env_lookup(env@, symbol.name@) matches Some(v) ==> (r matches Ok(x) && value_same(x, v)),
    {
        if let Some(v) = env_get(env, symbol.name.as_str()) {
            return Ok(v.snapshot());
        }
        if self.find_action(symbol.name.as_str()).is_some() {
            return Ok(Value::Callable(symbol.name.clone()));
        }
        if symbol.kind == Some(SymbolKind::Runtime) || lookup_standard_runtime_name(symbol.name.as_str()).is_some() {
            return Ok(Value::Callable(symbol.name.clone()));
        }
        if symbol.kind == Some(SymbolKind::Extern) || self.externs.contains(symbol.name.as_str()) {
            return Ok(Value::Callable(symbol.name.clone()));
        }
        runtime_fail(span, concat3("unknown runtime symbol `", symbol.name.as_str(), "`"))
    }

    /// Performs a standard runtime action through the host. Console and file
    /// problems come back as `Err` values, not as diagnostics.
    fn call_standard_runtime(&self, action: StandardRuntimeAction, args: Vec<Value>, span: &SourceSpan) -> (r: Result<Value, Vec<Diagnostic>>)
        ensures
            exec_outcome(r),
            texts_for(args@, action.param_count()) ==> (r matches Ok(v) && (if action is FileExists {
                v is Bool
            } else {
                v is ResultOk || v is ResultErr
            })),
    {
        let name = action.qualified_name();
        match action {
            StandardRuntimeAction::ConsolePrint | StandardRuntimeAction::ConsolePrintln
            | StandardRuntimeAction::ConsoleEprint | StandardRuntimeAction::ConsoleEprintln => {
                let text = expect_text_arg(&args, span, name, 0)?;
                let newline = matches!(action, StandardRuntimeAction::ConsolePrintln | StandardRuntimeAction::ConsoleEprintln);
                let stderr = matches!(action, StandardRuntimeAction::ConsoleEprint | StandardRuntimeAction::ConsoleEprintln);
                match self.host.write_console(text.as_str(), newline, stderr) {
                    Ok(()) => Ok(Value::ok(Value::NoneValue)),
                    Err(e) => Ok(Value::err_text(e)),
                }
            },
            StandardRuntimeAction::ConsoleReadLine => match self.host.read_line() {
                Ok(None) => Ok(Value::err_text(String::from_str("end of input"))),
                Ok(Some(line)) => Ok(Value::ok(Value::Text(strip_line_end(line.as_str())))),
                Err(e) => Ok(Value::err_text(e)),
            },
            StandardRuntimeAction::FileReadText => {
                let path = expect_text_arg(&args, span, name, 0)?;
                match self.host.read_text(path.as_str()) {
                    Ok(content) => Ok(Value::ok(Value::Text(content))),
                    Err(e) => Ok(Value::err_text(e)),
                }
            },
            StandardRuntimeAction::FileWriteText => {
                let path = expect_text_arg(&args, span, name, 0)?;
                let content = expect_text_arg(&args, span, name, 1)?;
                match self.host.write_text(path.as_str(), content.as_str()) {
                    Ok(()) => Ok(Value::ok(Value::NoneValue)),
                    Err(e) => Ok(Value::err_text(e)),
                }
            },
            StandardRuntimeAction::FileAppendText => {
                let path = expect_text_arg(&args, span, name, 0)?;
                let content = expect_text_arg(&args, span, name, 1)?;
                match self.host.append_text(path.as_str(), content.as_str()) {
                    Ok(()) => Ok(Value::ok(Value::NoneValue)),
                    Err(e) => Ok(Value::err_text(e)),
                }
            },
            StandardRuntimeAction::FileExists => {
                let path = expect_text_arg(&args, span, name, 0)?;
                Ok(Value::Bool(self.host.path_exists(path.as_str())))
            },
        }
    }
}

/// A `requires` clause whose condition, built from literals and operators,
/// is `false`.
pub open spec fn false_requires(s: TypedStmt) -> bool {
    match s.kind {
        TypedStmtKind::RequiresClause(c) => pure_value(c) == Some(Value::Bool(false)),
        _ => false,
    }
}

/// An `ensures` clause whose condition, built from literals and operators,
/// is `false`.
pub open spec fn false_ensures(s: TypedStmt) -> bool {
    match s.kind {
        TypedStmtKind::EnsuresClause(c) => pure_value(c) == Some(Value::Bool(false)),
        _ => false,
    }
}

/// An action with a `requires` clause that is `false`.
pub open spec fn requires_refused(a: TypedActionDecl) -> bool {
    exists|i: int| 0 <= i < a.body@.len() && false_requires(#[trigger] a.body@[i])
}

/// An action with an `ensures` clause that is `false`.
pub open spec fn ensures_refused(a: TypedActionDecl) -> bool {
    exists|i: int| 0 <= i < a.body@.len() && false_ensures(#[trigger] a.body@[i])
}

/// Every action of the module named `name` has a contract clause that is
/// `false`.
pub open spec fn contract_always_fails(m: TypedIrModule, name: Seq<char>) -> bool {
    forall|i: int| 0 <= i < m.declarations@.len() ==> match #[trigger] m.declarations@[i] {
        TypedDecl::Action(a) => a.name@ == name ==> requires_refused(a) || ensures_refused(a),
        _ => true,
    }
}

/// The first action of `decls` named `name`.
pub open spec fn first_action(decls: Seq<TypedDecl>, name: Seq<char>) -> Option<TypedActionDecl>
    decreases decls.len(),
{
    if decls.len() == 0 {
        None
    } else {
        match decls[0] {
            TypedDecl::Action(a) => if a.name@ == name {
                Some(a)
            } else {
                first_action(decls.subrange(1, decls.len() as int), name)
            },
            _ => first_action(decls.subrange(1, decls.len() as int), name),
        }
    }
}

/// The value a block gives back at once: that of a first statement that
/// returns nothing or a value built from literals and operators.
pub open spec fn immediate_return(block: Seq<TypedStmt>) -> Option<Value> {
    if block.len() == 0 {
        None
    } else {
        match block[0].kind {
            TypedStmtKind::Return(None) => Some(Value::NoneValue),
            TypedStmtKind::Return(Some(e)) => pure_value(e),
            _ => None,
        }
    }
}

/// An action with no `requires`, `ensures` or `example` clause.
pub open spec fn free_of_clauses(a: TypedActionDecl) -> bool {
    forall|k: int| 0 <= k < a.body@.len() ==> !((#[trigger] a.body@[k]).kind is RequiresClause || a.body@[k].kind is EnsuresClause
        || a.body@[k].kind is ExampleBlock)
}

/// The result type of an action's type; the type itself for anything else.
pub open spec fn result_type_of(ty: Type) -> Type {
    match ty {
        Type::Action(a) => *a.result,
        _ => ty,
    }
}

/// The items of the list that `iterable`, a name of a type other than an
/// option, is bound to in `env`.
pub open spec fn bound_list(iterable: TypedExpr, env: Seq<(String, Value)>) -> Option<Seq<Value>> {
    match iterable.kind {
        TypedExprKind::Symbol(sym) => if iterable.ty is Option {
            None
        } else {
            match env_lookup(env, sym.name@) {
                Some(Value::List(vs)) => Some(vs@),
                _ => None,
            }
        },
        _ => None,
    }
}

/// For a statement that returns a name bound in `env`: the value bound and
/// the type the name is read at.
pub open spec fn returned_binding(kind: TypedStmtKind, env: Seq<(String, Value)>) -> Option<(Value, Type)> {
    match kind {
        TypedStmtKind::Return(Some(e)) => match e.kind {
            TypedExprKind::Symbol(sym) => match env_lookup(env, sym.name@) {
                Some(v) => Some((v, e.ty)),
                None => None,
            },
            _ => None,
        },
        _ => None,
    }
}

/// Whether a block starts by returning the name `name`; the type it is
/// read at, if so.
pub open spec fn returns_name(block: Seq<TypedStmt>, name: Seq<char>) -> Option<Type> {
    if block.len() == 0 {
        None
    } else {
        match block[0].kind {
            TypedStmtKind::Return(Some(e)) => match e.kind {
                TypedExprKind::Symbol(sym) => if sym.name@ == name {
                    Some(e.ty)
                } else {
                    None
                },
                _ => None,
            },
            _ => None,
        }
    }
}

/// For `expect name` with `name` read at a type other than an option and
/// bound in `env` to a boolean: that boolean.
pub open spec fn expect_bound_bool(kind: TypedStmtKind, env: Seq<(String, Value)>) -> Option<bool> {
    match kind {
        TypedStmtKind::Expect(e) => match e.kind {
            TypedExprKind::Symbol(sym) => if e.ty is Option {
                None
            } else {
                match env_lookup(env, sym.name@) {
                    Some(Value::Bool(b)) => Some(b),
                    _ => None,
                }
            },
            _ => None,
        },
        _ => None,
    }
}

/// Whether a block is the single statement `expect name`, with `name` read
/// at a type other than an option.
pub open spec fn expects_name(block: Seq<TypedStmt>, name: Seq<char>) -> bool {
    &&& block.len() == 1
    &&& block[0].kind matches TypedStmtKind::Expect(e)
    &&& e.kind matches TypedExprKind::Symbol(sym)
    &&& sym.name@ == name
    &&& !(e.ty is Option)
}

/// How many of the values are `false`.
pub open spec fn count_false(vs: Seq<Value>) -> nat
    decreases vs.len(),
{
    if vs.len() == 0 {
        0
    } else {
        count_false(vs.drop_last()) + if vs.last() == Value::Bool(false) {
            1nat
        } else {
            0nat
        }
    }
}

/// Whether every value is a boolean.
pub open spec fn all_bools(vs: Seq<Value>) -> bool {
    forall|k: int| 0 <= k < vs.len() ==> (#[trigger] vs[k]) is Bool
}

/// What an `expect` statement does: nothing where expectations are not
/// enforced; otherwise, for a condition built from literals, nothing when it
/// holds, and when it is `false` a recorded failure inside a test and an
/// error elsewhere.
spec fn expect_outcome(
    enforced: bool,
    value: Option<Value>,
    in_test: bool,
    r: Result<ExecFlow, Vec<Diagnostic>>,
    failures_before: nat,
    failures_after: nat,
) -> bool {
    if !enforced {
        r == Ok::<ExecFlow, Vec<Diagnostic>>(ExecFlow::Continue) && failures_after == failures_before
    } else {
        match value {
            Some(Value::Bool(true)) => r == Ok::<ExecFlow, Vec<Diagnostic>>(ExecFlow::Continue) && failures_after
                == failures_before,
            Some(Value::Bool(false)) => if in_test {
                r == Ok::<ExecFlow, Vec<Diagnostic>>(ExecFlow::Continue) && failures_after == failures_before + 1
            } else {
                r is Err
            },
            _ => true,
        }
    }
}

/// Whether a statement only describes the action: intent, explanation,
/// contract clauses and examples, which execution passes over.
pub open spec fn is_descriptive(kind: TypedStmtKind) -> bool {
    kind is IntentBlock || kind is ExplainBlock || kind is RequiresClause || kind is EnsuresClause
        || kind is ExampleBlock
}

/// The first `count` arguments are texts.
pub open spec fn texts_for(args: Seq<Value>, count: nat) -> bool {
    count <= args.len() && forall|i: int| 0 <= i < count ==> (#[trigger] args[i]) is Text
}

/// A line without its trailing newline and carriage-return characters.
pub open spec fn line_without_end(s: Seq<char>) -> Seq<char>
    decreases s.len(),
{
    if s.len() > 0 && (s.last() == '\n' || s.last() == '\r') {
        line_without_end(s.drop_last())
    } else {
        s
    }
}

/// A line without its trailing newline and carriage-return characters.
fn strip_line_end(line: &str) -> (r: String)
    ensures
        r@ == line_without_end(line@),
{
    let chars = crate::text::chars_of(line);
    let mut end: usize = chars.len();
    proof {
        assert(chars@.subrange(0, end as int) =~= line@);
    }
    while end > 0 && (chars[end - 1] == '\n' || chars[end - 1] == '\r')
        invariant
            end <= chars@.len(),
            chars@ == line@,
            line_without_end(chars@.subrange(0, end as int)) == line_without_end(line@),
        decreases end,
    {
        proof {
            assert(chars@.subrange(0, end as int).drop_last() =~= chars@.subrange(0, end - 1));
        }
        end = end - 1;
    }
    proof {
        let kept = chars@.subrange(0, end as int);
        if end > 0 {
            assert(kept.last() == chars@[end - 1]);
        }
        assert(line_without_end(kept) == kept);
    }
    crate::text::text_of_range(chars.as_slice(), 0, end)
}

} // verus!
