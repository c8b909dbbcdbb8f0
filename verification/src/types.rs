//! The static types of Vulgata and the type checker.
use vstd::prelude::*;

use crate::ast::{
    ActionDecl, AstModule, BinaryOp, BindingPattern, BindingPatternKind, CallArg, Decl, Expr, ExprKind, MatchArm, NodeId, Param,
    Pattern, PatternKind, PatternLiteral, Purity, Stmt, StmtKind, Target, TypeRef, UnaryOp,
};
use crate::resolver::{Resolution, SymbolKind};
use crate::standard_runtime::{is_standard_runtime_module, lookup_standard_runtime_member, StandardRuntimeAction};
use crate::diagnostics::{Diagnostic, Phase, SourceSpan};
use crate::text::{concat, concat3, joined, push_char, str_eq};

verus! {

broadcast use vstd::std_specs::vec::group_vec_axioms;

/// A static type.
#[derive(Debug)]
pub enum Type {
    Bool,
    Int,
    Dec,
    Text,
    Bytes,
    NoneType,
    Record(String),
    Enum(String),
    List(Box<Type>),
    MapOf(Box<Type>, Box<Type>),
    SetOf(Box<Type>),
    Option(Box<Type>),
    Result(Box<Type>, Box<Type>),
    Tuple(Vec<Type>),
    Action(ActionType),
    ExternAction(ActionType),
    Unknown,
}

/// The type of an action: its parameter types and its result type.
#[derive(Debug)]
pub struct ActionType {
    pub params: Vec<Type>,
    pub result: Box<Type>,
}

/// Two sequences of types agree item by item.
pub open spec fn same_all(xs: Seq<Type>, ys: Seq<Type>) -> bool
    decreases xs, 0int,
{
    if xs.len() != ys.len() {
        false
    } else if xs.len() == 0 {
        true
    } else {
        proof {
            assert(decreases_to!(xs => xs.drop_last()));
        }
        same_all(xs.drop_last(), ys.drop_last()) && same(xs.last(), ys.last())
    }
}

/// `same_all` holds exactly when the sequences have one length and agree at
/// every index.
pub proof fn lemma_same_all(xs: Seq<Type>, ys: Seq<Type>)
    ensures
        same_all(xs, ys) <==> (xs.len() == ys.len() && forall|i: int|
            0 <= i < xs.len() ==> #[trigger] same(xs[i], ys[i])),
    decreases xs.len(),
{
    if xs.len() != ys.len() {
        assert(!same_all(xs, ys));
    } else if xs.len() == 0 {
        assert(same_all(xs, ys));
    } else {
        assert(same_all(xs, ys) == (same_all(xs.drop_last(), ys.drop_last()) && same(xs.last(), ys.last())));
        lemma_same_all(xs.drop_last(), ys.drop_last());
        if forall|i: int| 0 <= i < xs.len() ==> #[trigger] same(xs[i], ys[i]) {
            assert forall|i: int| 0 <= i < xs.drop_last().len() implies #[trigger] same(xs.drop_last()[i], ys.drop_last()[i]) by {
                assert(same(xs[i], ys[i]));
            }
        }
        if same_all(xs, ys) {
            assert forall|i: int| 0 <= i < xs.len() implies #[trigger] same(xs[i], ys[i]) by {
                if i < xs.len() - 1 {
                    assert(same(xs.drop_last()[i], ys.drop_last()[i]));
                }
            }
        }
    }
}

/// Structural equality of types: the same constructor with equal names and
/// structurally equal parts.
pub open spec fn same(a: Type, b: Type) -> bool
    decreases a, 1int,
{
    match (a, b) {
        (Type::Bool, Type::Bool) => true,
        (Type::Int, Type::Int) => true,
        (Type::Dec, Type::Dec) => true,
        (Type::Text, Type::Text) => true,
        (Type::Bytes, Type::Bytes) => true,
        (Type::NoneType, Type::NoneType) => true,
        (Type::Unknown, Type::Unknown) => true,
        (Type::Record(x), Type::Record(y)) => x@ == y@,
        (Type::Enum(x), Type::Enum(y)) => x@ == y@,
        (Type::List(x), Type::List(y)) => same(*x, *y),
        (Type::SetOf(x), Type::SetOf(y)) => same(*x, *y),
        (Type::Option(x), Type::Option(y)) => same(*x, *y),
        (Type::MapOf(xk, xv), Type::MapOf(yk, yv)) => same(*xk, *yk) && same(*xv, *yv),
        (Type::Result(xo, xe), Type::Result(yo, ye)) => same(*xo, *yo) && same(*xe, *ye),
        (Type::Tuple(xs), Type::Tuple(ys)) => {
            proof {
                assert(decreases_to!(a => xs));
                assert(decreases_to!(xs => xs@));
            }
            same_all(xs@, ys@)
        },
        (Type::Action(x), Type::Action(y)) => {
            proof {
                assert(decreases_to!(a => x));
                assert(decreases_to!(x => x.params));
                assert(decreases_to!(x.params => x.params@));
            }
            same_all(x.params@, y.params@) && same(*x.result, *y.result)
        },
        (Type::ExternAction(x), Type::ExternAction(y)) => {
            proof {
                assert(decreases_to!(a => x));
                assert(decreases_to!(x => x.params));
                assert(decreases_to!(x.params => x.params@));
            }
            same_all(x.params@, y.params@) && same(*x.result, *y.result)
        },
        _ => false,
    }
}

/// Structural equality is reflexive.
pub proof fn lemma_same_refl(t: Type)
    ensures
        same(t, t),
    decreases t,
{
    match t {
        Type::List(x) => lemma_same_refl(*x),
        Type::SetOf(x) => lemma_same_refl(*x),
        Type::Option(x) => lemma_same_refl(*x),
        Type::MapOf(k, v) => {
            lemma_same_refl(*k);
            lemma_same_refl(*v);
        },
        Type::Result(o, e) => {
            lemma_same_refl(*o);
            lemma_same_refl(*e);
        },
        Type::Tuple(xs) => {
            assert forall|i: int| 0 <= i < xs@.len() implies #[trigger] same(xs@[i], xs@[i]) by {
                assert(decreases_to!(t => xs@[i]));
                lemma_same_refl(xs@[i]);
            }
            lemma_same_all(xs@, xs@);
        },
        Type::Action(x) => {
            assert forall|i: int| 0 <= i < x.params@.len() implies #[trigger] same(x.params@[i], x.params@[i]) by {
                assert(decreases_to!(t => x.params@[i]));
                lemma_same_refl(x.params@[i]);
            }
            lemma_same_all(x.params@, x.params@);
            lemma_same_refl(*x.result);
        },
        Type::ExternAction(x) => {
            assert forall|i: int| 0 <= i < x.params@.len() implies #[trigger] same(x.params@[i], x.params@[i]) by {
                assert(decreases_to!(t => x.params@[i]));
                lemma_same_refl(x.params@[i]);
            }
            lemma_same_all(x.params@, x.params@);
            lemma_same_refl(*x.result);
        },
        _ => {},
    }
}

/// Structural equality is symmetric.
pub proof fn lemma_same_symm(a: Type, b: Type)
    requires
        same(a, b),
    ensures
        same(b, a),
    decreases a,
{
    match (a, b) {
        (Type::List(x), Type::List(y)) => lemma_same_symm(*x, *y),
        (Type::SetOf(x), Type::SetOf(y)) => lemma_same_symm(*x, *y),
        (Type::Option(x), Type::Option(y)) => lemma_same_symm(*x, *y),
        (Type::MapOf(xk, xv), Type::MapOf(yk, yv)) => {
            lemma_same_symm(*xk, *yk);
            lemma_same_symm(*xv, *yv);
        },
        (Type::Result(xo, xe), Type::Result(yo, ye)) => {
            lemma_same_symm(*xo, *yo);
            lemma_same_symm(*xe, *ye);
        },
        (Type::Tuple(xs), Type::Tuple(ys)) => {
            lemma_same_all(xs@, ys@);
            lemma_same_all(ys@, xs@);
            assert forall|i: int| 0 <= i < ys@.len() implies #[trigger] same(ys@[i], xs@[i]) by {
                assert(decreases_to!(a => xs@[i]));
                assert(same(xs@[i], ys@[i]));
                lemma_same_symm(xs@[i], ys@[i]);
            }
        },
        (Type::Action(x), Type::Action(y)) => {
            lemma_same_all(x.params@, y.params@);
            lemma_same_all(y.params@, x.params@);
            assert forall|i: int| 0 <= i < y.params@.len() implies #[trigger] same(y.params@[i], x.params@[i]) by {
                assert(decreases_to!(a => x.params@[i]));
                assert(same(x.params@[i], y.params@[i]));
                lemma_same_symm(x.params@[i], y.params@[i]);
            }
            lemma_same_symm(*x.result, *y.result);
        },
        (Type::ExternAction(x), Type::ExternAction(y)) => {
            lemma_same_all(x.params@, y.params@);
            lemma_same_all(y.params@, x.params@);
            assert forall|i: int| 0 <= i < y.params@.len() implies #[trigger] same(y.params@[i], x.params@[i]) by {
                assert(decreases_to!(a => x.params@[i]));
                assert(same(x.params@[i], y.params@[i]));
                lemma_same_symm(x.params@[i], y.params@[i]);
            }
            lemma_same_symm(*x.result, *y.result);
        },
        _ => {},
    }
}

/// Structural equality is transitive.
pub proof fn lemma_same_trans(a: Type, b: Type, c: Type)
    requires
        same(a, b),
        same(b, c),
    ensures
        same(a, c),
    decreases a,
{
    match (a, b, c) {
        (Type::List(x), Type::List(y), Type::List(z)) => lemma_same_trans(*x, *y, *z),
        (Type::SetOf(x), Type::SetOf(y), Type::SetOf(z)) => lemma_same_trans(*x, *y, *z),
        (Type::Option(x), Type::Option(y), Type::Option(z)) => lemma_same_trans(*x, *y, *z),
        (Type::MapOf(xk, xv), Type::MapOf(yk, yv), Type::MapOf(zk, zv)) => {
            lemma_same_trans(*xk, *yk, *zk);
            lemma_same_trans(*xv, *yv, *zv);
        },
        (Type::Result(xo, xe), Type::Result(yo, ye), Type::Result(zo, ze)) => {
            lemma_same_trans(*xo, *yo, *zo);
            lemma_same_trans(*xe, *ye, *ze);
        },
        (Type::Tuple(xs), Type::Tuple(ys), Type::Tuple(zs)) => {
            lemma_same_all(xs@, ys@);
            lemma_same_all(ys@, zs@);
            lemma_same_all(xs@, zs@);
            assert forall|i: int| 0 <= i < xs@.len() implies #[trigger] same(xs@[i], zs@[i]) by {
                assert(decreases_to!(a => xs@[i]));
                assert(same(xs@[i], ys@[i]));
                assert(same(ys@[i], zs@[i]));
                lemma_same_trans(xs@[i], ys@[i], zs@[i]);
            }
        },
        (Type::Action(x), Type::Action(y), Type::Action(z)) => {
            lemma_same_all(x.params@, y.params@);
            lemma_same_all(y.params@, z.params@);
            lemma_same_all(x.params@, z.params@);
            assert forall|i: int| 0 <= i < x.params@.len() implies #[trigger] same(x.params@[i], z.params@[i]) by {
                assert(decreases_to!(a => x.params@[i]));
                assert(same(x.params@[i], y.params@[i]));
                assert(same(y.params@[i], z.params@[i]));
                lemma_same_trans(x.params@[i], y.params@[i], z.params@[i]);
            }
            lemma_same_trans(*x.result, *y.result, *z.result);
        },
        (Type::ExternAction(x), Type::ExternAction(y), Type::ExternAction(z)) => {
            lemma_same_all(x.params@, y.params@);
            lemma_same_all(y.params@, z.params@);
            lemma_same_all(x.params@, z.params@);
            assert forall|i: int| 0 <= i < x.params@.len() implies #[trigger] same(x.params@[i], z.params@[i]) by {
                assert(decreases_to!(a => x.params@[i]));
                assert(same(x.params@[i], y.params@[i]));
                assert(same(y.params@[i], z.params@[i]));
                lemma_same_trans(x.params@[i], y.params@[i], z.params@[i]);
            }
            lemma_same_trans(*x.result, *y.result, *z.result);
        },
        _ => {},
    }
}

/// Structural equality of two lists of types, item by item.
fn types_eq(xs: &Vec<Type>, ys: &Vec<Type>, Ghost(parent): Ghost<Type>) -> (r: bool)
    requires
        forall|i: int| 0 <= i < xs@.len() ==> decreases_to!(parent => #[trigger] xs@[i]),
    ensures
        r == same_all(xs@, ys@),
    decreases parent, 0int,
{
    if xs.len() != ys.len() {
        proof {
            lemma_same_all(xs@, ys@);
        }
        return false;
    }
    let mut i: usize = 0;
    while i < xs.len()
        invariant
            i <= xs@.len(),
            xs@.len() == ys@.len(),
            forall|k: int| 0 <= k < xs@.len() ==> decreases_to!(parent => #[trigger] xs@[k]),
            forall|k: int| 0 <= k < i ==> #[trigger] same(xs@[k], ys@[k]),
        decreases xs@.len() - i,
    {
        assert(decreases_to!(parent => xs@[i as int]));
        if !type_eq(&xs[i], &ys[i]) {
            proof {
                lemma_same_all(xs@, ys@);
            }
            return false;
        }
        i = i + 1;
    }
    proof {
        lemma_same_all(xs@, ys@);
    }
    true
}

/// Structural equality of two types.
pub fn type_eq(a: &Type, b: &Type) -> (r: bool)
    ensures
        r == same(*a, *b),
    decreases *a, 1int,
{
    match (a, b) {
        (Type::Bool, Type::Bool) => true,
        (Type::Int, Type::Int) => true,
        (Type::Dec, Type::Dec) => true,
        (Type::Text, Type::Text) => true,
        (Type::Bytes, Type::Bytes) => true,
        (Type::NoneType, Type::NoneType) => true,
        (Type::Unknown, Type::Unknown) => true,
        (Type::Record(x), Type::Record(y)) => str_eq(x.as_str(), y.as_str()),
        (Type::Enum(x), Type::Enum(y)) => str_eq(x.as_str(), y.as_str()),
        (Type::List(x), Type::List(y)) => type_eq(x, y),
        (Type::SetOf(x), Type::SetOf(y)) => type_eq(x, y),
        (Type::Option(x), Type::Option(y)) => type_eq(x, y),
        (Type::MapOf(xk, xv), Type::MapOf(yk, yv)) => type_eq(xk, yk) && type_eq(xv, yv),
        (Type::Result(xo, xe), Type::Result(yo, ye)) => type_eq(xo, yo) && type_eq(xe, ye),
        (Type::Tuple(xs), Type::Tuple(ys)) => {
            proof {
                assert forall|i: int| 0 <= i < xs@.len() implies decreases_to!(*a => #[trigger] xs@[i]) by {
                    assert(decreases_to!(*a => xs@[i]));
                }
            }
            types_eq(xs, ys, Ghost(*a))
        },
        (Type::Action(x), Type::Action(y)) => {
            proof {
                assert forall|i: int| 0 <= i < x.params@.len() implies decreases_to!(*a => #[trigger] x.params@[i]) by {
                    assert(decreases_to!(*a => x.params@[i]));
                }
            }
            types_eq(&x.params, &y.params, Ghost(*a)) && type_eq(&x.result, &y.result)
        },
        (Type::ExternAction(x), Type::ExternAction(y)) => {
            proof {
                assert forall|i: int| 0 <= i < x.params@.len() implies decreases_to!(*a => #[trigger] x.params@[i]) by {
                    assert(decreases_to!(*a => x.params@[i]));
                }
            }
            types_eq(&x.params, &y.params, Ghost(*a)) && type_eq(&x.result, &y.result)
        },
        _ => false,
    }
}


/// Copies of a list of types, item by item.
fn duplicate_all(xs: &Vec<Type>, Ghost(parent): Ghost<Type>) -> (r: Vec<Type>)
    requires
        forall|i: int| 0 <= i < xs@.len() ==> decreases_to!(parent => #[trigger] xs@[i]),
    ensures
        same_all(r@, xs@),
    decreases parent, 0int,
{
    let mut out: Vec<Type> = Vec::new();
    let mut i: usize = 0;
    while i < xs.len()
        invariant
            i <= xs@.len(),
            out@.len() == i,
            forall|k: int| 0 <= k < xs@.len() ==> decreases_to!(parent => #[trigger] xs@[k]),
            forall|k: int| 0 <= k < i ==> #[trigger] same(out@[k], xs@[k]),
        decreases xs@.len() - i,
    {
        assert(decreases_to!(parent => xs@[i as int]));
        let t = xs[i].duplicate();
        out.push(t);
        i = i + 1;
    }
    proof {
        lemma_same_all(out@, xs@);
    }
    out
}

impl Type {
    /// A structurally equal copy.
    pub fn duplicate(&self) -> (r: Type)
        ensures
            same(r, *self),
        decreases *self, 1int,
    {
        match self {
            Type::Bool => Type::Bool,
            Type::Int => Type::Int,
            Type::Dec => Type::Dec,
            Type::Text => Type::Text,
            Type::Bytes => Type::Bytes,
            Type::NoneType => Type::NoneType,
            Type::Unknown => Type::Unknown,
            Type::Record(n) => Type::Record(n.clone()),
            Type::Enum(n) => Type::Enum(n.clone()),
            Type::List(x) => Type::List(Box::new(x.duplicate())),
            Type::SetOf(x) => Type::SetOf(Box::new(x.duplicate())),
            Type::Option(x) => Type::Option(Box::new(x.duplicate())),
            Type::MapOf(k, v) => Type::MapOf(Box::new(k.duplicate()), Box::new(v.duplicate())),
            Type::Result(o, e) => Type::Result(Box::new(o.duplicate()), Box::new(e.duplicate())),
            Type::Tuple(xs) => {
                proof {
                    assert forall|i: int| 0 <= i < xs@.len() implies decreases_to!(*self => #[trigger] xs@[i]) by {
                        assert(decreases_to!(*self => xs@[i]));
                    }
                }
                Type::Tuple(duplicate_all(xs, Ghost(*self)))
            },
            Type::Action(a) => {
                proof {
                    assert forall|i: int| 0 <= i < a.params@.len() implies decreases_to!(*self => #[trigger] a.params@[i]) by {
                        assert(decreases_to!(*self => a.params@[i]));
                    }
                }
                let params = duplicate_all(&a.params, Ghost(*self));
                Type::Action(ActionType { params, result: Box::new(a.result.duplicate()) })
            },
            Type::ExternAction(a) => {
                proof {
                    assert forall|i: int| 0 <= i < a.params@.len() implies decreases_to!(*self => #[trigger] a.params@[i]) by {
                        assert(decreases_to!(*self => a.params@[i]));
                    }
                }
                let params = duplicate_all(&a.params, Ghost(*self));
                Type::ExternAction(ActionType { params, result: Box::new(a.result.duplicate()) })
            },
        }
    }
}

impl ActionType {
    /// Structural equality of action types.
    pub open spec fn same_as(self, other: ActionType) -> bool {
        same_all(self.params@, other.params@) && same(*self.result, *other.result)
    }

    /// A structurally equal copy.
    pub fn duplicate(&self) -> (r: ActionType)
        ensures
            r.same_as(*self),
    {
        let ghost whole = Type::Action(*self);
        proof {
            assert forall|i: int| 0 <= i < self.params@.len() implies decreases_to!(whole => #[trigger] self.params@[i]) by {
                assert(decreases_to!(whole => whole->Action_0));
                assert(decreases_to!(whole->Action_0 => self.params));
                assert(decreases_to!(self.params => self.params@));
                assert(decreases_to!(self.params@ => self.params@[i]));
                assert(decreases_to!(whole => self.params@[i]));
            }
        }
        let params = duplicate_all(&self.params, Ghost(whole));
        ActionType { params, result: Box::new(self.result.duplicate()) }
    }
}

/// Structural equality of action types.
pub fn action_types_equal(a: &ActionType, b: &ActionType) -> (r: bool)
    ensures
        r == a.same_as(*b),
{
    let x = Type::Action(a.duplicate());
    let y = Type::Action(b.duplicate());
    let r = type_eq(&x, &y);
    proof {
        let xp = x->Action_0.params@;
        let yp = y->Action_0.params@;
        let ap = a.params@;
        let bp = b.params@;
        lemma_same_all(xp, ap);
        lemma_same_all(yp, bp);
        lemma_same_all(xp, yp);
        lemma_same_all(ap, bp);
        if ap.len() == bp.len() {
            assert forall|i: int| 0 <= i < ap.len() implies (#[trigger] same(xp[i], yp[i])) == same(ap[i], bp[i]) by {
                assert(same(xp[i], ap[i]));
                assert(same(yp[i], bp[i]));
                lemma_same_symm(xp[i], ap[i]);
                lemma_same_symm(yp[i], bp[i]);
                if same(xp[i], yp[i]) {
                    lemma_same_trans(ap[i], xp[i], yp[i]);
                    lemma_same_trans(ap[i], yp[i], bp[i]);
                }
                if same(ap[i], bp[i]) {
                    lemma_same_trans(xp[i], ap[i], bp[i]);
                    lemma_same_trans(xp[i], bp[i], yp[i]);
                }
            }
            assert(same_all(xp, yp) == same_all(ap, bp)) by {
                if same_all(xp, yp) {
                    assert forall|i: int| 0 <= i < ap.len() implies #[trigger] same(ap[i], bp[i]) by {
                        assert(same(xp[i], yp[i]));
                    }
                }
                if same_all(ap, bp) {
                    assert forall|i: int| 0 <= i < xp.len() implies #[trigger] same(xp[i], yp[i]) by {
                        assert(same(ap[i], bp[i]));
                    }
                }
            }
        }
        lemma_same_symm(*x->Action_0.result, *a.result);
        lemma_same_symm(*y->Action_0.result, *b.result);
        if same(*x->Action_0.result, *y->Action_0.result) {
            lemma_same_trans(*a.result, *x->Action_0.result, *y->Action_0.result);
            lemma_same_trans(*a.result, *y->Action_0.result, *b.result);
        }
        if same(*a.result, *b.result) {
            lemma_same_trans(*x->Action_0.result, *a.result, *b.result);
            lemma_same_trans(*x->Action_0.result, *b.result, *y->Action_0.result);
        }
    }
    r
}

/// Item-by-item assignability of two lists of types.
pub open spec fn assignable_all(es: Seq<Type>, xs: Seq<Type>) -> bool
    decreases es, 0int,
{
    if es.len() != xs.len() {
        false
    } else if es.len() == 0 {
        true
    } else {
        proof {
            assert(decreases_to!(es => es.drop_last()));
        }
        assignable_all(es.drop_last(), xs.drop_last()) && assignable(es.last(), xs.last())
    }
}

/// Whether a value of type `actual` may stand where `expected` is required:
/// `Unknown` fits everywhere and accepts everything; equal types fit; `None`
/// and any value of the inner type fit an `Option`; `Int` fits `Dec`; and
/// results, lists, sets, maps and tuples fit part by part.
pub open spec fn assignable(expected: Type, actual: Type) -> bool
    decreases expected, 1int,
{
    if expected is Unknown || actual is Unknown {
        true
    } else if same(expected, actual) {
        true
    } else {
        match (expected, actual) {
            (Type::Option(_), Type::NoneType) => true,
            (Type::Option(e), Type::Option(a)) => assignable(*e, *a),
            (Type::Option(e), a) => assignable(*e, a),
            (Type::Result(eo, ee), Type::Result(ao, ae)) => assignable(*eo, *ao) && assignable(*ee, *ae),
            (Type::List(e), Type::List(a)) => assignable(*e, *a),
            (Type::SetOf(e), Type::SetOf(a)) => assignable(*e, *a),
            (Type::MapOf(ek, ev), Type::MapOf(ak, av)) => assignable(*ek, *ak) && assignable(*ev, *av),
            (Type::Tuple(es), Type::Tuple(xs)) => {
                proof {
                    assert(decreases_to!(expected => es));
                    assert(decreases_to!(es => es@));
                }
                es@.len() == xs@.len() && assignable_all(es@, xs@)
            },
            (Type::Dec, Type::Int) => true,
            _ => false,
        }
    }
}

/// `assignable_all` holds exactly when the lists have one length and fit at
/// every index.
pub proof fn lemma_assignable_all(es: Seq<Type>, xs: Seq<Type>)
    ensures
        assignable_all(es, xs) <==> (es.len() == xs.len() && forall|i: int|
            0 <= i < es.len() ==> #[trigger] assignable(es[i], xs[i])),
    decreases es.len(),
{
    if es.len() != xs.len() {
        assert(!assignable_all(es, xs));
    } else if es.len() == 0 {
        assert(assignable_all(es, xs));
    } else {
        assert(assignable_all(es, xs) == (assignable_all(es.drop_last(), xs.drop_last())
            && assignable(es.last(), xs.last())));
        lemma_assignable_all(es.drop_last(), xs.drop_last());
        if forall|i: int| 0 <= i < es.len() ==> #[trigger] assignable(es[i], xs[i]) {
            assert forall|i: int| 0 <= i < es.drop_last().len() implies #[trigger] assignable(es.drop_last()[i], xs.drop_last()[i]) by {
                assert(assignable(es[i], xs[i]));
            }
        }
        if assignable_all(es, xs) {
            assert forall|i: int| 0 <= i < es.len() implies #[trigger] assignable(es[i], xs[i]) by {
                if i < es.len() - 1 {
                    assert(assignable(es.drop_last()[i], xs.drop_last()[i]));
                }
            }
        }
    }
}

/// Every type fits where it is itself expected.
pub proof fn assignable_is_reflexive(t: Type)
    ensures
        assignable(t, t),
{
    lemma_same_refl(t);
}

/// `Unknown` fits everywhere and accepts every value.
pub proof fn unknown_is_compatible_with_everything(t: Type)
    ensures
        assignable(t, Type::Unknown),
        assignable(Type::Unknown, t),
{
}

/// The types without parts: `Bool`, `Int`, `Dec`, `Text`, `Bytes` and `None`.
pub open spec fn is_scalar(t: Type) -> bool {
    t is Bool || t is Int || t is Dec || t is Text || t is Bytes || t is NoneType
}

/// Among scalar types a value fits only where its own type is expected,
/// except that an `Int` fits where a `Dec` is expected.
pub proof fn scalar_assignability(expected: Type, actual: Type)
    requires
        is_scalar(expected),
        is_scalar(actual),
    ensures
        assignable(expected, actual) <==> (expected == actual || (expected is Dec && actual is Int)),
{
    if expected == actual {
        lemma_same_refl(expected);
    }
}

/// A list, a set or an option fits where another of its kind is expected
/// exactly when its items fit; a map or a result exactly when both of its
/// parts fit.
pub proof fn container_assignability(e: Type, a: Type, e2: Type, a2: Type)
    ensures
        assignable(Type::List(Box::new(e)), Type::List(Box::new(a))) == assignable(e, a),
        assignable(Type::SetOf(Box::new(e)), Type::SetOf(Box::new(a))) == assignable(e, a),
        assignable(Type::Option(Box::new(e)), Type::Option(Box::new(a))) == assignable(e, a),
        assignable(Type::MapOf(Box::new(e), Box::new(e2)), Type::MapOf(Box::new(a), Box::new(a2))) == (assignable(e, a)
            && assignable(e2, a2)),
        assignable(Type::Result(Box::new(e), Box::new(e2)), Type::Result(Box::new(a), Box::new(a2))) == (assignable(e, a)
            && assignable(e2, a2)),
{
}

/// `None` fits where an option is expected, and so does any other scalar
/// value that fits where the option's item is expected.
pub proof fn option_assignability(e: Type, actual: Type)
    requires
        is_scalar(actual),
    ensures
        assignable(Type::Option(Box::new(e)), Type::NoneType),
        !(actual is NoneType) ==> assignable(Type::Option(Box::new(e)), actual) == assignable(e, actual),
{
}

/// A tuple fits where a tuple is expected exactly when both have one length
/// and fit item by item.
pub proof fn tuple_assignability(es: Vec<Type>, xs: Vec<Type>)
    ensures
        assignable(Type::Tuple(es), Type::Tuple(xs)) <==> (es@.len() == xs@.len() && forall|i: int|
            0 <= i < es@.len() ==> #[trigger] assignable(es@[i], xs@[i])),
{
    lemma_assignable_all(es@, xs@);
    lemma_same_all(es@, xs@);
    if same_all(es@, xs@) {
        assert forall|i: int| 0 <= i < es@.len() implies #[trigger] assignable(es@[i], xs@[i]) by {
            assert(same(es@[i], xs@[i]));
        }
    }
}

/// A record or enum value fits only where a record or enum of the same name
/// is expected.
pub proof fn named_assignability(a: String, b: String)
    ensures
        assignable(Type::Record(a), Type::Record(b)) <==> a@ == b@,
        assignable(Type::Enum(a), Type::Enum(b)) <==> a@ == b@,
        !assignable(Type::Record(a), Type::Enum(b)),
        !assignable(Type::Enum(a), Type::Record(b)),
{
}

/// No scalar value fits where a list, a set, a map or a result is expected.
pub proof fn containers_refuse_scalars(e: Type, e2: Type, actual: Type)
    requires
        is_scalar(actual),
    ensures
        !assignable(Type::List(Box::new(e)), actual),
        !assignable(Type::SetOf(Box::new(e)), actual),
        !assignable(Type::MapOf(Box::new(e), Box::new(e2)), actual),
        !assignable(Type::Result(Box::new(e), Box::new(e2)), actual),
{
}

fn all_assignable(es: &Vec<Type>, xs: &Vec<Type>, Ghost(parent): Ghost<Type>) -> (r: bool)
    requires
        es@.len() == xs@.len(),
        forall|i: int| 0 <= i < es@.len() ==> decreases_to!(parent => #[trigger] es@[i]),
    ensures
        r == assignable_all(es@, xs@),
    decreases parent, 0int,
{
    let mut i: usize = 0;
    while i < es.len()
        invariant
            i <= es@.len(),
            es@.len() == xs@.len(),
            forall|k: int| 0 <= k < es@.len() ==> decreases_to!(parent => #[trigger] es@[k]),
            forall|k: int| 0 <= k < i ==> #[trigger] assignable(es@[k], xs@[k]),
        decreases es@.len() - i,
    {
        assert(decreases_to!(parent => es@[i as int]));
        if !is_assignable(&es[i], &xs[i]) {
            proof {
                lemma_assignable_all(es@, xs@);
            }
            return false;
        }
        i = i + 1;
    }
    proof {
        lemma_assignable_all(es@, xs@);
    }
    true
}

/// Whether a value of type `actual` may stand where `expected` is required.
pub fn is_assignable(expected: &Type, actual: &Type) -> (r: bool)
    ensures
        r == assignable(*expected, *actual),
    decreases *expected, 1int,
{
    if matches!(expected, Type::Unknown) || matches!(actual, Type::Unknown) {
        return true;
    }
    if type_eq(expected, actual) {
        return true;
    }
    match (expected, actual) {
        (Type::Option(_), Type::NoneType) => true,
        (Type::Option(e), Type::Option(a)) => is_assignable(e, a),
        (Type::Option(e), a) => is_assignable(e, a),
        (Type::Result(eo, ee), Type::Result(ao, ae)) => is_assignable(eo, ao) && is_assignable(ee, ae),
        (Type::List(e), Type::List(a)) => is_assignable(e, a),
        (Type::SetOf(e), Type::SetOf(a)) => is_assignable(e, a),
        (Type::MapOf(ek, ev), Type::MapOf(ak, av)) => is_assignable(ek, ak) && is_assignable(ev, av),
        (Type::Tuple(es), Type::Tuple(xs)) => {
            if es.len() != xs.len() {
                false
            } else {
                proof {
                    assert forall|i: int| 0 <= i < es@.len() implies decreases_to!(*expected => #[trigger] es@[i]) by {
                        assert(decreases_to!(*expected => es@[i]));
                    }
                }
                all_assignable(es, xs, Ghost(*expected))
            }
        },
        (Type::Dec, Type::Int) => true,
        _ => false,
    }
}


/// The descriptions of a list of types, in order.
pub open spec fn type_texts(ts: Seq<Type>) -> Seq<Seq<char>>
    decreases ts, 0int,
{
    if ts.len() == 0 {
        Seq::empty()
    } else {
        proof {
            assert(decreases_to!(ts => ts.drop_last()));
        }
        type_texts(ts.drop_last()).push(type_text(ts.last()))
    }
}

/// How a type is written in messages: `Int`, `List[Text]`, `(Int, Bool)`,
/// `Action[Int -> Bool]` and so on.
pub open spec fn type_text(t: Type) -> Seq<char>
    decreases t, 1int,
{
    match t {
        Type::Bool => "Bool"@,
        Type::Int => "Int"@,
        Type::Dec => "Dec"@,
        Type::Text => "Text"@,
        Type::Bytes => "Bytes"@,
        Type::NoneType => "None"@,
        Type::Record(n) => n@,
        Type::Enum(n) => n@,
        Type::List(x) => "List["@ + type_text(*x) + "]"@,
        Type::MapOf(k, v) => "Map["@ + type_text(*k) + ", "@ + type_text(*v) + "]"@,
        Type::SetOf(x) => "Set["@ + type_text(*x) + "]"@,
        Type::Option(x) => "Option["@ + type_text(*x) + "]"@,
        Type::Result(o, e) => "Result["@ + type_text(*o) + ", "@ + type_text(*e) + "]"@,
        Type::Tuple(items) => {
            proof {
                assert(decreases_to!(t => items));
                assert(decreases_to!(items => items@));
            }
            "("@ + joined(type_texts(items@), ", "@) + ")"@
        },
        Type::Action(a) => {
            proof {
                assert(decreases_to!(t => a));
                assert(decreases_to!(a => a.params));
                assert(decreases_to!(a.params => a.params@));
            }
            "Action["@ + joined(type_texts(a.params@), ", "@) + " -> "@ + type_text(*a.result) + "]"@
        },
        Type::ExternAction(a) => {
            proof {
                assert(decreases_to!(t => a));
                assert(decreases_to!(a => a.params));
                assert(decreases_to!(a.params => a.params@));
            }
            "Action["@ + joined(type_texts(a.params@), ", "@) + " -> "@ + type_text(*a.result) + "]"@
        },
        Type::Unknown => "Unknown"@,
    }
}

fn describe_all(ts: &Vec<Type>, Ghost(parent): Ghost<Type>) -> (r: Vec<String>)
    requires
        forall|i: int| 0 <= i < ts@.len() ==> decreases_to!(parent => #[trigger] ts@[i]),
    ensures
        crate::text::views_of(r@) == type_texts(ts@),
    decreases parent, 0int,
{
    let mut out: Vec<String> = Vec::new();
    let mut i: usize = 0;
    while i < ts.len()
        invariant
            i <= ts@.len(),
            forall|k: int| 0 <= k < ts@.len() ==> decreases_to!(parent => #[trigger] ts@[k]),
            crate::text::views_of(out@) == type_texts(ts@.take(i as int)),
        decreases ts@.len() - i,
    {
        assert(decreases_to!(parent => ts@[i as int]));
        let d = ts[i].describe();
        let ghost before = out@;
        out.push(d);
        assert(ts@.take(i + 1).drop_last() =~= ts@.take(i as int));
        assert(crate::text::views_of(out@) =~= crate::text::views_of(before).push(d@));
        i = i + 1;
    }
    assert(ts@.take(ts@.len() as int) =~= ts@);
    out
}

impl Type {
    /// How the type is written in messages.
    pub fn describe(&self) -> (r: String)
        ensures
            r@ == type_text(*self),
        decreases *self, 1int,
    {
        match self {
            Type::Bool => String::from_str("Bool"),
            Type::Int => String::from_str("Int"),
            Type::Dec => String::from_str("Dec"),
            Type::Text => String::from_str("Text"),
            Type::Bytes => String::from_str("Bytes"),
            Type::NoneType => String::from_str("None"),
            Type::Unknown => String::from_str("Unknown"),
            Type::Record(n) => n.clone(),
            Type::Enum(n) => n.clone(),
            Type::List(x) => concat3("List[", x.describe().as_str(), "]"),
            Type::SetOf(x) => concat3("Set[", x.describe().as_str(), "]"),
            Type::Option(x) => concat3("Option[", x.describe().as_str(), "]"),
            Type::MapOf(k, v) => {
                let mut s = concat3("Map[", k.describe().as_str(), ", ");
                s.append(v.describe().as_str());
                s.append("]");
                s
            },
            Type::Result(o, e) => {
                let mut s = concat3("Result[", o.describe().as_str(), ", ");
                s.append(e.describe().as_str());
                s.append("]");
                s
            },
            Type::Tuple(items) => {
                proof {
                    assert forall|i: int| 0 <= i < items@.len() implies decreases_to!(*self => #[trigger] items@[i]) by {
                        assert(decreases_to!(*self => items@[i]));
                    }
                }
                let parts = describe_all(items, Ghost(*self));
                let inner = crate::text::join(&parts, ", ");
                concat3("(", inner.as_str(), ")")
            },
            Type::Action(a) => {
                proof {
                    assert forall|i: int| 0 <= i < a.params@.len() implies decreases_to!(*self => #[trigger] a.params@[i]) by {
                        assert(decreases_to!(*self => a.params@[i]));
                    }
                }
                let parts = describe_all(&a.params, Ghost(*self));
                let inner = crate::text::join(&parts, ", ");
                let mut s = concat3("Action[", inner.as_str(), " -> ");
                s.append(a.result.describe().as_str());
                s.append("]");
                s
            },
            Type::ExternAction(a) => {
                proof {
                    assert forall|i: int| 0 <= i < a.params@.len() implies decreases_to!(*self => #[trigger] a.params@[i]) by {
                        assert(decreases_to!(*self => a.params@[i]));
                    }
                }
                let parts = describe_all(&a.params, Ghost(*self));
                let inner = crate::text::join(&parts, ", ");
                let mut s = concat3("Action[", inner.as_str(), " -> ");
                s.append(a.result.describe().as_str());
                s.append("]");
                s
            },
        }
    }
}

/// A type-check diagnostic at `span`.
pub fn type_error(span: &SourceSpan, message: String) -> (r: Diagnostic)
    ensures
        r.span == *span,
        r.phase == Phase::TypeCheck,
        r.message == message,
{
    Diagnostic::new(span.duplicate(), Phase::TypeCheck, message)
}

/// A failure carrying one type-check diagnostic.
fn type_fail<T>(span: &SourceSpan, message: String) -> (r: Result<T, Vec<Diagnostic>>)
    ensures
        r matches Err(ds) && ds@.len() == 1 && ds@[0].phase == Phase::TypeCheck
            && ds@[0].message == message && ds@[0].span == *span,
{
    Err(crate::diagnostics::one(type_error(span, message)))
}

/// `prefix` `a` ` and ` `b` `` ` `` for the operand messages.
pub open spec fn operands_text(prefix: Seq<char>, a: Type, b: Type) -> Seq<char> {
    prefix + type_text(a) + "` and `"@ + type_text(b) + "`"@
}

fn operands_message(prefix: &str, a: &Type, b: &Type) -> (r: String)
    ensures
        r@ == operands_text(prefix@, *a, *b),
{
    let mut s = concat(prefix, a.describe().as_str());
    s.append("` and `");
    s.append(b.describe().as_str());
    s.append("`");
    s
}

/// Both operands are `Int`, or both are `Dec`.
pub open spec fn both_numeric(a: Type, b: Type) -> bool {
    (a is Int && b is Int) || (a is Dec && b is Dec)
}

/// The type of `left op right`, or `None` when the operands do not fit the
/// operator: arithmetic keeps the numeric type of its operands; comparisons
/// of numbers, equality of comparable values and `and`/`or` of booleans give
/// `Bool`.
pub open spec fn binary_result(op: BinaryOp, left: Type, right: Type) -> Option<Type> {
    match op {
        BinaryOp::Add | BinaryOp::Subtract | BinaryOp::Multiply | BinaryOp::Divide
        | BinaryOp::Modulo => if both_numeric(left, right) {
            Some(if left is Int { Type::Int } else { Type::Dec })
        } else {
            None
        },
        BinaryOp::Equal | BinaryOp::NotEqual => if assignable(left, right) || assignable(right, left) {
            Some(Type::Bool)
        } else {
            None
        },
        BinaryOp::Less | BinaryOp::LessEqual | BinaryOp::Greater | BinaryOp::GreaterEqual => if both_numeric(left, right) {
            Some(Type::Bool)
        } else {
            None
        },
        BinaryOp::And | BinaryOp::Or => if left is Bool && right is Bool {
            Some(Type::Bool)
        } else {
            None
        },
    }
}

/// The message reported when the operands do not fit the operator.
pub open spec fn binary_error_text(op: BinaryOp, left: Type, right: Type) -> Seq<char> {
    match op {
        BinaryOp::Add | BinaryOp::Subtract | BinaryOp::Multiply | BinaryOp::Divide
        | BinaryOp::Modulo => operands_text("arithmetic operands must both be `Int` or both be `Dec`, found `"@, left, right),
        BinaryOp::Equal | BinaryOp::NotEqual => operands_text("equality operands must be comparable, found `"@, left, right),
        BinaryOp::Less | BinaryOp::LessEqual | BinaryOp::Greater | BinaryOp::GreaterEqual => operands_text("comparison operands must both be `Int` or both be `Dec`, found `"@, left, right),
        BinaryOp::And | BinaryOp::Or => operands_text("boolean operands must both be `Bool`, found `"@, left, right),
    }
}

/// The type of `-` or `not` applied to an operand of type `t`, or `None` when
/// the operand does not fit.
pub open spec fn unary_result(op: UnaryOp, t: Type) -> Option<Type> {
    match op {
        UnaryOp::Negate => if t is Int {
            Some(Type::Int)
        } else if t is Dec {
            Some(Type::Dec)
        } else {
            None
        },
        UnaryOp::Not => if t is Bool {
            Some(Type::Bool)
        } else {
            None
        },
    }
}

/// How an expression built from literals with unary and binary operators
/// types, whatever the scope: `Some(Some(t))` when it has type `t`,
/// `Some(None)` when it is refused, and `None` for an expression that names,
/// calls, indexes or builds a collection.
pub open spec fn closed_type(e: Expr) -> Option<Option<Type>>
    decreases e,
{
    match e.kind {
        ExprKind::Int(_) => Some(Some(Type::Int)),
        ExprKind::Dec(_) => Some(Some(Type::Dec)),
        ExprKind::String(_) => Some(Some(Type::Text)),
        ExprKind::Bool(_) => Some(Some(Type::Bool)),
        ExprKind::NoneLiteral => Some(Some(Type::NoneType)),
        ExprKind::Unary { op, expr } => match closed_type(*expr) {
            Some(Some(t)) => Some(unary_result(op, t)),
            Some(None) => Some(None),
            None => None,
        },
        ExprKind::Binary { left, op, right } => match closed_type(*left) {
            Some(None) => Some(None),
            Some(Some(l)) => match closed_type(*right) {
                Some(Some(r)) => Some(binary_result(op, l, r)),
                Some(None) => Some(None),
                None => None,
            },
            None => None,
        },
        _ => None,
    }
}

/// Whether a condition built from literals and operators is accepted:
/// `Some(true)` when it types to `Bool`, `Some(false)` when it is refused or
/// has another type, `None` when it is not such a condition.
pub open spec fn closed_condition(e: Expr) -> Option<bool> {
    match closed_type(e) {
        Some(Some(t)) => Some(t is Bool),
        Some(None) => Some(false),
        None => None,
    }
}

/// Whether a statement that the checker decides without looking past
/// literals and operators is accepted (`Some(true)`) or refused
/// (`Some(false)`), given the declared return type and whether it stands in
/// a loop; `None` for every other statement. Descriptive blocks are always
/// accepted; a condition must be `Bool`; a returned value must fit the
/// declared return type; a `for each` needs a collection, which no literal
/// is; `break` and `continue` need a loop.
pub open spec fn closed_stmt_check(kind: StmtKind, expected_return: Type, in_loop: bool) -> Option<bool> {
    match kind {
        StmtKind::IntentBlock { .. } | StmtKind::ExplainBlock { .. } => Some(true),
        StmtKind::RequiresClause { condition } => closed_condition(condition),
        StmtKind::EnsuresClause { condition } => closed_condition(condition),
        StmtKind::Expect(e) => closed_condition(e),
        StmtKind::While { condition, .. } => if closed_condition(condition) == Some(false) {
            Some(false)
        } else {
            None
        },
        StmtKind::ForEach { iterable, .. } => if closed_type(iterable) is Some {
            Some(false)
        } else {
            None
        },
        StmtKind::Return(value) => match value {
            Some(e) => match closed_type(e) {
                Some(Some(t)) => Some(assignable(expected_return, t)),
                Some(None) => Some(false),
                None => None,
            },
            None => Some(assignable(expected_return, Type::NoneType)),
        },
        StmtKind::Break | StmtKind::Continue => Some(in_loop),
        StmtKind::Expr(e) => match closed_type(e) {
            Some(Some(_)) => Some(true),
            Some(None) => Some(false),
            None => None,
        },
        _ => None,
    }
}

/// A statement that the checker refuses whatever the declared return type,
/// outside loops: a literal condition that is not `Bool`, a literal
/// `for each` collection, `break` or `continue`, or an expression or
/// returned value that does not type.
pub open spec fn refused_outright(kind: StmtKind) -> bool {
    match kind {
        StmtKind::RequiresClause { condition } => closed_condition(condition) == Some(false),
        StmtKind::EnsuresClause { condition } => closed_condition(condition) == Some(false),
        StmtKind::Expect(e) => closed_condition(e) == Some(false),
        StmtKind::While { condition, .. } => closed_condition(condition) == Some(false),
        StmtKind::ForEach { iterable, .. } => closed_type(iterable) is Some,
        StmtKind::Break | StmtKind::Continue => true,
        StmtKind::Expr(e) => closed_type(e) == Some(None::<Type>),
        StmtKind::Return(value) => value matches Some(e) && closed_type(e) == Some(None::<Type>),
        _ => false,
    }
}

/// A body with a statement refused outright.
pub open spec fn body_refused(body: Seq<Stmt>) -> bool {
    exists|j: int| 0 <= j < body.len() && refused_outright(#[trigger] body[j].kind)
}

/// An action or test whose body has a statement refused outright.
pub open spec fn decl_refused(d: Decl) -> bool {
    match d {
        Decl::Action(a) => body_refused(a.body@),
        Decl::Test(t) => body_refused(t.body@),
        _ => false,
    }
}

/// The result type an action declares, where it declares none or names a
/// built-in type.
pub open spec fn builtin_result(a: ActionDecl) -> Option<Type> {
    match a.return_type {
        None => Some(Type::NoneType),
        Some(TypeRef::Named(n)) => builtin_type_of(n@),
        Some(_) => None,
    }
}

/// A body whose every statement, outside any loop, is accepted on literals
/// alone against the return type `ret`.
pub open spec fn closed_body(body: Seq<Stmt>, ret: Type) -> bool {
    forall|j: int| 0 <= j < body.len() ==> closed_stmt_check(#[trigger] body[j].kind, ret, false) == Some(true)
}

/// A module of tests and of parameterless actions with distinct names, each
/// declaring a built-in result type or none, whose bodies are all accepted
/// on literals alone.
pub open spec fn closed_module(decls: Seq<Decl>) -> bool {
    &&& forall|i: int| 0 <= i < decls.len() ==> match #[trigger] decls[i] {
        Decl::Action(a) => a.params@.len() == 0 && (builtin_result(a) matches Some(t) && closed_body(a.body@, t)),
        Decl::Test(t) => closed_body(t.body@, Type::NoneType),
        _ => false,
    }
    &&& forall|i: int, j: int| 0 <= i < j < decls.len() ==> (#[trigger] decls[i] matches Decl::Action(a) && #[trigger] decls[j] matches Decl::Action(b)
        ==> a.name@ != b.name@)
}

/// Every signature in `actions` under the name of an action of `decls` has
/// the result type that action declares.
pub open spec fn results_fixed(decls: Seq<Decl>, actions: Seq<(String, ActionType)>) -> bool {
    forall|k: int, j: int| 0 <= k < decls.len() && 0 <= j < actions.len() ==> (#[trigger] decls[k] matches Decl::Action(a) ==> ((
    #[trigger] actions[j]).0@ == a.name@ ==> Some(*actions[j].1.result) == builtin_result(a)))
}

/// Every signature in `actions` is under the name of an action of `decls`.
pub open spec fn names_declared(decls: Seq<Decl>, actions: Seq<(String, ActionType)>) -> bool {
    forall|j: int| 0 <= j < actions.len() ==> name_declared(decls, #[trigger] actions[j].0@)
}

/// Whether `decls` declares an action named `name`.
pub open spec fn name_declared(decls: Seq<Decl>, name: Seq<char>) -> bool {
    exists|k: int| 0 <= k < decls.len() && #[trigger] action_named_at(decls, k, name)
}

/// Whether the declaration at `k` is an action named `name`.
pub open spec fn action_named_at(decls: Seq<Decl>, k: int, name: Seq<char>) -> bool {
    decls[k] matches Decl::Action(a) && a.name@ == name
}

/// Declarations that extend others declare every name those declare.
proof fn lemma_names_declared_grow(t0: Seq<Decl>, t1: Seq<Decl>, actions: Seq<(String, ActionType)>)
    requires
        names_declared(t0, actions),
        t0.len() <= t1.len(),
        forall|k: int| 0 <= k < t0.len() ==> t1[k] == t0[k],
    ensures
        names_declared(t1, actions),
{
    assert forall|j: int| 0 <= j < actions.len() implies name_declared(t1, #[trigger] actions[j].0@) by {
        let k = choose|k: int| 0 <= k < t0.len() && #[trigger] action_named_at(t0, k, actions[j].0@);
        assert(t1[k] == t0[k]);
        assert(action_named_at(t1, k, actions[j].0@));
    }
}

/// A type structurally equal to a scalar type is that type.
proof fn lemma_same_scalar(x: Type, t: Type)
    requires
        same(x, t),
        t is Bool || t is Int || t is Dec || t is Text || t is Bytes || t is NoneType,
    ensures
        x == t,
{
    match x {
        Type::Bool | Type::Int | Type::Dec | Type::Text | Type::Bytes | Type::NoneType => {},
        _ => {
            assert(!same(x, t));
        },
    }
}

/// A statement refused outright is refused whatever the return type.
proof fn lemma_refused_outright(kind: StmtKind, t: Type)
    requires
        refused_outright(kind),
    ensures
        closed_stmt_check(kind, t, false) == Some(false),
{
}

/// Types `left op right`.
pub fn type_binary(op: BinaryOp, left: &Type, right: &Type, span: &SourceSpan) -> (r: Result<Type, Vec<Diagnostic>>)
    ensures
        match r {
            Ok(t) => binary_result(op, *left, *right) == Some(t),
            Err(ds) => binary_result(op, *left, *right) is None && ds@.len() == 1
                && ds@[0].phase == Phase::TypeCheck && ds@[0].span == *span
                && ds@[0].message@ == binary_error_text(op, *left, *right),
        },
{
    let numeric = (matches!(left, Type::Int) && matches!(right, Type::Int))
        || (matches!(left, Type::Dec) && matches!(right, Type::Dec));
    match op {
        BinaryOp::Add | BinaryOp::Subtract | BinaryOp::Multiply | BinaryOp::Divide
        | BinaryOp::Modulo => {
            if numeric {
                Ok(if matches!(left, Type::Int) { Type::Int } else { Type::Dec })
            } else {
                type_fail(span, operands_message("arithmetic operands must both be `Int` or both be `Dec`, found `", left, right))
            }
        },
        BinaryOp::Equal | BinaryOp::NotEqual => {
            if is_assignable(left, right) || is_assignable(right, left) {
                Ok(Type::Bool)
            } else {
                type_fail(span, operands_message("equality operands must be comparable, found `", left, right))
            }
        },
        BinaryOp::Less | BinaryOp::LessEqual | BinaryOp::Greater | BinaryOp::GreaterEqual => {
            if numeric {
                Ok(Type::Bool)
            } else {
                type_fail(span, operands_message("comparison operands must both be `Int` or both be `Dec`, found `", left, right))
            }
        },
        BinaryOp::And | BinaryOp::Or => {
            if matches!(left, Type::Bool) && matches!(right, Type::Bool) {
                Ok(Type::Bool)
            } else {
                type_fail(span, operands_message("boolean operands must both be `Bool`, found `", left, right))
            }
        },
    }
}


/// The field types of a record, in declaration order.
#[derive(Debug)]
pub struct RecordType {
    pub fields: Vec<(String, Type)>,
}

/// The variants of an enum, in declaration order.
#[derive(Debug)]
pub struct EnumType {
    pub variants: Vec<(String, EnumVariantType)>,
}

/// The named payload fields of one enum variant.
#[derive(Debug)]
pub struct EnumVariantType {
    pub fields: Vec<(String, Type)>,
}

/// The declared type of an extern action and its purity.
#[derive(Debug)]
pub struct ExternSignature {
    pub purity: Option<Purity>,
    pub ty: ActionType,
}

/// The names of an association list, in order.
pub open spec fn keys_of<T>(entries: Seq<(String, T)>) -> Seq<Seq<char>> {
    entries.map_values(|e: (String, T)| e.0@)
}

/// The position of the first entry named `key`, if any.
pub fn find_key<T>(entries: &Vec<(String, T)>, key: &str) -> (r: Option<usize>)
    ensures
        r matches Some(i) ==> i < entries@.len() && entries@[i as int].0@ == key@
            && forall|k: int| 0 <= k < i ==> (#[trigger] entries@[k]).0@ != key@,
        r is None ==> forall|i: int| 0 <= i < entries@.len() ==> (#[trigger] entries@[i]).0@ != key@,
{
    let mut i: usize = 0;
    while i < entries.len()
        invariant
            i <= entries@.len(),
            forall|k: int| 0 <= k < i ==> (#[trigger] entries@[k]).0@ != key@,
        decreases entries@.len() - i,
    {
        if str_eq(entries[i].0.as_str(), key) {
            return Some(i);
        }
        i = i + 1;
    }
    None
}

/// The value of the first entry named `key`, if any.
pub fn lookup<'a, T>(entries: &'a Vec<(String, T)>, key: &str) -> (r: Option<&'a T>)
    ensures
        r matches Some(v) ==> exists|i: int| 0 <= i < entries@.len() && entries@[i].0@ == key@ && entries@[i].1 == *v,
        r is None ==> forall|i: int| 0 <= i < entries@.len() ==> (#[trigger] entries@[i]).0@ != key@,
        r matches Some(v) ==> find_key_spec(entries@, key@) matches Some(i) && entries@[i].1 == *v,
        r is None ==> find_key_spec(entries@, key@) is None,
{
    match find_key(entries, key) {
        Some(i) => {
            proof {
                lemma_find_key_spec(entries@, key@, i as int);
            }
            Some(&entries[i].1)
        },
        None => {
            proof {
                lemma_find_key_spec_none(entries@, key@);
            }
            None
        },
    }
}

/// Binds `key` to `value`: the entry named `key` is replaced, or a new entry
/// is added at the end.
pub fn assoc_insert<T>(entries: &mut Vec<(String, T)>, key: String, value: T)
    ensures
        match find_key_spec(old(entries)@, key@) {
            Some(i) => final(entries)@ == old(entries)@.update(i, (key, value)),
            None => final(entries)@ == old(entries)@.push((key, value)),
        },
        has_key(final(entries)@, key@),
        forall|k: Seq<char>| has_key(old(entries)@, k) ==> #[trigger] has_key(final(entries)@, k),
        forall|k: Seq<char>| #[trigger] has_key(final(entries)@, k) ==> has_key(old(entries)@, k) || k == key@,
{
    let ghost k0 = key@;
    match find_key(entries, key.as_str()) {
        Some(i) => {
            proof {
                lemma_find_key_spec(old(entries)@, key@, i as int);
            }
            entries.set(i, (key, value));
            proof {
                assert(entries@[i as int].0@ == k0);
                assert forall|k: Seq<char>| #[trigger] has_key(entries@, k) implies has_key(old(entries)@, k) || k == k0 by {
                    let j = choose|j: int| 0 <= j < entries@.len() && entries@[j].0@ == k;
                    if j != i {
                        assert(old(entries)@[j].0@ == k);
                    }
                }
                assert forall|k: Seq<char>| has_key(old(entries)@, k) implies #[trigger] has_key(entries@, k) by {
                    let j = choose|j: int| 0 <= j < old(entries)@.len() && old(entries)@[j].0@ == k;
                    if j != i {
                        assert(entries@[j].0@ == k);
                    } else {
                        assert(entries@[j].0@ == k);
                    }
                }
            }
        },
        None => {
            proof {
                lemma_find_key_spec_none(old(entries)@, key@);
            }
            entries.push((key, value));
            proof {
                assert(entries@[entries@.len() - 1].0@ == k0);
                assert forall|k: Seq<char>| #[trigger] has_key(entries@, k) implies has_key(old(entries)@, k) || k == k0 by {
                    let j = choose|j: int| 0 <= j < entries@.len() && entries@[j].0@ == k;
                    if j < old(entries)@.len() {
                        assert(old(entries)@[j].0@ == k);
                    }
                }
                assert forall|k: Seq<char>| has_key(old(entries)@, k) implies #[trigger] has_key(entries@, k) by {
                    let j = choose|j: int| 0 <= j < old(entries)@.len() && old(entries)@[j].0@ == k;
                    assert(entries@[j].0@ == k);
                }
            }
        },
    }
}

/// Whether some entry is named `key`.
pub open spec fn has_key<T>(entries: Seq<(String, T)>, key: Seq<char>) -> bool {
    exists|i: int| 0 <= i < entries.len() && entries[i].0@ == key
}

/// The position of the first entry named `key`, if any.
pub open spec fn find_key_spec<T>(entries: Seq<(String, T)>, key: Seq<char>) -> Option<int> {
    if exists|i: int| 0 <= i < entries.len() && entries[i].0@ == key {
        Some(choose|i: int| 0 <= i < entries.len() && entries[i].0@ == key
            && forall|k: int| 0 <= k < i ==> (#[trigger] entries[k]).0@ != key)
    } else {
        None
    }
}

pub(crate) proof fn lemma_find_key_spec<T>(entries: Seq<(String, T)>, key: Seq<char>, i: int)
    requires
        0 <= i < entries.len(),
        entries[i].0@ == key,
        forall|k: int| 0 <= k < i ==> (#[trigger] entries[k]).0@ != key,
    ensures
        find_key_spec(entries, key) == Some(i),
{
    let j = choose|j: int| 0 <= j < entries.len() && entries[j].0@ == key
        && forall|k: int| 0 <= k < j ==> (#[trigger] entries[k]).0@ != key;
    assert(0 <= j < entries.len() && entries[j].0@ == key && forall|k: int| 0 <= k < j ==> (#[trigger] entries[k]).0@ != key);
    if j < i {
        assert(entries[j].0@ != key);
    }
    if i < j {
        assert(entries[i].0@ != key);
    }
}

pub(crate) proof fn lemma_find_key_spec_none<T>(entries: Seq<(String, T)>, key: Seq<char>)
    requires
        forall|k: int| 0 <= k < entries.len() ==> (#[trigger] entries[k]).0@ != key,
    ensures
        find_key_spec(entries, key) is None,
{
}


/// A failed check reports at least one diagnostic, each of the type-check
/// or the resolve phase.
pub open spec fn check_failure(ds: Seq<Diagnostic>) -> bool {
    ds.len() > 0 && forall|i: int| 0 <= i < ds.len() ==> (#[trigger] ds[i]).phase == Phase::TypeCheck
        || ds[i].phase == Phase::Resolve
}

/// A check step either succeeds or reports a check failure.
pub open spec fn check_outcome<T>(r: Result<T, Vec<Diagnostic>>) -> bool {
    r matches Err(ds) ==> check_failure(ds@)
}

/// Where some entry is named `key`, there is a first such entry.
proof fn lemma_first_key_exists<T>(a: Seq<(String, T)>, key: Seq<char>, i: int)
    requires
        0 <= i < a.len(),
        a[i].0@ == key,
    ensures
        exists|j: int| 0 <= j < a.len() && a[j].0@ == key
            && forall|k: int| 0 <= k < j ==> (#[trigger] a[k]).0@ != key,
    decreases i,
{
    if exists|k: int| 0 <= k < i && a[k].0@ == key {
        let k = choose|k: int| 0 <= k < i && a[k].0@ == key;
        lemma_first_key_exists(a, key, k);
    } else {
        assert(forall|k: int| 0 <= k < i ==> (#[trigger] a[k]).0@ != key);
    }
}

/// What the first position of `key` is: a position holding it with none
/// before, or, when there is none, no position holds it.
pub(crate) proof fn lemma_find_key_spec_facts<T>(entries: Seq<(String, T)>, key: Seq<char>)
    ensures
        find_key_spec(entries, key) matches Some(j) ==> 0 <= j < entries.len() && entries[j].0@ == key && forall|k: int|
            0 <= k < j ==> (#[trigger] entries[k]).0@ != key,
        find_key_spec(entries, key) is None ==> forall|k: int| 0 <= k < entries.len() ==> (#[trigger] entries[k]).0@ != key,
{
    if exists|i: int| 0 <= i < entries.len() && entries[i].0@ == key {
        let i = choose|i: int| 0 <= i < entries.len() && entries[i].0@ == key;
        lemma_first_key_exists(entries, key, i);
    }
}

/// Two sequences whose entries carry the same names, position by position,
/// find a name at the same position.
pub(crate) proof fn lemma_same_names_find<T>(a: Seq<(String, T)>, b: Seq<(String, T)>, key: Seq<char>)
    requires
        a.len() == b.len(),
        forall|k: int| 0 <= k < a.len() ==> (#[trigger] a[k]).0@ == b[k].0@,
    ensures
        find_key_spec(a, key) == find_key_spec(b, key),
{
    lemma_find_key_spec_facts(a, key);
    match find_key_spec(a, key) {
        Some(j) => {
            assert forall|k: int| 0 <= k < j implies (#[trigger] b[k]).0@ != key by {
                assert(a[k].0@ == b[k].0@);
            }
            lemma_find_key_spec(b, key, j);
        },
        None => {
            assert forall|k: int| 0 <= k < b.len() implies (#[trigger] b[k]).0@ != key by {
                assert(a[k].0@ == b[k].0@);
            }
            lemma_find_key_spec_none(b, key);
        },
    }
}

/// Adding an entry at the end keeps where every earlier name is found, and
/// finds the new name there when it was not found before.
pub(crate) proof fn lemma_push_find<T>(a: Seq<(String, T)>, entry: (String, T), key: Seq<char>)
    ensures
        find_key_spec(a, key) is Some ==> find_key_spec(a.push(entry), key) == find_key_spec(a, key),
        find_key_spec(a, key) is None && entry.0@ == key ==> find_key_spec(a.push(entry), key) == Some(a.len() as int),
        find_key_spec(a, key) is None && entry.0@ != key ==> find_key_spec(a.push(entry), key) is None,
{
    let b = a.push(entry);
    lemma_find_key_spec_facts(a, key);
    match find_key_spec(a, key) {
        Some(j) => {
            assert forall|k: int| 0 <= k < j implies (#[trigger] b[k]).0@ != key by {
                assert(b[k] == a[k]);
            }
            assert(b[j] == a[j]);
            lemma_find_key_spec(b, key, j);
        },
        None => {
            if entry.0@ == key {
                assert forall|k: int| 0 <= k < a.len() implies (#[trigger] b[k]).0@ != key by {
                    assert(b[k] == a[k]);
                }
                lemma_find_key_spec(b, key, a.len() as int);
            } else {
                assert forall|k: int| 0 <= k < b.len() implies (#[trigger] b[k]).0@ != key by {
                    if k < a.len() {
                        assert(b[k] == a[k]);
                    }
                }
                lemma_find_key_spec_none(b, key);
            }
        },
    }
}

/// What a local name is bound to: its type and whether it may be assigned.
#[derive(Debug)]
struct BindingInfo {
    ty: Type,
    mutable: bool,
}

/// The local bindings in force at one point of an action or test body.
#[derive(Debug)]
struct Scope {
    bindings: Vec<(String, BindingInfo)>,
}

impl Scope {
    /// Whether `name` is bound here, and if so whether it may be assigned.
    spec fn mutability(self, name: Seq<char>) -> Option<bool> {
        match find_key_spec(self.bindings@, name) {
            Some(i) => Some(self.bindings@[i].1.mutable),
            None => None,
        }
    }

    fn new() -> (r: Scope)
        ensures
            forall|n: Seq<char>| r.mutability(n) is None,
    {
        Scope { bindings: Vec::new() }
    }

    fn insert(&mut self, name: String, ty: Type, mutable: bool)
        ensures
            forall|n: Seq<char>| #[trigger] final(self).mutability(n) is Some <==> (old(self).mutability(n) is Some || n
                == name@),
            final(self).mutability(name@) == Some(mutable),
            forall|n: Seq<char>| n != name@ ==> #[trigger] final(self).mutability(n) == old(self).mutability(n),
    {
        let ghost key = name@;
        assoc_insert(&mut self.bindings, name, BindingInfo { ty, mutable });
        proof {
            let a = old(self).bindings@;
            let b = self.bindings@;
            lemma_find_key_spec_facts(a, key);
            match find_key_spec(a, key) {
                Some(i) => {
                    assert forall|k: int| 0 <= k < a.len() implies (#[trigger] a[k]).0@ == b[k].0@ by {}
                    assert forall|n: Seq<char>| n != key implies #[trigger] self.mutability(n) == old(self).mutability(n) by {
                        lemma_same_names_find(a, b, n);
                        lemma_find_key_spec_facts(a, n);
                        if let Some(j) = find_key_spec(a, n) {
                            assert(j != i);
                        }
                    }
                    lemma_same_names_find(a, b, key);
                },
                None => {
                    assert forall|n: Seq<char>| n != key implies #[trigger] self.mutability(n) == old(self).mutability(n) by {
                        lemma_push_find(a, b[a.len() as int], n);
                        lemma_find_key_spec_facts(a, n);
                        assert(b == a.push(b[a.len() as int]));
                    }
                    lemma_push_find(a, b[a.len() as int], key);
                    assert(b == a.push(b[a.len() as int]));
                },
            }
            assert forall|n: Seq<char>| #[trigger] self.mutability(n) is Some <==> (old(self).mutability(n) is Some || n
                == key) by {
                assert(has_key(self.bindings@, n) ==> has_key(old(self).bindings@, n) || n == key);
                assert(has_key(old(self).bindings@, n) ==> has_key(self.bindings@, n));
            }
        }
    }

    fn get(&self, name: &str) -> (r: Option<&Type>)
        ensures
            r is Some <==> self.mutability(name@) is Some,
    {
        match find_key(&self.bindings, name) {
            Some(i) => {
                proof {
                    lemma_find_key_spec(self.bindings@, name@, i as int);
                }
                Some(&self.bindings[i].1.ty)
            },
            None => {
                proof {
                    lemma_find_key_spec_none(self.bindings@, name@);
                }
                None
            },
        }
    }

    fn contains(&self, name: &str) -> (r: bool)
        ensures
            r == self.mutability(name@) is Some,
    {
        self.get(name).is_some()
    }

    fn is_mutable(&self, name: &str) -> (r: bool)
        ensures
            r == (self.mutability(name@) == Some(true)),
    {
        match find_key(&self.bindings, name) {
            Some(i) => {
                proof {
                    lemma_find_key_spec(self.bindings@, name@, i as int);
                }
                self.bindings[i].1.mutable
            },
            None => {
                proof {
                    lemma_find_key_spec_none(self.bindings@, name@);
                }
                false
            },
        }
    }

    fn duplicate(&self) -> (r: Scope)
        ensures
            r.bindings@.len() == self.bindings@.len(),
            forall|k: int| 0 <= k < self.bindings@.len() ==> (#[trigger] r.bindings@[k]).0 == self.bindings@[k].0
                && r.bindings@[k].1.mutable == self.bindings@[k].1.mutable && same(r.bindings@[k].1.ty, self.bindings@[k].1.ty),
    {
        let mut out: Vec<(String, BindingInfo)> = Vec::new();
        let mut i: usize = 0;
        while i < self.bindings.len()
            invariant
                i <= self.bindings@.len(),
                out@.len() == i,
                forall|k: int| 0 <= k < i ==> (#[trigger] out@[k]).0 == self.bindings@[k].0
                    && out@[k].1.mutable == self.bindings@[k].1.mutable && same(out@[k].1.ty, self.bindings@[k].1.ty),
            decreases self.bindings@.len() - i,
        {
            let entry = &self.bindings[i];
            out.push((entry.0.clone(), BindingInfo { ty: entry.1.ty.duplicate(), mutable: entry.1.mutable }));
            i = i + 1;
        }
        Scope { bindings: out }
    }
}


/// Copies of named field types.
fn duplicate_fields(fields: &Vec<(String, Type)>) -> (r: Vec<(String, Type)>)
    ensures
        r@.len() == fields@.len(),
        forall|i: int| 0 <= i < fields@.len() ==> (#[trigger] r@[i]).0@ == fields@[i].0@
            && same(r@[i].1, fields@[i].1),
{
    let mut out: Vec<(String, Type)> = Vec::new();
    let mut i: usize = 0;
    while i < fields.len()
        invariant
            i <= fields@.len(),
            out@.len() == i,
            forall|k: int| 0 <= k < i ==> (#[trigger] out@[k]).0@ == fields@[k].0@
                && same(out@[k].1, fields@[k].1),
        decreases fields@.len() - i,
    {
        out.push((fields[i].0.clone(), fields[i].1.duplicate()));
        i = i + 1;
    }
    out
}

impl RecordType {
    /// A copy with the same field names and equal field types.
    pub fn duplicate(&self) -> (r: RecordType)
        ensures
            keys_of(r.fields@) == keys_of(self.fields@),
    {
        let r = RecordType { fields: duplicate_fields(&self.fields) };
        assert(keys_of(r.fields@) =~= keys_of(self.fields@));
        r
    }
}

impl EnumVariantType {
    /// A copy with the same field names and equal field types.
    pub fn duplicate(&self) -> (r: EnumVariantType)
        ensures
            keys_of(r.fields@) == keys_of(self.fields@),
    {
        let r = EnumVariantType { fields: duplicate_fields(&self.fields) };
        assert(keys_of(r.fields@) =~= keys_of(self.fields@));
        r
    }
}

impl EnumType {
    /// A copy with the same variant names.
    pub fn duplicate(&self) -> (r: EnumType)
        ensures
            keys_of(r.variants@) == keys_of(self.variants@),
    {
        let mut out: Vec<(String, EnumVariantType)> = Vec::new();
        let mut i: usize = 0;
        while i < self.variants.len()
            invariant
                i <= self.variants@.len(),
                out@.len() == i,
                forall|k: int| 0 <= k < i ==> (#[trigger] out@[k]).0@ == self.variants@[k].0@,
            decreases self.variants@.len() - i,
        {
            out.push((self.variants[i].0.clone(), self.variants[i].1.duplicate()));
            i = i + 1;
        }
        let r = EnumType { variants: out };
        assert(keys_of(r.variants@) =~= keys_of(self.variants@));
        r
    }
}

impl ExternSignature {
    /// A copy with the same purity and an equal type.
    pub fn duplicate(&self) -> (r: ExternSignature)
        ensures
            r.purity == self.purity,
            r.ty.same_as(self.ty),
    {
        ExternSignature { purity: self.purity, ty: self.ty.duplicate() }
    }
}

/// The type recorded for node `id`, if any (the last one recorded).
pub fn node_type(entries: &Vec<(NodeId, Type)>, id: NodeId) -> (r: Option<&Type>)
    ensures
        r matches Some(t) ==> exists|i: int| 0 <= i < entries@.len() && entries@[i].0 == id && entries@[i].1 == *t,
        r is None ==> forall|i: int| 0 <= i < entries@.len() ==> (#[trigger] entries@[i]).0 != id,
{
    let mut i: usize = entries.len();
    while i > 0
        invariant
            i <= entries@.len(),
            forall|k: int| i <= k < entries@.len() ==> (#[trigger] entries@[k]).0 != id,
        decreases i,
    {
        i = i - 1;
        if entries[i].0 == id {
            return Some(&entries[i].1);
        }
    }
    None
}

/// The value recorded for the position `span`, if any (the last one recorded).
pub fn span_entry<'a, T>(entries: &'a Vec<(SourceSpan, T)>, span: &SourceSpan) -> (r: Option<&'a T>)
    ensures
        r matches Some(t) ==> exists|i: int| 0 <= i < entries@.len() && entries@[i].0.key() == span.key() && entries@[i].1 == *t,
        r is None ==> forall|i: int| 0 <= i < entries@.len() ==> (#[trigger] entries@[i]).0.key() != span.key(),
{
    let mut i: usize = entries.len();
    while i > 0
        invariant
            i <= entries@.len(),
            forall|k: int| i <= k < entries@.len() ==> (#[trigger] entries@[k]).0.key() != span.key(),
        decreases i,
    {
        i = i - 1;
        if entries[i].0.same_position(span) {
            return Some(&entries[i].1);
        }
    }
    None
}

/// Every action declared in `decls` has a signature in `actions`.
pub open spec fn declared_actions_registered(decls: Seq<Decl>, actions: Seq<(String, ActionType)>) -> bool {
    forall|k: int| 0 <= k < decls.len() ==> (#[trigger] decls[k] matches Decl::Action(a)
        ==> has_key(actions, a.name@))
}

/// Every extern declared in `decls` has a signature in `externs`.
pub open spec fn declared_externs_registered(decls: Seq<Decl>, externs: Seq<(String, ExternSignature)>) -> bool {
    forall|k: int| 0 <= k < decls.len() ==> (#[trigger] decls[k] matches Decl::Extern(e)
        ==> has_key(externs, e.name@))
}

/// Whether `types` are the payload types of the variant `n` of the enum at
/// `i`.
pub open spec fn variant_types_are(enums: Seq<(String, EnumType)>, i: int, n: Seq<char>, types: Seq<Type>) -> bool {
    match find_key_spec(enums[i].1.variants@, n) {
        Some(j) => {
            let fields = enums[i].1.variants@[j].1.fields@;
            types.len() == fields.len() && forall|k: int| 0 <= k < fields.len() ==> same(#[trigger] types[k], fields[k].1)
        },
        None => false,
    }
}

/// The payload types and the whole type of the variant pattern `n` matched
/// against a value of type `expected`.
pub open spec fn pattern_signature_is(enums: Seq<(String, EnumType)>, expected: Type, n: Seq<char>, types: Seq<Type>, whole: Type) -> bool {
    match expected {
        Type::Result(ok, err) => same(whole, expected) && types.len() == 1 && if n == "Ok"@ {
            same(types[0], *ok)
        } else {
            same(types[0], *err)
        },
        Type::Option(inner) => same(whole, expected) && if n == "Some"@ {
            types.len() == 1 && same(types[0], *inner)
        } else {
            types.len() == 0
        },
        Type::NoneType => whole == Type::NoneType && types.len() == 0,
        Type::Enum(e) => whole == Type::Enum(e) && match find_key_spec(enums, e@) {
            Some(i) => variant_types_are(enums, i, n, types),
            None => false,
        },
        Type::Unknown => if n == "Ok"@ || n == "Err"@ {
            types.len() == 1 && types[0] == Type::Unknown && whole == Type::Result(Box::new(Type::Unknown), Box::new(Type::Unknown))
        } else if n == "Some"@ {
            types.len() == 1 && types[0] == Type::Unknown && whole == Type::Option(Box::new(Type::Unknown))
        } else if n == "None"@ {
            types.len() == 0 && whole == Type::Unknown
        } else {
            exists|i: int|
                crate::tir::unique_variant_owner(enums, n, i) && variant_types_are(enums, i, n, types) && whole
                    == Type::Enum(#[trigger] enums[i].0)
        },
        _ => false,
    }
}

/// No two of the strings have the same text.
pub open spec fn strings_distinct(s: Seq<String>) -> bool {
    forall|a: int, b: int| 0 <= a < b < s.len() ==> (#[trigger] s[a])@ != (#[trigger] s[b])@
}

/// No two fields of a record pattern bind the same name.
pub open spec fn bindings_distinct(fs: Seq<crate::ast::RecordBindingField>) -> bool {
    forall|a: int, b: int| 0 <= a < b < fs.len() ==> (#[trigger] fs[a]).binding@ != (#[trigger] fs[b]).binding@
}

/// A prefix of distinct strings is distinct.
proof fn lemma_distinct_prefix(s: Seq<String>, m: int)
    requires
        0 <= m <= s.len(),
    ensures
        strings_distinct(s) ==> strings_distinct(s.take(m)),
{
    if strings_distinct(s) {
        assert forall|a: int, b: int| 0 <= a < b < m implies (#[trigger] s.take(m)[a])@ != (#[trigger] s.take(m)[b])@ by {
            assert(s.take(m)[a] == s[a]);
            assert(s.take(m)[b] == s[b]);
        }
    }
}

/// A prefix of fields with distinct bindings has distinct bindings.
proof fn lemma_bindings_distinct_prefix(fs: Seq<crate::ast::RecordBindingField>, m: int)
    requires
        0 <= m <= fs.len(),
    ensures
        bindings_distinct(fs) ==> bindings_distinct(fs.take(m)),
{
    if bindings_distinct(fs) {
        assert forall|a: int, b: int| 0 <= a < b < m implies (#[trigger] fs.take(m)[a]).binding@ != (#[trigger] fs.take(
            m,
        )[b]).binding@ by {
            assert(fs.take(m)[a] == fs[a]);
            assert(fs.take(m)[b] == fs[b]);
        }
    }
}

/// One more field whose binding is not among those seen keeps the bindings
/// distinct.
proof fn lemma_bindings_distinct_step(fields: Seq<crate::ast::RecordBindingField>, seen: Seq<(String, ())>, i: int)
    requires
        0 <= i < fields.len(),
        seen.len() == i,
        forall|k: int| 0 <= k < i ==> (#[trigger] seen[k]).0 == fields[k].binding,
        bindings_distinct(fields.take(i)),
        forall|k: int| 0 <= k < seen.len() ==> (#[trigger] seen[k]).0@ != fields[i].binding@,
    ensures
        bindings_distinct(fields.take(i + 1)),
{
    assert forall|a: int, b: int| 0 <= a < b < i + 1 implies (#[trigger] fields.take(i + 1)[a]).binding@
        != (#[trigger] fields.take(i + 1)[b]).binding@ by {
        assert(fields.take(i + 1)[a] == fields[a]);
        assert(fields.take(i + 1)[b] == fields[b]);
        if b < i {
            assert(fields.take(i)[a] == fields[a]);
            assert(fields.take(i)[b] == fields[b]);
        } else {
            assert(seen[a].0 == fields[a].binding);
        }
    }
}

/// Binding one more field's name extends what the scope binds to the
/// fields seen so far.
proof fn lemma_scope_step(before: Scope, after: Scope, s0: Scope, fields: Seq<crate::ast::RecordBindingField>, i: int, mutable: bool)
    requires
        0 <= i < fields.len(),
        forall|n: Seq<char>| #[trigger] before.mutability(n) == (if exists|k: int|
            0 <= k < i && (#[trigger] fields[k]).binding@ == n {
            Some(mutable)
        } else {
            s0.mutability(n)
        }),
        after.mutability(fields[i].binding@) == Some(mutable),
        forall|n: Seq<char>| n != fields[i].binding@ ==> #[trigger] after.mutability(n) == before.mutability(n),
    ensures
        forall|n: Seq<char>| #[trigger] after.mutability(n) == (if exists|k: int|
            0 <= k < i + 1 && (#[trigger] fields[k]).binding@ == n {
            Some(mutable)
        } else {
            s0.mutability(n)
        }),
{
    assert forall|n: Seq<char>| #[trigger] after.mutability(n) == (if exists|k: int|
        0 <= k < i + 1 && (#[trigger] fields[k]).binding@ == n {
        Some(mutable)
    } else {
        s0.mutability(n)
    }) by {
        if n == fields[i].binding@ {
            assert(fields[i].binding@ == n);
        } else {
            assert(before.mutability(n) == after.mutability(n));
            if exists|k: int| 0 <= k < i + 1 && (#[trigger] fields[k]).binding@ == n {
                let k = choose|k: int| 0 <= k < i + 1 && (#[trigger] fields[k]).binding@ == n;
                assert(k < i);
            }
        }
    }
}

/// Whether a binding pattern binds the name `n`.
pub open spec fn binds_name(k: BindingPatternKind, n: Seq<char>) -> bool {
    match k {
        BindingPatternKind::Name(x) => x@ == n,
        BindingPatternKind::Tuple(names) => exists|i: int| 0 <= i < names@.len() && (#[trigger] names@[i])@ == n,
        BindingPatternKind::Record { fields, .. } => exists|i: int| 0 <= i < fields@.len() && (#[trigger] fields@[i]).binding@
            == n,
    }
}

/// The type of a literal in a pattern.
pub open spec fn literal_type_of(l: PatternLiteral) -> Type {
    match l {
        PatternLiteral::Int(_) => Type::Int,
        PatternLiteral::Dec(_) => Type::Dec,
        PatternLiteral::String(_) => Type::Text,
        PatternLiteral::Bool(_) => Type::Bool,
        PatternLiteral::NoneLiteral => Type::NoneType,
    }
}

/// Whether `t` is the result type of a standard runtime action: `Bool` for
/// `file.exists`, `Result[Text, Text]` for the reads, `Result[None, Text]`
/// for the others.
pub open spec fn runtime_result_type(a: StandardRuntimeAction, t: Type) -> bool {
    match a {
        StandardRuntimeAction::FileExists => t is Bool,
        StandardRuntimeAction::ConsoleReadLine | StandardRuntimeAction::FileReadText => t matches Type::Result(o, e)
            && *o is Text && *e is Text,
        _ => t matches Type::Result(o, e) && *o is NoneType && *e is Text,
    }
}

/// Whether the first entry recorded for node `id` holds a type the same as
/// `t`.
pub open spec fn first_typed(entries: Seq<(NodeId, Type)>, id: NodeId, t: Type) -> bool {
    exists|j: int|
        0 <= j < entries.len() && entries[j].0 == id && same(entries[j].1, t) && forall|k: int|
            0 <= k < j ==> (#[trigger] entries[k]).0 != id
}

/// The names a `match` pattern binds, in order.
pub open spec fn pattern_names(p: Pattern) -> Seq<Seq<char>>
    decreases p, 1int,
{
    match p.kind {
        PatternKind::Binding(n) => seq![n@],
        PatternKind::Tuple(items) => {
            proof {
                assert(decreases_to!(p => items@));
            }
            names_all(items@)
        },
        PatternKind::Record { fields, .. } => {
            proof {
                assert(decreases_to!(p => fields@));
            }
            field_names_all(fields@)
        },
        PatternKind::Variant { args, .. } => {
            proof {
                assert(decreases_to!(p => args@));
            }
            names_all(args@)
        },
        _ => Seq::empty(),
    }
}

/// The names some patterns bind, in order.
pub open spec fn names_all(ps: Seq<Pattern>) -> Seq<Seq<char>>
    decreases ps, 0int,
{
    if ps.len() == 0 {
        Seq::empty()
    } else {
        proof {
            assert(decreases_to!(ps => ps.drop_last()));
            assert(decreases_to!(ps => ps[ps.len() - 1]));
        }
        names_all(ps.drop_last()) + pattern_names(ps.last())
    }
}

/// The names the field patterns of a record pattern bind, in order.
pub open spec fn field_names_all(fs: Seq<crate::ast::RecordPatternField>) -> Seq<Seq<char>>
    decreases fs, 0int,
{
    if fs.len() == 0 {
        Seq::empty()
    } else {
        proof {
            assert(decreases_to!(fs => fs.drop_last()));
            assert(decreases_to!(fs => fs[fs.len() - 1]));
        }
        field_names_all(fs.drop_last()) + pattern_names(fs.last().pattern)
    }
}

/// Whether the first entry named `n` has the kind `kind`.
pub open spec fn first_kind_is(es: Seq<crate::resolver::SymbolEntry>, n: Seq<char>, kind: SymbolKind) -> bool {
    exists|i: int| 0 <= i < es.len() && es[i] == (n, kind) && forall|j: int| 0 <= j < i ==> (#[trigger] es[j]).0 != n
}

/// The tables the checker builds: the declared types of the module and the
/// types it assigns to expressions and assignment targets.
struct CheckState {
    resolution: Resolution,
    records: Vec<(String, RecordType)>,
    enums: Vec<(String, EnumType)>,
    actions: Vec<(String, ActionType)>,
    externs: Vec<(String, ExternSignature)>,
    constants: Vec<(String, Type)>,
}

/// The types the checker assigns to expression nodes and assignment
/// targets, and the mutability of each target's root.
struct Recorded {
    expr_types: Vec<(NodeId, Type)>,
    target_types: Vec<(SourceSpan, Type)>,
    target_root_mutability: Vec<(SourceSpan, bool)>,
}

impl Recorded {
    fn new() -> (r: Recorded) {
        Recorded { expr_types: Vec::new(), target_types: Vec::new(), target_root_mutability: Vec::new() }
    }

    /// Records the type of expression node `id`: the first entry for `id`
    /// gets the type, or a new entry is added at the end.
    fn record_expr_type(&mut self, id: NodeId, ty: &Type)
        ensures
            final(self).target_types == old(self).target_types,
            final(self).target_root_mutability == old(self).target_root_mutability,
            recorded_at_first(keys_of_nodes(old(self).expr_types@), keys_of_nodes(final(self).expr_types@), id),
            final(self).expr_types@.len() >= old(self).expr_types@.len(),
            forall|k: int| 0 <= k < old(self).expr_types@.len() && old(self).expr_types@[k].0 != id
                ==> #[trigger] final(self).expr_types@[k] == old(self).expr_types@[k],
            exists|j: int| 0 <= j < final(self).expr_types@.len() && final(self).expr_types@[j].0 == id
                && same(final(self).expr_types@[j].1, *ty)
                && forall|k: int| 0 <= k < j ==> (#[trigger] final(self).expr_types@[k]).0 != id,
    {
        let mut i: usize = 0;
        while i < self.expr_types.len()
            invariant
                i <= self.expr_types@.len(),
                self.expr_types == old(self).expr_types,
                self.target_types == old(self).target_types,
                self.target_root_mutability == old(self).target_root_mutability,
                forall|k: int| 0 <= k < i ==> (#[trigger] self.expr_types@[k]).0 != id,
            decreases self.expr_types@.len() - i,
        {
            if self.expr_types[i].0 == id {
                let ghost before = self.expr_types@;
                self.expr_types.set(i, (id, ty.duplicate()));
                proof {
                    assert(keys_of_nodes(self.expr_types@) =~= keys_of_nodes(before));
                    assert(self.expr_types@[i as int].0 == id);
                    assert(keys_of_nodes(before)[i as int] == id);
                }
                return;
            }
            i = i + 1;
        }
        let ghost before = self.expr_types@;
        self.expr_types.push((id, ty.duplicate()));
        proof {
            assert(keys_of_nodes(self.expr_types@) =~= keys_of_nodes(before).push(id));
            assert(self.expr_types@[before.len() as int].0 == id);
            assert(!keys_of_nodes(before).contains(id));
        }
    }

    /// Records the type of an assignment target and whether its root may be
    /// assigned: in each list the first entry at the target's position is
    /// updated, or a new entry is added at the end.
    fn record_target(&mut self, span: &SourceSpan, ty: &Type, root_mutable: bool)
        ensures
            final(self).expr_types == old(self).expr_types,
            span_recorded(old(self).target_types@, final(self).target_types@, span.key(), *ty),
            flag_recorded(old(self).target_root_mutability@, final(self).target_root_mutability@, span.key(), root_mutable),
    {
        let mut i: usize = 0;
        let mut found = false;
        while i < self.target_types.len()
            invariant_except_break
                !found,
                self.target_types == old(self).target_types,
                forall|k: int| 0 <= k < i ==> (#[trigger] self.target_types@[k]).0.key() != span.key(),
            invariant
                i <= self.target_types@.len(),
                self.expr_types == old(self).expr_types,
                self.target_root_mutability == old(self).target_root_mutability,
            ensures
                found ==> span_recorded(old(self).target_types@, self.target_types@, span.key(), *ty),
                !found ==> self.target_types == old(self).target_types && forall|k: int|
                    0 <= k < self.target_types@.len() ==> (#[trigger] self.target_types@[k]).0.key() != span.key(),
            decreases self.target_types@.len() - i,
        {
            if self.target_types[i].0.same_position(span) {
                let ghost before = self.target_types@;
                self.target_types.set(i, (span.duplicate(), ty.duplicate()));
                proof {
                    assert(self.target_types@ == before.update(i as int, self.target_types@[i as int]));
                    assert(before[i as int].0.key() == span.key());
                    assert(self.target_types@[i as int].0.key() == span.key());
                }
                found = true;
                break;
            }
            i = i + 1;
        }
        if !found {
            let ghost before = self.target_types@;
            self.target_types.push((span.duplicate(), ty.duplicate()));
            proof {
                assert(self.target_types@.drop_last() =~= before);
            }
        }
        let mut j: usize = 0;
        let mut found2 = false;
        while j < self.target_root_mutability.len()
            invariant_except_break
                !found2,
                self.target_root_mutability == old(self).target_root_mutability,
                forall|k: int| 0 <= k < j ==> (#[trigger] self.target_root_mutability@[k]).0.key() != span.key(),
            invariant
                j <= self.target_root_mutability@.len(),
                self.expr_types == old(self).expr_types,
                span_recorded(old(self).target_types@, self.target_types@, span.key(), *ty),
            ensures
                found2 ==> flag_recorded(old(self).target_root_mutability@, self.target_root_mutability@, span.key(), root_mutable),
                !found2 ==> self.target_root_mutability == old(self).target_root_mutability && forall|k: int|
                    0 <= k < self.target_root_mutability@.len() ==> (#[trigger] self.target_root_mutability@[k]).0.key() != span.key(),
            decreases self.target_root_mutability@.len() - j,
        {
            if self.target_root_mutability[j].0.same_position(span) {
                let ghost before = self.target_root_mutability@;
                self.target_root_mutability.set(j, (span.duplicate(), root_mutable));
                proof {
                    assert(self.target_root_mutability@ == before.update(j as int, self.target_root_mutability@[j as int]));
                    assert(before[j as int].0.key() == span.key());
                    assert(self.target_root_mutability@[j as int].0.key() == span.key());
                }
                found2 = true;
                break;
            }
            j = j + 1;
        }
        if !found2 {
            let ghost before = self.target_root_mutability@;
            self.target_root_mutability.push((span.duplicate(), root_mutable));
            proof {
                assert(self.target_root_mutability@.drop_last() =~= before);
            }
        }
    }
}

/// The node of each entry.
pub open spec fn keys_of_nodes(entries: Seq<(NodeId, Type)>) -> Seq<NodeId> {
    entries.map_values(|e: (NodeId, Type)| e.0)
}

/// The nodes of `after` are those of `before`, with `id` added at the end
/// when it was not there.
pub open spec fn recorded_at_first(before: Seq<NodeId>, after: Seq<NodeId>, id: NodeId) -> bool {
    if before.contains(id) {
        after == before
    } else {
        after == before.push(id)
    }
}

/// `after` is `before` with its first entry at position `key` given type
/// `ty`, or with such an entry added at the end when there is none.
pub open spec fn span_recorded(before: Seq<(SourceSpan, Type)>, after: Seq<(SourceSpan, Type)>, key: (Seq<char>, usize, usize), ty: Type) -> bool {
    if exists|i: int| 0 <= i < before.len() && before[i].0.key() == key {
        exists|i: int|
            0 <= i < before.len() && before[i].0.key() == key && (forall|k: int| 0 <= k < i ==> (#[trigger] before[k]).0.key() != key)
                && after == before.update(i, after[i]) && after[i].0.key() == key && same(after[i].1, ty)
    } else {
        after.len() == before.len() + 1 && after.drop_last() == before && after.last().0.key() == key && same(after.last().1, ty)
    }
}

/// `after` is `before` with its first entry at position `key` given flag
/// `flag`, or with such an entry added at the end when there is none.
pub open spec fn flag_recorded(before: Seq<(SourceSpan, bool)>, after: Seq<(SourceSpan, bool)>, key: (Seq<char>, usize, usize), flag: bool) -> bool {
    if exists|i: int| 0 <= i < before.len() && before[i].0.key() == key {
        exists|i: int|
            0 <= i < before.len() && before[i].0.key() == key && (forall|k: int| 0 <= k < i ==> (#[trigger] before[k]).0.key() != key)
                && after == before.update(i, after[i]) && after[i].0.key() == key && after[i].1 == flag
    } else {
        after.len() == before.len() + 1 && after.drop_last() == before && after.last().0.key() == key && after.last().1 == flag
    }
}

/// A message of three pieces.
fn msg3(a: &str, b: &str, c: &str) -> (r: String)
    ensures
        r@ == a@ + b@ + c@,
{
    concat3(a, b, c)
}

/// A message of five pieces.
fn msg5(a: &str, b: &str, c: &str, d: &str, e: &str) -> (r: String)
    ensures
        r@ == a@ + b@ + c@ + d@ + e@,
{
    crate::text::concat5(a, b, c, d, e)
}

/// A type-check failure with the given message.
fn fail<T>(span: &SourceSpan, message: String) -> (r: Result<T, Vec<Diagnostic>>)
    ensures
        r matches Err(ds) && ds@.len() == 1 && ds@[0].phase == Phase::TypeCheck
            && ds@[0].message == message && ds@[0].span == *span,
        check_outcome(r),
{
    type_fail(span, message)
}

/// The built-in type named `name`, if it is one.
pub open spec fn builtin_type_of(name: Seq<char>) -> Option<Type> {
    if name == "Bool"@ {
        Some(Type::Bool)
    } else if name == "Int"@ {
        Some(Type::Int)
    } else if name == "Dec"@ {
        Some(Type::Dec)
    } else if name == "Text"@ {
        Some(Type::Text)
    } else if name == "Bytes"@ {
        Some(Type::Bytes)
    } else if name == "None"@ {
        Some(Type::NoneType)
    } else {
        None
    }
}

/// Whether the written type `t` names the type `ty`, against the declared
/// records and enums: a built-in name, a record or enum name, `List`,
/// `Set`, `Option` of one type, `Map`, `Result` of two, a tuple or an
/// action type of types that name types themselves.
pub open spec fn lowers_to(records: Seq<(String, RecordType)>, enums: Seq<(String, EnumType)>, t: TypeRef, ty: Type) -> bool
    decreases t, 1int,
{
    match t {
        TypeRef::Named(name) => match builtin_type_of(name@) {
            Some(b) => ty == b,
            None => if has_key(records, name@) {
                ty == Type::Record(name)
            } else if has_key(enums, name@) {
                ty == Type::Enum(name)
            } else {
                false
            },
        },
        TypeRef::Generic { name, args } => {
            proof {
                assert(decreases_to!(t => args));
                assert(decreases_to!(args => args@));
            }
            if name@ == "List"@ && args@.len() == 1 {
                ty matches Type::List(x) && lowers_all(records, enums, args@, seq![*x])
            } else if name@ == "Map"@ && args@.len() == 2 {
                ty matches Type::MapOf(k, v) && lowers_all(records, enums, args@, seq![*k, *v])
            } else if name@ == "Set"@ && args@.len() == 1 {
                ty matches Type::SetOf(x) && lowers_all(records, enums, args@, seq![*x])
            } else if name@ == "Option"@ && args@.len() == 1 {
                ty matches Type::Option(x) && lowers_all(records, enums, args@, seq![*x])
            } else if name@ == "Result"@ && args@.len() == 2 {
                ty matches Type::Result(o, e) && lowers_all(records, enums, args@, seq![*o, *e])
            } else {
                false
            }
        },
        TypeRef::Tuple(items) => {
            proof {
                assert(decreases_to!(t => items));
                assert(decreases_to!(items => items@));
            }
            ty matches Type::Tuple(v) && lowers_all(records, enums, items@, v@)
        },
        TypeRef::Action { params, result } => {
            proof {
                assert(decreases_to!(t => params));
                assert(decreases_to!(params => params@));
            }
            ty matches Type::Action(a) && lowers_all(records, enums, params@, a.params@) && lowers_to(
                records,
                enums,
                *result,
                *a.result,
            )
        },
    }
}

/// Whether each written type names the type at its place.
pub open spec fn lowers_all(records: Seq<(String, RecordType)>, enums: Seq<(String, EnumType)>, ts: Seq<TypeRef>, tys: Seq<Type>) -> bool
    decreases ts, 0int,
{
    if ts.len() != tys.len() {
        false
    } else if ts.len() == 0 {
        true
    } else {
        proof {
            assert(decreases_to!(ts => ts.drop_last()));
            assert(decreases_to!(ts => ts[ts.len() - 1]));
        }
        lowers_all(records, enums, ts.drop_last(), tys.drop_last()) && lowers_to(records, enums, ts.last(), tys.last())
    }
}

/// `lowers_all` holds exactly when the sequences have one length and each
/// written type names the type at its place.
pub(crate) proof fn lemma_lowers_all(records: Seq<(String, RecordType)>, enums: Seq<(String, EnumType)>, ts: Seq<TypeRef>, tys: Seq<Type>)
    ensures
        lowers_all(records, enums, ts, tys) <==> (ts.len() == tys.len() && forall|k: int|
            0 <= k < ts.len() ==> lowers_to(records, enums, #[trigger] ts[k], tys[k])),
    decreases ts.len(),
{
    if ts.len() == tys.len() && ts.len() > 0 {
        lemma_lowers_all(records, enums, ts.drop_last(), tys.drop_last());
        assert forall|k: int| 0 <= k < ts.len() - 1 implies ts.drop_last()[k] == ts[k] && tys.drop_last()[k] == tys[k] by {}
        if forall|k: int| 0 <= k < ts.len() ==> lowers_to(records, enums, #[trigger] ts[k], tys[k]) {
            assert forall|k: int| 0 <= k < ts.drop_last().len() implies lowers_to(
                records,
                enums,
                #[trigger] ts.drop_last()[k],
                tys.drop_last()[k],
            ) by {
                assert(ts.drop_last()[k] == ts[k]);
            }
            assert(lowers_to(records, enums, ts[ts.len() - 1], tys[ts.len() - 1]));
        }
    }
}

/// The built-in type named `name`, if it is one.
fn builtin_named_type(name: &str) -> (r: Option<Type>)
    ensures
        r == builtin_type_of(name@),
{
    if str_eq(name, "Bool") {
        Some(Type::Bool)
    } else if str_eq(name, "Int") {
        Some(Type::Int)
    } else if str_eq(name, "Dec") {
        Some(Type::Dec)
    } else if str_eq(name, "Text") {
        Some(Type::Text)
    } else if str_eq(name, "Bytes") {
        Some(Type::Bytes)
    } else if str_eq(name, "None") {
        Some(Type::NoneType)
    } else {
        None
    }
}

impl CheckState {
    fn new(resolution: Resolution) -> (r: CheckState)
        ensures
            r.resolution == resolution,
            r.records@.len() == 0,
            r.enums@.len() == 0,
            r.actions@.len() == 0,
            r.externs@.len() == 0,
            r.constants@.len() == 0,
    {
        CheckState {
            resolution,
            records: Vec::new(),
            enums: Vec::new(),
            actions: Vec::new(),
            externs: Vec::new(),
            constants: Vec::new(),
        }
    }

    /// The type a written type names: built-in names, declared records and
    /// enums, and the generic, tuple and action forms.
    fn lower_type_ref(&self, type_ref: &TypeRef, span: &SourceSpan) -> (r: Result<Type, Vec<Diagnostic>>)
        ensures
            check_outcome(r),
            r matches Ok(ty) ==> lowers_to(self.records@, self.enums@, *type_ref, ty),
            r is Err ==> forall|ty: Type| !lowers_to(self.records@, self.enums@, *type_ref, ty),
        decreases type_ref,
    {
        let ghost recs = self.records@;
        let ghost ens = self.enums@;
        match type_ref {
            TypeRef::Named(name) => {
                if let Some(t) = builtin_named_type(name.as_str()) {
                    Ok(t)
                } else if find_key(&self.records, name.as_str()).is_some() {
                    Ok(Type::Record(name.clone()))
                } else if find_key(&self.enums, name.as_str()).is_some() {
                    Ok(Type::Enum(name.clone()))
                } else {
                    fail(span, msg3("unknown type `", name.as_str(), "`"))
                }
            },
            TypeRef::Generic { name, args } => {
                let n = args.len();
                proof {
                    assert forall|i: int| 0 <= i < args@.len() implies decreases_to!(*type_ref => #[trigger] args@[i]) by {
                        assert(decreases_to!(*type_ref => args@[i]));
                    }
                    reveal_with_fuel(lowers_all, 3);
                }
                if str_eq(name.as_str(), "List") && n == 1 {
                    match self.lower_type_ref(&args[0], span) {
                        Ok(x) => {
                            proof {
                                lemma_lowers_all(recs, ens, args@, seq![x]);
                            }
                            Ok(Type::List(Box::new(x)))
                        },
                        Err(e) => {
                            proof {
                                assert forall|ty: Type| !lowers_to(recs, ens, *type_ref, ty) by {
                                    if let Type::List(a) = ty {
                                        lemma_lowers_all(recs, ens, args@, seq![*a]);
                                    }
                                }
                            }
                            Err(e)
                        },
                    }
                } else if str_eq(name.as_str(), "Map") && n == 2 {
                    let k = match self.lower_type_ref(&args[0], span) {
                        Ok(k) => k,
                        Err(e) => {
                            proof {
                                assert forall|ty: Type| !lowers_to(recs, ens, *type_ref, ty) by {
                                    if let Type::MapOf(a, b) = ty {
                                        lemma_lowers_all(recs, ens, args@, seq![*a, *b]);
                                    }
                                }
                            }
                            return Err(e);
                        },
                    };
                    let v = match self.lower_type_ref(&args[1], span) {
                        Ok(v) => v,
                        Err(e) => {
                            proof {
                                assert forall|ty: Type| !lowers_to(recs, ens, *type_ref, ty) by {
                                    if let Type::MapOf(a, b) = ty {
                                        lemma_lowers_all(recs, ens, args@, seq![*a, *b]);
                                    }
                                }
                            }
                            return Err(e);
                        },
                    };
                    proof {
                        lemma_lowers_all(recs, ens, args@, seq![k, v]);
                    }
                    Ok(Type::MapOf(Box::new(k), Box::new(v)))
                } else if str_eq(name.as_str(), "Set") && n == 1 {
                    match self.lower_type_ref(&args[0], span) {
                        Ok(x) => {
                            proof {
                                lemma_lowers_all(recs, ens, args@, seq![x]);
                            }
                            Ok(Type::SetOf(Box::new(x)))
                        },
                        Err(e) => {
                            proof {
                                assert forall|ty: Type| !lowers_to(recs, ens, *type_ref, ty) by {
                                    if let Type::SetOf(a) = ty {
                                        lemma_lowers_all(recs, ens, args@, seq![*a]);
                                    }
                                }
                            }
                            Err(e)
                        },
                    }
                } else if str_eq(name.as_str(), "Option") && n == 1 {
                    match self.lower_type_ref(&args[0], span) {
                        Ok(x) => {
                            proof {
                                lemma_lowers_all(recs, ens, args@, seq![x]);
                            }
                            Ok(Type::Option(Box::new(x)))
                        },
                        Err(e) => {
                            proof {
                                assert forall|ty: Type| !lowers_to(recs, ens, *type_ref, ty) by {
                                    if let Type::Option(a) = ty {
                                        lemma_lowers_all(recs, ens, args@, seq![*a]);
                                    }
                                }
                            }
                            Err(e)
                        },
                    }
                } else if str_eq(name.as_str(), "Result") && n == 2 {
                    let o = match self.lower_type_ref(&args[0], span) {
                        Ok(o) => o,
                        Err(e) => {
                            proof {
                                assert forall|ty: Type| !lowers_to(recs, ens, *type_ref, ty) by {
                                    if let Type::Result(a, b) = ty {
                                        lemma_lowers_all(recs, ens, args@, seq![*a, *b]);
                                    }
                                }
                            }
                            return Err(e);
                        },
                    };
                    let e = match self.lower_type_ref(&args[1], span) {
                        Ok(e) => e,
                        Err(d) => {
                            proof {
                                assert forall|ty: Type| !lowers_to(recs, ens, *type_ref, ty) by {
                                    if let Type::Result(a, b) = ty {
                                        lemma_lowers_all(recs, ens, args@, seq![*a, *b]);
                                    }
                                }
                            }
                            return Err(d);
                        },
                    };
                    proof {
                        lemma_lowers_all(recs, ens, args@, seq![o, e]);
                    }
                    Ok(Type::Result(Box::new(o), Box::new(e)))
                } else {
                    fail(span, msg3("unsupported generic type `", name.as_str(), "`"))
                }
            },
            TypeRef::Tuple(items) => {
                let mut types: Vec<Type> = Vec::new();
                proof {
                    assert forall|i: int| 0 <= i < items@.len() implies decreases_to!(*type_ref => #[trigger] items@[i]) by {
                        assert(decreases_to!(*type_ref => items@[i]));
                    }
                }
                let mut i: usize = 0;
                while i < items.len()
                    invariant
                        i <= items@.len(),
                        forall|k: int| 0 <= k < items@.len() ==> decreases_to!(*type_ref => #[trigger] items@[k]),
                        types@.len() == i,
                        *type_ref == TypeRef::Tuple(*items),
                        recs == self.records@,
                        ens == self.enums@,
                        forall|k: int| 0 <= k < i ==> lowers_to(self.records@, self.enums@, #[trigger] items@[k], types@[k]),
                    decreases items@.len() - i,
                {
                    proof {
                        assert(decreases_to!(*type_ref => items@[i as int]));
                    }
                    match self.lower_type_ref(&items[i], span) {
                        Ok(t) => {
                            types.push(t);
                        },
                        Err(e) => {
                            proof {
                                assert forall|ty: Type| !lowers_to(recs, ens, *type_ref, ty) by {
                                    if let Type::Tuple(v) = ty {
                                        lemma_lowers_all(recs, ens, items@, v@);
                                        if lowers_all(recs, ens, items@, v@) {
                                            assert(lowers_to(recs, ens, items@[i as int], v@[i as int]));
                                        }
                                    }
                                }
                            }
                            return Err(e);
                        },
                    }
                    i = i + 1;
                }
                proof {
                    lemma_lowers_all(recs, ens, items@, types@);
                }
                Ok(Type::Tuple(types))
            },
            TypeRef::Action { params, result } => {
                let mut lowered: Vec<Type> = Vec::new();
                proof {
                    assert forall|i: int| 0 <= i < params@.len() implies decreases_to!(*type_ref => #[trigger] params@[i]) by {
                        assert(decreases_to!(*type_ref => params@[i]));
                    }
                }
                let mut i: usize = 0;
                while i < params.len()
                    invariant
                        i <= params@.len(),
                        forall|k: int| 0 <= k < params@.len() ==> decreases_to!(*type_ref => #[trigger] params@[k]),
                        lowered@.len() == i,
                        *type_ref == (TypeRef::Action { params: *params, result: *result }),
                        recs == self.records@,
                        ens == self.enums@,
                        forall|k: int| 0 <= k < i ==> lowers_to(self.records@, self.enums@, #[trigger] params@[k], lowered@[k]),
                    decreases params@.len() - i,
                {
                    proof {
                        assert(decreases_to!(*type_ref => params@[i as int]));
                    }
                    match self.lower_type_ref(&params[i], span) {
                        Ok(t) => {
                            lowered.push(t);
                        },
                        Err(e) => {
                            proof {
                                assert forall|ty: Type| !lowers_to(recs, ens, *type_ref, ty) by {
                                    if let Type::Action(a) = ty {
                                        lemma_lowers_all(recs, ens, params@, a.params@);
                                        if lowers_all(recs, ens, params@, a.params@) {
                                            assert(lowers_to(recs, ens, params@[i as int], a.params@[i as int]));
                                        }
                                    }
                                }
                            }
                            return Err(e);
                        },
                    }
                    i = i + 1;
                }
                proof {
                    lemma_lowers_all(recs, ens, params@, lowered@);
                }
                let r = match self.lower_type_ref(result, span) {
                    Ok(r) => r,
                    Err(e) => {
                        proof {
                            assert forall|ty: Type| !lowers_to(recs, ens, *type_ref, ty) by {
                                if let Type::Action(a) = ty {
                                    assert(!lowers_to(recs, ens, **result, *a.result));
                                }
                            }
                        }
                        return Err(e);
                    },
                };
                Ok(Type::Action(ActionType { params: lowered, result: Box::new(r) }))
            },
        }
    }

    /// The type of an action or extern: its parameter types and its result
    /// type (`None` when none is written).
    fn action_signature(&self, params: &Vec<Param>, return_type: Option<&TypeRef>, span: &SourceSpan) -> (r: Result<ActionType, Vec<Diagnostic>>)
        ensures
            check_outcome(r),
            r matches Ok(a) ==> a.params@.len() == params@.len() && (forall|k: int|
                0 <= k < params@.len() ==> lowers_to(self.records@, self.enums@, #[trigger] params@[k].ty, a.params@[k])),
            r matches Ok(a) ==> match return_type {
                Some(t) => lowers_to(self.records@, self.enums@, *t, *a.result),
                None => *a.result == Type::NoneType,
            },
            r is Err ==> (exists|k: int|
                0 <= k < params@.len() && forall|ty: Type| !lowers_to(self.records@, self.enums@, #[trigger] params@[k].ty, ty))
                || (return_type matches Some(t) && forall|ty: Type| !lowers_to(self.records@, self.enums@, *t, ty)),
    {
        let mut lowered: Vec<Type> = Vec::new();
        let mut i: usize = 0;
        while i < params.len()
            invariant
                i <= params@.len(),
                lowered@.len() == i,
                forall|k: int| 0 <= k < i ==> lowers_to(self.records@, self.enums@, #[trigger] params@[k].ty, lowered@[k]),
            decreases params@.len() - i,
        {
            match self.lower_type_ref(&params[i].ty, &params[i].span) {
                Ok(t) => lowered.push(t),
                Err(e) => {
                    proof {
                        assert(forall|ty: Type| !lowers_to(self.records@, self.enums@, #[trigger] params@[i as int].ty, ty));
                    }
                    return Err(e);
                },
            }
            i = i + 1;
        }
        let result = match return_type {
            Some(t) => self.lower_type_ref(t, span)?,
            None => Type::NoneType,
        };
        Ok(ActionType { params: lowered, result: Box::new(result) })
    }

    /// Registers the records, enums, actions and externs of a module, in
    /// declaration order.
    fn register_top_level_types(&mut self, module: &AstModule) -> (r: Result<(), Vec<Diagnostic>>)
        ensures
            check_outcome(r),
            r is Ok ==> declared_actions_registered(module.declarations@, final(self).actions@),
            r is Ok ==> declared_externs_registered(module.declarations@, final(self).externs@),
            final(self).constants == old(self).constants,
            old(self).actions@.len() == 0 && closed_module(module.declarations@) ==> r is Ok && results_fixed(
                module.declarations@,
                final(self).actions@,
            ),
    {
        let ghost closed = old(self).actions@.len() == 0 && closed_module(module.declarations@);
        let mut i: usize = 0;
        while i < module.declarations.len()
            invariant
                i <= module.declarations@.len(),
                closed == (old(self).actions@.len() == 0 && closed_module(module.declarations@)),
                closed ==> results_fixed(module.declarations@.take(i as int), self.actions@) && names_declared(
                    module.declarations@.take(i as int),
                    self.actions@,
                ),
                declared_actions_registered(module.declarations@.take(i as int), self.actions@),
                declared_externs_registered(module.declarations@.take(i as int), self.externs@),
                self.constants == old(self).constants,
            decreases module.declarations@.len() - i,
        {
            let ghost before = self.actions@;
            let ghost before_externs = self.externs@;
            match &module.declarations[i] {
                Decl::Record(record) => {
                    proof {
                        assert(closed ==> module.declarations@[i as int] == Decl::Record(*record));
                    }
                    let mut fields: Vec<(String, Type)> = Vec::new();
                    let mut j: usize = 0;
                    while j < record.fields.len()
                        invariant
                            !(old(self).actions@.len() == 0 && closed_module(module.declarations@)),
                            j <= record.fields@.len(),
                            self.constants == old(self).constants,
                        decreases record.fields@.len() - j,
                    {
                        let field = &record.fields[j];
                        let ty = self.lower_type_ref(&field.ty, &field.span)?;
                        assoc_insert(&mut fields, field.name.clone(), ty);
                        j = j + 1;
                    }
                    assoc_insert(&mut self.records, record.name.clone(), RecordType { fields });
                },
                Decl::Enum(enum_decl) => {
                    proof {
                        assert(closed ==> module.declarations@[i as int] == Decl::Enum(*enum_decl));
                    }
                    assoc_insert(&mut self.enums, enum_decl.name.clone(), EnumType { variants: Vec::new() });
                    let mut variants: Vec<(String, EnumVariantType)> = Vec::new();
                    let mut j: usize = 0;
                    while j < enum_decl.variants.len()
                        invariant
                            !(old(self).actions@.len() == 0 && closed_module(module.declarations@)),
                            j <= enum_decl.variants@.len(),
                            self.constants == old(self).constants,
                        decreases enum_decl.variants@.len() - j,
                    {
                        let variant = &enum_decl.variants[j];
                        let mut fields: Vec<(String, Type)> = Vec::new();
                        let mut k: usize = 0;
                        while k < variant.fields.len()
                            invariant
                                !(old(self).actions@.len() == 0 && closed_module(module.declarations@)),
                                k <= variant.fields@.len(),
                                self.constants == old(self).constants,
                            decreases variant.fields@.len() - k,
                        {
                            let field = &variant.fields[k];
                            let ty = self.lower_type_ref(&field.ty, &field.span)?;
                            fields.push((field.name.clone(), ty));
                            k = k + 1;
                        }
                        assoc_insert(&mut variants, variant.name.clone(), EnumVariantType { fields });
                        j = j + 1;
                    }
                    assoc_insert(&mut self.enums, enum_decl.name.clone(), EnumType { variants });
                },
                Decl::Action(action) => {
                    proof {
                        if closed {
                            assert(module.declarations@[i as int] == Decl::Action(*action));
                            if let Some(TypeRef::Named(n)) = &action.return_type {
                                let b = builtin_type_of(n@).unwrap();
                                assert(lowers_to(self.records@, self.enums@, TypeRef::Named(*n), b));
                            }
                        }
                    }
                    let signature = self.action_signature(&action.params, action.return_type.as_ref(), &action.span)?;
                    let ghost sig = signature;
                    proof {
                        if closed {
                            assert(module.declarations@[i as int] == Decl::Action(*action));
                            if let Some(TypeRef::Named(n)) = &action.return_type {
                                assert(lowers_to(self.records@, self.enums@, TypeRef::Named(*n), *sig.result));
                            }
                            assert(Some(*sig.result) == builtin_result(*action));
                            assert forall|j: int| 0 <= j < before.len() implies (#[trigger] before[j]).0@ != action.name@ by {
                                let t = module.declarations@.take(i as int);
                                assert(name_declared(t, before[j].0@));
                                let k = choose|k: int| 0 <= k < t.len() && #[trigger] action_named_at(t, k, before[j].0@);
                                assert(t[k] == module.declarations@[k]);
                            }
                            lemma_find_key_spec_none(before, action.name@);
                        }
                    }
                    assoc_insert(&mut self.actions, action.name.clone(), signature);
                    proof {
                        if closed {
                            let t0 = module.declarations@.take(i as int);
                            let t1 = module.declarations@.take(i + 1);
                            assert(self.actions@ == before.push((action.name, sig)));
                            assert forall|k: int, j: int| 0 <= k < t1.len() && 0 <= j < self.actions@.len() implies (#[trigger] t1[k] matches Decl::Action(a) ==> ((
                            #[trigger] self.actions@[j]).0@ == a.name@ ==> Some(*self.actions@[j].1.result) == builtin_result(a))) by {
                                if k < i {
                                    assert(t1[k] == t0[k]);
                                    assert(t0[k] == module.declarations@[k]);
                                    if j < before.len() {
                                        assert(self.actions@[j] == before[j]);
                                    }
                                }
                            }
                            assert forall|j: int| 0 <= j < self.actions@.len() implies name_declared(t1, #[trigger] self.actions@[j].0@) by {
                                if j < before.len() {
                                    assert(self.actions@[j] == before[j]);
                                    assert(name_declared(t0, before[j].0@));
                                    let k = choose|k: int| 0 <= k < t0.len() && #[trigger] action_named_at(t0, k, before[j].0@);
                                    assert(t1[k] == t0[k]);
                                    assert(action_named_at(t1, k, before[j].0@));
                                } else {
                                    assert(t1[i as int] == module.declarations@[i as int]);
                                    assert(action_named_at(t1, i as int, action.name@));
                                }
                            }
                            assert(results_fixed(t1, self.actions@));
                            assert(names_declared(t1, self.actions@));
                        }
                    }
                },
                Decl::Extern(extern_decl) => {
                    proof {
                        assert(closed ==> module.declarations@[i as int] == Decl::Extern(*extern_decl));
                    }
                    let signature = self.action_signature(&extern_decl.params, Some(&extern_decl.return_type), &extern_decl.span)?;
                    assoc_insert(&mut self.externs, extern_decl.name.clone(), ExternSignature { purity: extern_decl.purity, ty: signature });
                },
                Decl::Const(_) | Decl::Test(_) => {},
            }
            proof {
                if closed && !(module.declarations@[i as int] is Action) {
                    let t0 = module.declarations@.take(i as int);
                    let t1 = module.declarations@.take(i + 1);
                    assert(self.actions@ == before);
                    assert forall|k: int, j: int| 0 <= k < t1.len() && 0 <= j < self.actions@.len() implies (#[trigger] t1[k] matches Decl::Action(a) ==> ((
                    #[trigger] self.actions@[j]).0@ == a.name@ ==> Some(*self.actions@[j].1.result) == builtin_result(a))) by {
                        if k < i {
                            assert(t1[k] == t0[k]);
                        }
                    }
                    lemma_names_declared_grow(t0, t1, before);
                }
                assert forall|k: int| 0 <= k < i + 1 implies (#[trigger] module.declarations@.take(i + 1)[k] matches Decl::Action(a)
                    ==> has_key(self.actions@, a.name@)) by {
                    if k < i {
                        assert(module.declarations@.take(i + 1)[k] == module.declarations@.take(i as int)[k]);
                        if let Decl::Action(a) = module.declarations@.take(i as int)[k] {
                            assert(has_key(before, a.name@));
                        }
                    }
                }
                assert forall|k: int| 0 <= k < i + 1 implies (#[trigger] module.declarations@.take(i + 1)[k] matches Decl::Extern(e)
                    ==> has_key(self.externs@, e.name@)) by {
                    if k < i {
                        assert(module.declarations@.take(i + 1)[k] == module.declarations@.take(i as int)[k]);
                        if let Decl::Extern(e) = module.declarations@.take(i as int)[k] {
                            assert(has_key(before_externs, e.name@));
                        }
                    }
                }
            }
            i = i + 1;
        }
        assert(module.declarations@.take(module.declarations@.len() as int) =~= module.declarations@);
        Ok(())
    }

    /// The type of a name outside the local scope: a constant, an action,
    /// an extern, a record or enum name, an import or a runtime module.
    fn lookup_name(&self, name: &str, scope: &Scope, span: &SourceSpan) -> (r: Result<Type, Vec<Diagnostic>>)
        ensures
            check_outcome(r),
            r is Err ==> (r->Err_0)@.len() == 1 && (r->Err_0)@[0].phase == Phase::Resolve,
            r matches Err(ds) ==> ds@[0].message@ == "unresolved symbol `"@ + name@ + "`"@,
            r is Err <==> !(scope.mutability(name@) is Some || has_key(self.constants@, name@) || has_key(
                self.actions@,
                name@,
            ) || has_key(self.externs@, name@) || has_key(self.records@, name@) || has_key(self.enums@, name@)
                || first_kind_is(self.resolution.entries(), name@, SymbolKind::Import) || name@ == "console"@
                || name@ == "file"@),
            scope.mutability(name@) is None && has_key(self.constants@, name@) ==> (r matches Ok(t) && same(
                t,
                self.constants@[find_key_spec(self.constants@, name@)->0].1,
            )),
            scope.mutability(name@) is None && !has_key(self.constants@, name@) && has_key(self.actions@, name@) ==> (
            r matches Ok(Type::Action(a)) && a.same_as(self.actions@[find_key_spec(self.actions@, name@)->0].1)),
            scope.mutability(name@) is None && !has_key(self.constants@, name@) && !has_key(self.actions@, name@)
                && has_key(self.externs@, name@) ==> r matches Ok(Type::ExternAction(_)),
            scope.mutability(name@) is None && !has_key(self.constants@, name@) && !has_key(self.actions@, name@)
                && !has_key(self.externs@, name@) && has_key(self.records@, name@) ==> (r matches Ok(Type::Record(n))
                && n@ == name@),
            scope.mutability(name@) is None && !has_key(self.constants@, name@) && !has_key(self.actions@, name@)
                && !has_key(self.externs@, name@) && !has_key(self.records@, name@) && has_key(self.enums@, name@) ==> (
            r matches Ok(Type::Enum(n)) && n@ == name@),
            scope.mutability(name@) is None && !has_key(self.constants@, name@) && !has_key(self.actions@, name@)
                && !has_key(self.externs@, name@) && !has_key(self.records@, name@) && !has_key(self.enums@, name@)
                && !(r is Err) ==> r == Ok::<Type, Vec<Diagnostic>>(Type::Unknown),
    {
        if let Some(ty) = scope.get(name) {
            return Ok(ty.duplicate());
        }
        if let Some(ty) = lookup(&self.constants, name) {
            return Ok(ty.duplicate());
        }
        if let Some(action) = lookup(&self.actions, name) {
            return Ok(Type::Action(action.duplicate()));
        }
        if let Some(ext) = lookup(&self.externs, name) {
            return Ok(Type::ExternAction(ext.ty.duplicate()));
        }
        if find_key(&self.records, name).is_some() {
            return Ok(Type::Record(crate::text::text(name)));
        }
        if find_key(&self.enums, name).is_some() {
            return Ok(Type::Enum(crate::text::text(name)));
        }
        let ghost es = self.resolution.entries();
        match self.resolution.get(name) {
            Some(symbol) => {
                if symbol.kind == SymbolKind::Import {
                    return Ok(Type::Unknown);
                }
                proof {
                    let i = choose|i: int| 0 <= i < es.len() && es[i] == (symbol.name@, symbol.kind) && forall|k: int|
                        0 <= k < i ==> (#[trigger] es[k]).0 != name@;
                    if first_kind_is(es, name@, SymbolKind::Import) {
                        let i2 = choose|i2: int| 0 <= i2 < es.len() && es[i2] == (name@, SymbolKind::Import) && forall|
                            j: int,
                        | 0 <= j < i2 ==> (#[trigger] es[j]).0 != name@;
                        if i < i2 {
                            assert(es[i].0 == name@);
                        } else if i2 < i {
                            assert(es[i2].0 == name@);
                        }
                    }
                }
            },
            None => {
                proof {
                    if first_kind_is(es, name@, SymbolKind::Import) {
                        let i2 = choose|i2: int| 0 <= i2 < es.len() && es[i2] == (name@, SymbolKind::Import) && forall|
                            j: int,
                        | 0 <= j < i2 ==> (#[trigger] es[j]).0 != name@;
                        assert(es[i2].0 == name@);
                    }
                }
            },
        }
        if is_standard_runtime_module(name) {
            return Ok(Type::Unknown);
        }
        Err(crate::diagnostics::one(Diagnostic::new(
            span.duplicate(),
            Phase::Resolve,
            msg3("unresolved symbol `", name, "`"),
        )))
    }

    /// The enum with a variant named `name`, when exactly one enum has one.
    fn find_unique_enum_variant(&self, name: &str, span: &SourceSpan) -> (r: Result<(String, &EnumVariantType), Vec<Diagnostic>>)
        ensures
            check_outcome(r),
            r is Err ==> (r->Err_0)@.len() == 1,
            (forall|i: int| 0 <= i < self.enums@.len() ==> find_key_spec((#[trigger] self.enums@[i]).1.variants@, name@)
                is None) ==> (r matches Err(ds) && ds@[0].message@ == "unknown enum variant `"@ + name@ + "`"@),
            r is Ok <==> exists|i: int| #![trigger self.enums@[i]]
                0 <= i < self.enums@.len() && find_key_spec(self.enums@[i].1.variants@, name@) is Some && forall|j: int|
                    0 <= j < self.enums@.len() && j != i ==> find_key_spec((#[trigger] self.enums@[j]).1.variants@, name@) is None,
            r matches Ok(f) ==> exists|i: int| #![trigger self.enums@[i]]
                0 <= i < self.enums@.len() && self.enums@[i].0 == f.0 && (find_key_spec(
                    self.enums@[i].1.variants@,
                    name@,
                ) matches Some(k) && self.enums@[i].1.variants@[k].1 == *f.1),
    {
        let mut found: Option<(String, &EnumVariantType)> = None;
        let mut count: usize = 0;
        let mut i: usize = 0;
        let ghost mut first: int = 0;
        let ghost mut second: int = 0;
        while i < self.enums.len()
            invariant
                i <= self.enums@.len(),
                count <= i,
                count == 0 ==> forall|j: int| 0 <= j < i ==> find_key_spec((#[trigger] self.enums@[j]).1.variants@, name@) is None,
                count > 0 ==> 0 <= first < i && find_key_spec(self.enums@[first].1.variants@, name@) is Some,
                count > 0 ==> (found matches Some(f) && self.enums@[first].0 == f.0 && (find_key_spec(
                    self.enums@[first].1.variants@,
                    name@,
                ) matches Some(k) && self.enums@[first].1.variants@[k].1 == *f.1)),
                count == 1 ==> forall|j: int|
                    0 <= j < i && j != first ==> find_key_spec((#[trigger] self.enums@[j]).1.variants@, name@) is None,
                count > 1 ==> first < second < i && find_key_spec(self.enums@[second].1.variants@, name@) is Some,
            decreases self.enums@.len() - i,
        {
            match lookup(&self.enums[i].1.variants, name) {
                Some(v) => {
                    proof {
                        if count == 0 {
                            first = i as int;
                        } else if count == 1 {
                            second = i as int;
                        }
                    }
                    if count == 0 {
                        found = Some((self.enums[i].0.clone(), v));
                    }
                    count = count + 1;
                },
                None => {},
            }
            i = i + 1;
        }
        if count == 0 {
            fail(span, msg3("unknown enum variant `", name, "`"))
        } else if count == 1 {
            match found {
                Some(f) => {
                    proof {
                        assert(self.enums@[first] == self.enums@[first]);
                    }
                    Ok(f)
                },
                None => fail(span, msg3("unknown enum variant `", name, "`")),
            }
        } else {
            proof {
                assert forall|x: int| #![trigger self.enums@[x]]
                    !(0 <= x < self.enums@.len() && find_key_spec(self.enums@[x].1.variants@, name@) is Some && forall|j: int|
                        0 <= j < self.enums@.len() && j != x ==> find_key_spec((#[trigger] self.enums@[j]).1.variants@, name@) is None) by {
                    if x != first {
                        assert(self.enums@[first] == self.enums@[first]);
                    } else {
                        assert(self.enums@[second] == self.enums@[second]);
                    }
                }
            }
            fail(span, msg3("ambiguous enum variant `", name, "`"))
        }
    }
}


/// The standard runtime action `module.member` written as `base.field`:
/// `base` must be the module's name.
pub open spec fn runtime_action_named(base: Expr, field: Seq<char>, a: StandardRuntimeAction) -> bool {
    base.kind matches ExprKind::Name(m) && crate::standard_runtime::action_parts(a) == (m@, field)
}

/// The standard runtime action `module.member` written as `base.field`.
pub(crate) fn lookup_standard_runtime_action(base: &Expr, field: &str) -> (r: Option<StandardRuntimeAction>)
    ensures
        r matches Some(a) ==> runtime_action_named(*base, field@, a),
        r is None ==> forall|a: StandardRuntimeAction| !runtime_action_named(*base, field@, a),
{
    match &base.kind {
        ExprKind::Name(module_name) => lookup_standard_runtime_member(module_name.as_str(), field),
        _ => None,
    }
}

/// The standard runtime action a callee names, if it names one.
fn lookup_standard_runtime_callee(callee: &Expr) -> (r: Option<StandardRuntimeAction>)
    ensures
        match callee.kind {
            ExprKind::FieldAccess { base, field } => match r {
                Some(a) => runtime_action_named(*base, field@, a),
                None => forall|a: StandardRuntimeAction| !runtime_action_named(*base, field@, a),
            },
            _ => r is None,
        },
{
    match &callee.kind {
        ExprKind::FieldAccess { base, field } => lookup_standard_runtime_action(base, field.as_str()),
        _ => None,
    }
}

/// Whether `field` names a built-in operation on results and options.
pub open spec fn is_builtin_member(field: Seq<char>) -> bool {
    field == "is_ok"@ || field == "is_err"@ || field == "value"@ || field == "error"@
        || field == "is_some"@ || field == "is_none"@
}

/// The type of `base.field()` when `field` is a built-in operation on
/// results (`is_ok`, `is_err`, `value`, `error`) or options (`is_some`,
/// `is_none`, `value`); `None` when `field` is not one of them.
fn builtin_result_or_option_call_type(base_type: &Type, field: &str, arg_count: usize, span: &SourceSpan) -> (r: Result<Option<Type>, Vec<Diagnostic>>)
    ensures
        check_outcome(r),
        r matches Ok(None) ==> !is_builtin_member(field@),
{
    let is_ok = str_eq(field, "is_ok");
    let is_err = str_eq(field, "is_err");
    let value = str_eq(field, "value");
    let error = str_eq(field, "error");
    let is_some = str_eq(field, "is_some");
    let is_none = str_eq(field, "is_none");
    if !(is_ok || is_err || value || error || is_some || is_none) {
        return Ok(None);
    }
    if arg_count != 0 {
        return fail(span, msg3("built-in operation `", field, "()` takes no arguments"));
    }
    match base_type {
        Type::Result(ok, err) => {
            if is_ok || is_err {
                return Ok(Some(Type::Bool));
            }
            if value {
                return Ok(Some(ok.duplicate()));
            }
            if error {
                return Ok(Some(err.duplicate()));
            }
        },
        Type::Option(inner) => {
            if is_some || is_none {
                return Ok(Some(Type::Bool));
            }
            if value {
                return Ok(Some(inner.duplicate()));
            }
        },
        _ => {},
    }
    if is_ok || is_err || error {
        let mut m = msg3("built-in operation `", field, "()` requires `Result[_, _]`, found `");
        m.append(base_type.describe().as_str());
        m.append("`");
        return fail(span, m);
    }
    if is_some || is_none {
        let mut m = msg3("built-in operation `", field, "()` requires `Option[_]`, found `");
        m.append(base_type.describe().as_str());
        m.append("`");
        return fail(span, m);
    }
    if value {
        let m = msg3("built-in operation `value()` requires `Result[_, _]` or `Option[_]`, found `", base_type.describe().as_str(), "`");
        return fail(span, m);
    }
    Ok(None)
}

/// "`expected` ... found `actual`" messages.
fn expected_found(prefix: &str, expected: &Type, actual: &Type) -> (r: String) {
    msg5(prefix, expected.describe().as_str(), "`, found `", actual.describe().as_str(), "`")
}

/// Where `name` goes among `names` from position `i` on: before the first
/// name it precedes in character order, else at the end.
pub open spec fn insert_position(names: Seq<String>, name: Seq<char>, i: int) -> int
    decreases names.len() - i,
{
    if i < 0 || i >= names.len() {
        names.len() as int
    } else if crate::text::seq_before(name, names[i]@) {
        i
    } else {
        insert_position(names, name, i + 1)
    }
}

/// The names of the entries, each inserted in turn where character order
/// puts it.
pub open spec fn sorted_names<T>(entries: Seq<(String, T)>) -> Seq<String>
    decreases entries.len(),
{
    if entries.len() == 0 {
        Seq::empty()
    } else {
        let prev = sorted_names(entries.drop_last());
        prev.insert(insert_position(prev, entries.last().0@, 0), entries.last().0)
    }
}

/// Inserts `name` before the first name that it precedes in character
/// order.
fn insert_sorted(names: &mut Vec<String>, name: String)
    ensures
        0 <= insert_position(old(names)@, name@, 0) <= old(names)@.len(),
        final(names)@ == old(names)@.insert(insert_position(old(names)@, name@, 0), name),
{
    let mut i: usize = 0;
    while i < names.len()
        invariant
            i <= names@.len(),
            names@ == old(names)@,
            insert_position(names@, name@, 0) == insert_position(names@, name@, i as int),
        ensures
            i <= names@.len(),
            names@ == old(names)@,
            insert_position(names@, name@, 0) == i,
        decreases names@.len() - i,
    {
        if crate::text::text_before(name.as_str(), names[i].as_str()) {
            break;
        }
        i = i + 1;
    }
    names.insert(i, name);
}

/// The names of the entries, sorted and joined by `, `.
fn sorted_names_text<T>(entries: &Vec<(String, T)>) -> (r: String)
    ensures
        r@ == crate::text::joined(crate::text::views_of(sorted_names(entries@)), ", "@),
{
    let mut names: Vec<String> = Vec::new();
    let mut i: usize = 0;
    proof {
        assert(entries@.subrange(0, 0) =~= Seq::<(String, T)>::empty());
    }
    while i < entries.len()
        invariant
            i <= entries@.len(),
            names@ == sorted_names(entries@.subrange(0, i as int)),
        decreases entries@.len() - i,
    {
        proof {
            assert(entries@.subrange(0, i + 1).drop_last() =~= entries@.subrange(0, i as int));
        }
        insert_sorted(&mut names, entries[i].0.clone());
        i = i + 1;
    }
    proof {
        assert(entries@.subrange(0, entries@.len() as int) =~= entries@);
    }
    crate::text::join(&names, ", ")
}

impl CheckState {
    /// Types an expression and records its type.
    fn type_expr(&self, rec: &mut Recorded, expr: &Expr, scope: &Scope, in_test: bool) -> (r: Result<Type, Vec<Diagnostic>>)
        ensures
            check_outcome(r),
            closed_type(*expr) matches Some(res) ==> match res {
                Some(t) => r == Ok::<Type, Vec<Diagnostic>>(t),
                None => r is Err,
            },
            r matches Ok(t) ==> first_typed(final(rec).expr_types@, expr.id, t),
            expr.kind matches ExprKind::Name(n) ==> (!(scope.mutability(n@) is Some || has_key(self.constants@, n@)
                || has_key(self.actions@, n@) || has_key(self.externs@, n@) || has_key(self.records@, n@) || has_key(
                self.enums@,
                n@,
            ) || first_kind_is(self.resolution.entries(), n@, SymbolKind::Import) || n@ == "console"@ || n@ == "file"@)
                && (forall|i: int| 0 <= i < self.enums@.len() ==> find_key_spec((#[trigger] self.enums@[i]).1.variants@, n@)
                is None) ==> (r matches Err(ds) && ds@.len() == 1 && ds@[0].phase == Phase::Resolve && ds@[0].message@
                == "unresolved symbol `"@ + n@ + "`"@)),
        decreases *expr, 2int,
    {
        let ty = match &expr.kind {
            ExprKind::Int(_) => Type::Int,
            ExprKind::Dec(_) => Type::Dec,
            ExprKind::String(_) => Type::Text,
            ExprKind::Bool(_) => Type::Bool,
            ExprKind::NoneLiteral => Type::NoneType,
            ExprKind::List(items) => {
                proof {
                    assert forall|i: int| 0 <= i < items@.len() implies decreases_to!(*expr => #[trigger] items@[i]) by {
                        assert(decreases_to!(*expr => items@[i]));
                    }
                }
                let mut item_type = Type::Unknown;
                let mut i: usize = 0;
                while i < items.len()
                    invariant
                        i <= items@.len(),
                        closed_type(*expr) is None,
                        !(expr.kind is Name),
                        forall|k: int| 0 <= k < items@.len() ==> decreases_to!(*expr => #[trigger] items@[k]),
                    decreases items@.len() - i,
                {
                    proof {
                        assert(decreases_to!(*expr => items@[i as int]));
                    }
                    let candidate = self.type_expr(rec, &items[i], scope, in_test)?;
                    if matches!(item_type, Type::Unknown) {
                        item_type = candidate;
                    } else if !is_assignable(&item_type, &candidate) {
                        return fail(&items[i].span, expected_found("list literal element expected `", &item_type, &candidate));
                    }
                    i = i + 1;
                }
                Type::List(Box::new(item_type))
            },
            ExprKind::MapLiteral(pairs) => {
                proof {
                    assert forall|i: int| 0 <= i < pairs@.len() implies decreases_to!(*expr => #[trigger] pairs@[i].0)
                        && decreases_to!(*expr => pairs@[i].1) by {
                        assert(decreases_to!(*expr => pairs@[i].0));
                        assert(decreases_to!(*expr => pairs@[i].1));
                    }
                }
                let mut key_type = Type::Unknown;
                let mut value_type = Type::Unknown;
                let mut i: usize = 0;
                while i < pairs.len()
                    invariant
                        i <= pairs@.len(),
                        closed_type(*expr) is None,
                        !(expr.kind is Name),
                        forall|k: int| 0 <= k < pairs@.len() ==> decreases_to!(*expr => #[trigger] pairs@[k].0)
                            && decreases_to!(*expr => pairs@[k].1),
                    decreases pairs@.len() - i,
                {
                    proof {
                        assert(decreases_to!(*expr => pairs@[i as int].0));
                        assert(decreases_to!(*expr => pairs@[i as int].1));
                    }
                    let pair = &pairs[i];
                    let current_key = self.type_expr(rec, &pair.0, scope, in_test)?;
                    let current_value = self.type_expr(rec, &pair.1, scope, in_test)?;
                    if matches!(key_type, Type::Unknown) {
                        key_type = current_key;
                    } else if !is_assignable(&key_type, &current_key) {
                        return fail(&pair.0.span, expected_found("map literal key expected `", &key_type, &current_key));
                    }
                    if matches!(value_type, Type::Unknown) {
                        value_type = current_value;
                    } else if !is_assignable(&value_type, &current_value) {
                        return fail(&pair.1.span, expected_found("map literal value expected `", &value_type, &current_value));
                    }
                    i = i + 1;
                }
                Type::MapOf(Box::new(key_type), Box::new(value_type))
            },
            ExprKind::Tuple(items) => {
                proof {
                    assert forall|i: int| 0 <= i < items@.len() implies decreases_to!(*expr => #[trigger] items@[i]) by {
                        assert(decreases_to!(*expr => items@[i]));
                    }
                }
                let mut types: Vec<Type> = Vec::new();
                let mut i: usize = 0;
                while i < items.len()
                    invariant
                        i <= items@.len(),
                        closed_type(*expr) is None,
                        !(expr.kind is Name),
                        forall|k: int| 0 <= k < items@.len() ==> decreases_to!(*expr => #[trigger] items@[k]),
                    decreases items@.len() - i,
                {
                    proof {
                        assert(decreases_to!(*expr => items@[i as int]));
                    }
                    types.push(self.type_expr(rec, &items[i], scope, in_test)?);
                    i = i + 1;
                }
                Type::Tuple(types)
            },
            ExprKind::Name(name) => {
                match self.lookup_name(name.as_str(), scope, &expr.span) {
                    Ok(t) => t,
                    Err(diagnostics) => {
                        let found = match self.find_unique_enum_variant(name.as_str(), &expr.span) {
                            Ok((enum_name, variant)) => Ok((enum_name, variant.fields.len())),
                            Err(ds) => Err(ds),
                        };
                        match found {
                            Ok((enum_name, field_count)) => {
                                if field_count == 0 {
                                    Type::Enum(enum_name)
                                } else {
                                    let count = crate::text::usize_text(field_count);
                                    return fail(&expr.span, msg5("enum variant `", name.as_str(), "` requires ", count.as_str(), " argument(s)"));
                                }
                            },
                            Err(variant_diagnostics) => {
                                let unknown = msg3("unknown enum variant `", name.as_str(), "`");
                                if str_eq(variant_diagnostics[0].message.as_str(), unknown.as_str()) {
                                    return Err(diagnostics);
                                }
                                return Err(variant_diagnostics);
                            },
                        }
                    },
                }
            },
            ExprKind::Call { callee, args } => {
                proof {
                    assert(decreases_to!(*expr => **callee));
                    assert forall|i: int| 0 <= i < args@.len() implies decreases_to!(*expr => #[trigger] args@[i].expr) by {
                        assert(decreases_to!(*expr => args@[i].expr));
                    }
                }
                self.type_call(rec, callee, args, scope, in_test, &expr.span, Ghost(*expr))?
            },
            ExprKind::FieldAccess { base, field } => {
                if let Some(action) = lookup_standard_runtime_action(base, field.as_str()) {
                    Type::Action(action.signature())
                } else {
                    proof {
                        assert(decreases_to!(*expr => **base));
                    }
                    let base_type = self.type_expr(rec, base, scope, in_test)?;
                    match base_type {
                        Type::Record(record_name) => {
                            match lookup(&self.records, record_name.as_str()) {
                                Some(record) => match lookup(&record.fields, field.as_str()) {
                                    Some(t) => t.duplicate(),
                                    None => {
                                        return fail(&expr.span, msg5("record `", record_name.as_str(), "` has no field `", field.as_str(), "`"));
                                    },
                                },
                                None => {
                                    return fail(&expr.span, msg3("unknown record type `", record_name.as_str(), "`"));
                                },
                            }
                        },
                        other => {
                            return fail(&expr.span, msg3("field access requires a record, found `", other.describe().as_str(), "`"));
                        },
                    }
                }
            },
            ExprKind::Index { base, index } => {
                proof {
                    assert(decreases_to!(*expr => **base));
                    assert(decreases_to!(*expr => **index));
                }
                let base_type = self.type_expr(rec, base, scope, in_test)?;
                let index_type = self.type_expr(rec, index, scope, in_test)?;
                match base_type {
                    Type::List(item) => {
                        if !matches!(index_type, Type::Int) {
                            return fail(&index.span, msg3("list index must be `Int`, found `", index_type.describe().as_str(), "`"));
                        }
                        *item
                    },
                    Type::MapOf(key, value) => {
                        if !is_assignable(&key, &index_type) {
                            return fail(&index.span, expected_found("map index must be `", &key, &index_type));
                        }
                        *value
                    },
                    other => {
                        return fail(&expr.span, msg3("indexing requires a list or map, found `", other.describe().as_str(), "`"));
                    },
                }
            },
            ExprKind::Unary { op, expr: inner } => {
                proof {
                    assert(decreases_to!(*expr => **inner));
                }
                let inner_type = self.type_expr(rec, inner, scope, in_test)?;
                match op {
                    UnaryOp::Negate => match inner_type {
                        Type::Int => Type::Int,
                        Type::Dec => Type::Dec,
                        other => {
                            return fail(&expr.span, msg3("unary `-` requires `Int` or `Dec`, found `", other.describe().as_str(), "`"));
                        },
                    },
                    UnaryOp::Not => {
                        if !matches!(inner_type, Type::Bool) {
                            return fail(&expr.span, msg3("`not` requires `Bool`, found `", inner_type.describe().as_str(), "`"));
                        }
                        Type::Bool
                    },
                }
            },
            ExprKind::Binary { left, op, right } => {
                proof {
                    assert(decreases_to!(*expr => **left));
                    assert(decreases_to!(*expr => **right));
                }
                let left_type = self.type_expr(rec, left, scope, in_test)?;
                let right_type = self.type_expr(rec, right, scope, in_test)?;
                type_binary(*op, &left_type, &right_type, &expr.span)?
            },
        };
        rec.record_expr_type(expr.id, &ty);
        Ok(ty)
    }

    /// Types a call: a standard runtime action, `Some`/`Ok`/`Err`, a built-in
    /// result or option operation, a record or enum constructor, or a call of
    /// an action value.
    fn type_call(&self, rec: &mut Recorded, callee: &Expr, args: &Vec<CallArg>, scope: &Scope, in_test: bool, span: &SourceSpan, Ghost(parent): Ghost<Expr>) -> (r: Result<Type, Vec<Diagnostic>>)
        requires
            decreases_to!(parent => *callee),
            forall|i: int| 0 <= i < args@.len() ==> decreases_to!(parent => #[trigger] args@[i].expr),
        ensures
            check_outcome(r),
            callee.kind matches ExprKind::Name(n) ==> {
                &&& (n@ == "Some"@ || n@ == "Ok"@ || n@ == "Err"@) ==> ((args@.len() != 1 || args@[0].name is Some) ==> r is Err)
                &&& n@ == "Some"@ ==> (r matches Ok(t) ==> t is Option)
                &&& (n@ == "Ok"@ || n@ == "Err"@) ==> (r matches Ok(t) ==> t is Result)
                &&& (n@ != "Some"@ && n@ != "Ok"@ && n@ != "Err"@ && has_key(self.records@, n@)) ==> {
                    let fields = self.records@[find_key_spec(self.records@, n@)->0].1.fields@;
                    &&& (exists|k: int| 0 <= k < args@.len() && (#[trigger] args@[k]).name is None) ==> r is Err
                    &&& r matches Ok(t) ==> (t matches Type::Record(rn) && rn@ == n@ && args@.len() == fields.len() && forall|
                        k: int,
                    | 0 <= k < args@.len() ==> ((#[trigger] args@[k]).name matches Some(an) && has_key(fields, an@)))
                }
            },
        decreases parent, 1int,
    {
        if let Some(action) = lookup_standard_runtime_callee(callee) {
            let signature = Type::Action(action.signature());
            rec.record_expr_type(callee.id, &signature);
            return self.type_standard_runtime_call(rec, action, args, scope, in_test, span, Ghost(parent));
        }
        if let ExprKind::Name(name) = &callee.kind {
            if str_eq(name.as_str(), "Some") {
                if args.len() != 1 {
                    return fail(span, String::from_str("`Some(...)` expects exactly one argument"));
                }
                if args[0].name.is_some() {
                    return fail(&args[0].span, String::from_str("`Some(...)` does not support named arguments"));
                }
                proof {
                    assert(decreases_to!(parent => args@[0].expr));
                }
                let inner = self.type_expr(rec, &args[0].expr, scope, in_test)?;
                proof {
                    reveal_strlit("Some");
                    reveal_strlit("Ok");
                    reveal_strlit("Err");
                    assert("Some"@.len() == 4 && "Ok"@.len() == 2 && "Err"@.len() == 3);
                    assert(name@ != "Ok"@ && name@ != "Err"@);
                }
                return Ok(Type::Option(Box::new(inner)));
            }
            let is_ok = str_eq(name.as_str(), "Ok");
            if is_ok || str_eq(name.as_str(), "Err") {
                if args.len() != 1 {
                    return fail(span, msg3("`", name.as_str(), "(...)` expects exactly one argument"));
                }
                if args[0].name.is_some() {
                    return fail(&args[0].span, msg3("`", name.as_str(), "(...)` does not support named arguments"));
                }
                proof {
                    assert(decreases_to!(parent => args@[0].expr));
                }
                let payload = self.type_expr(rec, &args[0].expr, scope, in_test)?;
                if is_ok {
                    return Ok(Type::Result(Box::new(payload), Box::new(Type::Unknown)));
                } else {
                    return Ok(Type::Result(Box::new(Type::Unknown), Box::new(payload)));
                }
            }
        }
        if let ExprKind::FieldAccess { base, field } = &callee.kind {
            proof {
                assert(decreases_to!(*callee => **base));
            }
            let base_type = self.type_expr(rec, base, scope, in_test)?;
            if let Some(result_type) = builtin_result_or_option_call_type(&base_type, field.as_str(), args.len(), span)? {
                return Ok(result_type);
            }
        }
        if let ExprKind::Name(name) = &callee.kind {
            let record_fields = match lookup(&self.records, name.as_str()) {
                Some(record) => Some(duplicate_fields(&record.fields)),
                None => None,
            };
            if let Some(fields) = record_fields {
                let ghost rfields = self.records@[find_key_spec(self.records@, name@)->0].1.fields@;
                proof {
                    lemma_find_key_spec_facts(self.records@, name@);
                    assert forall|j: int| 0 <= j < fields@.len() implies has_key(rfields, (#[trigger] fields@[j]).0@) by {
                        assert(rfields[j].0@ == fields@[j].0@);
                    }
                }
                rec.record_expr_type(callee.id, &Type::Record(name.clone()));
                let mut remaining = fields;
                let mut i: usize = 0;
                while i < args.len()
                    invariant
                        i <= args@.len(),
                        forall|k: int| 0 <= k < args@.len() ==> decreases_to!(parent => #[trigger] args@[k].expr),
                        remaining@.len() + i == rfields.len(),
                        forall|j: int| 0 <= j < remaining@.len() ==> has_key(rfields, (#[trigger] remaining@[j]).0@),
                        forall|k: int| 0 <= k < i ==> ((#[trigger] args@[k]).name matches Some(an) && has_key(rfields, an@)),
                    decreases args@.len() - i,
                {
                    let arg = &args[i];
                    let arg_name = match &arg.name {
                        Some(n) => n,
                        None => {
                            return fail(&arg.span, String::from_str("record constructors require named arguments"));
                        },
                    };
                    let position = match find_key(&remaining, arg_name.as_str()) {
                        Some(p) => p,
                        None => {
                            return fail(&arg.span, msg5("record `", name.as_str(), "` has no field `", arg_name.as_str(), "`"));
                        },
                    };
                    let ghost rem0 = remaining@;
                    proof {
                        assert(has_key(rfields, rem0[position as int].0@));
                    }
                    let expected = remaining.remove(position).1;
                    proof {
                        assert forall|j: int| 0 <= j < remaining@.len() implies has_key(rfields, (#[trigger] remaining@[j]).0@) by {
                            if j < position {
                                assert(remaining@[j] == rem0[j]);
                            } else {
                                assert(remaining@[j] == rem0[j + 1]);
                            }
                        }
                    }
                    proof {
                        assert(decreases_to!(parent => args@[i as int].expr));
                    }
                    let actual = self.type_expr(rec, &arg.expr, scope, in_test)?;
                    if !is_assignable(&expected, &actual) {
                        let mut m = msg3("field `", arg_name.as_str(), "` expected `");
                        m.append(expected.describe().as_str());
                        m.append("`, found `");
                        m.append(actual.describe().as_str());
                        m.append("`");
                        return fail(&arg.expr.span, m);
                    }
                    i = i + 1;
                }
                if remaining.len() != 0 {
                    let missing = sorted_names_text(&remaining);
                    return fail(span, msg5("record `", name.as_str(), "` is missing fields: ", missing.as_str(), ""));
                }
                return Ok(Type::Record(name.clone()));
            }
            if let Some(enum_name) = self.type_enum_variant_constructor(rec, name.as_str(), args, scope, in_test, span, Ghost(parent))? {
                return Ok(Type::Enum(enum_name));
            }
        }
        let callee_type = self.type_expr(rec, callee, scope, in_test)?;
        let action_type = match callee_type {
            Type::Action(a) => a,
            Type::ExternAction(a) => a,
            other => {
                return fail(span, msg3("call target must be callable, found `", other.describe().as_str(), "`"));
            },
        };
        if action_type.params.len() != args.len() {
            let expected = crate::text::usize_text(action_type.params.len());
            let found = crate::text::usize_text(args.len());
            return fail(span, msg5("call expects ", expected.as_str(), " arguments, found ", found.as_str(), ""));
        }
        let mut i: usize = 0;
        while i < args.len()
            invariant
                i <= args@.len(),
                action_type.params@.len() == args@.len(),
                forall|k: int| 0 <= k < args@.len() ==> decreases_to!(parent => #[trigger] args@[k].expr),
            decreases args@.len() - i,
        {
            proof {
                assert(decreases_to!(parent => args@[i as int].expr));
            }
            let actual = self.type_expr(rec, &args[i].expr, scope, in_test)?;
            if !is_assignable(&action_type.params[i], &actual) {
                return fail(&args[i].expr.span, expected_found("argument expected `", &action_type.params[i], &actual));
            }
            i = i + 1;
        }
        Ok(*action_type.result)
    }

    /// Types a call of a standard runtime action: positional arguments of the
    /// action's parameter types.
    fn type_standard_runtime_call(&self, rec: &mut Recorded, action: StandardRuntimeAction, args: &Vec<CallArg>, scope: &Scope, in_test: bool, span: &SourceSpan, Ghost(parent): Ghost<Expr>) -> (r: Result<Type, Vec<Diagnostic>>)
        requires
            forall|i: int| 0 <= i < args@.len() ==> decreases_to!(parent => #[trigger] args@[i].expr),
        ensures
            check_outcome(r),
            args@.len() != action.param_count() ==> r is Err,
            (exists|k: int| 0 <= k < args@.len() && (#[trigger] args@[k]).name is Some) ==> r is Err,
            r matches Ok(t) ==> runtime_result_type(action, t),
        decreases parent, 0int,
    {
        let signature = action.signature();
        if signature.params.len() != args.len() {
            let expected = crate::text::usize_text(signature.params.len());
            let found = crate::text::usize_text(args.len());
            return fail(span, msg5("call expects ", expected.as_str(), " arguments, found ", found.as_str(), ""));
        }
        let mut i: usize = 0;
        while i < args.len()
            invariant
                i <= args@.len(),
                signature.params@.len() == args@.len(),
                forall|k: int| 0 <= k < args@.len() ==> decreases_to!(parent => #[trigger] args@[k].expr),
                forall|k: int| 0 <= k < i ==> (#[trigger] args@[k]).name is None,
            decreases args@.len() - i,
        {
            if args[i].name.is_some() {
                return fail(&args[i].span, String::from_str("standard runtime calls do not support named arguments"));
            }
            proof {
                assert(decreases_to!(parent => args@[i as int].expr));
            }
            let actual = self.type_expr(rec, &args[i].expr, scope, in_test)?;
            if !is_assignable(&signature.params[i], &actual) {
                return fail(&args[i].expr.span, expected_found("argument expected `", &signature.params[i], &actual));
            }
            i = i + 1;
        }
        Ok(*signature.result)
    }

    /// Types `name(args)` when `name` is a variant of exactly one enum: the
    /// arguments are all named or all positional and match the variant's
    /// fields. `None` when no unique enum has such a variant.
    fn type_enum_variant_constructor(&self, rec: &mut Recorded, name: &str, args: &Vec<CallArg>, scope: &Scope, in_test: bool, span: &SourceSpan, Ghost(parent): Ghost<Expr>) -> (r: Result<Option<String>, Vec<Diagnostic>>)
        requires
            forall|i: int| 0 <= i < args@.len() ==> decreases_to!(parent => #[trigger] args@[i].expr),
        ensures
            check_outcome(r),
            !(exists|i: int| crate::tir::unique_variant_owner(self.enums@, name@, i)) ==> r == Ok::<
                Option<String>,
                Vec<Diagnostic>,
            >(None),
            r matches Ok(Some(n)) ==> exists|i: int| #[trigger]
                crate::tir::unique_variant_owner(self.enums@, name@, i) && self.enums@[i].0 == n,
            (exists|i: int| crate::tir::unique_variant_owner(self.enums@, name@, i)) && (exists|k: int|
                0 <= k < args@.len() && (#[trigger] args@[k]).name is Some) && (exists|k: int|
                0 <= k < args@.len() && (#[trigger] args@[k]).name is None) ==> r is Err,
        decreases parent, 0int,
    {
        let found = match self.find_unique_enum_variant(name, span) {
            Ok((enum_name, variant)) => {
                proof {
                    let i = choose|i: int| #![trigger self.enums@[i]]
                        0 <= i < self.enums@.len() && self.enums@[i].0 == enum_name && (find_key_spec(
                            self.enums@[i].1.variants@,
                            name@,
                        ) matches Some(k) && self.enums@[i].1.variants@[k].1 == *variant);
                    let u = choose|u: int| #![trigger self.enums@[u]]
                        0 <= u < self.enums@.len() && find_key_spec(self.enums@[u].1.variants@, name@) is Some && forall|
                            j: int,
                        |
                            0 <= j < self.enums@.len() && j != u ==> find_key_spec((#[trigger] self.enums@[j]).1.variants@, name@)
                                is None;
                    assert(i == u);
                    assert(crate::tir::unique_variant_owner(self.enums@, name@, i));
                }
                Some((enum_name, duplicate_fields(&variant.fields)))
            },
            Err(_) => {
                proof {
                    assert forall|i: int| !crate::tir::unique_variant_owner(self.enums@, name@, i) by {
                        if crate::tir::unique_variant_owner(self.enums@, name@, i) {
                            assert(self.enums@[i] == self.enums@[i]);
                        }
                    }
                }
                None
            },
        };
        let (enum_name, variant_fields) = match found {
            Some(f) => f,
            None => {
                return Ok(None);
            },
        };
        let mut uses_named = false;
        let mut uses_positional = false;
        let mut j: usize = 0;
        while j < args.len()
            invariant
                exists|q: int| crate::tir::unique_variant_owner(self.enums@, name@, q),
                j <= args@.len(),
                uses_named <==> exists|k: int| 0 <= k < j && (#[trigger] args@[k]).name is Some,
                uses_positional <==> exists|k: int| 0 <= k < j && (#[trigger] args@[k]).name is None,
            decreases args@.len() - j,
        {
            if args[j].name.is_some() {
                uses_named = true;
            } else {
                uses_positional = true;
            }
            j = j + 1;
        }
        if uses_named && uses_positional {
            return fail(span, String::from_str("enum variant constructors may not mix named and positional arguments"));
        }
        if uses_named {
            let mut remaining = variant_fields;
            let mut i: usize = 0;
            while i < args.len()
                invariant
                    exists|q: int| crate::tir::unique_variant_owner(self.enums@, name@, q),
                    i <= args@.len(),
                    forall|k: int| 0 <= k < args@.len() ==> decreases_to!(parent => #[trigger] args@[k].expr),
                decreases args@.len() - i,
            {
                let arg = &args[i];
                let arg_name = match &arg.name {
                    Some(n) => n,
                    None => {
                        return fail(&arg.span, String::from_str("enum variant constructors require named arguments consistently"));
                    },
                };
                let position = match find_key(&remaining, arg_name.as_str()) {
                    Some(p) => p,
                    None => {
                        return fail(&arg.span, msg5("enum variant `", name, "` has no field `", arg_name.as_str(), "`"));
                    },
                };
                let expected = remaining.remove(position).1;
                proof {
                    assert(decreases_to!(parent => args@[i as int].expr));
                }
                let actual = self.type_expr(rec, &arg.expr, scope, in_test)?;
                if !is_assignable(&expected, &actual) {
                    let mut m = msg3("field `", arg_name.as_str(), "` expected `");
                    m.append(expected.describe().as_str());
                    m.append("`, found `");
                    m.append(actual.describe().as_str());
                    m.append("`");
                    return fail(&arg.expr.span, m);
                }
                i = i + 1;
            }
            if remaining.len() != 0 {
                let missing = sorted_names_text(&remaining);
                return fail(span, msg5("enum variant `", name, "` is missing fields: ", missing.as_str(), ""));
            }
        } else {
            if args.len() != variant_fields.len() {
                let mut m = msg3("enum variant `", name, "` expects ");
                m.append(crate::text::usize_text(variant_fields.len()).as_str());
                m.append(" argument(s), found ");
                m.append(crate::text::usize_text(args.len()).as_str());
                return fail(span, m);
            }
            let mut i: usize = 0;
            while i < args.len()
                invariant
                    exists|q: int| crate::tir::unique_variant_owner(self.enums@, name@, q),
                    i <= args@.len(),
                    args@.len() == variant_fields@.len(),
                    forall|k: int| 0 <= k < args@.len() ==> decreases_to!(parent => #[trigger] args@[k].expr),
                decreases args@.len() - i,
            {
                proof {
                    assert(decreases_to!(parent => args@[i as int].expr));
                }
                let actual = self.type_expr(rec, &args[i].expr, scope, in_test)?;
                if !is_assignable(&variant_fields[i].1, &actual) {
                    let mut m = msg3("enum variant `", name, "` expected `");
                    m.append(variant_fields[i].1.describe().as_str());
                    m.append("`, found `");
                    m.append(actual.describe().as_str());
                    m.append("`");
                    return fail(&args[i].expr.span, m);
                }
                i = i + 1;
            }
        }
        Ok(Some(enum_name))
    }
}


/// The name an assignment target is rooted at.
pub open spec fn target_root(t: Target) -> Seq<char>
    decreases t,
{
    match t {
        Target::Name { name, .. } => name@,
        Target::Field { base, .. } => target_root(*base),
        Target::Index { base, .. } => target_root(*base),
    }
}

/// No name occurs twice among the bindings.
pub open spec fn keys_distinct<T>(b: Seq<(String, T)>) -> bool {
    forall|i: int, j: int| 0 <= i < j < b.len() ==> b[i].0@ != b[j].0@
}

/// `new` keeps the bindings of `old`, in order, and may add more.
pub open spec fn extends<T>(old: Seq<(String, T)>, new: Seq<(String, T)>) -> bool {
    old.len() <= new.len() && forall|i: int| 0 <= i < old.len() ==> (#[trigger] new[i]).0@ == old[i].0@
}

/// How a character is written inside a quoted message text.
pub open spec fn quote_escape(c: char) -> Seq<char> {
    if c == '"' {
        "\\\""@
    } else if c == '\\' {
        "\\\\"@
    } else if c == '\n' {
        "\\n"@
    } else if c == '\t' {
        "\\t"@
    } else if c == '\r' {
        "\\r"@
    } else {
        seq![c]
    }
}

/// The characters of `s`, each as written inside a quoted message text.
pub open spec fn quote_body(s: Seq<char>) -> Seq<char>
    decreases s.len(),
{
    if s.len() == 0 {
        Seq::empty()
    } else {
        quote_body(s.drop_last()) + quote_escape(s.last())
    }
}

/// How a pattern literal is written in messages.
pub open spec fn pattern_literal_text(literal: PatternLiteral) -> Seq<char> {
    match literal {
        PatternLiteral::Int(v) => crate::text::int_text(v as int),
        PatternLiteral::Dec(v) => v@,
        PatternLiteral::String(v) => "\""@ + quote_body(v@) + "\""@,
        PatternLiteral::Bool(b) => if b { "true"@ } else { "false"@ },
        PatternLiteral::NoneLiteral => "None"@,
    }
}

/// How a pattern literal is written in messages.
fn describe_pattern_literal(literal: &PatternLiteral) -> (r: String)
    ensures
        r@ == pattern_literal_text(*literal),
{
    match literal {
        PatternLiteral::Int(v) => crate::text::i64_text(*v),
        PatternLiteral::Dec(v) => v.clone(),
        PatternLiteral::String(v) => quoted_text(v.as_str()),
        PatternLiteral::Bool(b) => if *b { String::from_str("true") } else { String::from_str("false") },
        PatternLiteral::NoneLiteral => String::from_str("None"),
    }
}

/// `s` in double quotes, with quotes, backslashes and the common control
/// characters escaped.
fn quoted_text(s: &str) -> (r: String)
    ensures
        r@ == "\""@ + quote_body(s@) + "\""@,
{
    let chars = crate::text::chars_of(s);
    let mut out = String::from_str("\"");
    let mut i: usize = 0;
    proof {
        assert(chars@.subrange(0, 0) =~= Seq::<char>::empty());
        assert(out@ =~= "\""@ + quote_body(chars@.subrange(0, 0)));
    }
    while i < chars.len()
        invariant
            i <= chars@.len(),
            chars@ == s@,
            out@ == "\""@ + quote_body(chars@.subrange(0, i as int)),
        decreases chars@.len() - i,
    {
        let c = chars[i];
        let ghost before = out@;
        if c == '"' {
            out.append("\\\"");
        } else if c == '\\' {
            out.append("\\\\");
        } else if c == '\n' {
            out.append("\\n");
        } else if c == '\t' {
            out.append("\\t");
        } else if c == '\r' {
            out.append("\\r");
        } else {
            push_char(&mut out, c);
            assert(out@ =~= before + seq![c]);
        }
        proof {
            assert(chars@.subrange(0, i + 1).drop_last() =~= chars@.subrange(0, i as int));
            assert(out@ =~= "\""@ + quote_body(chars@.subrange(0, i + 1)));
        }
        i = i + 1;
    }
    assert(chars@.subrange(0, chars@.len() as int) =~= s@);
    out.append("\"");
    out
}

/// How a binding pattern is named in messages.
fn binding_pattern_label(pattern: &BindingPattern) -> (r: String)
    ensures
        r@ == match pattern.kind {
            BindingPatternKind::Name(n) => n@,
            BindingPatternKind::Tuple(names) => "("@ + crate::text::joined(crate::text::views_of(names@), ", "@) + ")"@,
            BindingPatternKind::Record { name, .. } => name@,
        },
{
    match &pattern.kind {
        BindingPatternKind::Name(n) => n.clone(),
        BindingPatternKind::Tuple(names) => {
            let inner = crate::text::join(names, ", ");
            concat3("(", inner.as_str(), ")")
        },
        BindingPatternKind::Record { name, .. } => name.clone(),
    }
}

impl CheckState {
    /// Types the statements of a block in order, in one scope.
    fn type_block(&self, rec: &mut Recorded, block: &Vec<Stmt>, scope: &mut Scope, in_test: bool, expected_return: &Type, in_loop: bool) -> (r: Result<(), Vec<Diagnostic>>)
        ensures
            check_outcome(r),
            (exists|j: int| 0 <= j < block@.len() && closed_stmt_check(#[trigger] block@[j].kind, *expected_return, in_loop)
                == Some(false)) ==> r is Err,
            (forall|j: int| 0 <= j < block@.len() ==> closed_stmt_check(#[trigger] block@[j].kind, *expected_return, in_loop)
                == Some(true)) ==> r is Ok,
        decreases *block,
    {
        let mut i: usize = 0;
        while i < block.len()
            invariant
                i <= block@.len(),
                forall|k: int| 0 <= k < i ==> closed_stmt_check(#[trigger] block@[k].kind, *expected_return, in_loop) != Some(false),
            decreases block@.len() - i,
        {
            proof {
                assert(decreases_to!(*block => block@[i as int]));
            }
            self.type_stmt(rec, &block[i], scope, in_test, expected_return, in_loop)?;
            i = i + 1;
        }
        Ok(())
    }

    /// Binds the names of a `let` or `var` pattern to the parts of a value of
    /// type `ty`.
    /// Whether a binding pattern can take apart a value of type `ty`: a
    /// name always; a tuple pattern of distinct names a tuple of as many
    /// items or an unknown type; a record pattern of a declared record, with
    /// declared fields and distinct bindings, that record or an unknown type.
    spec fn pattern_binds(&self, k: BindingPatternKind, ty: Type) -> bool {
        match k {
            BindingPatternKind::Name(_) => true,
            BindingPatternKind::Tuple(names) => strings_distinct(names@) && (ty is Unknown || (ty matches Type::Tuple(
                ts,
            ) && ts@.len() == names@.len())),
            BindingPatternKind::Record { name, fields } => match find_key_spec(self.records@, name@) {
                Some(ri) => {
                    &&& (ty is Unknown || (ty matches Type::Record(n) && n@ == name@))
                    &&& forall|i: int|
                        0 <= i < fields@.len() ==> find_key_spec(self.records@[ri].1.fields@, (#[trigger] fields@[i]).field@)
                            is Some
                    &&& bindings_distinct(fields@)
                },
                None => false,
            },
        }
    }

    #[verifier::rlimit(100)]
    fn bind_pattern(&self, pattern: &BindingPattern, ty: &Type, scope: &mut Scope, mutable: bool) -> (r: Result<(), Vec<Diagnostic>>)
        ensures
            check_outcome(r),
            r is Ok <==> self.pattern_binds(pattern.kind, *ty),
            r is Ok ==> forall|n: Seq<char>| #[trigger] final(scope).mutability(n) is Some <==> (old(scope).mutability(n) is Some
                || binds_name(pattern.kind, n)),
            r is Ok ==> forall|n: Seq<char>| #[trigger] final(scope).mutability(n) == (if binds_name(pattern.kind, n) {
                Some(mutable)
            } else {
                old(scope).mutability(n)
            }),
    {
        match &pattern.kind {
            BindingPatternKind::Name(n) => {
                scope.insert(n.clone(), ty.duplicate(), mutable);
                Ok(())
            },
            BindingPatternKind::Tuple(names) => {
                let mut seen: Vec<(String, ())> = Vec::new();
                let mut j: usize = 0;
                while j < names.len()
                    invariant
                        j <= names@.len(),
                        seen@.len() == j,
                        forall|k: int| 0 <= k < j ==> (#[trigger] seen@[k]).0 == names@[k],
                        strings_distinct(names@.take(j as int)),
                        (pattern.kind matches BindingPatternKind::Tuple(ns) && ns == *names),
                    decreases names@.len() - j,
                {
                    if find_key(&seen, names[j].as_str()).is_some() {
                        proof {
                            let k = choose|k: int| 0 <= k < seen@.len() && seen@[k].0@ == names@[j as int]@;
                            assert(!strings_distinct(names@.take(j + 1)) && names@.take(j + 1) == names@.take(j + 1)) by {
                                assert(names@.take(j + 1)[k] == names@[k]);
                                assert(names@.take(j + 1)[j as int] == names@[j as int]);
                            }
                            lemma_distinct_prefix(names@, j + 1);
                        }
                        return fail(&pattern.span, msg3("duplicate binding `", names[j].as_str(), "` in binding pattern"));
                    }
                    proof {
                        assert forall|a: int, b: int| 0 <= a < b < j + 1 implies (#[trigger] names@.take(j + 1)[a])@
                            != (#[trigger] names@.take(j + 1)[b])@ by {
                            assert(names@.take(j + 1)[a] == names@[a]);
                            assert(names@.take(j + 1)[b] == names@[b]);
                            if b < j {
                                assert(names@.take(j as int)[a] == names@[a]);
                                assert(names@.take(j as int)[b] == names@[b]);
                            } else {
                                assert(seen@[a].0 == names@[a]);
                            }
                        }
                    }
                    seen.push((names[j].clone(), ()));
                    j = j + 1;
                }
                proof {
                    assert(names@.take(j as int) =~= names@);
                }
                match ty {
                    Type::Tuple(types) => {
                        if types.len() != names.len() {
                            let mut m = String::from_str("tuple destructuring expects ");
                            m.append(crate::text::usize_text(names.len()).as_str());
                            m.append(" item(s), found `");
                            m.append(ty.describe().as_str());
                            m.append("`");
                            return fail(&pattern.span, m);
                        }
                        let mut i: usize = 0;
                        let ghost s0 = *scope;
                        while i < names.len()
                            invariant
                                i <= names@.len(),
                                types@.len() == names@.len(),
                                forall|n: Seq<char>| #[trigger] scope.mutability(n) is Some <==> (s0.mutability(n) is Some
                                    || exists|k: int| 0 <= k < i && (#[trigger] names@[k])@ == n),
                                forall|n: Seq<char>| #[trigger] scope.mutability(n) == (if exists|k: int|
                                    0 <= k < i && (#[trigger] names@[k])@ == n {
                                    Some(mutable)
                                } else {
                                    s0.mutability(n)
                                }),
                            decreases names@.len() - i,
                        {
                            scope.insert(names[i].clone(), types[i].duplicate(), mutable);
                            proof {
                                assert(names@[i as int] == names@[i as int]);
                            }
                            i = i + 1;
                        }
                        Ok(())
                    },
                    Type::Unknown => {
                        let mut i: usize = 0;
                        let ghost s0 = *scope;
                        while i < names.len()
                            invariant
                                i <= names@.len(),
                                forall|n: Seq<char>| #[trigger] scope.mutability(n) is Some <==> (s0.mutability(n) is Some
                                    || exists|k: int| 0 <= k < i && (#[trigger] names@[k])@ == n),
                                forall|n: Seq<char>| #[trigger] scope.mutability(n) == (if exists|k: int|
                                    0 <= k < i && (#[trigger] names@[k])@ == n {
                                    Some(mutable)
                                } else {
                                    s0.mutability(n)
                                }),
                            decreases names@.len() - i,
                        {
                            scope.insert(names[i].clone(), Type::Unknown, mutable);
                            proof {
                                assert(names@[i as int] == names@[i as int]);
                            }
                            i = i + 1;
                        }
                        Ok(())
                    },
                    other => {
                        let mut m = String::from_str("tuple destructuring expects ");
                        m.append(crate::text::usize_text(names.len()).as_str());
                        m.append(" item(s), found `");
                        m.append(other.describe().as_str());
                        m.append("`");
                        fail(&pattern.span, m)
                    },
                }
            },
            BindingPatternKind::Record { name, fields } => {
                let record = match lookup(&self.records, name.as_str()) {
                    Some(r) => r,
                    None => {
                        return fail(&pattern.span, msg3("unknown record type `", name.as_str(), "` in binding pattern"));
                    },
                };
                match ty {
                    Type::Record(n) => {
                        if !str_eq(n.as_str(), name.as_str()) {
                            return fail(&pattern.span, msg5("record destructuring `", name.as_str(), "` does not match value of type `", n.as_str(), "`"));
                        }
                    },
                    Type::Unknown => {},
                    other => {
                        return fail(&pattern.span, msg5("record destructuring `", name.as_str(), "` requires a record, found `", other.describe().as_str(), "`"));
                    },
                }
                let ghost ri = find_key_spec(self.records@, name@)->0;
                let mut seen: Vec<(String, ())> = Vec::new();
                let mut i: usize = 0;
                let ghost s0 = *scope;
                while i < fields.len()
                    invariant
                        i <= fields@.len(),
                        find_key_spec(self.records@, name@) == Some(ri),
                        self.records@[ri].1 == *record,
                        (pattern.kind matches BindingPatternKind::Record { name: nm, fields: fs } && fs == *fields && nm == *name),
                        *ty is Unknown || (*ty matches Type::Record(n) && n@ == name@),
                        seen@.len() == i,
                        forall|k: int| 0 <= k < i ==> (#[trigger] seen@[k]).0 == fields@[k].binding,
                        forall|k: int| 0 <= k < i ==> find_key_spec(record.fields@, (#[trigger] fields@[k]).field@) is Some,
                        bindings_distinct(fields@.take(i as int)),
                        forall|n: Seq<char>| #[trigger] scope.mutability(n) == (if exists|k: int|
                            0 <= k < i && (#[trigger] fields@[k]).binding@ == n {
                            Some(mutable)
                        } else {
                            s0.mutability(n)
                        }),
                    decreases fields@.len() - i,
                {
                    let field = &fields[i];
                    let field_type = match lookup(&record.fields, field.field.as_str()) {
                        Some(t) => t.duplicate(),
                        None => {
                            return fail(&field.span, msg5("record `", name.as_str(), "` has no field `", field.field.as_str(), "`"));
                        },
                    };
                    if find_key(&seen, field.binding.as_str()).is_some() {
                        proof {
                            let k = choose|k: int| 0 <= k < seen@.len() && seen@[k].0@ == fields@[i as int].binding@;
                            assert(!bindings_distinct(fields@.take(i + 1))) by {
                                assert(fields@.take(i + 1)[k] == fields@[k]);
                                assert(fields@.take(i + 1)[i as int] == fields@[i as int]);
                            }
                            lemma_bindings_distinct_prefix(fields@, i + 1);
                        }
                        return fail(&field.span, msg3("duplicate binding `", field.binding.as_str(), "` in binding pattern"));
                    }
                    proof {
                        lemma_bindings_distinct_step(fields@, seen@, i as int);
                    }
                    seen.push((field.binding.clone(), ()));
                    let ghost before = *scope;
                    scope.insert(field.binding.clone(), field_type, mutable);
                    proof {
                        lemma_scope_step(before, *scope, s0, fields@, i as int, mutable);
                    }
                    i = i + 1;
                }
                proof {
                    assert(fields@.take(i as int) =~= fields@);
                }
                Ok(())
            },
        }
    }

    /// Types a `let` (`mutable` false) or `var` (`mutable` true) statement.
    fn type_binding(&self, rec: &mut Recorded, stmt: &Stmt, pattern: &BindingPattern, explicit_type: &Option<TypeRef>, value: &Expr, scope: &mut Scope, in_test: bool, mutable: bool) -> (r: Result<(), Vec<Diagnostic>>)
        ensures
            check_outcome(r),
            r is Ok ==> forall|n: Seq<char>| #[trigger] final(scope).mutability(n) is Some <==> (old(scope).mutability(n) is Some
                || binds_name(pattern.kind, n)),
            r is Ok ==> forall|n: Seq<char>| #[trigger] final(scope).mutability(n) == (if binds_name(pattern.kind, n) {
                Some(mutable)
            } else {
                old(scope).mutability(n)
            }),
            explicit_type matches Some(t) ==> ((forall|ty: Type| !lowers_to(self.records@, self.enums@, *t, ty)) ==> r is Err),
            r is Ok ==> exists|ty: Type| self.pattern_binds(pattern.kind, ty),
    {
        let value_type = self.type_expr(rec, value, scope, in_test)?;
        let declared_type = match explicit_type {
            Some(explicit) => {
                let declared = self.lower_type_ref(explicit, &stmt.span)?;
                if !is_assignable(&declared, &value_type) {
                    let label = binding_pattern_label(pattern);
                    let mut m = msg3("variable `", label.as_str(), "` expected type `");
                    m.append(declared.describe().as_str());
                    m.append("`, found `");
                    m.append(value_type.describe().as_str());
                    m.append("`");
                    return fail(&value.span, m);
                }
                declared
            },
            None => value_type,
        };
        self.bind_pattern(pattern, &declared_type, scope, mutable)
    }

    /// Types one statement.
    fn type_stmt(&self, rec: &mut Recorded, stmt: &Stmt, scope: &mut Scope, in_test: bool, expected_return: &Type, in_loop: bool) -> (r: Result<(), Vec<Diagnostic>>)
        ensures
            check_outcome(r),
            closed_stmt_check(stmt.kind, *expected_return, in_loop) matches Some(ok) ==> (r is Ok <==> ok),
            stmt.kind matches StmtKind::Let { pattern, .. } ==> (r is Ok ==> forall|n: Seq<char>|
                #[trigger] final(scope).mutability(n) == (if binds_name(pattern.kind, n) {
                    Some(false)
                } else {
                    old(scope).mutability(n)
                })),
            stmt.kind matches StmtKind::Var { pattern, .. } ==> (r is Ok ==> forall|n: Seq<char>|
                #[trigger] final(scope).mutability(n) == (if binds_name(pattern.kind, n) {
                    Some(true)
                } else {
                    old(scope).mutability(n)
                })),
            stmt.kind matches StmtKind::Assign { target, .. } ==> (r is Ok ==> old(scope).mutability(target_root(target))
                == Some(true)),
            stmt.kind matches StmtKind::Assign { target: Target::Name { name, .. }, .. } ==> (old(scope).mutability(name@)
                == Some(false) ==> (r matches Err(ds) && ds@[0].message@ == "cannot assign to immutable binding `"@ + name@
                + "`"@)),
        decreases *stmt,
    {
        match &stmt.kind {
            StmtKind::IntentBlock { .. } | StmtKind::ExplainBlock { .. } => {},
            StmtKind::StepBlock { body, .. } => {
                proof {
                    assert(decreases_to!(*stmt => *body));
                }
                self.type_block(rec, body, scope, in_test, expected_return, in_loop)?;
            },
            StmtKind::RequiresClause { condition } => {
                let t = self.type_expr(rec, condition, scope, in_test)?;
                if !matches!(t, Type::Bool) {
                    return fail(&condition.span, msg3("requires expression must be `Bool`, found `", t.describe().as_str(), "`"));
                }
            },
            StmtKind::EnsuresClause { condition } => {
                let mut ensures_scope = scope.duplicate();
                ensures_scope.insert(String::from_str("result"), expected_return.duplicate(), false);
                let t = self.type_expr(rec, condition, &ensures_scope, in_test)?;
                if !matches!(t, Type::Bool) {
                    return fail(&condition.span, msg3("ensures expression must be `Bool`, found `", t.describe().as_str(), "`"));
                }
            },
            StmtKind::ExampleBlock { inputs, outputs, .. } => {
                let mut i: usize = 0;
                while i < inputs.len()
                    invariant
                        closed_stmt_check(stmt.kind, *expected_return, in_loop) is None,
                        !(stmt.kind is Assign),
                        i <= inputs@.len(),
                    decreases inputs@.len() - i,
                {
                    self.type_expr(rec, &inputs[i].1, scope, in_test)?;
                    i = i + 1;
                }
                let mut j: usize = 0;
                while j < outputs.len()
                    invariant
                        closed_stmt_check(stmt.kind, *expected_return, in_loop) is None,
                        !(stmt.kind is Assign),
                        j <= outputs@.len(),
                    decreases outputs@.len() - j,
                {
                    let actual = self.type_expr(rec, &outputs[j].1, scope, in_test)?;
                    if !is_assignable(expected_return, &actual) {
                        return fail(&outputs[j].1.span, expected_found("example output expected `", expected_return, &actual));
                    }
                    j = j + 1;
                }
            },
            StmtKind::Let { pattern, explicit_type, value } => {
                self.type_binding(rec, stmt, pattern, explicit_type, value, scope, in_test, false)?;
            },
            StmtKind::Var { pattern, explicit_type, value } => {
                self.type_binding(rec, stmt, pattern, explicit_type, value, scope, in_test, true)?;
            },
            StmtKind::Assign { target, value } => {
                let target_type = self.type_target(rec, target, scope, in_test)?;
                let value_type = self.type_expr(rec, value, scope, in_test)?;
                if !is_assignable(&target_type, &value_type) {
                    return fail(&value.span, expected_found("assignment target expects `", &target_type, &value_type));
                }
            },
            StmtKind::If { branches, else_branch } => {
                let mut i: usize = 0;
                while i < branches.len()
                    invariant
                        closed_stmt_check(stmt.kind, *expected_return, in_loop) is None,
                        !(stmt.kind is Assign),
                        i <= branches@.len(),
                        forall|k: int| 0 <= k < branches@.len() ==> decreases_to!(*stmt => #[trigger] branches@[k].body),
                    decreases branches@.len() - i,
                {
                    let branch = &branches[i];
                    let t = self.type_expr(rec, &branch.condition, scope, in_test)?;
                    if !matches!(t, Type::Bool) {
                        return fail(&branch.condition.span, msg3("if condition must be `Bool`, found `", t.describe().as_str(), "`"));
                    }
                    let mut branch_scope = scope.duplicate();
                    proof {
                        assert(decreases_to!(*stmt => branches@[i as int].body));
                    }
                    self.type_block(rec, &branch.body, &mut branch_scope, in_test, expected_return, in_loop)?;
                    i = i + 1;
                }
                let mut else_scope = scope.duplicate();
                proof {
                    assert(decreases_to!(*stmt => *else_branch));
                }
                self.type_block(rec, else_branch, &mut else_scope, in_test, expected_return, in_loop)?;
            },
            StmtKind::While { condition, body } => {
                let t = self.type_expr(rec, condition, scope, in_test)?;
                if !matches!(t, Type::Bool) {
                    return fail(&condition.span, msg3("while condition must be `Bool`, found `", t.describe().as_str(), "`"));
                }
                let mut body_scope = scope.duplicate();
                proof {
                    assert(decreases_to!(*stmt => *body));
                }
                self.type_block(rec, body, &mut body_scope, in_test, expected_return, true)?;
            },
            StmtKind::Match { scrutinee, arms } => {
                let scrutinee_type = self.type_expr(rec, scrutinee, scope, in_test)?;
                let mut i: usize = 0;
                while i < arms.len()
                    invariant
                        closed_stmt_check(stmt.kind, *expected_return, in_loop) is None,
                        !(stmt.kind is Assign),
                        i <= arms@.len(),
                        forall|k: int| 0 <= k < arms@.len() ==> decreases_to!(*stmt => #[trigger] arms@[k]),
                    decreases arms@.len() - i,
                {
                    proof {
                        assert(decreases_to!(*stmt => arms@[i as int]));
                    }
                    self.type_match_arm(rec, &arms[i], &scrutinee_type, scope, in_test, expected_return, in_loop)?;
                    i = i + 1;
                }
            },
            StmtKind::ForEach { binding, iterable, body } => {
                let iterable_type = self.type_expr(rec, iterable, scope, in_test)?;
                let item_type = match iterable_type {
                    Type::List(inner) => *inner,
                    Type::SetOf(inner) => *inner,
                    other => {
                        return fail(&iterable.span, msg3("for-each iterable must be a collection, found `", other.describe().as_str(), "`"));
                    },
                };
                let mut body_scope = scope.duplicate();
                body_scope.insert(binding.clone(), item_type, false);
                proof {
                    assert(decreases_to!(*stmt => *body));
                }
                self.type_block(rec, body, &mut body_scope, in_test, expected_return, true)?;
            },
            StmtKind::Return(expr) => {
                let actual = match expr {
                    Some(e) => self.type_expr(rec, e, scope, in_test)?,
                    None => Type::NoneType,
                };
                if !is_assignable(expected_return, &actual) {
                    return fail(&stmt.span, expected_found("return expected `", expected_return, &actual));
                }
            },
            StmtKind::Break | StmtKind::Continue => {
                if !in_loop {
                    return fail(&stmt.span, String::from_str("break/continue is only valid inside loops"));
                }
            },
            StmtKind::Expect(expr) => {
                let t = self.type_expr(rec, expr, scope, in_test)?;
                if !matches!(t, Type::Bool) {
                    return fail(&expr.span, msg3("expect expression must be `Bool`, found `", t.describe().as_str(), "`"));
                }
            },
            StmtKind::Expr(expr) => {
                self.type_expr(rec, expr, scope, in_test)?;
            },
        }
        Ok(())
    }

    /// Types one arm of a `match`: its pattern against the scrutinee's type,
    /// then its body in a scope extended by the pattern's bindings.
    fn type_match_arm(&self, rec: &mut Recorded, arm: &MatchArm, scrutinee_type: &Type, scope: &Scope, in_test: bool, expected_return: &Type, in_loop: bool) -> (r: Result<(), Vec<Diagnostic>>)
        ensures
            check_outcome(r),
            arm.pattern.kind matches PatternKind::Literal(l) ==> (!assignable(*scrutinee_type, literal_type_of(l)) ==> r is Err),
            arm.pattern.kind matches PatternKind::Tuple(items) ==> (!(*scrutinee_type is Unknown || (
            *scrutinee_type matches Type::Tuple(ts) && ts@.len() == items@.len())) ==> r is Err),
            arm.pattern.kind matches PatternKind::Record { name, .. } ==> (!(has_key(self.records@, name@) && (
            *scrutinee_type is Unknown || (*scrutinee_type matches Type::Record(n) && n@ == name@))) ==> r is Err),
            arm.pattern.kind matches PatternKind::Variant { name, .. } ==> (!crate::tir::has_variant_signature(
                self.enums@,
                *scrutinee_type,
                name@,
            ) ==> r is Err),
        decreases *arm,
    {
        let mut bindings: Vec<(String, Type)> = Vec::new();
        self.check_pattern(&arm.pattern, scrutinee_type, &mut bindings)?;
        let mut arm_scope = scope.duplicate();
        let mut i: usize = 0;
        while i < bindings.len()
            invariant
                i <= bindings@.len(),
            decreases bindings@.len() - i,
        {
            arm_scope.insert(bindings[i].0.clone(), bindings[i].1.duplicate(), false);
            i = i + 1;
        }
        proof {
            assert(decreases_to!(*arm => arm.body));
        }
        self.type_block(rec, &arm.body, &mut arm_scope, in_test, expected_return, in_loop)
    }

    /// Checks a `match` pattern against the type of the value it matches and
    /// collects the names it binds. A name bound twice is an error, so the
    /// bindings never repeat a name.
    #[verifier::rlimit(60)]
    fn check_pattern(&self, pattern: &Pattern, expected: &Type, bindings: &mut Vec<(String, Type)>) -> (r: Result<(), Vec<Diagnostic>>)
        requires
            keys_distinct(old(bindings)@),
        ensures
            check_outcome(r),
            keys_distinct(final(bindings)@),
            extends(old(bindings)@, final(bindings)@),
            pattern.kind is Wildcard ==> r is Ok && final(bindings)@ == old(bindings)@,
            pattern.kind matches PatternKind::Literal(l) ==> (r is Ok <==> assignable(*expected, literal_type_of(l)))
                && final(bindings)@ == old(bindings)@,
            pattern.kind matches PatternKind::Binding(n) ==> (r is Ok <==> !has_key(old(bindings)@, n@)),
            pattern.kind matches PatternKind::Binding(n) ==> (has_key(old(bindings)@, n@) ==> (r matches Err(ds) && ds@[0].message@
                == "duplicate binding `"@ + n@ + "` in match pattern"@)),
            r is Ok ==> keys_of(final(bindings)@) == keys_of(old(bindings)@) + pattern_names(*pattern),
            pattern.kind matches PatternKind::Binding(n) ==> (r is Ok ==> final(bindings)@.len() == old(bindings)@.len() + 1
                && final(bindings)@.last().0 == n && same(final(bindings)@.last().1, *expected)),
            pattern.kind matches PatternKind::Tuple(items) ==> (!(*expected is Unknown || (*expected matches Type::Tuple(
                ts,
            ) && ts@.len() == items@.len())) ==> r is Err),
            pattern.kind matches PatternKind::Record { name, .. } ==> (!(has_key(self.records@, name@) && (*expected is Unknown
                || (*expected matches Type::Record(n) && n@ == name@))) ==> r is Err),
            pattern.kind matches PatternKind::Variant { name, .. } ==> (!crate::tir::has_variant_signature(
                self.enums@,
                *expected,
                name@,
            ) ==> r is Err),
        decreases *pattern,
    {
        match &pattern.kind {
            PatternKind::Wildcard => {
                proof {
                    assert(keys_of(bindings@) =~= keys_of(bindings@) + pattern_names(*pattern));
                }
                Ok(())
            },
            PatternKind::Literal(literal) => {
                let literal_type = match literal {
                    PatternLiteral::Int(_) => Type::Int,
                    PatternLiteral::Dec(_) => Type::Dec,
                    PatternLiteral::String(_) => Type::Text,
                    PatternLiteral::Bool(_) => Type::Bool,
                    PatternLiteral::NoneLiteral => Type::NoneType,
                };
                if is_assignable(expected, &literal_type) {
                    proof {
                        assert(keys_of(bindings@) =~= keys_of(bindings@) + pattern_names(*pattern));
                    }
                    Ok(())
                } else {
                    let text = describe_pattern_literal(literal);
                    fail(&pattern.span, msg5("pattern literal `", text.as_str(), "` is not compatible with `", expected.describe().as_str(), "`"))
                }
            },
            PatternKind::Binding(name) => {
                if find_key(bindings, name.as_str()).is_some() {
                    return fail(&pattern.span, msg3("duplicate binding `", name.as_str(), "` in match pattern"));
                }
                proof {
                    if has_key(bindings@, name@) {
                        let k = choose|k: int| 0 <= k < bindings@.len() && bindings@[k].0@ == name@;
                        assert(bindings@[k].0@ != name@);
                    }
                }
                bindings.push((name.clone(), expected.duplicate()));
                proof {
                    assert(keys_of(bindings@) =~= keys_of(old(bindings)@) + pattern_names(*pattern));
                }
                Ok(())
            },
            PatternKind::Tuple(items) => {
                proof {
                    assert forall|i: int| 0 <= i < items@.len() implies decreases_to!(*pattern => #[trigger] items@[i]) by {
                        assert(decreases_to!(*pattern => items@[i]));
                    }
                }
                match expected {
                    Type::Tuple(types) => {
                        if types.len() != items.len() {
                            let mut m = String::from_str("tuple pattern has arity ");
                            m.append(crate::text::usize_text(items.len()).as_str());
                            m.append(", but matched value has arity ");
                            m.append(crate::text::usize_text(types.len()).as_str());
                            return fail(&pattern.span, m);
                        }
                        let mut i: usize = 0;
                        while i < items.len()
                            invariant
                                i <= items@.len(),
                                types@.len() == items@.len(),
                                forall|k: int| 0 <= k < items@.len() ==> decreases_to!(*pattern => #[trigger] items@[k]),
                                pattern.kind == PatternKind::Tuple(*items),
                                keys_of(bindings@) == keys_of(old(bindings)@) + names_all(items@.take(i as int)),
                                keys_distinct(bindings@),
                                extends(old(bindings)@, bindings@),
                            decreases items@.len() - i,
                        {
                            proof {
                                assert(decreases_to!(*pattern => items@[i as int]));
                            }
                            let ghost kb = keys_of(bindings@);
                            self.check_pattern(&items[i], &types[i], bindings)?;
                            proof {
                                assert(items@.take(i + 1).drop_last() =~= items@.take(i as int));
                                assert(keys_of(bindings@) =~= keys_of(old(bindings)@) + names_all(items@.take(i + 1)));
                            }
                            i = i + 1;
                        }
                        proof {
                            assert(items@.take(i as int) =~= items@);
                        }
                        Ok(())
                    },
                    Type::Unknown => {
                        let unknown = Type::Unknown;
                        let mut i: usize = 0;
                        while i < items.len()
                            invariant
                                i <= items@.len(),
                                forall|k: int| 0 <= k < items@.len() ==> decreases_to!(*pattern => #[trigger] items@[k]),
                                pattern.kind == PatternKind::Tuple(*items),
                                keys_of(bindings@) == keys_of(old(bindings)@) + names_all(items@.take(i as int)),
                                keys_distinct(bindings@),
                                extends(old(bindings)@, bindings@),
                            decreases items@.len() - i,
                        {
                            proof {
                                assert(decreases_to!(*pattern => items@[i as int]));
                            }
                            let ghost kb = keys_of(bindings@);
                            self.check_pattern(&items[i], &unknown, bindings)?;
                            proof {
                                assert(items@.take(i + 1).drop_last() =~= items@.take(i as int));
                                assert(keys_of(bindings@) =~= keys_of(old(bindings)@) + names_all(items@.take(i + 1)));
                            }
                            i = i + 1;
                        }
                        proof {
                            assert(items@.take(i as int) =~= items@);
                        }
                        Ok(())
                    },
                    other => fail(&pattern.span, msg3("tuple pattern requires a tuple value, found `", other.describe().as_str(), "`")),
                }
            },
            PatternKind::Record { name, fields } => {
                let record = match lookup(&self.records, name.as_str()) {
                    Some(r) => r,
                    None => {
                        return fail(&pattern.span, msg3("unknown record type `", name.as_str(), "` in match pattern"));
                    },
                };
                match expected {
                    Type::Record(expected_name) => {
                        if !str_eq(expected_name.as_str(), name.as_str()) {
                            return fail(&pattern.span, msg5("record pattern `", name.as_str(), "` does not match value of type `", expected_name.as_str(), "`"));
                        }
                    },
                    Type::Unknown => {},
                    other => {
                        let mut m = msg5("record pattern `", name.as_str(), "` requires `", name.as_str(), "`, found `");
                        m.append(other.describe().as_str());
                        m.append("`");
                        return fail(&pattern.span, m);
                    },
                }
                proof {
                    assert forall|i: int| 0 <= i < fields@.len() implies decreases_to!(*pattern => #[trigger] fields@[i].pattern) by {
                        assert(decreases_to!(*pattern => fields@[i].pattern));
                    }
                }
                let mut i: usize = 0;
                while i < fields.len()
                    invariant
                        i <= fields@.len(),
                        forall|k: int| 0 <= k < fields@.len() ==> decreases_to!(*pattern => #[trigger] fields@[k].pattern),
                        (pattern.kind matches PatternKind::Record { name: nm, fields: fs } && fs == *fields && nm == *name),
                        keys_of(bindings@) == keys_of(old(bindings)@) + field_names_all(fields@.take(i as int)),
                        keys_distinct(bindings@),
                        extends(old(bindings)@, bindings@),
                    decreases fields@.len() - i,
                {
                    let field = &fields[i];
                    let field_type = match lookup(&record.fields, field.name.as_str()) {
                        Some(t) => t,
                        None => {
                            return fail(&field.span, msg3("record pattern references unknown field `", field.name.as_str(), "`"));
                        },
                    };
                    proof {
                        assert(decreases_to!(*pattern => fields@[i as int].pattern));
                    }
                    let ghost kb = keys_of(bindings@);
                    self.check_pattern(&field.pattern, field_type, bindings)?;
                    proof {
                        assert(fields@.take(i + 1).drop_last() =~= fields@.take(i as int));
                        assert(keys_of(bindings@) =~= keys_of(old(bindings)@) + field_names_all(fields@.take(i + 1)));
                    }
                    i = i + 1;
                }
                proof {
                    assert(fields@.take(i as int) =~= fields@);
                }
                Ok(())
            },
            PatternKind::Variant { name, args } => {
                let (field_types, pattern_type) = self.variant_pattern_signature(name.as_str(), expected, &pattern.span)?;
                if field_types.len() != args.len() {
                    let mut m = msg3("variant pattern `", name.as_str(), "` expects ");
                    m.append(crate::text::usize_text(field_types.len()).as_str());
                    m.append(" payload field(s), found ");
                    m.append(crate::text::usize_text(args.len()).as_str());
                    return fail(&pattern.span, m);
                }
                if !matches!(expected, Type::Unknown) && !is_assignable(expected, &pattern_type) {
                    return fail(&pattern.span, msg5("variant pattern `", name.as_str(), "` is not compatible with `", expected.describe().as_str(), "`"));
                }
                proof {
                    assert forall|i: int| 0 <= i < args@.len() implies decreases_to!(*pattern => #[trigger] args@[i]) by {
                        assert(decreases_to!(*pattern => args@[i]));
                    }
                }
                let mut i: usize = 0;
                while i < args.len()
                    invariant
                        i <= args@.len(),
                        field_types@.len() == args@.len(),
                        forall|k: int| 0 <= k < args@.len() ==> decreases_to!(*pattern => #[trigger] args@[k]),
                        (pattern.kind matches PatternKind::Variant { name: nm, args: a } && a == *args && nm == *name),
                        keys_of(bindings@) == keys_of(old(bindings)@) + names_all(args@.take(i as int)),
                        keys_distinct(bindings@),
                        extends(old(bindings)@, bindings@),
                    decreases args@.len() - i,
                {
                    proof {
                        assert(decreases_to!(*pattern => args@[i as int]));
                    }
                    let ghost kb = keys_of(bindings@);
                            self.check_pattern(&args[i], &field_types[i], bindings)?;
                            proof {
                                assert(args@.take(i + 1).drop_last() =~= args@.take(i as int));
                                assert(keys_of(bindings@) =~= keys_of(old(bindings)@) + names_all(args@.take(i + 1)));
                            }
                    i = i + 1;
                }
                proof {
                    assert(args@.take(i as int) =~= args@);
                }
                Ok(())
            },
        }
    }

    /// The payload types a variant pattern `name` expects when it matches a
    /// value of type `expected`, and the type the pattern stands for.
    fn variant_pattern_signature(&self, name: &str, expected: &Type, span: &SourceSpan) -> (r: Result<(Vec<Type>, Type), Vec<Diagnostic>>)
        ensures
            check_outcome(r),
            r is Ok <==> crate::tir::has_variant_signature(self.enums@, *expected, name@),
            r matches Ok(sig) ==> pattern_signature_is(self.enums@, *expected, name@, sig.0@, sig.1),
    {
        let is_ok = str_eq(name, "Ok");
        let is_err = str_eq(name, "Err");
        let is_some = str_eq(name, "Some");
        let is_none = str_eq(name, "None");
        match expected {
            Type::Result(ok, err) => {
                if is_ok {
                    return Ok((vec![ok.duplicate()], expected.duplicate()));
                }
                if is_err {
                    return Ok((vec![err.duplicate()], expected.duplicate()));
                }
            },
            Type::Option(inner) => {
                if is_some {
                    return Ok((vec![inner.duplicate()], expected.duplicate()));
                }
                if is_none {
                    return Ok((Vec::new(), expected.duplicate()));
                }
            },
            Type::NoneType => {
                if is_none {
                    return Ok((Vec::new(), Type::NoneType));
                }
            },
            Type::Enum(enum_name) => {
                let enum_type = match lookup(&self.enums, enum_name.as_str()) {
                    Some(e) => e,
                    None => {
                        return fail(span, msg3("unknown enum type `", enum_name.as_str(), "` in match pattern"));
                    },
                };
                let variant = match lookup(&enum_type.variants, name) {
                    Some(v) => v,
                    None => {
                        return fail(span, msg5("enum `", enum_name.as_str(), "` has no variant `", name, "`"));
                    },
                };
                proof {
                    lemma_find_key_spec_facts(self.enums@, enum_name@);
                }
                return Ok((field_types_of(&variant.fields), Type::Enum(enum_name.clone())));
            },
            Type::Unknown => {
                if is_ok {
                    return Ok((vec![Type::Unknown], Type::Result(Box::new(Type::Unknown), Box::new(Type::Unknown))));
                }
                if is_err {
                    return Ok((vec![Type::Unknown], Type::Result(Box::new(Type::Unknown), Box::new(Type::Unknown))));
                }
                if is_some {
                    return Ok((vec![Type::Unknown], Type::Option(Box::new(Type::Unknown))));
                }
                if is_none {
                    return Ok((Vec::new(), Type::Unknown));
                }
                let (enum_name, variant) = match self.find_unique_enum_variant(name, span) {
                    Ok(f) => f,
                    Err(e) => {
                        proof {
                            assert forall|i: int| !crate::tir::unique_variant_owner(self.enums@, name@, i) by {
                                if crate::tir::unique_variant_owner(self.enums@, name@, i) {
                                    assert(self.enums@[i] == self.enums@[i]);
                                }
                            }
                        }
                        return Err(e);
                    },
                };
                proof {
                    let i = choose|i: int| #![trigger self.enums@[i]]
                        0 <= i < self.enums@.len() && self.enums@[i].0 == enum_name && (find_key_spec(
                            self.enums@[i].1.variants@,
                            name@,
                        ) matches Some(k) && self.enums@[i].1.variants@[k].1 == *variant);
                    let u = choose|u: int| #![trigger self.enums@[u]]
                        0 <= u < self.enums@.len() && find_key_spec(self.enums@[u].1.variants@, name@) is Some && forall|
                            j: int,
                        |
                            0 <= j < self.enums@.len() && j != u ==> find_key_spec((#[trigger] self.enums@[j]).1.variants@, name@)
                                is None;
                    assert(i == u);
                    assert(crate::tir::unique_variant_owner(self.enums@, name@, i));
                }
                return Ok((field_types_of(&variant.fields), Type::Enum(enum_name)));
            },
            _ => {},
        }
        fail(span, msg5("variant pattern `", name, "` is not valid for `", expected.describe().as_str(), "`"))
    }

    /// Types an assignment target and records its type. A target is accepted
    /// only when it is rooted at a `var` binding of the local scope.
    fn type_target(&self, rec: &mut Recorded, target: &Target, scope: &Scope, in_test: bool) -> (r: Result<Type, Vec<Diagnostic>>)
        ensures
            check_outcome(r),
            r is Ok ==> scope.mutability(target_root(*target)) == Some(true),
            *target matches Target::Name { name, .. } ==> (scope.mutability(name@) == Some(false) ==> (r matches Err(ds)
                && ds@.len() == 1 && ds@[0].message@ == "cannot assign to immutable binding `"@ + name@ + "`"@)),
        decreases *target,
    {
        let ty = match target {
            Target::Name { name, span } => {
                if scope.contains(name.as_str()) {
                    if !scope.is_mutable(name.as_str()) {
                        return fail(span, msg3("cannot assign to immutable binding `", name.as_str(), "`"));
                    }
                    match scope.get(name.as_str()) {
                        Some(t) => t.duplicate(),
                        None => Type::Unknown,
                    }
                } else if find_key(&self.constants, name.as_str()).is_some() {
                    return fail(span, msg3("cannot assign to constant `", name.as_str(), "`"));
                } else {
                    match self.lookup_name(name.as_str(), scope, span) {
                        Ok(_) => {
                            return fail(span, msg3("cannot assign to non-local symbol `", name.as_str(), "`"));
                        },
                        Err(ds) => {
                            return Err(ds);
                        },
                    }
                }
            },
            Target::Field { base, field, span } => {
                let base_type = self.type_target(rec, base, scope, in_test)?;
                match base_type {
                    Type::Record(record_name) => {
                        match lookup(&self.records, record_name.as_str()) {
                            Some(record) => match lookup(&record.fields, field.as_str()) {
                                Some(t) => t.duplicate(),
                                None => {
                                    return fail(span, msg5("record `", record_name.as_str(), "` has no field `", field.as_str(), "`"));
                                },
                            },
                            None => {
                                return fail(span, msg3("unknown record type `", record_name.as_str(), "`"));
                            },
                        }
                    },
                    other => {
                        return fail(span, msg3("field mutation requires a record, found `", other.describe().as_str(), "`"));
                    },
                }
            },
            Target::Index { base, index, span } => {
                let base_type = self.type_target(rec, base, scope, in_test)?;
                let index_type = self.type_expr(rec, index, scope, in_test)?;
                match base_type {
                    Type::List(item) => {
                        if !matches!(index_type, Type::Int) {
                            return fail(&index.span, msg3("list index must be `Int`, found `", index_type.describe().as_str(), "`"));
                        }
                        *item
                    },
                    Type::MapOf(key, value) => {
                        if !is_assignable(&key, &index_type) {
                            return fail(&index.span, expected_found("map index must be `", &key, &index_type));
                        }
                        *value
                    },
                    other => {
                        return fail(span, msg3("index mutation requires a list or map, found `", other.describe().as_str(), "`"));
                    },
                }
            },
        };
        rec.record_target(target.span(), &ty, true);
        Ok(ty)
    }
}

/// The types of named fields, in order.
fn field_types_of(fields: &Vec<(String, Type)>) -> (r: Vec<Type>)
    ensures
        r@.len() == fields@.len(),
        forall|i: int| 0 <= i < fields@.len() ==> same(#[trigger] r@[i], fields@[i].1),
{
    let mut out: Vec<Type> = Vec::new();
    let mut i: usize = 0;
    while i < fields.len()
        invariant
            i <= fields@.len(),
            out@.len() == i,
            forall|k: int| 0 <= k < i ==> same(#[trigger] out@[k], fields@[k].1),
        decreases fields@.len() - i,
    {
        out.push(fields[i].1.duplicate());
        i = i + 1;
    }
    out
}


/// A checked module: the module, its resolution and every type the checker
/// assigned or declared.
#[derive(Debug)]
pub struct CheckedModule {
    pub module: AstModule,
    pub resolution: Resolution,
    pub expr_types: Vec<(NodeId, Type)>,
    pub target_types: Vec<(SourceSpan, Type)>,
    pub target_root_mutability: Vec<(SourceSpan, bool)>,
    pub records: Vec<(String, RecordType)>,
    pub enums: Vec<(String, EnumType)>,
    pub actions: Vec<(String, ActionType)>,
    pub externs: Vec<(String, ExternSignature)>,
    pub constants: Vec<(String, Type)>,
}

impl CheckedModule {
    /// Every action and extern the module declares has a signature.
    pub open spec fn well_formed(&self) -> bool {
        &&& declared_actions_registered(self.module.declarations@, self.actions@)
        &&& declared_externs_registered(self.module.declarations@, self.externs@)
    }
}

/// A checked expression: its type and the types of its nodes.
#[derive(Debug)]
pub struct CheckedExpr {
    pub ty: Type,
    pub expr_types: Vec<(NodeId, Type)>,
}

/// A name bound in an interactive session: its type and whether it was
/// introduced by `var`.
#[derive(Debug)]
pub struct ReplBinding {
    pub ty: Type,
    pub mutable: bool,
}

/// A checked interactive statement: the types it assigned, and the binding
/// it introduces, if it is a `let` or `var`.
#[derive(Debug)]
pub struct CheckedStmt {
    pub expr_types: Vec<(NodeId, Type)>,
    pub target_types: Vec<(SourceSpan, Type)>,
    pub target_root_mutability: Vec<(SourceSpan, bool)>,
    pub binding: Option<(String, ReplBinding)>,
}

/// Checks the declarations of one resolved module.
pub struct TypeChecker {
    module: AstModule,
    resolution: Resolution,
}

impl TypeChecker {
    /// The module this checker checks.
    pub closed spec fn module_spec(&self) -> AstModule {
        self.module
    }

    /// A checker for `module`, whose top-level names `resolution` binds.
    pub fn new(module: AstModule, resolution: Resolution) -> (r: Self)
        ensures
            r.module_spec() == module,
    {
        TypeChecker { module, resolution }
    }

    /// Checks every constant, action and test of the module. Constant
    /// mismatches are all reported together; any other error stops the
    /// check. Every diagnostic is a type or resolve error.
    pub fn check(self) -> (r: Result<CheckedModule, Vec<Diagnostic>>)
        ensures
            check_outcome(r),
            r matches Ok(c) ==> c.module == self.module_spec() && c.well_formed(),
            (exists|i: int| 0 <= i < self.module_spec().declarations@.len() && decl_refused(
                #[trigger] self.module_spec().declarations@[i],
            )) ==> r is Err,
            closed_module(self.module_spec().declarations@) ==> r is Ok,
    {
        let ghost original = self.module_spec();
        let TypeChecker { module, resolution } = self;
        let mut state = CheckState::new(resolution);
        state.register_top_level_types(&module)?;
        let mut diagnostics: Vec<Diagnostic> = Vec::new();
        let mut rec = Recorded::new();
        let ghost registered_actions = state.actions@;
        let ghost registered_externs = state.externs@;
        let signatures = duplicate_actions(&state.actions);
        proof {
            assert forall|k: Seq<char>| has_key(state.actions@, k) implies has_key(signatures@, k) by {
                let j = choose|j: int| 0 <= j < state.actions@.len() && state.actions@[j].0@ == k;
                assert(signatures@[j].0@ == k);
            }
        }
        let mut i: usize = 0;
        while i < module.declarations.len()
            invariant
                i <= module.declarations@.len(),
                declared_actions_registered(module.declarations@, signatures@),
                declared_actions_registered(module.declarations@, registered_actions),
                declared_externs_registered(module.declarations@, registered_externs),
                state.actions@ == registered_actions,
                state.externs@ == registered_externs,
                forall|k: int| 0 <= k < diagnostics@.len() ==> (#[trigger] diagnostics@[k]).phase == Phase::TypeCheck,
                forall|k: int| 0 <= k < i ==> !decl_refused(#[trigger] module.declarations@[k]),
                module == original,
                original == self.module_spec(),
                closed_module(module.declarations@) ==> diagnostics@.len() == 0 && results_fixed(module.declarations@, registered_actions),
                signatures@.len() == registered_actions.len(),
                forall|k: int| 0 <= k < signatures@.len() ==> (#[trigger] signatures@[k]).0@ == registered_actions[k].0@
                    && signatures@[k].1.same_as(registered_actions[k].1),
            decreases module.declarations@.len() - i,
        {
            match &module.declarations[i] {
                Decl::Const(const_decl) => {
                    proof {
                        if closed_module(module.declarations@) {
                            assert(module.declarations@[i as int] == Decl::Const(*const_decl));
                            assert(false);
                        }
                    }
                    let expected = state.lower_type_ref(&const_decl.ty, &const_decl.span)?;
                    let scope = Scope::new();
                    let actual = state.type_expr(&mut rec, &const_decl.value, &scope, false)?;
                    if !is_assignable(&expected, &actual) {
                        let mut m = msg3("constant `", const_decl.name.as_str(), "` expected type `");
                        m.append(expected.describe().as_str());
                        m.append("`, found `");
                        m.append(actual.describe().as_str());
                        m.append("`");
                        diagnostics.push(type_error(&const_decl.value.span, m));
                    } else {
                        assoc_insert(&mut state.constants, const_decl.name.clone(), expected);
                    }
                },
                Decl::Action(action) => {
                    assert(module.declarations@[i as int] matches Decl::Action(a) ==> has_key(signatures@, a.name@));
                    let signature = match lookup(&signatures, action.name.as_str()) {
                        Some(sig) => sig,
                        None => {
                            proof {
                                let j = choose|j: int| 0 <= j < signatures@.len() && signatures@[j].0@ == action.name@;
                                assert(signatures@[j].0@ != action.name@);
                                assert(false);
                            }
                            return Err(Vec::new());
                        },
                    };
                    proof {
                        if closed_module(module.declarations@) {
                            assert(module.declarations@[i as int] == Decl::Action(*action));
                            let idx = choose|idx: int| 0 <= idx < signatures@.len() && signatures@[idx].0@ == action.name@ && signatures@[idx].1 == *signature;
                            assert(registered_actions[idx].0@ == action.name@);
                            assert(Some(*registered_actions[idx].1.result) == builtin_result(*action));
                            lemma_same_scalar(*signature.result, *registered_actions[idx].1.result);
                        }
                    }
                    let mut scope = Scope::new();
                    let mut p: usize = 0;
                    while p < action.params.len() && p < signature.params.len()
                        invariant
                            p <= action.params@.len(),
                        decreases action.params@.len() - p,
                    {
                        scope.insert(action.params[p].name.clone(), signature.params[p].duplicate(), false);
                        p = p + 1;
                    }
                    state.type_block(&mut rec, &action.body, &mut scope, false, &signature.result, false)?;
                    proof {
                        assert forall|j: int| 0 <= j < action.body@.len() implies !refused_outright(#[trigger] action.body@[j].kind) by {
                            if refused_outright(action.body@[j].kind) {
                                lemma_refused_outright(action.body@[j].kind, *signature.result);
                            }
                        }
                    }
                },
                Decl::Test(test_decl) => {
                    proof {
                        assert(closed_module(module.declarations@) ==> module.declarations@[i as int] == Decl::Test(*test_decl));
                    }
                    let mut scope = Scope::new();
                    state.type_block(&mut rec, &test_decl.body, &mut scope, true, &Type::NoneType, false)?;
                    proof {
                        assert forall|j: int| 0 <= j < test_decl.body@.len() implies !refused_outright(#[trigger] test_decl.body@[j].kind) by {
                            if refused_outright(test_decl.body@[j].kind) {
                                lemma_refused_outright(test_decl.body@[j].kind, Type::NoneType);
                            }
                        }
                    }
                },
                Decl::Extern(_) | Decl::Record(_) | Decl::Enum(_) => {},
            }
            i = i + 1;
        }
        if diagnostics.len() == 0 {
            let CheckState {
                resolution,
                records,
                enums,
                actions,
                externs,
                constants,
            } = state;
            let Recorded { expr_types, target_types, target_root_mutability } = rec;
            Ok(CheckedModule {
                module,
                resolution,
                expr_types,
                target_types,
                target_root_mutability,
                records,
                enums,
                actions,
                externs,
                constants,
            })
        } else {
            Err(diagnostics)
        }
    }
}

/// Copies of the action signatures, under the same names.
fn duplicate_actions(actions: &Vec<(String, ActionType)>) -> (r: Vec<(String, ActionType)>)
    ensures
        r@.len() == actions@.len(),
        forall|i: int| 0 <= i < actions@.len() ==> (#[trigger] r@[i]).0@ == actions@[i].0@ && r@[i].1.same_as(actions@[i].1),
{
    let mut out: Vec<(String, ActionType)> = Vec::new();
    let mut i: usize = 0;
    while i < actions.len()
        invariant
            i <= actions@.len(),
            out@.len() == i,
            forall|k: int| 0 <= k < i ==> (#[trigger] out@[k]).0@ == actions@[k].0@ && out@[k].1.same_as(actions@[k].1),
        decreases actions@.len() - i,
    {
        out.push((actions[i].0.clone(), actions[i].1.duplicate()));
        i = i + 1;
    }
    out
}

/// Copies of the constants' types.
fn duplicate_constants(constants: &Vec<(String, Type)>) -> (r: Vec<(String, Type)>)
    ensures
        r@.len() == constants@.len(),
        forall|i: int| 0 <= i < constants@.len() ==> (#[trigger] r@[i]).0@ == constants@[i].0@
            && same(r@[i].1, constants@[i].1),
{
    duplicate_fields(constants)
}

/// A checker state for code typed against an already checked module: its
/// declarations registered again and its constants known.
fn state_for(checked: &CheckedModule) -> (r: Result<CheckState, Vec<Diagnostic>>)
    ensures
        check_outcome(r),
        r matches Ok(st) ==> declared_actions_registered(checked.module.declarations@, st.actions@)
            && declared_externs_registered(checked.module.declarations@, st.externs@),
        r matches Ok(st) ==> st.constants@.len() == checked.constants@.len() && forall|i: int|
            0 <= i < checked.constants@.len() ==> (#[trigger] st.constants@[i]).0@ == checked.constants@[i].0@ && same(
                st.constants@[i].1,
                checked.constants@[i].1,
            ),
{
    let mut state = CheckState::new(checked.resolution.clone());
    state.register_top_level_types(&checked.module)?;
    state.constants = duplicate_constants(&checked.constants);
    Ok(state)
}

/// A scope holding the bindings of an interactive session, in order: a name
/// is bound there exactly when a binding has it.
fn scope_from_bindings(bindings: &Vec<(String, ReplBinding)>) -> (r: Scope)
    ensures
        forall|n: Seq<char>| #[trigger] r.mutability(n) is Some <==> has_key(bindings@, n),
{
    let mut scope = Scope::new();
    let mut i: usize = 0;
    while i < bindings.len()
        invariant
            i <= bindings@.len(),
            forall|n: Seq<char>| #[trigger] scope.mutability(n) is Some <==> has_key(bindings@.subrange(0, i as int), n),
        decreases bindings@.len() - i,
    {
        let ghost before = scope;
        scope.insert(bindings[i].0.clone(), bindings[i].1.ty.duplicate(), bindings[i].1.mutable);
        proof {
            let sub = bindings@.subrange(0, i as int);
            let next = bindings@.subrange(0, i + 1);
            assert forall|n: Seq<char>| #[trigger] scope.mutability(n) is Some <==> has_key(next, n) by {
                if has_key(next, n) {
                    let j = choose|j: int| 0 <= j < next.len() && next[j].0@ == n;
                    if j < i {
                        assert(sub[j] == next[j]);
                        assert(has_key(sub, n));
                    }
                }
                if has_key(sub, n) {
                    let j = choose|j: int| 0 <= j < sub.len() && sub[j].0@ == n;
                    assert(next[j] == sub[j]);
                }
                if n == bindings@[i as int].0@ {
                    assert(next[i as int] == bindings@[i as int]);
                }
            }
        }
        i = i + 1;
    }
    proof {
        assert(bindings@.subrange(0, i as int) =~= bindings@);
    }
    scope
}

/// Types an expression against a checked module, with no local bindings.
pub fn check_expression(checked: &CheckedModule, expr: &Expr) -> (r: Result<CheckedExpr, Vec<Diagnostic>>)
    ensures
        check_outcome(r),
        closed_type(*expr) == Some(None::<Type>) ==> r is Err,
        r matches Ok(c) ==> (closed_type(*expr) matches Some(res) ==> res == Some(c.ty)),
        r matches Ok(c) ==> first_typed(c.expr_types@, expr.id, c.ty),
{
    let no_bindings: Vec<(String, ReplBinding)> = Vec::new();
    check_expression_with_bindings(checked, expr, &no_bindings)
}

/// Types an expression against a checked module and the bindings of an
/// interactive session.
pub fn check_expression_with_bindings(checked: &CheckedModule, expr: &Expr, bindings: &Vec<(String, ReplBinding)>) -> (r: Result<CheckedExpr, Vec<Diagnostic>>)
    ensures
        check_outcome(r),
        closed_type(*expr) == Some(None::<Type>) ==> r is Err,
        r matches Ok(c) ==> (closed_type(*expr) matches Some(res) ==> res == Some(c.ty)),
        r matches Ok(c) ==> first_typed(c.expr_types@, expr.id, c.ty),
{
    let state = state_for(checked)?;
    let scope = scope_from_bindings(bindings);
    let mut rec = Recorded::new();
    let ty = state.type_expr(&mut rec, expr, &scope, false)?;
    Ok(CheckedExpr { ty, expr_types: rec.expr_types })
}

/// The statements an interactive session accepts: `let`, `var`, `:=` and
/// expressions.
pub open spec fn is_repl_statement(kind: StmtKind) -> bool {
    kind is Let || kind is Var || kind is Assign || kind is Expr
}

/// A failed interactive check reports at least one diagnostic, each of the
/// type-check, resolve or command-line phase.
pub open spec fn repl_failure(ds: Seq<Diagnostic>) -> bool {
    ds.len() > 0 && forall|i: int| 0 <= i < ds.len() ==> (#[trigger] ds[i]).phase == Phase::TypeCheck
        || ds[i].phase == Phase::Resolve || ds[i].phase == Phase::Cli
}

/// A diagnostic of the command-line phase.
fn cli_failure<T>(span: &SourceSpan, message: &str) -> (r: Result<T, Vec<Diagnostic>>)
    ensures
        r matches Err(ds) && repl_failure(ds@) && ds@.len() == 1 && ds@[0].phase == Phase::Cli,
        r matches Err(ds) ==> ds@[0].message@ == message@,
{
    Err(crate::diagnostics::one(Diagnostic::new(span.duplicate(), Phase::Cli, String::from_str(message))))
}

/// Checks one interactive statement against a checked module and the
/// session's bindings. Statements other than `let`, `var`, `:=` and
/// expressions are refused; so are destructuring `let` and `var`. A `let`
/// or `var` yields the binding it introduces.
pub fn check_statement(checked: &CheckedModule, stmt: &Stmt, bindings: &Vec<(String, ReplBinding)>) -> (r: Result<CheckedStmt, Vec<Diagnostic>>)
    ensures
        r matches Err(ds) ==> repl_failure(ds@),
        !is_repl_statement(stmt.kind) ==> (r matches Err(ds) && ds@.len() == 1 && ds@[0].phase == Phase::Cli),
        r matches Ok(c) ==> (c.binding is Some <==> (stmt.kind is Let || stmt.kind is Var)),
        r matches Ok(c) ==> (c.binding matches Some(b) ==> b.1.mutable == stmt.kind is Var),
        stmt.kind matches StmtKind::Expr(e) && closed_type(e) == Some(None::<Type>) ==> r is Err,
        !is_repl_statement(stmt.kind) ==> (r matches Err(ds) && ds@[0].message@
            == "repl currently supports `let`, `var`, `:=`, and expression input"@),
        match stmt.kind {
            StmtKind::Let { pattern, explicit_type, value } | StmtKind::Var { pattern, explicit_type, value } => {
                &&& !(pattern.kind is Name) ==> (r matches Err(ds) && ds@[0].phase == Phase::Cli && ds@[0].message@
                    == "repl currently supports only single-name `let` and `var` bindings"@)
                &&& pattern.kind matches BindingPatternKind::Name(n) ==> (r matches Ok(c) ==> (c.binding matches Some(b)
                    && b.0 == n))
                &&& r matches Ok(c) ==> (c.binding matches Some(b) ==> (explicit_type matches Some(TypeRef::Named(n)) ==> (
                builtin_type_of(n@) matches Some(t0) ==> b.1.ty == t0)))
                &&& r matches Ok(c) ==> (c.binding matches Some(b) ==> (explicit_type is None ==> exists|i: int|
                    0 <= i < c.expr_types@.len() && c.expr_types@[i].0 == value.id && same(b.1.ty, c.expr_types@[i].1)))
            },
            _ => true,
        },
{
    let (pattern, explicit_type, value, mutable) = match &stmt.kind {
        StmtKind::Let { pattern, explicit_type, value } => (Some(pattern), Some(explicit_type), Some(value), false),
        StmtKind::Var { pattern, explicit_type, value } => (Some(pattern), Some(explicit_type), Some(value), true),
        StmtKind::Assign { .. } | StmtKind::Expr(_) => (None, None, None, false),
        _ => {
            return cli_failure(&stmt.span, "repl currently supports `let`, `var`, `:=`, and expression input");
        },
    };
    if let Some(p) = pattern {
        if !matches!(p.kind, BindingPatternKind::Name(_)) {
            return cli_failure(&stmt.span, "repl currently supports only single-name `let` and `var` bindings");
        }
    }
    let state = match state_for(checked) {
        Ok(s) => s,
        Err(ds) => {
            return Err(ds);
        },
    };
    let mut scope = scope_from_bindings(bindings);
    let mut rec = Recorded::new();
    match state.type_stmt(&mut rec, stmt, &mut scope, false, &Type::NoneType, false) {
        Ok(()) => {},
        Err(ds) => {
            return Err(ds);
        },
    }
    let ghost mut witness: int = 0;
    let binding = match (pattern, explicit_type, value) {
        (Some(p), Some(explicit), Some(v)) => {
            let name = match &p.kind {
                BindingPatternKind::Name(n) => n.clone(),
                _ => {
                    return cli_failure(&stmt.span, "repl currently supports only single-name `let` and `var` bindings");
                },
            };
            let ty = match explicit {
                Some(t) => match state.lower_type_ref(t, &stmt.span) {
                    Ok(lowered) => {
                        proof {
                            if let TypeRef::Named(n) = t {
                                if let Some(t0) = builtin_type_of(n@) {
                                    assert(lowered == t0);
                                }
                            }
                        }
                        lowered
                    },
                    Err(ds) => {
                        return Err(ds);
                    },
                },
                None => match node_type(&rec.expr_types, v.id) {
                    Some(t) => {
                        let d = t.duplicate();
                        proof {
                            let i = choose|i: int| 0 <= i < rec.expr_types@.len() && rec.expr_types@[i].0 == v.id && rec.expr_types@[i].1 == *t;
                            assert(same(d, rec.expr_types@[i].1));
                            witness = i;
                        }
                        d
                    },
                    None => {
                        return Err(crate::diagnostics::one(Diagnostic::new(
                            v.span.duplicate(),
                            Phase::TypeCheck,
                            String::from_str("missing inferred type for repl binding"),
                        )));
                    },
                },
            };
            Some((name, ReplBinding { ty, mutable }))
        },
        _ => None,
    };
    let out = CheckedStmt {
        expr_types: rec.expr_types,
        target_types: rec.target_types,
        target_root_mutability: rec.target_root_mutability,
        binding,
    };
    proof {
        if let Some(bb) = &out.binding {
            if explicit_type == Some(&None::<TypeRef>) {
                assert(out.expr_types@[witness].0 == value.unwrap().id && same(bb.1.ty, out.expr_types@[witness].1));
            }
        }
    }
    Ok(out)
}

} // verus!
