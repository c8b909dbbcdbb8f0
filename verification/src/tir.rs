//! The typed intermediate representation: the checked module with every
//! expression, pattern and assignment target annotated with its type.
use vstd::prelude::*;

use crate::ast::{
    BinaryOp, BindingPattern, BindingPatternKind, CallArg, Decl, Expr, ExprKind, NodeId, Pattern,
    PatternKind, PatternLiteral, RecordBindingField, RecordPatternField, Stmt, StmtKind, Target,
    TypeRef, UnaryOp,
};
use crate::diagnostics::{Diagnostic, Phase, SourceSpan};
use crate::resolver::SymbolKind;
use crate::text::{concat3, str_eq};
use crate::types::{
    find_key, has_key, lemma_lowers_all, lookup, lowers_all, lowers_to, same, lookup_standard_runtime_action, node_type, span_entry, ActionType,
    CheckedModule, CheckedStmt, Type,
};

verus! {

broadcast use vstd::std_specs::vec::group_vec_axioms;

/// A lowered module.
#[derive(Debug)]
pub struct TypedIrModule {
    pub module_name: Option<String>,
    pub declarations: Vec<TypedDecl>,
    pub span: SourceSpan,
}

#[derive(Debug)]
pub enum TypedDecl {
    Const(TypedConstDecl),
    Record(TypedRecordDecl),
    Enum(TypedEnumDecl),
    Extern(TypedExternDecl),
    Action(TypedActionDecl),
    Test(TypedTestDecl),
}

#[derive(Debug)]
pub struct TypedConstDecl {
    pub name: String,
    pub ty: Type,
    pub value: TypedExpr,
    pub span: SourceSpan,
}

#[derive(Debug)]
pub struct TypedRecordDecl {
    pub name: String,
    pub fields: Vec<TypedRecordField>,
    pub span: SourceSpan,
}

#[derive(Debug)]
pub struct TypedRecordField {
    pub name: String,
    pub ty: Type,
    pub meaning: Option<String>,
}

#[derive(Debug)]
pub struct TypedEnumDecl {
    pub name: String,
    pub variants: Vec<TypedEnumVariant>,
    pub span: SourceSpan,
}

#[derive(Debug)]
pub struct TypedEnumVariant {
    pub name: String,
    pub fields: Vec<(String, Type)>,
}

#[derive(Debug)]
pub struct TypedExternDecl {
    pub name: String,
    pub ty: Type,
    pub span: SourceSpan,
}

#[derive(Debug)]
pub struct TypedActionDecl {
    pub name: String,
    pub params: Vec<(String, Type)>,
    pub body: Vec<TypedStmt>,
    pub ty: Type,
    pub span: SourceSpan,
}

#[derive(Debug)]
pub struct TypedTestDecl {
    pub name: String,
    pub body: Vec<TypedStmt>,
    pub span: SourceSpan,
}

#[derive(Debug)]
pub struct TypedStmt {
    pub kind: TypedStmtKind,
    pub span: SourceSpan,
}

#[derive(Debug)]
pub enum TypedStmtKind {
    IntentBlock {
        goal: Option<String>,
        constraints: Vec<String>,
        assumptions: Vec<String>,
        properties: Vec<String>,
    },
    ExplainBlock { lines: Vec<String> },
    StepBlock { label: String, body: Vec<TypedStmt> },
    RequiresClause(TypedExpr),
    EnsuresClause(TypedExpr),
    ExampleBlock { name: String, inputs: Vec<(String, TypedExpr)>, outputs: Vec<(String, TypedExpr)> },
    Let { pattern: TypedBindingPattern, ty: Type, value: TypedExpr },
    Var { pattern: TypedBindingPattern, ty: Type, value: TypedExpr },
    Assign { target: TypedTarget, value: TypedExpr },
    If { branches: Vec<(TypedExpr, Vec<TypedStmt>)>, else_branch: Vec<TypedStmt> },
    While { condition: TypedExpr, body: Vec<TypedStmt> },
    Match { scrutinee: TypedExpr, arms: Vec<TypedMatchArm> },
    ForEach { binding: String, iterable: TypedExpr, body: Vec<TypedStmt> },
    Return(Option<TypedExpr>),
    Break,
    Continue,
    Expect(TypedExpr),
    Expr(TypedExpr),
}

#[derive(Debug)]
pub struct TypedMatchArm {
    pub pattern: TypedPattern,
    pub body: Vec<TypedStmt>,
    pub span: SourceSpan,
}

#[derive(Debug)]
pub struct TypedBindingPattern {
    pub kind: TypedBindingPatternKind,
    pub span: SourceSpan,
}

#[derive(Debug)]
pub enum TypedBindingPatternKind {
    Name(TypedBinding),
    Tuple(Vec<TypedBinding>),
    Record { name: String, fields: Vec<TypedRecordBindingField> },
}

#[derive(Debug)]
pub struct TypedBinding {
    pub name: String,
    pub ty: Type,
    pub span: SourceSpan,
}

#[derive(Debug)]
pub struct TypedRecordBindingField {
    pub field: String,
    pub binding: TypedBinding,
    pub span: SourceSpan,
}

#[derive(Debug)]
pub struct TypedPattern {
    pub kind: TypedPatternKind,
    pub ty: Type,
    pub span: SourceSpan,
}

#[derive(Debug)]
pub enum TypedPatternKind {
    Wildcard,
    Literal(TypedLiteral),
    Binding(String),
    Variant { variant_type: String, variant_name: String, field_names: Vec<String>, args: Vec<TypedPattern> },
    Tuple(Vec<TypedPattern>),
    Record { name: String, fields: Vec<TypedRecordPatternField> },
}

#[derive(Debug)]
pub struct TypedRecordPatternField {
    pub name: String,
    pub pattern: TypedPattern,
    pub span: SourceSpan,
}

#[derive(Debug)]
pub enum TypedTarget {
    Name { symbol: TypedSymbol, ty: Type, writable_root: bool, span: SourceSpan },
    Field { base: Box<TypedTarget>, field: String, ty: Type, writable_root: bool, span: SourceSpan },
    Index { base: Box<TypedTarget>, index: TypedExpr, ty: Type, writable_root: bool, span: SourceSpan },
}

#[derive(Debug)]
pub struct TypedExpr {
    pub kind: TypedExprKind,
    pub ty: Type,
    pub span: SourceSpan,
}

#[derive(Debug)]
pub enum TypedExprKind {
    Literal(TypedLiteral),
    Symbol(TypedSymbol),
    VariantConstructor { variant_type: String, variant_name: String, field_names: Vec<String>, args: Vec<TypedExpr> },
    Call { callee: Box<TypedExpr>, args: Vec<TypedCallArg> },
    FieldAccess { base: Box<TypedExpr>, field: String },
    ResultIsOk { target: Box<TypedExpr> },
    ResultIsErr { target: Box<TypedExpr> },
    ResultValue { target: Box<TypedExpr> },
    ResultError { target: Box<TypedExpr> },
    OptionIsSome { target: Box<TypedExpr> },
    OptionIsNone { target: Box<TypedExpr> },
    OptionValue { target: Box<TypedExpr> },
    Index { base: Box<TypedExpr>, index: Box<TypedExpr> },
    Unary { op: UnaryOp, expr: Box<TypedExpr> },
    Binary { left: Box<TypedExpr>, op: BinaryOp, right: Box<TypedExpr> },
    List(Vec<TypedExpr>),
    MapLiteral(Vec<(TypedExpr, TypedExpr)>),
    Tuple(Vec<TypedExpr>),
}

#[derive(Debug, Clone, PartialEq)]
pub enum TypedLiteral {
    Int(i64),
    Dec(String),
    String(String),
    Bool(bool),
    NoneLiteral,
}

#[derive(Debug)]
pub struct TypedCallArg {
    pub name: Option<String>,
    pub expr: TypedExpr,
}

#[derive(Debug, Clone, PartialEq)]
pub struct TypedSymbol {
    pub name: String,
    pub kind: Option<SymbolKind>,
}

/// A failed lowering reports at least one diagnostic, all of the lower phase.
pub open spec fn lower_outcome<T>(r: Result<T, Vec<Diagnostic>>) -> bool {
    r matches Err(ds) ==> crate::diagnostics::failure_of(ds@, Phase::Lower)
}

/// A lowering failure with one message.
fn lower_fail<T>(span: &SourceSpan, message: String) -> (r: Result<T, Vec<Diagnostic>>)
    ensures
        r is Err,
        lower_outcome(r),
{
    Err(crate::diagnostics::one(Diagnostic::new(span.duplicate(), Phase::Lower, message)))
}

/// What lowering reads: the checked module, and the types of code checked
/// after it (an interactive expression or statement), which take precedence.
struct LowerCtx<'a> {
    checked: &'a CheckedModule,
    extra_expr_types: &'a Vec<(NodeId, Type)>,
    extra_target_types: &'a Vec<(SourceSpan, Type)>,
    extra_target_mutability: &'a Vec<(SourceSpan, bool)>,
}

impl<'a> LowerCtx<'a> {
    /// The recorded type of an expression node.
    fn expr_type(&self, expr: &Expr) -> (r: Result<Type, Vec<Diagnostic>>)
        ensures
            lower_outcome(r),
            r is Ok <==> (has_node(self.extra_expr_types@, expr.id) || has_node(self.checked.expr_types@, expr.id)),
            r matches Ok(t) ==> if has_node(self.extra_expr_types@, expr.id) {
                node_typed(self.extra_expr_types@, expr.id, t)
            } else {
                node_typed(self.checked.expr_types@, expr.id, t)
            },
    {
        if let Some(t) = node_type(self.extra_expr_types, expr.id) {
            return Ok(t.duplicate());
        }
        if let Some(t) = node_type(&self.checked.expr_types, expr.id) {
            return Ok(t.duplicate());
        }
        let id = crate::text::u64_text(expr.id as u64);
        lower_fail(&expr.span, concat3("missing type annotation for expression node ", id.as_str(), ""))
    }

    /// The recorded type of the assignment target at `span`.
    fn target_type(&self, span: &SourceSpan) -> (r: Result<Type, Vec<Diagnostic>>)
        ensures
            lower_outcome(r),
            r is Ok <==> (has_span(self.extra_target_types@, span.key()) || has_span(self.checked.target_types@, span.key())),
            r matches Ok(t) ==> if has_span(self.extra_target_types@, span.key()) {
                exists|i: int| 0 <= i < self.extra_target_types@.len() && self.extra_target_types@[i].0.key() == span.key()
                    && same(t, self.extra_target_types@[i].1)
            } else {
                exists|i: int| 0 <= i < self.checked.target_types@.len() && self.checked.target_types@[i].0.key() == span.key()
                    && same(t, self.checked.target_types@[i].1)
            },
    {
        if let Some(t) = span_entry(self.extra_target_types, span) {
            return Ok(t.duplicate());
        }
        if let Some(t) = span_entry(&self.checked.target_types, span) {
            return Ok(t.duplicate());
        }
        lower_fail(span, String::from_str("missing lowered target type"))
    }

    /// Whether the root of the assignment target at `span` may be assigned.
    fn target_writable(&self, span: &SourceSpan) -> (r: Result<bool, Vec<Diagnostic>>)
        ensures
            lower_outcome(r),
            r is Ok <==> (has_span(self.extra_target_mutability@, span.key()) || has_span(self.checked.target_root_mutability@, span.key())),
            r matches Ok(b) ==> if has_span(self.extra_target_mutability@, span.key()) {
                exists|i: int| 0 <= i < self.extra_target_mutability@.len() && self.extra_target_mutability@[i].0.key() == span.key()
                    && self.extra_target_mutability@[i].1 == b
            } else {
                exists|i: int| 0 <= i < self.checked.target_root_mutability@.len() && self.checked.target_root_mutability@[i].0.key()
                    == span.key() && self.checked.target_root_mutability@[i].1 == b
            },
    {
        if let Some(b) = span_entry(self.extra_target_mutability, span) {
            return Ok(*b);
        }
        if let Some(b) = span_entry(&self.checked.target_root_mutability, span) {
            return Ok(*b);
        }
        lower_fail(span, String::from_str("missing lowered target mutability"))
    }

    /// The kind of the top-level symbol `name`, if the module binds it.
    fn symbol_kind(&self, name: &str) -> (r: Option<SymbolKind>)
        ensures
            r is Some <==> crate::resolver::has_name(self.checked.resolution.entries(), name@),
            r matches Some(k) ==> exists|i: int| 0 <= i < self.checked.resolution.entries().len()
                && self.checked.resolution.entries()[i] == (name@, k) && forall|j: int| 0 <= j < i
                ==> (#[trigger] self.checked.resolution.entries()[j]).0 != name@,
    {
        match self.checked.resolution.get(name) {
            Some(symbol) => Some(symbol.kind),
            None => None,
        }
    }

    /// The type a written type names, against the checked declarations.
    fn lower_type_ref(&self, type_ref: &TypeRef, span: &SourceSpan) -> (r: Result<Type, Vec<Diagnostic>>)
        ensures
            lower_outcome(r),
            r matches Ok(ty) ==> lowers_to(self.checked.records@, self.checked.enums@, *type_ref, ty),
            r is Err ==> forall|ty: Type| !lowers_to(self.checked.records@, self.checked.enums@, *type_ref, ty),
        decreases type_ref,
    {
        let ghost recs = self.checked.records@;
        let ghost ens = self.checked.enums@;
        match type_ref {
            TypeRef::Named(name) => {
                let n = name.as_str();
                if str_eq(n, "Bool") {
                    Ok(Type::Bool)
                } else if str_eq(n, "Int") {
                    Ok(Type::Int)
                } else if str_eq(n, "Dec") {
                    Ok(Type::Dec)
                } else if str_eq(n, "Text") {
                    Ok(Type::Text)
                } else if str_eq(n, "Bytes") {
                    Ok(Type::Bytes)
                } else if str_eq(n, "None") {
                    Ok(Type::NoneType)
                } else if find_key(&self.checked.records, n).is_some() {
                    Ok(Type::Record(name.clone()))
                } else if find_key(&self.checked.enums, n).is_some() {
                    Ok(Type::Enum(name.clone()))
                } else {
                    lower_fail(span, concat3("unknown type `", n, "` during lowering"))
                }
            },
            TypeRef::Generic { name, args } => {
                let n = args.len();
                proof {
                    assert forall|i: int| 0 <= i < args@.len() implies decreases_to!(*type_ref => #[trigger] args@[i]) by {
                        assert(decreases_to!(*type_ref => args@[i]));
                    }
                }
                if str_eq(name.as_str(), "List") && n == 1 {
                    match self.lower_type_ref(&args[0], span) {
                        Ok(x) => {
                            proof {
                                lemma_lowers_all(recs, ens, args@, seq![x]);
                            }
                            Ok(Type::List(Box::new(x)))
                        },
                        Err(e) => {
                            proof {
                                assert forall|ty: Type| !lowers_to(recs, ens, *type_ref, ty) by {
                                    if let Type::List(a) = ty {
                                        lemma_lowers_all(recs, ens, args@, seq![*a]);
                                    }
                                }
                            }
                            Err(e)
                        },
                    }
                } else if str_eq(name.as_str(), "Map") && n == 2 {
                    let k = match self.lower_type_ref(&args[0], span) {
                        Ok(x) => x,
                        Err(d) => {
                            proof {
                                assert forall|ty: Type| !lowers_to(recs, ens, *type_ref, ty) by {
                                    if let Type::MapOf(p, q) = ty {
                                        lemma_lowers_all(recs, ens, args@, seq![*p, *q]);
                                    }
                                }
                            }
                            return Err(d);
                        },
                    };
                    let v = match self.lower_type_ref(&args[1], span) {
                        Ok(x) => x,
                        Err(d) => {
                            proof {
                                assert forall|ty: Type| !lowers_to(recs, ens, *type_ref, ty) by {
                                    if let Type::MapOf(p, q) = ty {
                                        lemma_lowers_all(recs, ens, args@, seq![*p, *q]);
                                    }
                                }
                            }
                            return Err(d);
                        },
                    };
                    proof {
                        lemma_lowers_all(recs, ens, args@, seq![k, v]);
                    }
                    Ok(Type::MapOf(Box::new(k), Box::new(v)))
                } else if str_eq(name.as_str(), "Set") && n == 1 {
                    match self.lower_type_ref(&args[0], span) {
                        Ok(x) => {
                            proof {
                                lemma_lowers_all(recs, ens, args@, seq![x]);
                            }
                            Ok(Type::SetOf(Box::new(x)))
                        },
                        Err(e) => {
                            proof {
                                assert forall|ty: Type| !lowers_to(recs, ens, *type_ref, ty) by {
                                    if let Type::SetOf(a) = ty {
                                        lemma_lowers_all(recs, ens, args@, seq![*a]);
                                    }
                                }
                            }
                            Err(e)
                        },
                    }
                } else if str_eq(name.as_str(), "Option") && n == 1 {
                    match self.lower_type_ref(&args[0], span) {
                        Ok(x) => {
                            proof {
                                lemma_lowers_all(recs, ens, args@, seq![x]);
                            }
                            Ok(Type::Option(Box::new(x)))
                        },
                        Err(e) => {
                            proof {
                                assert forall|ty: Type| !lowers_to(recs, ens, *type_ref, ty) by {
                                    if let Type::Option(a) = ty {
                                        lemma_lowers_all(recs, ens, args@, seq![*a]);
                                    }
                                }
                            }
                            Err(e)
                        },
                    }
                } else if str_eq(name.as_str(), "Result") && n == 2 {
                    let o = match self.lower_type_ref(&args[0], span) {
                        Ok(x) => x,
                        Err(d) => {
                            proof {
                                assert forall|ty: Type| !lowers_to(recs, ens, *type_ref, ty) by {
                                    if let Type::Result(p, q) = ty {
                                        lemma_lowers_all(recs, ens, args@, seq![*p, *q]);
                                    }
                                }
                            }
                            return Err(d);
                        },
                    };
                    let e = match self.lower_type_ref(&args[1], span) {
                        Ok(x) => x,
                        Err(d) => {
                            proof {
                                assert forall|ty: Type| !lowers_to(recs, ens, *type_ref, ty) by {
                                    if let Type::Result(p, q) = ty {
                                        lemma_lowers_all(recs, ens, args@, seq![*p, *q]);
                                    }
                                }
                            }
                            return Err(d);
                        },
                    };
                    proof {
                        lemma_lowers_all(recs, ens, args@, seq![o, e]);
                    }
                    Ok(Type::Result(Box::new(o), Box::new(e)))
                } else {
                    lower_fail(span, concat3("unsupported generic type `", name.as_str(), "` during lowering"))
                }
            },
            TypeRef::Tuple(items) => {
                proof {
                    assert forall|i: int| 0 <= i < items@.len() implies decreases_to!(*type_ref => #[trigger] items@[i]) by {
                        assert(decreases_to!(*type_ref => items@[i]));
                    }
                }
                let mut types: Vec<Type> = Vec::new();
                let mut i: usize = 0;
                while i < items.len()
                    invariant
                        i <= items@.len(),
                        forall|k: int| 0 <= k < items@.len() ==> decreases_to!(*type_ref => #[trigger] items@[k]),
                        types@.len() == i,
                        *type_ref == TypeRef::Tuple(*items),
                        recs == self.checked.records@,
                        ens == self.checked.enums@,
                        forall|k: int| 0 <= k < i ==> lowers_to(recs, ens, #[trigger] items@[k], types@[k]),
                    decreases items@.len() - i,
                {
                    proof {
                        assert(decreases_to!(*type_ref => items@[i as int]));
                    }
                    match self.lower_type_ref(&items[i], span) {
                        Ok(t) => types.push(t),
                        Err(e) => {
                            proof {
                                assert forall|ty: Type| !lowers_to(recs, ens, *type_ref, ty) by {
                                    if let Type::Tuple(v) = ty {
                                        lemma_lowers_all(recs, ens, items@, v@);
                                        if lowers_all(recs, ens, items@, v@) {
                                            assert(lowers_to(recs, ens, items@[i as int], v@[i as int]));
                                        }
                                    }
                                }
                            }
                            return Err(e);
                        },
                    }
                    i = i + 1;
                }
                proof {
                    lemma_lowers_all(recs, ens, items@, types@);
                }
                Ok(Type::Tuple(types))
            },
            TypeRef::Action { params, result } => {
                proof {
                    assert forall|i: int| 0 <= i < params@.len() implies decreases_to!(*type_ref => #[trigger] params@[i]) by {
                        assert(decreases_to!(*type_ref => params@[i]));
                    }
                }
                let mut lowered: Vec<Type> = Vec::new();
                let mut i: usize = 0;
                while i < params.len()
                    invariant
                        i <= params@.len(),
                        forall|k: int| 0 <= k < params@.len() ==> decreases_to!(*type_ref => #[trigger] params@[k]),
                        lowered@.len() == i,
                        *type_ref == (TypeRef::Action { params: *params, result: *result }),
                        recs == self.checked.records@,
                        ens == self.checked.enums@,
                        forall|k: int| 0 <= k < i ==> lowers_to(recs, ens, #[trigger] params@[k], lowered@[k]),
                    decreases params@.len() - i,
                {
                    proof {
                        assert(decreases_to!(*type_ref => params@[i as int]));
                    }
                    match self.lower_type_ref(&params[i], span) {
                        Ok(t) => lowered.push(t),
                        Err(e) => {
                            proof {
                                assert forall|ty: Type| !lowers_to(recs, ens, *type_ref, ty) by {
                                    if let Type::Action(a) = ty {
                                        lemma_lowers_all(recs, ens, params@, a.params@);
                                        if lowers_all(recs, ens, params@, a.params@) {
                                            assert(lowers_to(recs, ens, params@[i as int], a.params@[i as int]));
                                        }
                                    }
                                }
                            }
                            return Err(e);
                        },
                    }
                    i = i + 1;
                }
                proof {
                    lemma_lowers_all(recs, ens, params@, lowered@);
                }
                let r = match self.lower_type_ref(result, span) {
                    Ok(r) => r,
                    Err(e) => {
                        proof {
                            assert forall|ty: Type| !lowers_to(recs, ens, *type_ref, ty) by {
                                if let Type::Action(a) = ty {
                                    assert(!lowers_to(recs, ens, **result, *a.result));
                                }
                            }
                        }
                        return Err(e);
                    },
                };
                Ok(Type::Action(ActionType { params: lowered, result: Box::new(r) }))
            },
        }
    }
}


/// Copies of a list of strings.
fn copy_strings(items: &Vec<String>) -> (r: Vec<String>)
    ensures
        r@ == items@,
{
    let mut out: Vec<String> = Vec::new();
    let mut i: usize = 0;
    while i < items.len()
        invariant
            i <= items@.len(),
            out@ == items@.take(i as int),
        decreases items@.len() - i,
    {
        out.push(items[i].clone());
        i = i + 1;
        assert(out@ =~= items@.take(i as int));
    }
    assert(items@.take(items@.len() as int) =~= items@);
    out
}

/// The type a pattern stands for, given the name of the type its variant
/// belongs to.
fn type_name_to_type(owner: &str, expected: &Type) -> (r: Type)
    ensures
        if owner@ == "Option"@ {
            if expected is Option { same(r, *expected) } else { r == Type::Option(Box::new(Type::Unknown)) }
        } else if owner@ == "Result"@ {
            if expected is Result { same(r, *expected) } else { r == Type::Result(Box::new(Type::Unknown), Box::new(Type::Unknown)) }
        } else {
            r matches Type::Enum(n) && n@ == owner@
        },
{
    if str_eq(owner, "Option") {
        match expected {
            Type::Option(_) => expected.duplicate(),
            _ => Type::Option(Box::new(Type::Unknown)),
        }
    } else if str_eq(owner, "Result") {
        match expected {
            Type::Result(_, _) => expected.duplicate(),
            _ => Type::Result(Box::new(Type::Unknown), Box::new(Type::Unknown)),
        }
    } else {
        Type::Enum(crate::text::text(owner))
    }
}

/// Whether some entry records node `id`.
pub open spec fn has_node(entries: Seq<(NodeId, Type)>, id: NodeId) -> bool {
    exists|i: int| 0 <= i < entries.len() && entries[i].0 == id
}

/// `t` is the same as the type some entry records for node `id`.
pub open spec fn node_typed(entries: Seq<(NodeId, Type)>, id: NodeId, t: Type) -> bool {
    exists|i: int| 0 <= i < entries.len() && entries[i].0 == id && same(t, entries[i].1)
}

/// Whether some entry is at position `key`.
pub open spec fn has_span<T>(entries: Seq<(SourceSpan, T)>, key: (Seq<char>, usize, usize)) -> bool {
    exists|i: int| 0 <= i < entries.len() && entries[i].0.key() == key
}

/// `t` is the type of field `field` of the first record named `record`, or
/// `Unknown` when there is no such record or field.
pub open spec fn r_field_type(records: Seq<(String, crate::types::RecordType)>, record: Seq<char>, field: Seq<char>, t: Type) -> bool {
    match crate::types::find_key_spec(records, record) {
        Some(i) => match crate::types::find_key_spec(records[i].1.fields@, field) {
            Some(j) => same(t, records[i].1.fields@[j].1),
            None => t == Type::Unknown,
        },
        None => t == Type::Unknown,
    }
}

/// Whether `t` is an enum whose variant `name` has no payload fields.
pub open spec fn zero_arg_variant(enums: Seq<(String, crate::types::EnumType)>, t: Type, name: Seq<char>) -> bool {
    match t {
        Type::Enum(e) => match crate::types::find_key_spec(enums, e@) {
            Some(i) => match crate::types::find_key_spec(enums[i].1.variants@, name) {
                Some(j) => enums[i].1.variants@[j].1.fields@.len() == 0,
                None => false,
            },
            None => false,
        },
        _ => false,
    }
}

/// Whether `k` constructs the variant `name` of the enum `t`, with no
/// fields and no arguments.
pub open spec fn zero_arg_constructor(t: Type, name: Seq<char>, k: TypedExprKind) -> bool {
    match k {
        TypedExprKind::VariantConstructor { variant_type, variant_name, field_names, args } => t == Type::Enum(
            variant_type,
        ) && variant_name@ == name && field_names@.len() == 0 && args@.len() == 0,
        _ => false,
    }
}

/// The position of the first enum with a variant named `n`, if any.
pub open spec fn first_enum_with_variant(enums: Seq<(String, crate::types::EnumType)>, n: Seq<char>) -> Option<int> {
    if exists|i: int| 0 <= i < enums.len() && crate::types::find_key_spec(enums[i].1.variants@, n) is Some {
        Some(choose|i: int| 0 <= i < enums.len() && crate::types::find_key_spec(enums[i].1.variants@, n) is Some
            && forall|k: int| 0 <= k < i ==> crate::types::find_key_spec((#[trigger] enums[k]).1.variants@, n) is None)
    } else {
        None
    }
}

/// The enum a call of the name `n` constructs a variant of: `Option` for
/// `Some`, `Result` for `Ok` and `Err`, else the first declared enum with a
/// variant named `n`.
pub open spec fn variant_call_type(enums: Seq<(String, crate::types::EnumType)>, n: Seq<char>) -> Option<Seq<char>> {
    if n == "Some"@ {
        Some("Option"@)
    } else if n == "Ok"@ || n == "Err"@ {
        Some("Result"@)
    } else {
        match first_enum_with_variant(enums, n) {
            Some(i) => Some(enums[i].0@),
            None => None,
        }
    }
}

/// Whether `k` constructs the variant `n` of the enum named `vt` from the
/// lowered call arguments `args`.
pub open spec fn constructs_variant(k: TypedExprKind, vt: Seq<char>, n: Seq<char>, args: Seq<CallArg>) -> bool {
    match k {
        TypedExprKind::VariantConstructor { variant_type, variant_name, field_names, args: lowered } => {
            &&& variant_type@ == vt
            &&& variant_name@ == n
            &&& lowered@.len() == args.len()
            &&& forall|i: int| 0 <= i < args.len() ==> lowers_closed(args[i].expr, #[trigger] lowered@[i])
        },
        _ => false,
    }
}

/// The first enum with the variant is at `j` when `j` has it and no enum
/// before it does.
proof fn lemma_first_enum_with_variant(enums: Seq<(String, crate::types::EnumType)>, n: Seq<char>, j: int)
    requires
        0 <= j < enums.len(),
        crate::types::find_key_spec(enums[j].1.variants@, n) is Some,
        forall|k: int| 0 <= k < j ==> crate::types::find_key_spec((#[trigger] enums[k]).1.variants@, n) is None,
    ensures
        first_enum_with_variant(enums, n) == Some(j),
{
    let c = choose|i: int| 0 <= i < enums.len() && crate::types::find_key_spec(enums[i].1.variants@, n) is Some
        && forall|k: int| 0 <= k < i ==> crate::types::find_key_spec((#[trigger] enums[k]).1.variants@, n) is None;
    assert(0 <= c < enums.len() && crate::types::find_key_spec(enums[c].1.variants@, n) is Some && forall|k: int|
        0 <= k < c ==> crate::types::find_key_spec((#[trigger] enums[k]).1.variants@, n) is None);
    if c < j {
        assert(crate::types::find_key_spec(enums[c].1.variants@, n) is None);
    } else if j < c {
        assert(crate::types::find_key_spec(enums[j].1.variants@, n) is None);
    }
}

/// Whether `lf` lowers the record pattern field `f` of record `record`:
/// the same field, name and span, and the field's declared type.
pub open spec fn record_binding_lowered(records: Seq<(String, crate::types::RecordType)>, record: Seq<char>, f: RecordBindingField, lf: TypedRecordBindingField) -> bool {
    &&& lf.field == f.field
    &&& lf.binding.name == f.binding
    &&& lf.binding.span == f.span
    &&& lf.span == f.span
    &&& r_field_type(records, record, f.field@, lf.binding.ty)
}

/// Whether `tk` lowers the binding pattern `pk` at `span` for a value of
/// type `whole`: a name gets the whole type, each name of a tuple pattern
/// the item type at its place (`Unknown` when the whole type is unknown),
/// and each field of a record pattern the field's declared type.
pub open spec fn binding_lowered(records: Seq<(String, crate::types::RecordType)>, pk: BindingPatternKind, span: SourceSpan, whole: Type, tk: TypedBindingPatternKind) -> bool {
    match (pk, tk) {
        (BindingPatternKind::Name(n), TypedBindingPatternKind::Name(b)) => b.name == n && same(b.ty, whole) && b.span
            == span,
        (BindingPatternKind::Tuple(names), TypedBindingPatternKind::Tuple(bs)) => {
            &&& bs@.len() == names@.len()
            &&& forall|k: int| 0 <= k < names@.len() ==> (#[trigger] bs@[k]).name == names@[k] && bs@[k].span == span
                && match whole {
                Type::Tuple(ts) => same(bs@[k].ty, ts@[k]),
                _ => bs@[k].ty == Type::Unknown,
            }
        },
        (BindingPatternKind::Record { name, fields }, TypedBindingPatternKind::Record { name: n, fields: lf }) => {
            &&& n == name
            &&& lf@.len() == fields@.len()
            &&& forall|k: int| 0 <= k < fields@.len() ==> record_binding_lowered(records, name@, fields@[k], #[trigger] lf@[k])
        },
        _ => false,
    }
}

/// Whether the enum at `i` has a variant named `n` and no other enum has.
pub open spec fn unique_variant_owner(enums: Seq<(String, crate::types::EnumType)>, n: Seq<char>, i: int) -> bool {
    &&& 0 <= i < enums.len()
    &&& crate::types::find_key_spec(enums[i].1.variants@, n) is Some
    &&& forall|j: int| 0 <= j < enums.len() && j != i ==> crate::types::find_key_spec((#[trigger] enums[j]).1.variants@, n) is None
}

/// Whether `owner`, `names` and `types` are the name of the enum at `i`
/// and the payload field names and types of its variant `n`.
pub open spec fn variant_fields_are(enums: Seq<(String, crate::types::EnumType)>, i: int, n: Seq<char>, owner: Seq<char>, names: Seq<String>, types: Seq<Type>) -> bool {
    match crate::types::find_key_spec(enums[i].1.variants@, n) {
        Some(j) => {
            let fields = enums[i].1.variants@[j].1.fields@;
            &&& owner == enums[i].0@
            &&& names.len() == fields.len()
            &&& types.len() == fields.len()
            &&& forall|k: int| 0 <= k < fields.len() ==> #[trigger] names[k] == fields[k].0 && same(types[k], fields[k].1)
        },
        None => false,
    }
}

/// Whether the variant pattern `n` has a signature against `expected`:
/// `Ok` and `Err` against a result, `Some` and `None` against an option,
/// `None` against `None`, a variant of the enum expected, and against an
/// unknown type any of these four or the variant of the one enum that has it.
pub open spec fn has_variant_signature(enums: Seq<(String, crate::types::EnumType)>, expected: Type, n: Seq<char>) -> bool {
    match expected {
        Type::Result(_, _) => n == "Ok"@ || n == "Err"@,
        Type::Option(_) => n == "Some"@ || n == "None"@,
        Type::NoneType => n == "None"@,
        Type::Enum(e) => match crate::types::find_key_spec(enums, e@) {
            Some(i) => crate::types::find_key_spec(enums[i].1.variants@, n) is Some,
            None => false,
        },
        Type::Unknown => n == "Ok"@ || n == "Err"@ || n == "Some"@ || n == "None"@ || exists|i: int|
            unique_variant_owner(enums, n, i),
        _ => false,
    }
}

/// The owner, payload field names and payload types of the variant pattern
/// `n` against `expected`.
pub open spec fn variant_signature_is(enums: Seq<(String, crate::types::EnumType)>, expected: Type, n: Seq<char>, owner: Seq<char>, names: Seq<String>, types: Seq<Type>) -> bool {
    match expected {
        Type::Result(ok, err) => owner == "Result"@ && names.len() == 1 && types.len() == 1 && if n == "Ok"@ {
            names[0]@ == "value"@ && same(types[0], *ok)
        } else {
            names[0]@ == "error"@ && same(types[0], *err)
        },
        Type::Option(inner) => owner == "Option"@ && if n == "Some"@ {
            names.len() == 1 && types.len() == 1 && names[0]@ == "value"@ && same(types[0], *inner)
        } else {
            names.len() == 0 && types.len() == 0
        },
        Type::NoneType => owner == "Option"@ && names.len() == 0 && types.len() == 0,
        Type::Enum(e) => match crate::types::find_key_spec(enums, e@) {
            Some(i) => variant_fields_are(enums, i, n, owner, names, types) && owner == e@,
            None => false,
        },
        Type::Unknown => if n == "Ok"@ || n == "Err"@ {
            owner == "Result"@ && names.len() == 1 && types.len() == 1 && types[0] == Type::Unknown && names[0]@ == (if n
                == "Ok"@ {
                "value"@
            } else {
                "error"@
            })
        } else if n == "Some"@ {
            owner == "Option"@ && names.len() == 1 && types.len() == 1 && types[0] == Type::Unknown && names[0]@ == "value"@
        } else if n == "None"@ {
            owner == "Option"@ && names.len() == 0 && types.len() == 0
        } else {
            exists|i: int| unique_variant_owner(enums, n, i) && variant_fields_are(enums, i, n, owner, names, types)
        },
        _ => false,
    }
}

/// Whether a lowered literal is the pattern's literal.
pub open spec fn literal_lowered(l: PatternLiteral, t: TypedLiteral) -> bool {
    match (l, t) {
        (PatternLiteral::Int(a), TypedLiteral::Int(b)) => a == b,
        (PatternLiteral::Dec(a), TypedLiteral::Dec(b)) => a == b,
        (PatternLiteral::String(a), TypedLiteral::String(b)) => a == b,
        (PatternLiteral::Bool(a), TypedLiteral::Bool(b)) => a == b,
        (PatternLiteral::NoneLiteral, TypedLiteral::NoneLiteral) => true,
        _ => false,
    }
}

/// Whether `tp` lowers the pattern `p`: the same span and form, the same
/// literal, name or variant name, and each part lowered in order (a variant
/// pattern keeps as many parts as the variant has payload fields).
pub open spec fn pattern_lowered(p: Pattern, tp: TypedPattern) -> bool
    decreases p,
{
    &&& tp.span == p.span
    &&& match (p.kind, tp.kind) {
        (PatternKind::Wildcard, TypedPatternKind::Wildcard) => true,
        (PatternKind::Literal(l), TypedPatternKind::Literal(t)) => literal_lowered(l, t),
        (PatternKind::Binding(n), TypedPatternKind::Binding(m)) => n == m,
        (PatternKind::Tuple(items), TypedPatternKind::Tuple(ls)) => {
            &&& ls@.len() == items@.len()
            &&& forall|k: int| 0 <= k < items@.len() ==> {
                proof {
                    assert(decreases_to!(p => items@[k]));
                }
                pattern_lowered(items@[k], #[trigger] ls@[k])
            }
        },
        (PatternKind::Record { name, fields }, TypedPatternKind::Record { name: n, fields: lf }) => {
            &&& n == name
            &&& lf@.len() == fields@.len()
            &&& forall|k: int| 0 <= k < fields@.len() ==> {
                proof {
                    assert(decreases_to!(p => fields@[k].pattern));
                }
                (#[trigger] lf@[k]).name == fields@[k].name && pattern_lowered(fields@[k].pattern, lf@[k].pattern)
            }
        },
        (PatternKind::Variant { name, args }, TypedPatternKind::Variant { variant_name, args: la, .. }) => {
            &&& variant_name == name
            &&& la@.len() <= args@.len()
            &&& forall|k: int| 0 <= k < la@.len() ==> {
                proof {
                    assert(decreases_to!(p => args@[k]));
                }
                pattern_lowered(args@[k], #[trigger] la@[k])
            }
        },
        _ => false,
    }
}

/// A single-element list of strings.
fn one_name(s: &str) -> (r: Vec<String>)
    ensures
        r@.len() == 1,
        r@[0]@ == s@,
{
    let mut v: Vec<String> = Vec::new();
    v.push(String::from_str(s));
    v
}

/// The built-in result and option operations lowered to dedicated nodes.
enum BuiltinMemberOp {
    ResultIsOk,
    ResultIsErr,
    ResultValue,
    ResultError,
    OptionIsSome,
    OptionIsNone,
    OptionValue,
}

/// The built-in operation `.field` names on a value of type `t`, if any.
spec fn builtin_member_op(t: Type, field: Seq<char>) -> Option<BuiltinMemberOp> {
    match t {
        Type::Result(_, _) => if field == "is_ok"@ {
            Some(BuiltinMemberOp::ResultIsOk)
        } else if field == "is_err"@ {
            Some(BuiltinMemberOp::ResultIsErr)
        } else if field == "value"@ {
            Some(BuiltinMemberOp::ResultValue)
        } else if field == "error"@ {
            Some(BuiltinMemberOp::ResultError)
        } else {
            None
        },
        Type::Option(_) => if field == "is_some"@ {
            Some(BuiltinMemberOp::OptionIsSome)
        } else if field == "is_none"@ {
            Some(BuiltinMemberOp::OptionIsNone)
        } else if field == "value"@ {
            Some(BuiltinMemberOp::OptionValue)
        } else {
            None
        },
        _ => None,
    }
}

/// Whether `k` is the node of `op` over the lowered `base`.
spec fn member_kind(op: BuiltinMemberOp, k: TypedExprKind, base: Expr) -> bool {
    match (op, k) {
        (BuiltinMemberOp::ResultIsOk, TypedExprKind::ResultIsOk { target }) => lowers_closed(base, *target),
        (BuiltinMemberOp::ResultIsErr, TypedExprKind::ResultIsErr { target }) => lowers_closed(base, *target),
        (BuiltinMemberOp::ResultValue, TypedExprKind::ResultValue { target }) => lowers_closed(base, *target),
        (BuiltinMemberOp::ResultError, TypedExprKind::ResultError { target }) => lowers_closed(base, *target),
        (BuiltinMemberOp::OptionIsSome, TypedExprKind::OptionIsSome { target }) => lowers_closed(base, *target),
        (BuiltinMemberOp::OptionIsNone, TypedExprKind::OptionIsNone { target }) => lowers_closed(base, *target),
        (BuiltinMemberOp::OptionValue, TypedExprKind::OptionValue { target }) => lowers_closed(base, *target),
        _ => false,
    }
}

/// A lowered declaration corresponds to its source declaration: the same
/// kind and name, as many fields, variants and parameters, and an action or
/// extern typed as one.
pub open spec fn lowered_decl_matches(t: TypedDecl, d: Decl) -> bool {
    match (t, d) {
        (TypedDecl::Const(a), Decl::Const(b)) => a.name@ == b.name@,
        (TypedDecl::Record(a), Decl::Record(b)) => a.name@ == b.name@ && a.fields@.len() == b.fields@.len(),
        (TypedDecl::Enum(a), Decl::Enum(b)) => a.name@ == b.name@ && a.variants@.len() == b.variants@.len(),
        (TypedDecl::Extern(a), Decl::Extern(b)) => a.name@ == b.name@ && a.ty is ExternAction,
        (TypedDecl::Action(a), Decl::Action(b)) => a.name@ == b.name@ && a.params@.len() == b.params@.len() && a.ty is Action,
        (TypedDecl::Test(a), Decl::Test(b)) => a.name@ == b.name@,
        _ => false,
    }
}

impl<'a> LowerCtx<'a> {
    /// Lowers a declaration.
    fn lower_decl(&self, decl: &Decl) -> (r: Result<TypedDecl, Vec<Diagnostic>>)
        requires
            decl matches Decl::Action(a) ==> has_key(self.checked.actions@, a.name@),
            decl matches Decl::Extern(e) ==> has_key(self.checked.externs@, e.name@),
        ensures
            lower_outcome(r),
            r matches Ok(t) ==> lowered_decl_matches(t, *decl),
    {
        match decl {
            Decl::Const(c) => {
                let ty = self.lower_type_ref(&c.ty, &c.span)?;
                let value = self.lower_expr(&c.value)?;
                Ok(TypedDecl::Const(TypedConstDecl { name: c.name.clone(), ty, value, span: c.span.duplicate() }))
            },
            Decl::Record(record) => {
                let mut fields: Vec<TypedRecordField> = Vec::new();
                let mut i: usize = 0;
                while i < record.fields.len()
                    invariant
                        i <= record.fields@.len(),
                        fields@.len() == i,
                    decreases record.fields@.len() - i,
                {
                    let field = &record.fields[i];
                    let ty = self.lower_type_ref(&field.ty, &field.span)?;
                    fields.push(TypedRecordField { name: field.name.clone(), ty, meaning: field.meaning.clone() });
                    i = i + 1;
                }
                Ok(TypedDecl::Record(TypedRecordDecl { name: record.name.clone(), fields, span: record.span.duplicate() }))
            },
            Decl::Enum(enum_decl) => {
                let mut variants: Vec<TypedEnumVariant> = Vec::new();
                let mut i: usize = 0;
                while i < enum_decl.variants.len()
                    invariant
                        i <= enum_decl.variants@.len(),
                        variants@.len() == i,
                    decreases enum_decl.variants@.len() - i,
                {
                    let variant = &enum_decl.variants[i];
                    let mut fields: Vec<(String, Type)> = Vec::new();
                    let mut j: usize = 0;
                    while j < variant.fields.len()
                        invariant
                            j <= variant.fields@.len(),
                        decreases variant.fields@.len() - j,
                    {
                        let field = &variant.fields[j];
                        fields.push((field.name.clone(), self.lower_type_ref(&field.ty, &field.span)?));
                        j = j + 1;
                    }
                    variants.push(TypedEnumVariant { name: variant.name.clone(), fields });
                    i = i + 1;
                }
                Ok(TypedDecl::Enum(TypedEnumDecl { name: enum_decl.name.clone(), variants, span: enum_decl.span.duplicate() }))
            },
            Decl::Extern(e) => {
                let ty = match lookup(&self.checked.externs, e.name.as_str()) {
                    Some(sig) => Type::ExternAction(sig.ty.duplicate()),
                    None => {
                        proof {
                            let j = choose|j: int| 0 <= j < self.checked.externs@.len() && self.checked.externs@[j].0@ == e.name@;
                            assert(self.checked.externs@[j].0@ != e.name@);
                            assert(false);
                        }
                        Type::Unknown
                    },
                };
                Ok(TypedDecl::Extern(TypedExternDecl { name: e.name.clone(), ty, span: e.span.duplicate() }))
            },
            Decl::Action(a) => {
                let ty = match lookup(&self.checked.actions, a.name.as_str()) {
                    Some(sig) => Type::Action(sig.duplicate()),
                    None => {
                        proof {
                            let j = choose|j: int| 0 <= j < self.checked.actions@.len() && self.checked.actions@[j].0@ == a.name@;
                            assert(self.checked.actions@[j].0@ != a.name@);
                            assert(false);
                        }
                        Type::Unknown
                    },
                };
                let mut params: Vec<(String, Type)> = Vec::new();
                let mut i: usize = 0;
                while i < a.params.len()
                    invariant
                        i <= a.params@.len(),
                        params@.len() == i,
                    decreases a.params@.len() - i,
                {
                    let param = &a.params[i];
                    params.push((param.name.clone(), self.lower_type_ref(&param.ty, &param.span)?));
                    i = i + 1;
                }
                let body = self.lower_block(&a.body)?;
                Ok(TypedDecl::Action(TypedActionDecl { name: a.name.clone(), params, body, ty, span: a.span.duplicate() }))
            },
            Decl::Test(t) => {
                let body = self.lower_block(&t.body)?;
                Ok(TypedDecl::Test(TypedTestDecl { name: t.name.clone(), body, span: t.span.duplicate() }))
            },
        }
    }

    /// Lowers the statements of a block, in order.
    fn lower_block(&self, block: &Vec<Stmt>) -> (r: Result<Vec<TypedStmt>, Vec<Diagnostic>>)
        ensures
            lower_outcome(r),
            r matches Ok(v) ==> v@.len() == block@.len(),
        decreases *block,
    {
        let mut out: Vec<TypedStmt> = Vec::new();
        let mut i: usize = 0;
        while i < block.len()
            invariant
                i <= block@.len(),
                out@.len() == i,
            decreases block@.len() - i,
        {
            proof {
                assert(decreases_to!(*block => block@[i as int]));
            }
            out.push(self.lower_stmt(&block[i])?);
            i = i + 1;
        }
        Ok(out)
    }

    /// Lowers `(name, expression)` pairs.
    fn lower_named_exprs(&self, items: &Vec<(String, Expr)>) -> (r: Result<Vec<(String, TypedExpr)>, Vec<Diagnostic>>)
        ensures
            lower_outcome(r),
            r matches Ok(v) ==> v@.len() == items@.len() && forall|k: int|
                0 <= k < items@.len() ==> (#[trigger] v@[k]).0 == items@[k].0 && lowers_closed(items@[k].1, v@[k].1),
    {
        let mut out: Vec<(String, TypedExpr)> = Vec::new();
        let mut i: usize = 0;
        while i < items.len()
            invariant
                i <= items@.len(),
                out@.len() == i,
                forall|k: int| 0 <= k < i ==> (#[trigger] out@[k]).0 == items@[k].0 && lowers_closed(items@[k].1, out@[k].1),
            decreases items@.len() - i,
        {
            out.push((items[i].0.clone(), self.lower_expr(&items[i].1)?));
            i = i + 1;
        }
        Ok(out)
    }

    /// Lowers one statement.
    fn lower_stmt(&self, stmt: &Stmt) -> (r: Result<TypedStmt, Vec<Diagnostic>>)
        ensures
            lower_outcome(r),
            r matches Ok(t) ==> t.span == stmt.span,
            stmt.kind matches StmtKind::IntentBlock { goal, constraints, assumptions, properties } ==> (r matches Ok(t)
                && t.kind matches TypedStmtKind::IntentBlock { goal: g, constraints: c, assumptions: a, properties: p }
                && g == goal && c@ == constraints@ && a@ == assumptions@ && p@ == properties@),
            stmt.kind matches StmtKind::ExplainBlock { lines } ==> (r matches Ok(t) && t.kind matches TypedStmtKind::ExplainBlock {
                lines: l,
            } && l@ == lines@),
            stmt.kind matches StmtKind::Let { explicit_type: Some(ty), .. } ==> ((forall|w: Type|
                !lowers_to(self.checked.records@, self.checked.enums@, ty, w)) ==> r is Err),
            stmt.kind matches StmtKind::Var { explicit_type: Some(ty), .. } ==> ((forall|w: Type|
                !lowers_to(self.checked.records@, self.checked.enums@, ty, w)) ==> r is Err),
            stmt.kind matches StmtKind::Let { explicit_type: None, value, .. } ==> (!(has_node(
                self.extra_expr_types@,
                value.id,
            ) || has_node(self.checked.expr_types@, value.id)) ==> r is Err),
            stmt.kind matches StmtKind::Var { explicit_type: None, value, .. } ==> (!(has_node(
                self.extra_expr_types@,
                value.id,
            ) || has_node(self.checked.expr_types@, value.id)) ==> r is Err),
        decreases *stmt,
    {
        let kind = match &stmt.kind {
            StmtKind::IntentBlock { goal, constraints, assumptions, properties } => TypedStmtKind::IntentBlock {
                goal: goal.clone(),
                constraints: copy_strings(constraints),
                assumptions: copy_strings(assumptions),
                properties: copy_strings(properties),
            },
            StmtKind::ExplainBlock { lines } => TypedStmtKind::ExplainBlock { lines: copy_strings(lines) },
            StmtKind::StepBlock { label, body } => {
                proof {
                    assert(decreases_to!(*stmt => *body));
                }
                TypedStmtKind::StepBlock { label: label.clone(), body: self.lower_block(body)? }
            },
            StmtKind::RequiresClause { condition } => TypedStmtKind::RequiresClause(self.lower_expr(condition)?),
            StmtKind::EnsuresClause { condition } => TypedStmtKind::EnsuresClause(self.lower_expr(condition)?),
            StmtKind::ExampleBlock { name, inputs, outputs } => TypedStmtKind::ExampleBlock {
                name: name.clone(),
                inputs: self.lower_named_exprs(inputs)?,
                outputs: self.lower_named_exprs(outputs)?,
            },
            StmtKind::Let { pattern, explicit_type, value } => {
                let whole = match explicit_type {
                    Some(t) => self.lower_type_ref(t, &stmt.span)?,
                    None => self.expr_type(value)?,
                };
                let lowered_pattern = self.lower_binding_pattern(pattern, &whole)?;
                let value = self.lower_expr(value)?;
                TypedStmtKind::Let { pattern: lowered_pattern, ty: whole, value }
            },
            StmtKind::Var { pattern, explicit_type, value } => {
                let whole = match explicit_type {
                    Some(t) => self.lower_type_ref(t, &stmt.span)?,
                    None => self.expr_type(value)?,
                };
                let lowered_pattern = self.lower_binding_pattern(pattern, &whole)?;
                let value = self.lower_expr(value)?;
                TypedStmtKind::Var { pattern: lowered_pattern, ty: whole, value }
            },
            StmtKind::Assign { target, value } => {
                let target = self.lower_target(target)?;
                let value = self.lower_expr(value)?;
                TypedStmtKind::Assign { target, value }
            },
            StmtKind::If { branches, else_branch } => {
                let mut lowered: Vec<(TypedExpr, Vec<TypedStmt>)> = Vec::new();
                let mut i: usize = 0;
                while i < branches.len()
                    invariant
                        i <= branches@.len(),
                        forall|k: int| 0 <= k < branches@.len() ==> decreases_to!(*stmt => #[trigger] branches@[k].body),
                        stmt.kind is If,
                    decreases branches@.len() - i,
                {
                    proof {
                        assert(decreases_to!(*stmt => branches@[i as int].body));
                    }
                    let condition = self.lower_expr(&branches[i].condition)?;
                    let body = self.lower_block(&branches[i].body)?;
                    lowered.push((condition, body));
                    i = i + 1;
                }
                proof {
                    assert(decreases_to!(*stmt => *else_branch));
                }
                TypedStmtKind::If { branches: lowered, else_branch: self.lower_block(else_branch)? }
            },
            StmtKind::While { condition, body } => {
                proof {
                    assert(decreases_to!(*stmt => *body));
                }
                let condition = self.lower_expr(condition)?;
                TypedStmtKind::While { condition, body: self.lower_block(body)? }
            },
            StmtKind::Match { scrutinee, arms } => {
                let lowered_scrutinee = self.lower_expr(scrutinee)?;
                let mut lowered: Vec<TypedMatchArm> = Vec::new();
                let mut i: usize = 0;
                while i < arms.len()
                    invariant
                        i <= arms@.len(),
                        forall|k: int| 0 <= k < arms@.len() ==> decreases_to!(*stmt => #[trigger] arms@[k].body),
                        stmt.kind is Match,
                    decreases arms@.len() - i,
                {
                    proof {
                        assert(decreases_to!(*stmt => arms@[i as int].body));
                    }
                    let arm = &arms[i];
                    let scrutinee_type = self.expr_type(scrutinee)?;
                    let pattern = self.lower_pattern(&arm.pattern, &scrutinee_type)?;
                    let body = self.lower_block(&arm.body)?;
                    lowered.push(TypedMatchArm { pattern, body, span: arm.span.duplicate() });
                    i = i + 1;
                }
                TypedStmtKind::Match { scrutinee: lowered_scrutinee, arms: lowered }
            },
            StmtKind::ForEach { binding, iterable, body } => {
                proof {
                    assert(decreases_to!(*stmt => *body));
                }
                let iterable = self.lower_expr(iterable)?;
                TypedStmtKind::ForEach { binding: binding.clone(), iterable, body: self.lower_block(body)? }
            },
            StmtKind::Return(expr) => match expr {
                Some(e) => TypedStmtKind::Return(Some(self.lower_expr(e)?)),
                None => TypedStmtKind::Return(None),
            },
            StmtKind::Break => TypedStmtKind::Break,
            StmtKind::Continue => TypedStmtKind::Continue,
            StmtKind::Expect(e) => TypedStmtKind::Expect(self.lower_expr(e)?),
            StmtKind::Expr(e) => TypedStmtKind::Expr(self.lower_expr(e)?),
        };
        Ok(TypedStmt { kind, span: stmt.span.duplicate() })
    }

    /// The type recorded for the target at `span`: from the extra records
    /// when they have one, else from the checked module.
    spec fn target_typed_as(&self, span: SourceSpan, t: Type) -> bool {
        if has_span(self.extra_target_types@, span.key()) {
            exists|i: int| 0 <= i < self.extra_target_types@.len() && self.extra_target_types@[i].0.key() == span.key()
                && same(t, self.extra_target_types@[i].1)
        } else {
            exists|i: int| 0 <= i < self.checked.target_types@.len() && self.checked.target_types@[i].0.key() == span.key()
                && same(t, self.checked.target_types@[i].1)
        }
    }

    /// The mutability recorded for the root of the target at `span`.
    spec fn target_writable_as(&self, span: SourceSpan, b: bool) -> bool {
        if has_span(self.extra_target_mutability@, span.key()) {
            exists|i: int| 0 <= i < self.extra_target_mutability@.len() && self.extra_target_mutability@[i].0.key()
                == span.key() && self.extra_target_mutability@[i].1 == b
        } else {
            exists|i: int| 0 <= i < self.checked.target_root_mutability@.len()
                && self.checked.target_root_mutability@[i].0.key() == span.key()
                && self.checked.target_root_mutability@[i].1 == b
        }
    }

    /// Whether a type and a root mutability are recorded for the target at
    /// `span`.
    spec fn target_recorded_at(&self, span: SourceSpan) -> bool {
        &&& (has_span(self.extra_target_types@, span.key()) || has_span(self.checked.target_types@, span.key()))
        &&& (has_span(self.extra_target_mutability@, span.key()) || has_span(
            self.checked.target_root_mutability@,
            span.key(),
        ))
    }

    /// Whether a type and a root mutability are recorded for a target and
    /// each target it is part of.
    spec fn target_recorded(&self, t: Target) -> bool
        decreases t,
    {
        match t {
            Target::Name { name, span } => self.target_recorded_at(span),
            Target::Field { base, field, span } => self.target_recorded(*base) && self.target_recorded_at(span),
            Target::Index { base, index, span } => self.target_recorded(*base) && self.target_recorded_at(span),
        }
    }

    /// Whether `tt` lowers `t`: the same form, names, fields and spans, the
    /// recorded types and mutabilities, and the index lowered.
    spec fn target_lowered(&self, t: Target, tt: TypedTarget) -> bool
        decreases t,
    {
        match (t, tt) {
            (Target::Name { name, span }, TypedTarget::Name { symbol, ty, writable_root, span: s }) => {
                &&& symbol.name == name
                &&& s == span
                &&& self.target_typed_as(span, ty)
                &&& self.target_writable_as(span, writable_root)
            },
            (Target::Field { base, field, span }, TypedTarget::Field { base: b, field: f, ty, writable_root, span: s }) => {
                &&& self.target_lowered(*base, *b)
                &&& f == field
                &&& s == span
                &&& self.target_typed_as(span, ty)
                &&& self.target_writable_as(span, writable_root)
            },
            (Target::Index { base, index, span }, TypedTarget::Index { base: b, index: i, ty, writable_root, span: s }) => {
                &&& self.target_lowered(*base, *b)
                &&& lowers_closed(index, i)
                &&& s == span
                &&& self.target_typed_as(span, ty)
                &&& self.target_writable_as(span, writable_root)
            },
            _ => false,
        }
    }

    /// Lowers an assignment target with its recorded type and root
    /// mutability.
    fn lower_target(&self, target: &Target) -> (r: Result<TypedTarget, Vec<Diagnostic>>)
        ensures
            lower_outcome(r),
            r matches Ok(tt) ==> self.target_lowered(*target, tt),
            !self.target_recorded(*target) ==> r is Err,
        decreases *target,
    {
        match target {
            Target::Name { name, span } => {
                let symbol = TypedSymbol { name: name.clone(), kind: self.symbol_kind(name.as_str()) };
                let ty = self.target_type(span)?;
                let writable_root = self.target_writable(span)?;
                Ok(TypedTarget::Name { symbol, ty, writable_root, span: span.duplicate() })
            },
            Target::Field { base, field, span } => {
                let base = self.lower_target(base)?;
                let ty = self.target_type(span)?;
                let writable_root = self.target_writable(span)?;
                Ok(TypedTarget::Field { base: Box::new(base), field: field.clone(), ty, writable_root, span: span.duplicate() })
            },
            Target::Index { base, index, span } => {
                let base = self.lower_target(base)?;
                let index = self.lower_expr(index)?;
                let ty = self.target_type(span)?;
                let writable_root = self.target_writable(span)?;
                Ok(TypedTarget::Index { base: Box::new(base), index, ty, writable_root, span: span.duplicate() })
            },
        }
    }

    /// Lowers a `let` or `var` pattern, giving each name its part of the
    /// value's type.
    fn lower_binding_pattern(&self, pattern: &BindingPattern, whole_type: &Type) -> (r: Result<TypedBindingPattern, Vec<Diagnostic>>)
        ensures
            lower_outcome(r),
            r is Err <==> (pattern.kind matches BindingPatternKind::Tuple(names) && !(*whole_type is Unknown
                || (*whole_type matches Type::Tuple(ts) && ts@.len() == names@.len()))),
            r matches Ok(p) ==> p.span == pattern.span && binding_lowered(
                self.checked.records@,
                pattern.kind,
                pattern.span,
                *whole_type,
                p.kind,
            ),
    {
        let kind = match &pattern.kind {
            BindingPatternKind::Name(name) => TypedBindingPatternKind::Name(TypedBinding {
                name: name.clone(),
                ty: whole_type.duplicate(),
                span: pattern.span.duplicate(),
            }),
            BindingPatternKind::Tuple(names) => {
                let item_types: Vec<Type> = match whole_type {
                    Type::Tuple(types) => {
                        if types.len() == names.len() {
                            crate::tir::copy_types(types)
                        } else {
                            return lower_fail(&pattern.span, concat3("cannot lower tuple destructuring for `", whole_type.describe().as_str(), "`"));
                        }
                    },
                    Type::Unknown => unknown_types(names.len()),
                    other => {
                        return lower_fail(&pattern.span, concat3("cannot lower tuple destructuring for `", other.describe().as_str(), "`"));
                    },
                };
                let mut bindings: Vec<TypedBinding> = Vec::new();
                let mut i: usize = 0;
                while i < names.len() && i < item_types.len()
                    invariant
                        i <= names@.len(),
                        item_types@.len() == names@.len(),
                        bindings@.len() == i,
                        forall|k: int| 0 <= k < i ==> (#[trigger] bindings@[k]).name == names@[k] && bindings@[k].span
                            == pattern.span && same(bindings@[k].ty, item_types@[k]),
                    decreases names@.len() - i,
                {
                    bindings.push(TypedBinding { name: names[i].clone(), ty: item_types[i].duplicate(), span: pattern.span.duplicate() });
                    i = i + 1;
                }
                proof {
                    assert forall|k: int| 0 <= k < names@.len() implies (match *whole_type {
                        Type::Tuple(ts) => same(bindings@[k].ty, ts@[k]),
                        _ => bindings@[k].ty == Type::Unknown,
                    }) by {
                        if let Type::Tuple(ts) = whole_type {
                            crate::types::lemma_same_trans(bindings@[k].ty, item_types@[k], ts@[k]);
                        } else {
                            assert(same(bindings@[k].ty, item_types@[k]));
                        }
                    }
                }
                TypedBindingPatternKind::Tuple(bindings)
            },
            BindingPatternKind::Record { name, fields } => {
                let mut lowered: Vec<TypedRecordBindingField> = Vec::new();
                let mut i: usize = 0;
                while i < fields.len()
                    invariant
                        i <= fields@.len(),
                        lowered@.len() == i,
                        forall|k: int| 0 <= k < i ==> record_binding_lowered(
                            self.checked.records@,
                            name@,
                            fields@[k],
                            #[trigger] lowered@[k],
                        ),
                    decreases fields@.len() - i,
                {
                    lowered.push(self.lower_record_binding_field(name.as_str(), &fields[i]));
                    i = i + 1;
                }
                TypedBindingPatternKind::Record { name: name.clone(), fields: lowered }
            },
        };
        Ok(TypedBindingPattern { kind, span: pattern.span.duplicate() })
    }

    /// The declared type of field `field` of record `record`, or `Unknown`.
    fn record_field_type(&self, record: &str, field: &str) -> (r: Type)
        ensures
            r_field_type(self.checked.records@, record@, field@, r),
    {
        match lookup(&self.checked.records, record) {
            Some(rt) => match lookup(&rt.fields, field) {
                Some(t) => t.duplicate(),
                None => Type::Unknown,
            },
            None => Type::Unknown,
        }
    }

    fn lower_record_binding_field(&self, record_name: &str, field: &RecordBindingField) -> (r: TypedRecordBindingField)
        ensures
            r.field == field.field,
            r.binding.name == field.binding,
            r.binding.span == field.span,
            r.span == field.span,
            r_field_type(self.checked.records@, record_name@, field.field@, r.binding.ty),
    {
        let ty = self.record_field_type(record_name, field.field.as_str());
        TypedRecordBindingField {
            field: field.field.clone(),
            binding: TypedBinding { name: field.binding.clone(), ty, span: field.span.duplicate() },
            span: field.span.duplicate(),
        }
    }

    /// Lowers a `match` pattern against the type of the value it matches.
    fn lower_pattern(&self, pattern: &Pattern, expected: &Type) -> (r: Result<TypedPattern, Vec<Diagnostic>>)
        ensures
            lower_outcome(r),
            r matches Ok(tp) ==> pattern_lowered(*pattern, tp),
            r matches Ok(tp) ==> match pattern.kind {
                PatternKind::Wildcard | PatternKind::Literal(_) | PatternKind::Binding(_) | PatternKind::Tuple(_) => same(
                    tp.ty,
                    *expected,
                ),
                PatternKind::Record { name, fields } => tp.ty == Type::Record(name),
                PatternKind::Variant { .. } => true,
            },
            pattern.kind matches PatternKind::Tuple(items) ==> (!(*expected is Unknown || (*expected matches Type::Tuple(
                ts,
            ) && ts@.len() == items@.len())) ==> r is Err),
            pattern.kind matches PatternKind::Variant { name, args } ==> (!has_variant_signature(
                self.checked.enums@,
                *expected,
                name@,
            ) ==> r is Err),
        decreases *pattern,
    {
        let (kind, ty) = match &pattern.kind {
            PatternKind::Wildcard => (TypedPatternKind::Wildcard, expected.duplicate()),
            PatternKind::Literal(literal) => {
                let lit = match literal {
                    PatternLiteral::Int(v) => TypedLiteral::Int(*v),
                    PatternLiteral::Dec(v) => TypedLiteral::Dec(v.clone()),
                    PatternLiteral::String(v) => TypedLiteral::String(v.clone()),
                    PatternLiteral::Bool(v) => TypedLiteral::Bool(*v),
                    PatternLiteral::NoneLiteral => TypedLiteral::NoneLiteral,
                };
                (TypedPatternKind::Literal(lit), expected.duplicate())
            },
            PatternKind::Binding(name) => (TypedPatternKind::Binding(name.clone()), expected.duplicate()),
            PatternKind::Tuple(items) => {
                let item_types: Vec<Type> = match expected {
                    Type::Tuple(types) => {
                        if types.len() == items.len() {
                            copy_types(types)
                        } else {
                            return lower_fail(&pattern.span, concat3("cannot lower tuple pattern for non-tuple type `", expected.describe().as_str(), "`"));
                        }
                    },
                    Type::Unknown => unknown_types(items.len()),
                    other => {
                        return lower_fail(&pattern.span, concat3("cannot lower tuple pattern for non-tuple type `", other.describe().as_str(), "`"));
                    },
                };
                proof {
                    assert forall|i: int| 0 <= i < items@.len() implies decreases_to!(*pattern => #[trigger] items@[i]) by {
                        assert(decreases_to!(*pattern => items@[i]));
                    }
                }
                let mut lowered: Vec<TypedPattern> = Vec::new();
                let mut i: usize = 0;
                while i < items.len() && i < item_types.len()
                    invariant
                        i <= items@.len(),
                        item_types@.len() == items@.len(),
                        forall|k: int| 0 <= k < items@.len() ==> decreases_to!(*pattern => #[trigger] items@[k]),
                        lowered@.len() == i,
                        forall|k: int| 0 <= k < i ==> pattern_lowered(items@[k], #[trigger] lowered@[k]),
                    decreases items@.len() - i,
                {
                    proof {
                        assert(decreases_to!(*pattern => items@[i as int]));
                    }
                    lowered.push(self.lower_pattern(&items[i], &item_types[i])?);
                    i = i + 1;
                }
                (TypedPatternKind::Tuple(lowered), expected.duplicate())
            },
            PatternKind::Record { name, fields } => {
                proof {
                    assert forall|i: int| 0 <= i < fields@.len() implies decreases_to!(*pattern => #[trigger] fields@[i].pattern) by {
                        assert(decreases_to!(*pattern => fields@[i].pattern));
                    }
                }
                let mut lowered: Vec<TypedRecordPatternField> = Vec::new();
                let mut i: usize = 0;
                while i < fields.len()
                    invariant
                        i <= fields@.len(),
                        forall|k: int| 0 <= k < fields@.len() ==> decreases_to!(*pattern => #[trigger] fields@[k].pattern),
                        lowered@.len() == i,
                        forall|k: int| 0 <= k < i ==> (#[trigger] lowered@[k]).name == fields@[k].name && pattern_lowered(
                            fields@[k].pattern,
                            lowered@[k].pattern,
                        ),
                    decreases fields@.len() - i,
                {
                    let field: &RecordPatternField = &fields[i];
                    let field_type = self.record_field_type(name.as_str(), field.name.as_str());
                    proof {
                        assert(decreases_to!(*pattern => fields@[i as int].pattern));
                    }
                    let p = self.lower_pattern(&field.pattern, &field_type)?;
                    lowered.push(TypedRecordPatternField { name: field.name.clone(), pattern: p, span: field.span.duplicate() });
                    i = i + 1;
                }
                (TypedPatternKind::Record { name: name.clone(), fields: lowered }, Type::Record(name.clone()))
            },
            PatternKind::Variant { name, args } => {
                let (owner, field_names, field_types) = self.lower_pattern_variant_signature(expected, name.as_str(), &pattern.span)?;
                proof {
                    assert forall|i: int| 0 <= i < args@.len() implies decreases_to!(*pattern => #[trigger] args@[i]) by {
                        assert(decreases_to!(*pattern => args@[i]));
                    }
                }
                let mut lowered: Vec<TypedPattern> = Vec::new();
                let mut i: usize = 0;
                while i < args.len() && i < field_types.len()
                    invariant
                        i <= args@.len(),
                        forall|k: int| 0 <= k < args@.len() ==> decreases_to!(*pattern => #[trigger] args@[k]),
                        lowered@.len() == i,
                        forall|k: int| 0 <= k < i ==> pattern_lowered(args@[k], #[trigger] lowered@[k]),
                    decreases args@.len() - i,
                {
                    proof {
                        assert(decreases_to!(*pattern => args@[i as int]));
                    }
                    lowered.push(self.lower_pattern(&args[i], &field_types[i])?);
                    i = i + 1;
                }
                let ty = type_name_to_type(owner.as_str(), expected);
                (TypedPatternKind::Variant { variant_type: owner, variant_name: name.clone(), field_names, args: lowered }, ty)
            },
        };
        Ok(TypedPattern { kind, ty, span: pattern.span.duplicate() })
    }

    /// The owner (`Result`, `Option` or an enum name), payload field names
    /// and payload types of the variant pattern `name` against `expected`.
    fn lower_pattern_variant_signature(&self, expected: &Type, name: &str, span: &SourceSpan) -> (r: Result<(String, Vec<String>, Vec<Type>), Vec<Diagnostic>>)
        ensures
            lower_outcome(r),
            r is Ok <==> has_variant_signature(self.checked.enums@, *expected, name@),
            r matches Ok(sig) ==> variant_signature_is(self.checked.enums@, *expected, name@, sig.0@, sig.1@, sig.2@),
    {
        let is_ok = str_eq(name, "Ok");
        let is_err = str_eq(name, "Err");
        let is_some = str_eq(name, "Some");
        let is_none = str_eq(name, "None");
        match expected {
            Type::Result(ok, err) => {
                if is_ok {
                    return Ok((String::from_str("Result"), one_name("value"), vec![ok.duplicate()]));
                }
                if is_err {
                    return Ok((String::from_str("Result"), one_name("error"), vec![err.duplicate()]));
                }
            },
            Type::Option(inner) => {
                if is_some {
                    return Ok((String::from_str("Option"), one_name("value"), vec![inner.duplicate()]));
                }
                if is_none {
                    return Ok((String::from_str("Option"), Vec::new(), Vec::new()));
                }
            },
            Type::NoneType => {
                if is_none {
                    return Ok((String::from_str("Option"), Vec::new(), Vec::new()));
                }
            },
            Type::Enum(enum_name) => {
                let variant = match lookup(&self.checked.enums, enum_name.as_str()) {
                    Some(et) => lookup(&et.variants, name),
                    None => None,
                };
                proof {
                    crate::types::lemma_find_key_spec_facts(self.checked.enums@, enum_name@);
                }
                match variant {
                    Some(v) => {
                        return Ok((enum_name.clone(), field_names_of(&v.fields), crate::tir::field_types(&v.fields)));
                    },
                    None => {
                        let mut m = concat3("unknown enum variant `", name, "` for `");
                        m.append(enum_name.as_str());
                        m.append("`");
                        return lower_fail(span, m);
                    },
                }
            },
            Type::Unknown => {
                if is_ok {
                    return Ok((String::from_str("Result"), one_name("value"), vec![Type::Unknown]));
                }
                if is_err {
                    return Ok((String::from_str("Result"), one_name("error"), vec![Type::Unknown]));
                }
                if is_some {
                    return Ok((String::from_str("Option"), one_name("value"), vec![Type::Unknown]));
                }
                if is_none {
                    return Ok((String::from_str("Option"), Vec::new(), Vec::new()));
                }
                let mut found: Option<(String, Vec<String>, Vec<Type>)> = None;
                let mut count: usize = 0;
                let mut i: usize = 0;
                let ghost es = self.checked.enums@;
                let ghost mut first: int = 0;
                let ghost mut second: int = 0;
                while i < self.checked.enums.len()
                    invariant
                        i <= self.checked.enums@.len(),
                        count <= i,
                        es == self.checked.enums@,
                        count == 0 ==> forall|j: int|
                            0 <= j < i ==> crate::types::find_key_spec((#[trigger] es[j]).1.variants@, name@) is None,
                        count > 0 ==> 0 <= first < i && crate::types::find_key_spec(es[first].1.variants@, name@) is Some,
                        count > 0 ==> (found matches Some(f) && variant_fields_are(es, first, name@, f.0@, f.1@, f.2@)),
                        count == 1 ==> forall|j: int|
                            0 <= j < i && j != first ==> crate::types::find_key_spec((#[trigger] es[j]).1.variants@, name@)
                                is None,
                        count > 1 ==> first < second < i && crate::types::find_key_spec(es[second].1.variants@, name@) is Some,
                    decreases self.checked.enums@.len() - i,
                {
                    if let Some(v) = lookup(&self.checked.enums[i].1.variants, name) {
                        proof {
                            if count == 0 {
                                first = i as int;
                            } else if count == 1 {
                                second = i as int;
                            }
                        }
                        if count == 0 {
                            found = Some((self.checked.enums[i].0.clone(), field_names_of(&v.fields), crate::tir::field_types(&v.fields)));
                        }
                        count = count + 1;
                    }
                    i = i + 1;
                }
                if count == 1 {
                    if let Some(f) = found {
                        proof {
                            assert(unique_variant_owner(es, name@, first));
                        }
                        return Ok(f);
                    }
                }
                proof {
                    assert forall|x: int| !unique_variant_owner(es, name@, x) by {
                        if 0 <= x < es.len() && crate::types::find_key_spec(es[x].1.variants@, name@) is Some {
                            if count == 0 {
                                assert(crate::types::find_key_spec(es[x].1.variants@, name@) is None);
                            } else if x != first {
                                assert(es[first] == es[first]);
                            } else {
                                assert(es[second] == es[second]);
                            }
                        }
                    }
                }
                return lower_fail(span, concat3("ambiguous variant pattern `", name, "` during lowering"));
            },
            _ => {},
        }
        let mut m = concat3("variant pattern `", name, "` cannot be lowered for `");
        m.append(expected.describe().as_str());
        m.append("`");
        lower_fail(span, m)
    }
}

/// Copies of a list of types.
fn copy_types(types: &Vec<Type>) -> (r: Vec<Type>)
    ensures
        r@.len() == types@.len(),
        forall|i: int| 0 <= i < types@.len() ==> same(#[trigger] r@[i], types@[i]),
{
    let mut out: Vec<Type> = Vec::new();
    let mut i: usize = 0;
    while i < types.len()
        invariant
            i <= types@.len(),
            out@.len() == i,
            forall|k: int| 0 <= k < i ==> same(#[trigger] out@[k], types@[k]),
        decreases types@.len() - i,
    {
        out.push(types[i].duplicate());
        i = i + 1;
    }
    out
}

/// `n` copies of `Unknown`.
fn unknown_types(n: usize) -> (r: Vec<Type>)
    ensures
        r@.len() == n,
        forall|i: int| 0 <= i < n ==> r@[i] == Type::Unknown,
{
    let mut out: Vec<Type> = Vec::new();
    let mut i: usize = 0;
    while i < n
        invariant
            i <= n,
            out@.len() == i,
            forall|k: int| 0 <= k < i ==> out@[k] == Type::Unknown,
        decreases n - i,
    {
        out.push(Type::Unknown);
        i = i + 1;
    }
    out
}

/// The names of named fields, in order.
fn field_names_of(fields: &Vec<(String, Type)>) -> (r: Vec<String>)
    ensures
        r@.len() == fields@.len(),
        forall|i: int| 0 <= i < fields@.len() ==> #[trigger] r@[i] == fields@[i].0,
{
    let mut out: Vec<String> = Vec::new();
    let mut i: usize = 0;
    while i < fields.len()
        invariant
            i <= fields@.len(),
            out@.len() == i,
            forall|k: int| 0 <= k < i ==> #[trigger] out@[k] == fields@[k].0,
        decreases fields@.len() - i,
    {
        out.push(fields[i].0.clone());
        i = i + 1;
    }
    out
}

/// The types of named fields, in order.
fn field_types(fields: &Vec<(String, Type)>) -> (r: Vec<Type>)
    ensures
        r@.len() == fields@.len(),
        forall|i: int| 0 <= i < fields@.len() ==> same(#[trigger] r@[i], fields@[i].1),
{
    let mut out: Vec<Type> = Vec::new();
    let mut i: usize = 0;
    while i < fields.len()
        invariant
            i <= fields@.len(),
            out@.len() == i,
            forall|k: int| 0 <= k < i ==> same(#[trigger] out@[k], fields@[k].1),
        decreases fields@.len() - i,
    {
        out.push(fields[i].1.duplicate());
        i = i + 1;
    }
    out
}


impl<'a> LowerCtx<'a> {
    /// Lowers an expression, annotating it with its recorded type.
    fn lower_expr(&self, expr: &Expr) -> (r: Result<TypedExpr, Vec<Diagnostic>>)
        ensures
            lower_outcome(r),
            r matches Ok(t) ==> lowers_closed(*expr, t),
        decreases *expr, 2int,
    {
        let ty = self.expr_type(expr)?;
        let kind = match &expr.kind {
            ExprKind::Int(v) => TypedExprKind::Literal(TypedLiteral::Int(*v)),
            ExprKind::Dec(v) => TypedExprKind::Literal(TypedLiteral::Dec(v.clone())),
            ExprKind::String(v) => TypedExprKind::Literal(TypedLiteral::String(v.clone())),
            ExprKind::Bool(v) => TypedExprKind::Literal(TypedLiteral::Bool(*v)),
            ExprKind::NoneLiteral => TypedExprKind::Literal(TypedLiteral::NoneLiteral),
            ExprKind::List(items) => {
                proof {
                    assert forall|i: int| 0 <= i < items@.len() implies decreases_to!(*expr => #[trigger] items@[i]) by {
                        assert(decreases_to!(*expr => items@[i]));
                    }
                }
                TypedExprKind::List(self.lower_exprs(items, Ghost(*expr))?)
            },
            ExprKind::Tuple(items) => {
                proof {
                    assert forall|i: int| 0 <= i < items@.len() implies decreases_to!(*expr => #[trigger] items@[i]) by {
                        assert(decreases_to!(*expr => items@[i]));
                    }
                }
                TypedExprKind::Tuple(self.lower_exprs(items, Ghost(*expr))?)
            },
            ExprKind::MapLiteral(pairs) => {
                proof {
                    assert forall|i: int| 0 <= i < pairs@.len() implies decreases_to!(*expr => #[trigger] pairs@[i].0)
                        && decreases_to!(*expr => pairs@[i].1) by {
                        assert(decreases_to!(*expr => pairs@[i].0));
                        assert(decreases_to!(*expr => pairs@[i].1));
                    }
                }
                let mut lowered: Vec<(TypedExpr, TypedExpr)> = Vec::new();
                let mut i: usize = 0;
                while i < pairs.len()
                    invariant
                        i <= pairs@.len(),
                        forall|k: int| 0 <= k < pairs@.len() ==> decreases_to!(*expr => #[trigger] pairs@[k].0)
                            && decreases_to!(*expr => pairs@[k].1),
                    decreases pairs@.len() - i,
                {
                    proof {
                        assert(decreases_to!(*expr => pairs@[i as int].0));
                        assert(decreases_to!(*expr => pairs@[i as int].1));
                    }
                    let key = self.lower_expr(&pairs[i].0)?;
                    let value = self.lower_expr(&pairs[i].1)?;
                    lowered.push((key, value));
                    i = i + 1;
                }
                TypedExprKind::MapLiteral(lowered)
            },
            ExprKind::Name(name) => {
                match self.lower_zero_arg_variant_constructor(expr, name.as_str())? {
                    Some(k) => k,
                    None => TypedExprKind::Symbol(TypedSymbol { name: name.clone(), kind: self.symbol_kind(name.as_str()) }),
                }
            },
            ExprKind::Call { callee, args } => {
                proof {
                    assert(decreases_to!(*expr => **callee));
                    assert forall|i: int| 0 <= i < args@.len() implies decreases_to!(*expr => #[trigger] args@[i].expr) by {
                        assert(decreases_to!(*expr => args@[i].expr));
                    }
                }
                if let Some(k) = self.lower_variant_constructor_call(callee, args, Ghost(*expr))? {
                    k
                } else if let Some(k) = self.lower_builtin_result_or_option_call(callee, args, Ghost(*expr))? {
                    k
                } else {
                    let lowered_callee = self.lower_expr(callee)?;
                    let mut lowered_args: Vec<TypedCallArg> = Vec::new();
                    let mut i: usize = 0;
                    while i < args.len()
                        invariant
                            i <= args@.len(),
                            forall|k: int| 0 <= k < args@.len() ==> decreases_to!(*expr => #[trigger] args@[k].expr),
                        decreases args@.len() - i,
                    {
                        proof {
                            assert(decreases_to!(*expr => args@[i as int].expr));
                        }
                        let e = self.lower_expr(&args[i].expr)?;
                        lowered_args.push(TypedCallArg { name: args[i].name.clone(), expr: e });
                        i = i + 1;
                    }
                    TypedExprKind::Call { callee: Box::new(lowered_callee), args: lowered_args }
                }
            },
            ExprKind::FieldAccess { base, field } => {
                if let Some(action) = lookup_standard_runtime_action(base, field.as_str()) {
                    TypedExprKind::Symbol(TypedSymbol {
                        name: String::from_str(action.qualified_name()),
                        kind: Some(SymbolKind::Runtime),
                    })
                } else {
                    proof {
                        assert(decreases_to!(*expr => **base));
                    }
                    TypedExprKind::FieldAccess { base: Box::new(self.lower_expr(base)?), field: field.clone() }
                }
            },
            ExprKind::Index { base, index } => {
                proof {
                    assert(decreases_to!(*expr => **base));
                    assert(decreases_to!(*expr => **index));
                }
                let b = self.lower_expr(base)?;
                let i = self.lower_expr(index)?;
                TypedExprKind::Index { base: Box::new(b), index: Box::new(i) }
            },
            ExprKind::Unary { op, expr: inner } => {
                proof {
                    assert(decreases_to!(*expr => **inner));
                }
                TypedExprKind::Unary { op: *op, expr: Box::new(self.lower_expr(inner)?) }
            },
            ExprKind::Binary { left, op, right } => {
                proof {
                    assert(decreases_to!(*expr => **left));
                    assert(decreases_to!(*expr => **right));
                }
                let l = self.lower_expr(left)?;
                let r = self.lower_expr(right)?;
                TypedExprKind::Binary { left: Box::new(l), op: *op, right: Box::new(r) }
            },
        };
        Ok(TypedExpr { kind, ty, span: expr.span.duplicate() })
    }

    /// Lowers a list of expressions that are parts of `parent`.
    fn lower_exprs(&self, items: &Vec<Expr>, Ghost(parent): Ghost<Expr>) -> (r: Result<Vec<TypedExpr>, Vec<Diagnostic>>)
        requires
            forall|i: int| 0 <= i < items@.len() ==> decreases_to!(parent => #[trigger] items@[i]),
        ensures
            lower_outcome(r),
            r matches Ok(v) ==> v@.len() == items@.len() && forall|k: int|
                0 <= k < items@.len() ==> lowers_closed(items@[k], #[trigger] v@[k]),
        decreases parent, 1int,
    {
        let mut out: Vec<TypedExpr> = Vec::new();
        let mut i: usize = 0;
        while i < items.len()
            invariant
                i <= items@.len(),
                out@.len() == i,
                forall|k: int| 0 <= k < i ==> lowers_closed(items@[k], #[trigger] out@[k]),
                forall|k: int| 0 <= k < items@.len() ==> decreases_to!(parent => #[trigger] items@[k]),
            decreases items@.len() - i,
        {
            proof {
                assert(decreases_to!(parent => items@[i as int]));
            }
            out.push(self.lower_expr(&items[i])?);
            i = i + 1;
        }
        Ok(out)
    }

    /// The type recorded for node `id`: from the extra records when they
    /// have one, else from the checked module.
    spec fn recorded_as(&self, id: NodeId, t: Type) -> bool {
        if has_node(self.extra_expr_types@, id) {
            node_typed(self.extra_expr_types@, id, t)
        } else {
            node_typed(self.checked.expr_types@, id, t)
        }
    }

    /// A name that is a payload-free variant of the enum it was typed as.
    fn lower_zero_arg_variant_constructor(&self, expr: &Expr, name: &str) -> (r: Result<Option<TypedExprKind>, Vec<Diagnostic>>)
        ensures
            lower_outcome(r),
            r is Ok <==> (has_node(self.extra_expr_types@, expr.id) || has_node(self.checked.expr_types@, expr.id)),
            r matches Ok(o) ==> exists|t: Type| #[trigger] self.recorded_as(expr.id, t) && (o is Some
                <==> zero_arg_variant(self.checked.enums@, t, name@)) && (o matches Some(k) ==> zero_arg_constructor(
                t,
                name@,
                k,
            )),
    {
        let ty = self.expr_type(expr)?;
        proof {
            assert(self.recorded_as(expr.id, ty));
        }
        match ty {
            Type::Enum(enum_name) => {
                let variant = match lookup(&self.checked.enums, enum_name.as_str()) {
                    Some(et) => lookup(&et.variants, name),
                    None => None,
                };
                match variant {
                    Some(v) => {
                        if v.fields.len() != 0 {
                            return Ok(None);
                        }
                        Ok(Some(TypedExprKind::VariantConstructor {
                            variant_type: enum_name,
                            variant_name: crate::text::text(name),
                            field_names: Vec::new(),
                            args: Vec::new(),
                        }))
                    },
                    None => Ok(None),
                }
            },
            _ => Ok(None),
        }
    }

    /// `Some(x)`, `Ok(x)`, `Err(x)` and calls of enum variants, with their
    /// arguments lowered; `None` for any other call.
    fn lower_variant_constructor_call(&self, callee: &Expr, args: &Vec<CallArg>, Ghost(parent): Ghost<Expr>) -> (r: Result<Option<TypedExprKind>, Vec<Diagnostic>>)
        requires
            forall|i: int| 0 <= i < args@.len() ==> decreases_to!(parent => #[trigger] args@[i].expr),
        ensures
            lower_outcome(r),
            !(callee.kind is Name) ==> r == Ok::<Option<TypedExprKind>, Vec<Diagnostic>>(None),
            callee.kind matches ExprKind::Name(n) ==> (r matches Ok(o) ==> match variant_call_type(
                self.checked.enums@,
                n@,
            ) {
                Some(vt) => o matches Some(k) && constructs_variant(k, vt, n@, args@),
                None => o is None,
            }),
        decreases parent, 1int,
    {
        let name = match &callee.kind {
            ExprKind::Name(n) => n,
            _ => {
                return Ok(None);
            },
        };
        let mut lowered_args: Vec<TypedExpr> = Vec::new();
        let mut i: usize = 0;
        while i < args.len()
            invariant
                i <= args@.len(),
                forall|k: int| 0 <= k < args@.len() ==> decreases_to!(parent => #[trigger] args@[k].expr),
                lowered_args@.len() == i,
                callee.kind == ExprKind::Name(*name),
                forall|k: int| 0 <= k < i ==> lowers_closed(args@[k].expr, #[trigger] lowered_args@[k]),
            decreases args@.len() - i,
        {
            proof {
                assert(decreases_to!(parent => args@[i as int].expr));
            }
            let t = self.lower_expr(&args[i].expr)?;
            lowered_args.push(t);
            i = i + 1;
        }
        if str_eq(name.as_str(), "Some") {
            return Ok(Some(TypedExprKind::VariantConstructor {
                variant_type: String::from_str("Option"),
                variant_name: String::from_str("Some"),
                field_names: one_name("value"),
                args: lowered_args,
            }));
        }
        let is_ok = str_eq(name.as_str(), "Ok");
        if is_ok || str_eq(name.as_str(), "Err") {
            return Ok(Some(TypedExprKind::VariantConstructor {
                variant_type: String::from_str("Result"),
                variant_name: name.clone(),
                field_names: if is_ok { one_name("value") } else { one_name("error") },
                args: lowered_args,
            }));
        }
        let ghost es = self.checked.enums@;
        let mut j: usize = 0;
        while j < self.checked.enums.len()
            invariant
                j <= self.checked.enums@.len(),
                es == self.checked.enums@,
                callee.kind == ExprKind::Name(*name),
                name@ != "Some"@ && name@ != "Ok"@ && name@ != "Err"@,
                lowered_args@.len() == args@.len(),
                forall|k: int| 0 <= k < args@.len() ==> lowers_closed(args@[k].expr, #[trigger] lowered_args@[k]),
                forall|k: int| 0 <= k < j ==> crate::types::find_key_spec((#[trigger] es[k]).1.variants@, name@) is None,
            decreases self.checked.enums@.len() - j,
        {
            if let Some(v) = lookup(&self.checked.enums[j].1.variants, name.as_str()) {
                proof {
                    lemma_first_enum_with_variant(es, name@, j as int);
                }
                return Ok(Some(TypedExprKind::VariantConstructor {
                    variant_type: self.checked.enums[j].0.clone(),
                    variant_name: name.clone(),
                    field_names: field_names_of(&v.fields),
                    args: lowered_args,
                }));
            }
            j = j + 1;
        }
        proof {
            if first_enum_with_variant(es, name@) is Some {
                let c = choose|x: int| 0 <= x < es.len() && crate::types::find_key_spec(es[x].1.variants@, name@) is Some;
                assert(crate::types::find_key_spec(es[c].1.variants@, name@) is None);
            }
        }
        Ok(None)
    }

    /// `base.is_ok()` and the other built-in result and option operations,
    /// lowered to their dedicated nodes when `base` has the matching type.
    fn lower_builtin_result_or_option_call(&self, callee: &Expr, args: &Vec<CallArg>, Ghost(parent): Ghost<Expr>) -> (r: Result<Option<TypedExprKind>, Vec<Diagnostic>>)
        requires
            decreases_to!(parent => *callee),
        ensures
            lower_outcome(r),
            !(callee.kind is FieldAccess) ==> r == Ok::<Option<TypedExprKind>, Vec<Diagnostic>>(None),
            callee.kind matches ExprKind::FieldAccess { base, field } ==> ((args@.len() != 0 || exists|
                a: crate::standard_runtime::StandardRuntimeAction,
            | crate::types::runtime_action_named(*base, field@, a)) ==> r == Ok::<
                Option<TypedExprKind>,
                Vec<Diagnostic>,
            >(None)),
            callee.kind matches ExprKind::FieldAccess { base, field } ==> (r matches Ok(o) ==> (args@.len() == 0
                && !(exists|a: crate::standard_runtime::StandardRuntimeAction| crate::types::runtime_action_named(
                *base,
                field@,
                a,
            )) ==> exists|t: Type| #[trigger] self.recorded_as(base.id, t) && match builtin_member_op(t, field@) {
                Some(op) => o matches Some(k) && member_kind(op, k, *base),
                None => o is None,
            })),
        decreases parent, 1int,
    {
        let (base, field) = match &callee.kind {
            ExprKind::FieldAccess { base, field } => (base, field),
            _ => {
                return Ok(None);
            },
        };
        if args.len() != 0 || lookup_standard_runtime_action(base, field.as_str()).is_some() {
            return Ok(None);
        }
        let base_type = self.expr_type(base)?;
        proof {
            assert(self.recorded_as(base.id, base_type));
        }
        let f = field.as_str();
        let op = match &base_type {
            Type::Result(_, _) => {
                if str_eq(f, "is_ok") {
                    Some(BuiltinMemberOp::ResultIsOk)
                } else if str_eq(f, "is_err") {
                    Some(BuiltinMemberOp::ResultIsErr)
                } else if str_eq(f, "value") {
                    Some(BuiltinMemberOp::ResultValue)
                } else if str_eq(f, "error") {
                    Some(BuiltinMemberOp::ResultError)
                } else {
                    None
                }
            },
            Type::Option(_) => {
                if str_eq(f, "is_some") {
                    Some(BuiltinMemberOp::OptionIsSome)
                } else if str_eq(f, "is_none") {
                    Some(BuiltinMemberOp::OptionIsNone)
                } else if str_eq(f, "value") {
                    Some(BuiltinMemberOp::OptionValue)
                } else {
                    None
                }
            },
            _ => None,
        };
        let op = match op {
            Some(o) => o,
            None => {
                return Ok(None);
            },
        };
        proof {
            assert(decreases_to!(*callee => **base));
        }
        let target = Box::new(self.lower_expr(base)?);
        let kind = match op {
            BuiltinMemberOp::ResultIsOk => TypedExprKind::ResultIsOk { target },
            BuiltinMemberOp::ResultIsErr => TypedExprKind::ResultIsErr { target },
            BuiltinMemberOp::ResultValue => TypedExprKind::ResultValue { target },
            BuiltinMemberOp::ResultError => TypedExprKind::ResultError { target },
            BuiltinMemberOp::OptionIsSome => TypedExprKind::OptionIsSome { target },
            BuiltinMemberOp::OptionIsNone => TypedExprKind::OptionIsNone { target },
            BuiltinMemberOp::OptionValue => TypedExprKind::OptionValue { target },
        };
        Ok(Some(kind))
    }
}

/// How lowering keeps an expression built from literals and operators:
/// the same span, each literal the same literal, and each operator the same
/// operator over the lowered operands.
pub open spec fn lowers_closed(e: Expr, t: TypedExpr) -> bool
    decreases e,
{
    &&& t.span == e.span
    &&& match e.kind {
        ExprKind::Int(v) => t.kind == TypedExprKind::Literal(TypedLiteral::Int(v)),
        ExprKind::Dec(v) => t.kind == TypedExprKind::Literal(TypedLiteral::Dec(v)),
        ExprKind::String(v) => t.kind == TypedExprKind::Literal(TypedLiteral::String(v)),
        ExprKind::Bool(v) => t.kind == TypedExprKind::Literal(TypedLiteral::Bool(v)),
        ExprKind::NoneLiteral => t.kind == TypedExprKind::Literal(TypedLiteral::NoneLiteral),
        ExprKind::Unary { op, expr } => match t.kind {
            TypedExprKind::Unary { op: lowered_op, expr: lowered } => lowered_op == op && lowers_closed(*expr, *lowered),
            _ => false,
        },
        ExprKind::Binary { left, op, right } => match t.kind {
            TypedExprKind::Binary { left: l, op: lowered_op, right: r } => lowered_op == op && lowers_closed(*left, *l)
                && lowers_closed(*right, *r),
            _ => false,
        },
        _ => true,
    }
}

/// Lowers a checked module, declaration by declaration and in order.
pub fn lower_module(checked: &CheckedModule) -> (r: Result<TypedIrModule, Vec<Diagnostic>>)
    requires
        checked.well_formed(),
    ensures
        lower_outcome(r),
        r matches Ok(m) ==> m.declarations@.len() == checked.module.declarations@.len(),
        r matches Ok(m) ==> forall|i: int| 0 <= i < m.declarations@.len()
            ==> lowered_decl_matches(#[trigger] m.declarations@[i], checked.module.declarations@[i]),
        r matches Ok(m) ==> (m.module_name is Some <==> checked.module.module_decl is Some),
{
    let none_types: Vec<(NodeId, Type)> = Vec::new();
    let none_targets: Vec<(SourceSpan, Type)> = Vec::new();
    let none_mutability: Vec<(SourceSpan, bool)> = Vec::new();
    let ctx = LowerCtx {
        checked,
        extra_expr_types: &none_types,
        extra_target_types: &none_targets,
        extra_target_mutability: &none_mutability,
    };
    let decls = &checked.module.declarations;
    let mut declarations: Vec<TypedDecl> = Vec::new();
    let mut i: usize = 0;
    while i < decls.len()
        invariant
            i <= decls@.len(),
            declarations@.len() == i,
            forall|k: int| 0 <= k < i ==> lowered_decl_matches(#[trigger] declarations@[k], decls@[k]),
            ctx.checked == checked,
            checked.well_formed(),
            *decls == checked.module.declarations,
        decreases decls@.len() - i,
    {
        assert(crate::types::declared_actions_registered(decls@, checked.actions@));
        assert(decls@[i as int] matches Decl::Action(a) ==> has_key(checked.actions@, a.name@));
        assert(decls@[i as int] matches Decl::Extern(e) ==> has_key(checked.externs@, e.name@));
        declarations.push(ctx.lower_decl(&decls[i])?);
        i = i + 1;
    }
    let module_name = match &checked.module.module_decl {
        Some(md) => Some(md.name.as_string()),
        None => None,
    };
    Ok(TypedIrModule { module_name, declarations, span: checked.module.span.duplicate() })
}

/// Lowers an expression checked against a module; `expr_types` holds the
/// types the check assigned to its nodes.
pub fn lower_expression(checked: &CheckedModule, expr: &Expr, expr_types: &Vec<(NodeId, Type)>) -> (r: Result<TypedExpr, Vec<Diagnostic>>)
    ensures
        lower_outcome(r),
        r matches Ok(t) ==> lowers_closed(*expr, t),
{
    let none_targets: Vec<(SourceSpan, Type)> = Vec::new();
    let none_mutability: Vec<(SourceSpan, bool)> = Vec::new();
    let ctx = LowerCtx {
        checked,
        extra_expr_types: expr_types,
        extra_target_types: &none_targets,
        extra_target_mutability: &none_mutability,
    };
    ctx.lower_expr(expr)
}

/// Lowers an interactive statement checked against a module.
pub fn lower_statement(checked: &CheckedModule, stmt: &Stmt, checked_stmt: &CheckedStmt) -> (r: Result<TypedStmt, Vec<Diagnostic>>)
    ensures
        lower_outcome(r),
        r matches Ok(t) ==> t.span == stmt.span,
        stmt.kind is IntentBlock || stmt.kind is ExplainBlock ==> r is Ok,
        stmt.kind matches StmtKind::Let { explicit_type: Some(ty), .. } ==> ((forall|w: Type|
            !lowers_to(checked.records@, checked.enums@, ty, w)) ==> r is Err),
        stmt.kind matches StmtKind::Var { explicit_type: Some(ty), .. } ==> ((forall|w: Type|
            !lowers_to(checked.records@, checked.enums@, ty, w)) ==> r is Err),
        stmt.kind matches StmtKind::Let { explicit_type: None, value, .. } ==> (!(has_node(
            checked_stmt.expr_types@,
            value.id,
        ) || has_node(checked.expr_types@, value.id)) ==> r is Err),
        stmt.kind matches StmtKind::Var { explicit_type: None, value, .. } ==> (!(has_node(
            checked_stmt.expr_types@,
            value.id,
        ) || has_node(checked.expr_types@, value.id)) ==> r is Err),
{
    let ctx = LowerCtx {
        checked,
        extra_expr_types: &checked_stmt.expr_types,
        extra_target_types: &checked_stmt.target_types,
        extra_target_mutability: &checked_stmt.target_root_mutability,
    };
    ctx.lower_stmt(stmt)
}

} // verus!
