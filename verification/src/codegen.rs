//! The Rust code generator: a lowered module becomes a Rust syntax tree, and
//! the tree becomes source text for a standalone program.
use vstd::prelude::*;

use crate::ast::{BinaryOp, UnaryOp};
use crate::diagnostics::{failure_of, Diagnostic, Phase, SourceSpan};
use crate::resolver::SymbolKind;
use crate::standard_runtime::{lookup_standard_runtime_name, StandardRuntimeAction};
use crate::text::{concat, concat3, debug_quoted, escaped, i64_text, int_text, join, joined, str_eq, views_of};
use crate::tir::{
    TypedActionDecl, TypedBindingPattern, TypedBindingPatternKind, TypedCallArg, TypedDecl, TypedExpr,
    TypedExprKind, TypedIrModule, TypedLiteral, TypedMatchArm, TypedPattern, TypedPatternKind, TypedStmt,
    TypedStmtKind, TypedSymbol, TypedTarget, TypedTestDecl,
};
use crate::types::{type_eq, Type};

verus! {

broadcast use vstd::std_specs::vec::group_vec_axioms;

/// A generated Rust source file: its `use` lines and its items.
#[derive(Debug, PartialEq)]
pub struct RustModule {
    pub uses: Vec<String>,
    pub items: Vec<RustItem>,
}

/// A top-level item of the generated file.
#[derive(Debug, PartialEq)]
pub enum RustItem {
    Raw(String),
    Struct { name: String, fields: Vec<(String, RustType)> },
    Enum { name: String, variants: Vec<RustEnumVariant> },
    Function { name: String, params: Vec<RustParam>, result: RustType, body: Vec<RustStmt>, is_pub: bool },
}

/// A parameter of a generated function.
#[derive(Debug, PartialEq)]
pub struct RustParam {
    pub name: String,
    pub ty: RustType,
    pub mutable: bool,
}

/// A variant of a generated enum, with its named fields.
#[derive(Debug, PartialEq)]
pub struct RustEnumVariant {
    pub name: String,
    pub fields: Vec<(String, RustType)>,
}

/// A statement of a generated function.
#[derive(Debug, PartialEq)]
pub enum RustStmt {
    Let { name: String, ty: Option<RustType>, value: RustExpr, mutable: bool },
    Assign { target: RustExpr, value: RustExpr },
    If { condition: RustExpr, then_body: Vec<RustStmt>, else_body: Vec<RustStmt> },
    While { condition: RustExpr, body: Vec<RustStmt> },
    ForEach { binding: String, iterable: RustExpr, body: Vec<RustStmt> },
    Return(Option<RustExpr>),
    Break,
    Continue,
    Expr(RustExpr),
    Raw(String),
}

/// An expression of a generated function.
#[derive(Debug, PartialEq)]
pub enum RustExpr {
    Raw(String),
    Call { callee: String, args: Vec<RustExpr> },
    MethodCall { receiver: Box<RustExpr>, method: String, args: Vec<RustExpr> },
    Field { base: Box<RustExpr>, field: String },
    Binary { left: Box<RustExpr>, op: String, right: Box<RustExpr> },
    Unary { op: String, expr: Box<RustExpr> },
}

/// A type of the generated code: `()` or a written-out path.
#[derive(Debug, PartialEq)]
pub enum RustType {
    Unit,
    Path(String),
}

/// A failed generation reports at least one diagnostic, all of the codegen
/// phase.
pub open spec fn codegen_outcome<T>(r: Result<T, Vec<Diagnostic>>) -> bool {
    r matches Err(ds) ==> failure_of(ds@, Phase::Codegen)
}

/// A code generation failure with one message at `span`.
fn codegen_fail<T>(span: &SourceSpan, message: String) -> (r: Result<T, Vec<Diagnostic>>)
    ensures
        r matches Err(ds) && ds@.len() == 1 && ds@[0].phase == Phase::Codegen && ds@[0].message@ == message@
            && ds@[0].span == *span,
        codegen_outcome(r),
{
    let ds = crate::diagnostics::one(Diagnostic::new(span.duplicate(), Phase::Codegen, message));
    proof {
        assert(crate::diagnostics::all_in_phase(ds@, Phase::Codegen));
    }
    Err(ds)
}

/// A raw expression holding `text`.
fn raw(text: String) -> (r: RustExpr)
    ensures
        r == RustExpr::Raw(text),
{
    RustExpr::Raw(text)
}

/// The name of the generated function for action `name`.
pub open spec fn action_fn_name_spec(name: Seq<char>) -> Seq<char> {
    "vulgata_action_"@ + name
}

fn action_fn_name(name: &str) -> (r: String)
    ensures
        r@ == action_fn_name_spec(name@),
{
    concat("vulgata_action_", name)
}

/// The name of the generated function for constant `name`.
pub open spec fn const_fn_name_spec(name: Seq<char>) -> Seq<char> {
    "vulgata_const_"@ + name
}

fn const_fn_name(name: &str) -> (r: String)
    ensures
        r@ == const_fn_name_spec(name@),
{
    concat("vulgata_const_", name)
}

/// The name of the generated function for test `name`.
pub open spec fn test_fn_name_spec(name: Seq<char>) -> Seq<char> {
    "vulgata_test_"@ + name
}

fn test_fn_name(name: &str) -> (r: String)
    ensures
        r@ == test_fn_name_spec(name@),
{
    concat("vulgata_test_", name)
}

/// The Rust operator for a binary operator.
pub open spec fn binary_op_text(op: BinaryOp) -> Seq<char> {
    match op {
        BinaryOp::Add => "+"@,
        BinaryOp::Subtract => "-"@,
        BinaryOp::Multiply => "*"@,
        BinaryOp::Divide => "/"@,
        BinaryOp::Modulo => "%"@,
        BinaryOp::Equal => "=="@,
        BinaryOp::NotEqual => "!="@,
        BinaryOp::Less => "<"@,
        BinaryOp::LessEqual => "<="@,
        BinaryOp::Greater => ">"@,
        BinaryOp::GreaterEqual => ">="@,
        BinaryOp::And => "&&"@,
        BinaryOp::Or => "||"@,
    }
}

fn binary_op(op: BinaryOp) -> (r: &'static str)
    ensures
        r@ == binary_op_text(op),
{
    match op {
        BinaryOp::Add => "+",
        BinaryOp::Subtract => "-",
        BinaryOp::Multiply => "*",
        BinaryOp::Divide => "/",
        BinaryOp::Modulo => "%",
        BinaryOp::Equal => "==",
        BinaryOp::NotEqual => "!=",
        BinaryOp::Less => "<",
        BinaryOp::LessEqual => "<=",
        BinaryOp::Greater => ">",
        BinaryOp::GreaterEqual => ">=",
        BinaryOp::And => "&&",
        BinaryOp::Or => "||",
    }
}

/// How tightly a Rust binary operator binds: `||` loosest, then `&&`, the
/// comparisons, `+ -`, and `* / %` tightest; 0 for any other text.
pub open spec fn precedence_of(op: Seq<char>) -> u8 {
    if op == "||"@ {
        10
    } else if op == "&&"@ {
        20
    } else if op == "=="@ || op == "!="@ || op == "<"@ || op == "<="@ || op == ">"@ || op == ">="@ {
        30
    } else if op == "+"@ || op == "-"@ {
        40
    } else if op == "*"@ || op == "/"@ || op == "%"@ {
        50
    } else {
        0
    }
}

fn binary_precedence(op: &str) -> (r: u8)
    ensures
        r == precedence_of(op@),
{
    if str_eq(op, "||") {
        10
    } else if str_eq(op, "&&") {
        20
    } else if str_eq(op, "==") || str_eq(op, "!=") || str_eq(op, "<") || str_eq(op, "<=") || str_eq(op, ">")
        || str_eq(op, ">=") {
        30
    } else if str_eq(op, "+") || str_eq(op, "-") {
        40
    } else if str_eq(op, "*") || str_eq(op, "/") || str_eq(op, "%") {
        50
    } else {
        0
    }
}

/// The binding strength of each Rust operator the generated code uses.
proof fn lemma_rust_precedences()
    ensures
        precedence_of("||"@) == 10,
        precedence_of("&&"@) == 20,
        precedence_of("=="@) == 30,
        precedence_of("!="@) == 30,
        precedence_of("<"@) == 30,
        precedence_of("<="@) == 30,
        precedence_of(">"@) == 30,
        precedence_of(">="@) == 30,
        precedence_of("+"@) == 40,
        precedence_of("-"@) == 40,
        precedence_of("*"@) == 50,
        precedence_of("/"@) == 50,
        precedence_of("%"@) == 50,
{
    reveal_strlit("||");
    reveal_strlit("&&");
    reveal_strlit("==");
    reveal_strlit("!=");
    reveal_strlit("<");
    reveal_strlit("<=");
    reveal_strlit(">");
    reveal_strlit(">=");
    reveal_strlit("+");
    reveal_strlit("-");
    reveal_strlit("*");
    reveal_strlit("/");
    reveal_strlit("%");
    assert("&&"@ != "||"@) by {
        assert("&&"@[0] != "||"@[0]);
    }
    assert("=="@ != "||"@) by {
        assert("=="@[0] != "||"@[0]);
    }
    assert("=="@ != "&&"@) by {
        assert("=="@[0] != "&&"@[0]);
    }
    assert("!="@ != "||"@) by {
        assert("!="@[0] != "||"@[0]);
    }
    assert("!="@ != "&&"@) by {
        assert("!="@[0] != "&&"@[0]);
    }
    assert("!="@ != "=="@) by {
        assert("!="@[0] != "=="@[0]);
    }
    assert("<"@ != "||"@) by {
        assert("<"@.len() != "||"@.len());
    }
    assert("<"@ != "&&"@) by {
        assert("<"@.len() != "&&"@.len());
    }
    assert("<"@ != "=="@) by {
        assert("<"@.len() != "=="@.len());
    }
    assert("<"@ != "!="@) by {
        assert("<"@.len() != "!="@.len());
    }
    assert("<="@ != "||"@) by {
        assert("<="@[0] != "||"@[0]);
    }
    assert("<="@ != "&&"@) by {
        assert("<="@[0] != "&&"@[0]);
    }
    assert("<="@ != "=="@) by {
        assert("<="@[0] != "=="@[0]);
    }
    assert("<="@ != "!="@) by {
        assert("<="@[0] != "!="@[0]);
    }
    assert("<="@ != "<"@) by {
        assert("<="@.len() != "<"@.len());
    }
    assert(">"@ != "||"@) by {
        assert(">"@.len() != "||"@.len());
    }
    assert(">"@ != "&&"@) by {
        assert(">"@.len() != "&&"@.len());
    }
    assert(">"@ != "=="@) by {
        assert(">"@.len() != "=="@.len());
    }
    assert(">"@ != "!="@) by {
        assert(">"@.len() != "!="@.len());
    }
    assert(">"@ != "<"@) by {
        assert(">"@[0] != "<"@[0]);
    }
    assert(">"@ != "<="@) by {
        assert(">"@.len() != "<="@.len());
    }
    assert(">="@ != "||"@) by {
        assert(">="@[0] != "||"@[0]);
    }
    assert(">="@ != "&&"@) by {
        assert(">="@[0] != "&&"@[0]);
    }
    assert(">="@ != "=="@) by {
        assert(">="@[0] != "=="@[0]);
    }
    assert(">="@ != "!="@) by {
        assert(">="@[0] != "!="@[0]);
    }
    assert(">="@ != "<"@) by {
        assert(">="@.len() != "<"@.len());
    }
    assert(">="@ != "<="@) by {
        assert(">="@[0] != "<="@[0]);
    }
    assert(">="@ != ">"@) by {
        assert(">="@.len() != ">"@.len());
    }
    assert("+"@ != "||"@) by {
        assert("+"@.len() != "||"@.len());
    }
    assert("+"@ != "&&"@) by {
        assert("+"@.len() != "&&"@.len());
    }
    assert("+"@ != "=="@) by {
        assert("+"@.len() != "=="@.len());
    }
    assert("+"@ != "!="@) by {
        assert("+"@.len() != "!="@.len());
    }
    assert("+"@ != "<"@) by {
        assert("+"@[0] != "<"@[0]);
    }
    assert("+"@ != "<="@) by {
        assert("+"@.len() != "<="@.len());
    }
    assert("+"@ != ">"@) by {
        assert("+"@[0] != ">"@[0]);
    }
    assert("+"@ != ">="@) by {
        assert("+"@.len() != ">="@.len());
    }
    assert("-"@ != "||"@) by {
        assert("-"@.len() != "||"@.len());
    }
    assert("-"@ != "&&"@) by {
        assert("-"@.len() != "&&"@.len());
    }
    assert("-"@ != "=="@) by {
        assert("-"@.len() != "=="@.len());
    }
    assert("-"@ != "!="@) by {
        assert("-"@.len() != "!="@.len());
    }
    assert("-"@ != "<"@) by {
        assert("-"@[0] != "<"@[0]);
    }
    assert("-"@ != "<="@) by {
        assert("-"@.len() != "<="@.len());
    }
    assert("-"@ != ">"@) by {
        assert("-"@[0] != ">"@[0]);
    }
    assert("-"@ != ">="@) by {
        assert("-"@.len() != ">="@.len());
    }
    assert("-"@ != "+"@) by {
        assert("-"@[0] != "+"@[0]);
    }
    assert("*"@ != "||"@) by {
        assert("*"@.len() != "||"@.len());
    }
    assert("*"@ != "&&"@) by {
        assert("*"@.len() != "&&"@.len());
    }
    assert("*"@ != "=="@) by {
        assert("*"@.len() != "=="@.len());
    }
    assert("*"@ != "!="@) by {
        assert("*"@.len() != "!="@.len());
    }
    assert("*"@ != "<"@) by {
        assert("*"@[0] != "<"@[0]);
    }
    assert("*"@ != "<="@) by {
        assert("*"@.len() != "<="@.len());
    }
    assert("*"@ != ">"@) by {
        assert("*"@[0] != ">"@[0]);
    }
    assert("*"@ != ">="@) by {
        assert("*"@.len() != ">="@.len());
    }
    assert("*"@ != "+"@) by {
        assert("*"@[0] != "+"@[0]);
    }
    assert("*"@ != "-"@) by {
        assert("*"@[0] != "-"@[0]);
    }
    assert("/"@ != "||"@) by {
        assert("/"@.len() != "||"@.len());
    }
    assert("/"@ != "&&"@) by {
        assert("/"@.len() != "&&"@.len());
    }
    assert("/"@ != "=="@) by {
        assert("/"@.len() != "=="@.len());
    }
    assert("/"@ != "!="@) by {
        assert("/"@.len() != "!="@.len());
    }
    assert("/"@ != "<"@) by {
        assert("/"@[0] != "<"@[0]);
    }
    assert("/"@ != "<="@) by {
        assert("/"@.len() != "<="@.len());
    }
    assert("/"@ != ">"@) by {
        assert("/"@[0] != ">"@[0]);
    }
    assert("/"@ != ">="@) by {
        assert("/"@.len() != ">="@.len());
    }
    assert("/"@ != "+"@) by {
        assert("/"@[0] != "+"@[0]);
    }
    assert("/"@ != "-"@) by {
        assert("/"@[0] != "-"@[0]);
    }
    assert("/"@ != "*"@) by {
        assert("/"@[0] != "*"@[0]);
    }
    assert("%"@ != "||"@) by {
        assert("%"@.len() != "||"@.len());
    }
    assert("%"@ != "&&"@) by {
        assert("%"@.len() != "&&"@.len());
    }
    assert("%"@ != "=="@) by {
        assert("%"@.len() != "=="@.len());
    }
    assert("%"@ != "!="@) by {
        assert("%"@.len() != "!="@.len());
    }
    assert("%"@ != "<"@) by {
        assert("%"@[0] != "<"@[0]);
    }
    assert("%"@ != "<="@) by {
        assert("%"@.len() != "<="@.len());
    }
    assert("%"@ != ">"@) by {
        assert("%"@[0] != ">"@[0]);
    }
    assert("%"@ != ">="@) by {
        assert("%"@.len() != ">="@.len());
    }
    assert("%"@ != "+"@) by {
        assert("%"@[0] != "+"@[0]);
    }
    assert("%"@ != "-"@) by {
        assert("%"@[0] != "-"@[0]);
    }
    assert("%"@ != "*"@) by {
        assert("%"@[0] != "*"@[0]);
    }
    assert("%"@ != "/"@) by {
        assert("%"@[0] != "/"@[0]);
    }
}

/// Whether a binary operator is one of the comparisons.
pub open spec fn is_comparison(op: BinaryOp) -> bool {
    op is Equal || op is NotEqual || op is Less || op is LessEqual || op is Greater || op is GreaterEqual
}

/// The generated operators bind as Rust binds them: `||` more loosely than
/// `&&`, `&&` than every comparison, the comparisons than `+` and `-`, and
/// those than `*`, `/` and `%`; operators of one group bind alike, and
/// every one of them is a binary operator of Rust.
pub proof fn generated_operators_bind_as_in_rust(x: BinaryOp, y: BinaryOp)
    ensures
        precedence_of(binary_op_text(x)) > 0,
        precedence_of(binary_op_text(BinaryOp::Or)) < precedence_of(binary_op_text(BinaryOp::And)),
        is_comparison(x) ==> precedence_of(binary_op_text(BinaryOp::And)) < precedence_of(binary_op_text(x))
            && precedence_of(binary_op_text(x)) < precedence_of(binary_op_text(BinaryOp::Add)),
        is_comparison(x) && is_comparison(y) ==> precedence_of(binary_op_text(x)) == precedence_of(binary_op_text(y)),
        precedence_of(binary_op_text(BinaryOp::Add)) == precedence_of(binary_op_text(BinaryOp::Subtract)),
        precedence_of(binary_op_text(BinaryOp::Subtract)) < precedence_of(binary_op_text(BinaryOp::Multiply)),
        precedence_of(binary_op_text(BinaryOp::Multiply)) == precedence_of(binary_op_text(BinaryOp::Divide)),
        precedence_of(binary_op_text(BinaryOp::Divide)) == precedence_of(binary_op_text(BinaryOp::Modulo)),
{
    lemma_rust_precedences();
}

/// An `||` that stands as an operand of `&&`, on either side, is written in
/// parentheses, and an `&&` that stands as an operand of `||` is not: the
/// text reads back as the tree it was written from.
pub proof fn disjunction_under_conjunction_is_parenthesized(a: RustExpr, b: RustExpr, c: RustExpr, or_op: String, and_op: String)
    requires
        or_op@ == "||"@,
        and_op@ == "&&"@,
    ensures
        ({
            let inner = RustExpr::Binary { left: Box::new(a), op: or_op, right: Box::new(b) };
            let outer = RustExpr::Binary { left: Box::new(inner), op: and_op, right: Box::new(c) };
            expr_text(outer, 0, false) == "("@ + expr_text(inner, 0, false) + ")"@ + " "@ + and_op@ + " "@ + expr_text(
                c,
                precedence_of("&&"@),
                true,
            )
        }),
        ({
            let inner = RustExpr::Binary { left: Box::new(a), op: or_op, right: Box::new(b) };
            let outer = RustExpr::Binary { left: Box::new(c), op: and_op, right: Box::new(inner) };
            expr_text(outer, 0, false) == expr_text(c, precedence_of("&&"@), false) + " "@ + and_op@ + " "@ + ("("@ + expr_text(
                inner,
                0,
                false,
            ) + ")"@)
        }),
        ({
            let inner = RustExpr::Binary { left: Box::new(a), op: and_op, right: Box::new(b) };
            let outer = RustExpr::Binary { left: Box::new(inner), op: or_op, right: Box::new(c) };
            expr_text(outer, 0, false) == expr_text(inner, 0, false) + " "@ + or_op@ + " "@ + expr_text(c, precedence_of("||"@), true)
        }),
{
    lemma_rust_precedences();
    let or_expr = RustExpr::Binary { left: Box::new(a), op: or_op, right: Box::new(b) };
    let t = expr_text(a, 10, false) + " "@ + or_op@ + " "@ + expr_text(b, 10, true);
    assert(expr_text(or_expr, 0, false) == t);
    assert(expr_text(or_expr, 20, false) == "("@ + t + ")"@);
    assert(expr_text(or_expr, 20, true) == "("@ + t + ")"@);
    let and_expr = RustExpr::Binary { left: Box::new(a), op: and_op, right: Box::new(b) };
    let u = expr_text(a, 20, false) + " "@ + and_op@ + " "@ + expr_text(b, 20, true);
    assert(expr_text(and_expr, 0, false) == u);
    assert(expr_text(and_expr, 10, false) == u);
}

/// A chain of one operator grouped to the left is written without
/// parentheses, as Rust groups it; grouped to the right, the inner operation
/// is put in parentheses.
pub proof fn same_operator_chains_keep_their_grouping(a: RustExpr, b: RustExpr, c: RustExpr, op: String)
    requires
        precedence_of(op@) > 0,
    ensures
        ({
            let inner = RustExpr::Binary { left: Box::new(a), op: op, right: Box::new(b) };
            let outer = RustExpr::Binary { left: Box::new(inner), op: op, right: Box::new(c) };
            expr_text(outer, 0, false) == expr_text(inner, 0, false) + " "@ + op@ + " "@ + expr_text(c, precedence_of(op@), true)
        }),
        ({
            let inner = RustExpr::Binary { left: Box::new(b), op: op, right: Box::new(c) };
            let outer = RustExpr::Binary { left: Box::new(a), op: op, right: Box::new(inner) };
            expr_text(outer, 0, false) == expr_text(a, precedence_of(op@), false) + " "@ + op@ + " "@ + ("("@ + expr_text(
                inner,
                0,
                false,
            ) + ")"@)
        }),
{
    let p = precedence_of(op@);
    let left_inner = RustExpr::Binary { left: Box::new(a), op: op, right: Box::new(b) };
    let t = expr_text(a, p, false) + " "@ + op@ + " "@ + expr_text(b, p, true);
    assert(expr_text(left_inner, 0, false) == t);
    assert(expr_text(left_inner, p, false) == t);
    let right_inner = RustExpr::Binary { left: Box::new(b), op: op, right: Box::new(c) };
    let u = expr_text(b, p, false) + " "@ + op@ + " "@ + expr_text(c, p, true);
    assert(expr_text(right_inner, 0, false) == u);
    assert(expr_text(right_inner, p, true) == "("@ + u + ")"@);
}

/// The source text of a generated type.
pub open spec fn type_text(ty: RustType) -> Seq<char> {
    match ty {
        RustType::Unit => "()"@,
        RustType::Path(path) => path@,
    }
}

fn render_type(ty: &RustType) -> (r: String)
    ensures
        r@ == type_text(*ty),
{
    match ty {
        RustType::Unit => String::from_str("()"),
        RustType::Path(path) => path.clone(),
    }
}

/// `expr` read as a fresh copy, for every type a value of the generated
/// program can have.
fn snapshot_expr(expr: &str, ty: &Type) -> (r: String)
    ensures
        (ty is Action || ty is ExternAction || ty is Unknown) ==> r@ == expr@,
        !(ty is Action || ty is ExternAction || ty is Unknown) ==> r@ == "support::snapshot(&"@ + expr@ + ")"@,
{
    match ty {
        Type::Action(_) | Type::ExternAction(_) | Type::Unknown => String::from_str(expr),
        _ => concat3("support::snapshot(&", expr, ")"),
    }
}

/// Four spaces per level of indentation.
pub open spec fn indent_text(levels: nat) -> Seq<char>
    decreases levels,
{
    if levels == 0 {
        Seq::empty()
    } else {
        indent_text((levels - 1) as nat) + "    "@
    }
}

/// One level deeper, staying at the deepest level once there.
fn deeper(indent: usize) -> (r: usize)
    ensures
        r == deeper_spec(indent),
{
    if indent < usize::MAX {
        indent + 1
    } else {
        indent
    }
}

/// Appends `text` as one line, indented by four spaces per level.
fn line(indent: usize, text: &str, output: &mut String)
    ensures
        final(output)@ == old(output)@ + line_text(indent, text@),
{
    let mut pad = String::new();
    let mut i: usize = 0;
    while i < indent
        invariant
            i <= indent,
            pad@ == indent_text(i as nat),
        decreases indent - i,
    {
        pad.append("    ");
        i = i + 1;
    }
    let mut piece = pad;
    piece.append(text);
    piece.append("\n");
    output.append(piece.as_str());
}

/// The source text of an expression standing as an operand of an operator
/// that binds with `parent`: a binary expression is put in parentheses when
/// its operator binds more loosely, or as tightly and it stands on the right;
/// a unary expression binds tighter than any binary one.
pub open spec fn expr_text(e: RustExpr, parent: u8, on_right: bool) -> Seq<char>
    decreases e, 1int,
{
    match e {
        RustExpr::Raw(raw) => raw@,
        RustExpr::Call { callee, args } => {
            proof {
                assert(decreases_to!(e => args));
                assert(decreases_to!(args => args@));
            }
            callee@ + "("@ + args_text(args@) + ")"@
        },
        RustExpr::MethodCall { receiver, method, args } => {
            proof {
                assert(decreases_to!(e => args));
                assert(decreases_to!(args => args@));
            }
            expr_text(*receiver, 0, false) + "."@ + method@ + "("@ + args_text(args@) + ")"@
        },
        RustExpr::Field { base, field } => expr_text(*base, 0, false) + "."@ + field@,
        RustExpr::Binary { left, op, right } => {
            let prec = precedence_of(op@);
            let t = expr_text(*left, prec, false) + " "@ + op@ + " "@ + expr_text(*right, prec, true);
            if prec < parent || (on_right && prec == parent) {
                "("@ + t + ")"@
            } else {
                t
            }
        },
        RustExpr::Unary { op, expr } => {
            let t = op@ + expr_text(*expr, 60, false);
            if 60 < parent {
                "("@ + t + ")"@
            } else {
                t
            }
        },
    }
}

/// The source texts of expressions, separated by `, `.
pub open spec fn args_text(xs: Seq<RustExpr>) -> Seq<char>
    decreases xs, 0int,
{
    if xs.len() == 0 {
        Seq::empty()
    } else {
        proof {
            assert(decreases_to!(xs => xs.drop_last()));
            assert(decreases_to!(xs => xs.last()));
        }
        if xs.len() == 1 {
            expr_text(xs.last(), 0, false)
        } else {
            args_text(xs.drop_last()) + ", "@ + expr_text(xs.last(), 0, false)
        }
    }
}

/// Renders each expression and joins the texts with `, `.
fn render_args(args: &Vec<RustExpr>, Ghost(parent): Ghost<RustExpr>) -> (r: String)
    requires
        forall|i: int| 0 <= i < args@.len() ==> decreases_to!(parent => #[trigger] args@[i]),
    ensures
        r@ == args_text(args@),
    decreases parent, 0int,
{
    let mut out = String::new();
    let mut i: usize = 0;
    while i < args.len()
        invariant
            i <= args@.len(),
            forall|k: int| 0 <= k < args@.len() ==> decreases_to!(parent => #[trigger] args@[k]),
            out@ == args_text(args@.subrange(0, i as int)),
        decreases args@.len() - i,
    {
        proof {
            assert(decreases_to!(parent => args@[i as int]));
            assert(args@.subrange(0, i + 1).drop_last() =~= args@.subrange(0, i as int));
        }
        if i != 0 {
            out.append(", ");
        }
        out.append(render_expr(&args[i]).as_str());
        i = i + 1;
    }
    proof {
        assert(args@.subrange(0, args@.len() as int) =~= args@);
    }
    out
}

/// The source text of an expression at the outermost level.
fn render_expr(expr: &RustExpr) -> (r: String)
    ensures
        r@ == expr_text(*expr, 0, false),
    decreases *expr, 2int,
{
    render_expr_prec(expr, 0, false)
}

/// The source text of an expression that stands as an operand of an
/// operator binding with `parent_prec`; a binary expression is put in
/// parentheses when it binds more loosely, or as tightly on the right.
fn render_expr_prec(expr: &RustExpr, parent_prec: u8, is_right_child: bool) -> (r: String)
    ensures
        r@ == expr_text(*expr, parent_prec, is_right_child),
    decreases *expr, 1int,
{
    match expr {
        RustExpr::Raw(raw) => raw.clone(),
        RustExpr::Call { callee, args } => {
            proof {
                assert forall|i: int| 0 <= i < args@.len() implies decreases_to!(*expr => #[trigger] args@[i]) by {
                    assert(decreases_to!(*expr => args@[i]));
                }
            }
            let rendered = render_args(args, Ghost(*expr));
            let mut out = concat(callee.as_str(), "(");
            out.append(rendered.as_str());
            out.append(")");
            out
        },
        RustExpr::MethodCall { receiver, method, args } => {
            proof {
                assert(decreases_to!(*expr => **receiver));
                assert forall|i: int| 0 <= i < args@.len() implies decreases_to!(*expr => #[trigger] args@[i]) by {
                    assert(decreases_to!(*expr => args@[i]));
                }
            }
            let mut out = render_expr(receiver);
            out.append(".");
            out.append(method.as_str());
            out.append("(");
            let rendered = render_args(args, Ghost(*expr));
            out.append(rendered.as_str());
            out.append(")");
            out
        },
        RustExpr::Field { base, field } => {
            proof {
                assert(decreases_to!(*expr => **base));
            }
            let mut out = render_expr(base);
            out.append(".");
            out.append(field.as_str());
            out
        },
        RustExpr::Binary { left, op, right } => {
            proof {
                assert(decreases_to!(*expr => **left));
                assert(decreases_to!(*expr => **right));
            }
            let prec = binary_precedence(op.as_str());
            let mut rendered = render_expr_prec(left, prec, false);
            rendered.append(" ");
            rendered.append(op.as_str());
            rendered.append(" ");
            rendered.append(render_expr_prec(right, prec, true).as_str());
            if prec < parent_prec || (is_right_child && prec == parent_prec) {
                concat3("(", rendered.as_str(), ")")
            } else {
                rendered
            }
        },
        RustExpr::Unary { op, expr: inner } => {
            proof {
                assert(decreases_to!(*expr => **inner));
            }
            let prec: u8 = 60;
            let rendered = concat(op.as_str(), render_expr_prec(inner, prec, false).as_str());
            if prec < parent_prec {
                concat3("(", rendered.as_str(), ")")
            } else {
                rendered
            }
        },
    }
}

/// One line: the indentation, the text and a line break.
pub open spec fn line_text(indent: usize, text: Seq<char>) -> Seq<char> {
    indent_text(indent as nat) + text + "\n"@
}

/// One level deeper, staying at the deepest level once there.
pub open spec fn deeper_spec(indent: usize) -> usize {
    if indent < usize::MAX {
        (indent + 1) as usize
    } else {
        indent
    }
}

/// The source text of a statement at `indent`. An `else` branch that is a
/// single `if` continues the line of the closing brace, and that `if` is
/// written from the start of the line.
pub open spec fn stmt_text(s: RustStmt, indent: usize) -> Seq<char>
    decreases s, 1int,
{
    match s {
        RustStmt::Let { name, ty, value, mutable } => line_text(
            indent,
            "let "@ + (if mutable { "mut "@ } else { Seq::empty() }) + name@ + (match ty {
                Some(t) => ": "@ + type_text(t),
                None => Seq::empty(),
            }) + " = "@ + expr_text(value, 0, false) + ";"@,
        ),
        RustStmt::Assign { target, value } => line_text(
            indent,
            expr_text(target, 0, false) + " = "@ + expr_text(value, 0, false) + ";"@,
        ),
        RustStmt::If { condition, then_body, else_body } => {
            proof {
                assert(decreases_to!(s => then_body));
                assert(decreases_to!(then_body => then_body@));
                assert(decreases_to!(s => else_body));
                assert(decreases_to!(else_body => else_body@));
            }
            line_text(indent, "if "@ + expr_text(condition, 0, false) + " {"@)
                + block_text(then_body@, deeper_spec(indent)) + if else_body@.len() == 0 {
                line_text(indent, "}"@)
            } else if else_body@.len() == 1 && else_body@[0] is If {
                indent_text(indent as nat) + "} else "@ + stmt_text(else_body@[0], 0)
            } else {
                line_text(indent, "} else {"@) + block_text(else_body@, deeper_spec(indent)) + line_text(indent, "}"@)
            }
        },
        RustStmt::While { condition, body } => {
            proof {
                assert(decreases_to!(s => body));
                assert(decreases_to!(body => body@));
            }
            line_text(indent, "while "@ + expr_text(condition, 0, false) + " {"@)
                + block_text(body@, deeper_spec(indent)) + line_text(indent, "}"@)
        },
        RustStmt::ForEach { binding, iterable, body } => {
            proof {
                assert(decreases_to!(s => body));
                assert(decreases_to!(body => body@));
            }
            line_text(indent, "for "@ + binding@ + " in "@ + expr_text(iterable, 0, false) + ".borrow().iter().cloned() {"@)
                + block_text(body@, deeper_spec(indent)) + line_text(indent, "}"@)
        },
        RustStmt::Return(e) => match e {
            Some(x) => line_text(indent, "return "@ + expr_text(x, 0, false) + ";"@),
            None => line_text(indent, "return;"@),
        },
        RustStmt::Break => line_text(indent, "break;"@),
        RustStmt::Continue => line_text(indent, "continue;"@),
        RustStmt::Expr(e) => line_text(indent, expr_text(e, 0, false) + ";"@),
        RustStmt::Raw(raw) => line_text(indent, raw@),
    }
}

/// The source texts of the statements of a block, one after the other.
pub open spec fn block_text(xs: Seq<RustStmt>, indent: usize) -> Seq<char>
    decreases xs, 0int,
{
    if xs.len() == 0 {
        Seq::empty()
    } else {
        proof {
            assert(decreases_to!(xs => xs.drop_last()));
            assert(decreases_to!(xs => xs.last()));
        }
        block_text(xs.drop_last(), indent) + stmt_text(xs.last(), indent)
    }
}

/// Appends four spaces per level of indentation.
fn indent_to(indent: usize, output: &mut String)
    ensures
        final(output)@ == old(output)@ + indent_text(indent as nat),
{
    let mut pad = String::new();
    let mut i: usize = 0;
    while i < indent
        invariant
            i <= indent,
            pad@ == indent_text(i as nat),
        decreases indent - i,
    {
        pad.append("    ");
        i = i + 1;
    }
    output.append(pad.as_str());
}

/// Appends the source text of a statement at `indent`.
fn render_stmt(stmt: &RustStmt, indent: usize, output: &mut String)
    ensures
        final(output)@ == old(output)@ + stmt_text(*stmt, indent),
    decreases *stmt, 2int,
{
    match stmt {
        RustStmt::If { .. } => render_if(stmt, indent, output),
        RustStmt::While { .. } | RustStmt::ForEach { .. } => render_loop(stmt, indent, output),
        _ => render_simple(stmt, indent, output),
    }
}

/// Appends the one line of a statement without a body.
fn render_simple(stmt: &RustStmt, indent: usize, output: &mut String)
    requires
        !(stmt is If || stmt is While || stmt is ForEach),
    ensures
        final(output)@ == old(output)@ + stmt_text(*stmt, indent),
{
    let text = match stmt {
        RustStmt::Let { name, ty, value, mutable } => {
            let mut text = String::from_str("let ");
            if *mutable {
                text.append("mut ");
            }
            text.append(name.as_str());
            match ty {
                Some(t) => {
                    text.append(": ");
                    text.append(render_type(t).as_str());
                },
                None => {},
            }
            text.append(" = ");
            text.append(render_expr(value).as_str());
            text.append(";");
            text
        },
        RustStmt::Assign { target, value } => {
            let mut text = render_expr(target);
            text.append(" = ");
            text.append(render_expr(value).as_str());
            text.append(";");
            text
        },
        RustStmt::Return(expr) => match expr {
            Some(e) => concat3("return ", render_expr(e).as_str(), ";"),
            None => String::from_str("return;"),
        },
        RustStmt::Break => String::from_str("break;"),
        RustStmt::Continue => String::from_str("continue;"),
        RustStmt::Expr(e) => concat(render_expr(e).as_str(), ";"),
        RustStmt::Raw(raw) => raw.clone(),
        _ => String::new(),
    };
    line(indent, text.as_str(), output);
}

/// Appends the source text of an `if` statement.
#[verifier::rlimit(40)]
fn render_if(stmt: &RustStmt, indent: usize, output: &mut String)
    requires
        stmt is If,
    ensures
        final(output)@ == old(output)@ + stmt_text(*stmt, indent),
    decreases *stmt, 1int,
{
    if let RustStmt::If { condition, then_body, else_body } = stmt {
        proof {
            assert forall|i: int| 0 <= i < then_body@.len() implies decreases_to!(*stmt => #[trigger] then_body@[i]) by {
                assert(decreases_to!(*stmt => then_body@[i]));
            }
            assert forall|i: int| 0 <= i < else_body@.len() implies decreases_to!(*stmt => #[trigger] else_body@[i]) by {
                assert(decreases_to!(*stmt => else_body@[i]));
            }
        }
        let ghost o0 = output@;
        let head = concat3("if ", render_expr(condition).as_str(), " {");
        line(indent, head.as_str(), output);
        let inner = deeper(indent);
        render_block(then_body, inner, output, Ghost(*stmt));
        let ghost o2 = output@;
        proof {
            assert(o2 == o0 + line_text(indent, "if "@ + expr_text(*condition, 0, false) + " {"@)
                + block_text(then_body@, deeper_spec(indent)));
        }
        if else_body.len() == 0 {
            line(indent, "}", output);
            proof {
                assert(output@ =~= o0 + stmt_text(*stmt, indent));
            }
        } else if else_body.len() == 1 && matches!(else_body[0], RustStmt::If { .. }) {
            indent_to(indent, output);
            output.append("} else ");
            proof {
                assert(decreases_to!(*stmt => else_body@[0]));
            }
            render_stmt(&else_body[0], 0, output);
            proof {
                assert(output@ =~= o0 + stmt_text(*stmt, indent));
            }
        } else {
            line(indent, "} else {", output);
            render_block(else_body, inner, output, Ghost(*stmt));
            line(indent, "}", output);
            proof {
                assert(output@ =~= o0 + stmt_text(*stmt, indent));
            }
        }
    }
}

/// Appends the source text of a `while` or `for` loop.
fn render_loop(stmt: &RustStmt, indent: usize, output: &mut String)
    requires
        stmt is While || stmt is ForEach,
    ensures
        final(output)@ == old(output)@ + stmt_text(*stmt, indent),
    decreases *stmt, 1int,
{
    match stmt {
        RustStmt::While { condition, body } => {
            proof {
                assert forall|i: int| 0 <= i < body@.len() implies decreases_to!(*stmt => #[trigger] body@[i]) by {
                    assert(decreases_to!(*stmt => body@[i]));
                }
            }
            let head = concat3("while ", render_expr(condition).as_str(), " {");
            line(indent, head.as_str(), output);
            render_block(body, deeper(indent), output, Ghost(*stmt));
            line(indent, "}", output);
        },
        RustStmt::ForEach { binding, iterable, body } => {
            proof {
                assert forall|i: int| 0 <= i < body@.len() implies decreases_to!(*stmt => #[trigger] body@[i]) by {
                    assert(decreases_to!(*stmt => body@[i]));
                }
            }
            let mut head = concat3("for ", binding.as_str(), " in ");
            head.append(render_expr(iterable).as_str());
            head.append(".borrow().iter().cloned() {");
            line(indent, head.as_str(), output);
            render_block(body, deeper(indent), output, Ghost(*stmt));
            line(indent, "}", output);
        },
        _ => {},
    }
}

/// Appends the source text of each statement of a block at `indent`.
fn render_block(block: &Vec<RustStmt>, indent: usize, output: &mut String, Ghost(parent): Ghost<RustStmt>)
    requires
        forall|i: int| 0 <= i < block@.len() ==> decreases_to!(parent => #[trigger] block@[i]),
    ensures
        final(output)@ == old(output)@ + block_text(block@, indent),
    decreases parent, 0int,
{
    let ghost start = output@;
    let mut i: usize = 0;
    proof {
        assert(block@.subrange(0, 0) =~= Seq::<RustStmt>::empty());
        assert(output@ =~= start + block_text(block@.subrange(0, 0), indent));
    }
    while i < block.len()
        invariant
            i <= block@.len(),
            forall|k: int| 0 <= k < block@.len() ==> decreases_to!(parent => #[trigger] block@[k]),
            output@ == start + block_text(block@.subrange(0, i as int), indent),
        decreases block@.len() - i,
    {
        proof {
            assert(decreases_to!(parent => block@[i as int]));
            assert(block@.subrange(0, i + 1).drop_last() =~= block@.subrange(0, i as int));
        }
        render_stmt(&block[i], indent, output);
        proof {
            assert(output@ =~= start + block_text(block@.subrange(0, i + 1), indent));
        }
        i = i + 1;
    }
    proof {
        assert(block@.subrange(0, block@.len() as int) =~= block@);
    }
}

/// One parameter: `[mut ]name: Type`.
pub open spec fn param_text(p: RustParam) -> Seq<char> {
    (if p.mutable { "mut "@ } else { Seq::empty() }) + p.name@ + ": "@ + type_text(p.ty)
}

/// The parameters separated by `, `.
pub open spec fn params_text(ps: Seq<RustParam>) -> Seq<char>
    decreases ps.len(),
{
    if ps.len() == 0 {
        Seq::empty()
    } else if ps.len() == 1 {
        param_text(ps.last())
    } else {
        params_text(ps.drop_last()) + ", "@ + param_text(ps.last())
    }
}

/// The parameter list of a generated function.
fn render_params(params: &Vec<RustParam>) -> (r: String)
    ensures
        r@ == params_text(params@),
{
    let mut out = String::new();
    let mut i: usize = 0;
    while i < params.len()
        invariant
            i <= params@.len(),
            out@ == params_text(params@.subrange(0, i as int)),
        decreases params@.len() - i,
    {
        proof {
            assert(params@.subrange(0, i + 1).drop_last() =~= params@.subrange(0, i as int));
        }
        if i != 0 {
            out.append(", ");
        }
        let param = &params[i];
        if param.mutable {
            out.append("mut ");
        }
        out.append(param.name.as_str());
        out.append(": ");
        out.append(render_type(&param.ty).as_str());
        i = i + 1;
    }
    proof {
        assert(params@.subrange(0, params@.len() as int) =~= params@);
    }
    out
}

/// One `name: Type,` line per field.
pub open spec fn fields_lines(fields: Seq<(String, RustType)>, indent: usize) -> Seq<char>
    decreases fields.len(),
{
    if fields.len() == 0 {
        Seq::empty()
    } else {
        fields_lines(fields.drop_last(), indent)
            + line_text(indent, fields.last().0@ + ": "@ + type_text(fields.last().1) + ","@)
    }
}

/// One `name: support::snapshot(&self.name),` line per field.
pub open spec fn snapshot_lines(fields: Seq<(String, RustType)>, indent: usize) -> Seq<char>
    decreases fields.len(),
{
    if fields.len() == 0 {
        Seq::empty()
    } else {
        snapshot_lines(fields.drop_last(), indent)
            + line_text(indent, fields.last().0@ + ": support::snapshot(&self."@ + fields.last().0@ + "),"@)
    }
}

/// Appends one `name: Type,` line per field.
fn render_fields(fields: &Vec<(String, RustType)>, indent: usize, output: &mut String)
    ensures
        final(output)@ == old(output)@ + fields_lines(fields@, indent),
{
    let ghost start = output@;
    let mut i: usize = 0;
    proof {
        assert(output@ =~= start + fields_lines(fields@.subrange(0, 0), indent));
    }
    while i < fields.len()
        invariant
            i <= fields@.len(),
            output@ == start + fields_lines(fields@.subrange(0, i as int), indent),
        decreases fields@.len() - i,
    {
        proof {
            assert(fields@.subrange(0, i + 1).drop_last() =~= fields@.subrange(0, i as int));
        }
        let mut text = concat(fields[i].0.as_str(), ": ");
        text.append(render_type(&fields[i].1).as_str());
        text.append(",");
        line(indent, text.as_str(), output);
        proof {
            assert(output@ =~= start + fields_lines(fields@.subrange(0, i + 1), indent));
        }
        i = i + 1;
    }
    proof {
        assert(fields@.subrange(0, fields@.len() as int) =~= fields@);
    }
}

/// Appends one `name: support::snapshot(&self.name),` line per field.
fn render_snapshot_fields(fields: &Vec<(String, RustType)>, indent: usize, output: &mut String)
    ensures
        final(output)@ == old(output)@ + snapshot_lines(fields@, indent),
{
    let ghost start = output@;
    let mut i: usize = 0;
    proof {
        assert(output@ =~= start + snapshot_lines(fields@.subrange(0, 0), indent));
    }
    while i < fields.len()
        invariant
            i <= fields@.len(),
            output@ == start + snapshot_lines(fields@.subrange(0, i as int), indent),
        decreases fields@.len() - i,
    {
        proof {
            assert(fields@.subrange(0, i + 1).drop_last() =~= fields@.subrange(0, i as int));
        }
        let f = fields[i].0.as_str();
        let mut text = concat(f, ": support::snapshot(&self.");
        text.append(f);
        text.append("),");
        line(indent, text.as_str(), output);
        proof {
            assert(output@ =~= start + snapshot_lines(fields@.subrange(0, i + 1), indent));
        }
        i = i + 1;
    }
    proof {
        assert(fields@.subrange(0, fields@.len() as int) =~= fields@);
    }
}

/// The lines of one enum variant: `Name,` without fields, else `Name {`,
/// its field lines one level deeper, and `},`.
pub open spec fn variant_lines(v: RustEnumVariant, indent: usize) -> Seq<char> {
    if v.fields@.len() == 0 {
        line_text(indent, v.name@ + ","@)
    } else {
        line_text(indent, v.name@ + " {"@) + fields_lines(v.fields@, deeper_spec(indent)) + line_text(indent, "},"@)
    }
}

/// The lines of each variant, in order.
pub open spec fn variants_lines(vs: Seq<RustEnumVariant>, indent: usize) -> Seq<char>
    decreases vs.len(),
{
    if vs.len() == 0 {
        Seq::empty()
    } else {
        variants_lines(vs.drop_last(), indent) + variant_lines(vs.last(), indent)
    }
}

/// Appends the lines of each variant.
fn render_variants(variants: &Vec<RustEnumVariant>, indent: usize, output: &mut String)
    ensures
        final(output)@ == old(output)@ + variants_lines(variants@, indent),
{
    let ghost start = output@;
    let mut k: usize = 0;
    proof {
        assert(output@ =~= start + variants_lines(variants@.subrange(0, 0), indent));
    }
    while k < variants.len()
        invariant
            k <= variants@.len(),
            output@ == start + variants_lines(variants@.subrange(0, k as int), indent),
        decreases variants@.len() - k,
    {
        proof {
            assert(variants@.subrange(0, k + 1).drop_last() =~= variants@.subrange(0, k as int));
        }
        let variant = &variants[k];
        if variant.fields.len() == 0 {
            line(indent, concat(variant.name.as_str(), ",").as_str(), output);
        } else {
            line(indent, concat(variant.name.as_str(), " {").as_str(), output);
            render_fields(&variant.fields, deeper(indent), output);
            line(indent, "},", output);
        }
        proof {
            assert(output@ =~= start + variants_lines(variants@.subrange(0, k + 1), indent));
        }
        k = k + 1;
    }
    proof {
        assert(variants@.subrange(0, variants@.len() as int) =~= variants@);
    }
}

/// The signature line of a generated function, up to its opening brace.
pub open spec fn signature_text(name: Seq<char>, params: Seq<RustParam>, result: RustType, is_pub: bool) -> Seq<char> {
    (if is_pub { "pub fn "@ } else { "fn "@ }) + name + "("@ + params_text(params) + ")"@
        + (if result is Unit { Seq::empty() } else { " -> "@ + type_text(result) }) + " {"@
}

/// The source text of an item at `indent`: a raw item as it is, with a
/// final line break added when it lacks one; a struct or an enum with
/// `#[derive(Clone, Debug, PartialEq)]` and its `Snapshot` impl; a function
/// with its signature, its body one level deeper and its closing brace.
pub open spec fn item_text(item: RustItem, indent: usize) -> Seq<char> {
    let i1 = deeper_spec(indent);
    let i2 = deeper_spec(i1);
    let i3 = deeper_spec(i2);
    match item {
        RustItem::Raw(raw) => raw@ + if raw@.len() > 0 && raw@.last() == '\n' { Seq::empty() } else { "\n"@ },
        RustItem::Struct { name, fields } => line_text(indent, "#[derive(Clone, Debug, PartialEq)]"@)
            + line_text(indent, "struct "@ + name@ + " {"@) + fields_lines(fields@, i1) + line_text(indent, "}"@)
            + line_text(indent, "impl support::Snapshot for "@ + name@ + " {"@)
            + line_text(i1, "fn snapshot(&self) -> Self {"@) + line_text(i2, name@ + " {"@)
            + snapshot_lines(fields@, i3) + line_text(i2, "}"@) + line_text(i1, "}"@) + line_text(indent, "}"@),
        RustItem::Enum { name, variants } => line_text(indent, "#[derive(Clone, Debug, PartialEq)]"@)
            + line_text(indent, "enum "@ + name@ + " {"@) + variants_lines(variants@, i1) + line_text(indent, "}"@)
            + line_text(indent, "impl support::Snapshot for "@ + name@ + " {"@)
            + line_text(i1, "fn snapshot(&self) -> Self {"@) + line_text(i2, "self.clone()"@) + line_text(i1, "}"@)
            + line_text(indent, "}"@),
        RustItem::Function { name, params, result, body, is_pub } => line_text(indent, signature_text(name@, params@, result, is_pub))
            + block_text(body@, i1) + line_text(indent, "}"@),
    }
}

/// Appends the statements of a function body.
fn render_body(body: &Vec<RustStmt>, indent: usize, output: &mut String)
    ensures
        final(output)@ == old(output)@ + block_text(body@, indent),
{
    let ghost start = output@;
    let mut k: usize = 0;
    proof {
        assert(output@ =~= start + block_text(body@.subrange(0, 0), indent));
    }
    while k < body.len()
        invariant
            k <= body@.len(),
            output@ == start + block_text(body@.subrange(0, k as int), indent),
        decreases body@.len() - k,
    {
        proof {
            assert(body@.subrange(0, k + 1).drop_last() =~= body@.subrange(0, k as int));
        }
        render_stmt(&body[k], indent, output);
        proof {
            assert(output@ =~= start + block_text(body@.subrange(0, k + 1), indent));
        }
        k = k + 1;
    }
    proof {
        assert(body@.subrange(0, body@.len() as int) =~= body@);
    }
}

/// Appends the source text of an item at `indent`: a raw item as it is, a
/// struct or an enum with its `Snapshot` impl, or a function.
fn render_item(item: &RustItem, indent: usize, output: &mut String)
    ensures
        final(output)@ == old(output)@ + item_text(*item, indent),
{
    match item {
        RustItem::Raw(_) => render_raw_item(item, output),
        RustItem::Struct { .. } => render_struct_item(item, indent, output),
        RustItem::Enum { .. } => render_enum_item(item, indent, output),
        RustItem::Function { .. } => render_fn_item(item, indent, output),
    }
}

/// Appends a raw item, with a final line break when it lacks one.
fn render_raw_item(item: &RustItem, output: &mut String)
    requires
        item is Raw,
    ensures
        forall|indent: usize| final(output)@ == old(output)@ + #[trigger] item_text(*item, indent),
{
    if let RustItem::Raw(raw) = item {
        let ghost start = output@;
        output.append(raw.as_str());
        let n = raw.as_str().unicode_len();
        if !(n > 0 && raw.as_str().get_char(n - 1) == '\n') {
            output.append("\n");
        }
        proof {
            assert forall|indent: usize| output@ == start + #[trigger] item_text(*item, indent) by {
                assert(output@ =~= start + item_text(*item, indent));
            }
        }
    }
}

/// Appends a struct, its derive line and its `Snapshot` impl.
fn render_struct_item(item: &RustItem, indent: usize, output: &mut String)
    requires
        item is Struct,
    ensures
        final(output)@ == old(output)@ + item_text(*item, indent),
{
    if let RustItem::Struct { name, fields } = item {
        let i1 = deeper(indent);
        let i2 = deeper(i1);
        let i3 = deeper(i2);
        let mut text = String::new();
        line(indent, "#[derive(Clone, Debug, PartialEq)]", &mut text);
        proof {
            assert(text@ =~= line_text(indent, "#[derive(Clone, Debug, PartialEq)]"@));
        }
        line(indent, concat3("struct ", name.as_str(), " {").as_str(), &mut text);
        render_fields(fields, i1, &mut text);
        line(indent, "}", &mut text);
        line(indent, concat3("impl support::Snapshot for ", name.as_str(), " {").as_str(), &mut text);
        line(i1, "fn snapshot(&self) -> Self {", &mut text);
        line(i2, concat(name.as_str(), " {").as_str(), &mut text);
        render_snapshot_fields(fields, i3, &mut text);
        line(i2, "}", &mut text);
        line(i1, "}", &mut text);
        line(indent, "}", &mut text);
        output.append(text.as_str());
    }
}

/// Appends an enum, its derive line and its `Snapshot` impl.
fn render_enum_item(item: &RustItem, indent: usize, output: &mut String)
    requires
        item is Enum,
    ensures
        final(output)@ == old(output)@ + item_text(*item, indent),
{
    if let RustItem::Enum { name, variants } = item {
        let i1 = deeper(indent);
        let i2 = deeper(i1);
        let mut text = String::new();
        line(indent, "#[derive(Clone, Debug, PartialEq)]", &mut text);
        proof {
            assert(text@ =~= line_text(indent, "#[derive(Clone, Debug, PartialEq)]"@));
        }
        line(indent, concat3("enum ", name.as_str(), " {").as_str(), &mut text);
        render_variants(variants, i1, &mut text);
        line(indent, "}", &mut text);
        line(indent, concat3("impl support::Snapshot for ", name.as_str(), " {").as_str(), &mut text);
        line(i1, "fn snapshot(&self) -> Self {", &mut text);
        line(i2, "self.clone()", &mut text);
        line(i1, "}", &mut text);
        line(indent, "}", &mut text);
        output.append(text.as_str());
    }
}

/// Appends a function: its signature, its body and its closing brace.
fn render_fn_item(item: &RustItem, indent: usize, output: &mut String)
    requires
        item is Function,
    ensures
        final(output)@ == old(output)@ + item_text(*item, indent),
{
    if let RustItem::Function { name, params, result, body, is_pub } = item {
        let ghost start = output@;
        let mut signature = if *is_pub { String::from_str("pub fn ") } else { String::from_str("fn ") };
        signature.append(name.as_str());
        signature.append("(");
        signature.append(render_params(params).as_str());
        signature.append(")");
        match result {
            RustType::Unit => {},
            RustType::Path(_) => {
                signature.append(" -> ");
                signature.append(render_type(result).as_str());
            },
        }
        signature.append(" {");
        proof {
            assert(signature@ =~= signature_text(name@, params@, *result, *is_pub));
        }
        line(indent, signature.as_str(), output);
        render_body(body, deeper(indent), output);
        line(indent, "}", output);
        proof {
            assert(output@ =~= start + item_text(*item, indent));
        }
    }
}

/// Each `use` line followed by a line break.
pub open spec fn uses_text(uses: Seq<String>) -> Seq<char>
    decreases uses.len(),
{
    if uses.len() == 0 {
        Seq::empty()
    } else {
        uses_text(uses.drop_last()) + uses.last()@ + "\n"@
    }
}

/// Each item at the outermost level followed by an empty line.
pub open spec fn items_text(items: Seq<RustItem>) -> Seq<char>
    decreases items.len(),
{
    if items.len() == 0 {
        Seq::empty()
    } else {
        items_text(items.drop_last()) + item_text(items.last(), 0) + "\n"@
    }
}

/// The source text of a generated file.
pub open spec fn module_text(m: RustModule) -> Seq<char> {
    uses_text(m.uses@) + "\n"@ + items_text(m.items@)
}

/// The source text of a generated file: each `use` line, an empty line,
/// then each item followed by an empty line.
pub fn emit_module(module: &RustModule) -> (r: String)
    ensures
        r@ == module_text(*module),
{
    let mut output = String::new();
    let mut i: usize = 0;
    proof {
        assert(output@ =~= uses_text(module.uses@.subrange(0, 0)));
    }
    while i < module.uses.len()
        invariant
            i <= module.uses@.len(),
            output@ == uses_text(module.uses@.subrange(0, i as int)),
        decreases module.uses@.len() - i,
    {
        proof {
            assert(module.uses@.subrange(0, i + 1).drop_last() =~= module.uses@.subrange(0, i as int));
        }
        output.append(module.uses[i].as_str());
        output.append("\n");
        proof {
            assert(output@ =~= uses_text(module.uses@.subrange(0, i + 1)));
        }
        i = i + 1;
    }
    proof {
        assert(module.uses@.subrange(0, module.uses@.len() as int) =~= module.uses@);
    }
    output.append("\n");
    let ghost head = output@;
    let mut k: usize = 0;
    proof {
        assert(output@ =~= head + items_text(module.items@.subrange(0, 0)));
    }
    while k < module.items.len()
        invariant
            k <= module.items@.len(),
            output@ == head + items_text(module.items@.subrange(0, k as int)),
        decreases module.items@.len() - k,
    {
        proof {
            assert(module.items@.subrange(0, k + 1).drop_last() =~= module.items@.subrange(0, k as int));
        }
        render_item(&module.items[k], 0, &mut output);
        output.append("\n");
        proof {
            assert(output@ =~= head + items_text(module.items@.subrange(0, k + 1)));
        }
        k = k + 1;
    }
    proof {
        assert(module.items@.subrange(0, module.items@.len() as int) =~= module.items@);
    }
    output
}

/// The generated type that stores values of `ty`: shared cells for records
/// and collections, plain Rust types otherwise. Actions and unknown types
/// cannot be stored.
fn lower_storage_type(ty: &Type, span: &SourceSpan) -> (r: Result<RustType, Vec<Diagnostic>>)
    ensures
        codegen_outcome(r),
        r is Err <==> !storable(*ty),
        r matches Ok(t) ==> (t is Unit <==> ty is NoneType),
    decreases *ty,
{
    let rendered = match ty {
        Type::Bool => String::from_str("bool"),
        Type::Int => String::from_str("i64"),
        Type::Dec => String::from_str("f64"),
        Type::Text => String::from_str("String"),
        Type::Bytes => String::from_str("Vec<u8>"),
        Type::NoneType => {
            return Ok(RustType::Unit);
        },
        Type::Record(name) => concat3("std::rc::Rc<std::cell::RefCell<", name.as_str(), ">>"),
        Type::Enum(name) => name.clone(),
        Type::List(inner) => {
            let t = lower_storage_type(inner, span)?;
            concat3("std::rc::Rc<std::cell::RefCell<Vec<", render_type(&t).as_str(), ">>>")
        },
        Type::SetOf(inner) => {
            let t = lower_storage_type(inner, span)?;
            concat3("std::rc::Rc<std::cell::RefCell<Vec<", render_type(&t).as_str(), ">>>")
        },
        Type::MapOf(key, value) => {
            let k = lower_storage_type(key, span)?;
            let v = lower_storage_type(value, span)?;
            let mut out = concat3("std::rc::Rc<std::cell::RefCell<Vec<(", render_type(&k).as_str(), ", ");
            out.append(render_type(&v).as_str());
            out.append(")>>>");
            out
        },
        Type::Option(inner) => {
            let t = lower_storage_type(inner, span)?;
            concat3("Option<", render_type(&t).as_str(), ">")
        },
        Type::Result(ok, err) => {
            let o = lower_storage_type(ok, span)?;
            let e = lower_storage_type(err, span)?;
            let mut out = concat3("Result<", render_type(&o).as_str(), ", ");
            out.append(render_type(&e).as_str());
            out.append(">");
            out
        },
        Type::Tuple(items) => {
            proof {
                assert forall|k: int| 0 <= k < items@.len() implies decreases_to!(*ty => #[trigger] items@[k]) by {
                    assert(decreases_to!(*ty => items@[k]));
                }
            }
            let mut texts: Vec<String> = Vec::new();
            let mut i: usize = 0;
            while i < items.len()
                invariant
                    i <= items@.len(),
                    forall|k: int| 0 <= k < i ==> storable(#[trigger] items@[k]),
                    forall|k: int| 0 <= k < items@.len() ==> decreases_to!(*ty => #[trigger] items@[k]),
                    storable(*ty) == (forall|k: int| 0 <= k < items@.len() ==> storable(#[trigger] items@[k])),
                decreases items@.len() - i,
            {
                proof {
                    assert(decreases_to!(*ty => items@[i as int]));
                }
                let t = lower_storage_type(&items[i], span)?;
                texts.push(render_type(&t));
                i = i + 1;
            }
            concat3("(", join(&texts, ", ").as_str(), ")")
        },
        Type::Action(_) | Type::ExternAction(_) | Type::Unknown => {
            return codegen_fail(span, concat3("unsupported compile-time type `", ty.describe().as_str(), "`"));
        },
    };
    Ok(RustType::Path(rendered))
}

/// Whether the generated program can store values of `ty`: every type but
/// actions and the unknown type, all the way down.
pub open spec fn storable(ty: Type) -> bool
    decreases ty,
{
    match ty {
        Type::Action(_) | Type::ExternAction(_) | Type::Unknown => false,
        Type::List(inner) => storable(*inner),
        Type::SetOf(inner) => storable(*inner),
        Type::Option(inner) => storable(*inner),
        Type::MapOf(k, v) => storable(*k) && storable(*v),
        Type::Result(o, e) => storable(*o) && storable(*e),
        Type::Tuple(items) => forall|i: int| 0 <= i < items@.len() ==> storable(#[trigger] items@[i]),
        _ => true,
    }
}

/// `expr`, adjusted to the expected type: `none` and plain values become
/// options where an option is expected.
fn coerce_expr_to_type(expr: RustExpr, actual: &Type, expected: &Type) -> (r: RustExpr)
    ensures
        (expected is Option && actual is NoneType) ==> r is Raw && r.raw_text() == "None"@,
        !(expected is Option) ==> r == expr,
{
    match expected {
        Type::Option(inner) => {
            if matches!(actual, Type::NoneType) {
                raw(String::from_str("None"))
            } else if type_eq(inner, actual) {
                raw(concat3("Some(", render_expr(&expr).as_str(), ")"))
            } else {
                expr
            }
        },
        _ => expr,
    }
}

impl RustExpr {
    /// The text of a raw expression; empty for any other.
    pub open spec fn raw_text(self) -> Seq<char> {
        match self {
            RustExpr::Raw(t) => t@,
            _ => Seq::empty(),
        }
    }
}

/// A typed expression built from literals with unary and binary operators.
pub open spec fn typed_closed(e: TypedExpr) -> bool
    decreases e,
{
    match e.kind {
        TypedExprKind::Literal(_) => true,
        TypedExprKind::Unary { expr, .. } => typed_closed(*expr),
        TypedExprKind::Binary { left, right, .. } => typed_closed(*left) && typed_closed(*right),
        _ => false,
    }
}

/// The Rust operator for a unary operator.
pub open spec fn unary_op_text(op: UnaryOp) -> Seq<char> {
    match op {
        UnaryOp::Negate => "-"@,
        UnaryOp::Not => "!"@,
    }
}

/// How such an expression is generated: a literal as raw text, integers in
/// decimal and none as `()`; an operator as the same Rust operator over the
/// generated operands, except that adding texts calls the support code.
pub open spec fn rust_closed(e: TypedExpr, r: RustExpr) -> bool
    decreases e,
{
    match e.kind {
        TypedExprKind::Literal(l) => r is Raw && (l matches TypedLiteral::Int(v) ==> r.raw_text() == crate::text::int_text(
            v as int,
        )) && (l is NoneLiteral ==> r.raw_text() == "()"@),
        TypedExprKind::Unary { op, expr } => match r {
            RustExpr::Unary { op: o, expr: inner } => o@ == unary_op_text(op) && rust_closed(*expr, *inner),
            _ => false,
        },
        TypedExprKind::Binary { left, op, right } => if op is Add && e.ty is Text {
            r is Raw
        } else {
            match r {
                RustExpr::Binary { left: l, op: o, right: rr } => o@ == binary_op_text(op) && rust_closed(*left, *l)
                    && rust_closed(*right, *rr),
                _ => false,
            }
        },
        _ => true,
    }
}

/// The generated expression for a literal.
fn lower_literal(literal: &TypedLiteral) -> (r: RustExpr)
    ensures
        literal matches TypedLiteral::Int(v) ==> r.raw_text() == crate::text::int_text(v as int),
        literal is NoneLiteral ==> r.raw_text() == "()"@,
        r is Raw,
{
    match literal {
        TypedLiteral::Int(value) => raw(i64_text(*value)),
        TypedLiteral::Dec(value) => raw(concat(value.as_str(), "_f64")),
        TypedLiteral::String(value) => raw(concat(debug_quoted(value.as_str()).as_str(), ".to_string()")),
        TypedLiteral::Bool(value) => raw(String::from_str(if *value { "true" } else { "false" })),
        TypedLiteral::NoneLiteral => raw(String::from_str("()")),
    }
}

/// The generated expression for a name: a constant's function call, or a
/// copy of a local; actions cannot be used as values.
fn lower_symbol(symbol: &TypedSymbol, ty: &Type, span: &SourceSpan) -> (r: Result<RustExpr, Vec<Diagnostic>>)
    ensures
        codegen_outcome(r),
        r is Err <==> (symbol.kind == Some(SymbolKind::Action) || symbol.kind == Some(SymbolKind::Extern)
            || symbol.kind == Some(SymbolKind::Runtime)),
{
    match symbol.kind {
        Some(SymbolKind::Const) => Ok(raw(concat(const_fn_name(symbol.name.as_str()).as_str(), "()"))),
        Some(SymbolKind::Action) | Some(SymbolKind::Extern) | Some(SymbolKind::Runtime) => {
            codegen_fail(
                span,
                concat3("first-class callable `", symbol.name.as_str(), "` is not supported by compile mode yet"),
            )
        },
        _ => Ok(raw(snapshot_expr(symbol.name.as_str(), ty))),
    }
}

/// Lowers each expression of a list and renders it.
fn lower_rendered(items: &Vec<TypedExpr>, Ghost(parent): Ghost<TypedExpr>) -> (r: Result<Vec<String>, Vec<Diagnostic>>)
    requires
        forall|i: int| 0 <= i < items@.len() ==> decreases_to!(parent => #[trigger] items@[i]),
    ensures
        codegen_outcome(r),
        r matches Ok(v) ==> v@.len() == items@.len(),
    decreases parent, 1int,
{
    let mut out: Vec<String> = Vec::new();
    let mut i: usize = 0;
    while i < items.len()
        invariant
            i <= items@.len(),
            out@.len() == i,
            forall|k: int| 0 <= k < items@.len() ==> decreases_to!(parent => #[trigger] items@[k]),
        decreases items@.len() - i,
    {
        proof {
            assert(decreases_to!(parent => items@[i as int]));
        }
        let e = lower_expr(&items[i])?;
        out.push(render_expr(&e));
        i = i + 1;
    }
    Ok(out)
}

/// `x` is the raw text `prefix`, then `t` rendered, then `suffix`, where `t`
/// is what `target` lowers to.
pub open spec fn wraps_lowered(x: RustExpr, target: TypedExpr, prefix: Seq<char>, suffix: Seq<char>, t: RustExpr) -> bool {
    &&& x is Raw
    &&& x.raw_text() == prefix + expr_text(t, 0, false) + suffix
    &&& typed_closed(target) ==> rust_closed(target, t)
}

/// `target.method()` on the rendered lowering of `target`.
fn lower_method_text(target: &TypedExpr, prefix: &str, suffix: &str, Ghost(parent): Ghost<TypedExpr>) -> (r: Result<RustExpr, Vec<Diagnostic>>)
    requires
        decreases_to!(parent => *target),
    ensures
        codegen_outcome(r),
        typed_closed(*target) ==> r is Ok,
        r matches Ok(x) ==> exists|t: RustExpr| #[trigger] wraps_lowered(x, *target, prefix@, suffix@, t),
    decreases parent, 3int,
{
    let t = lower_expr(target)?;
    let x = raw(concat3(prefix, render_expr(&t).as_str(), suffix));
    assert(wraps_lowered(x, *target, prefix@, suffix@, t));
    Ok(x)
}

/// The generated expression for a typed expression.
fn lower_expr(expr: &TypedExpr) -> (r: Result<RustExpr, Vec<Diagnostic>>)
    ensures
        codegen_outcome(r),
        typed_closed(*expr) ==> (r matches Ok(x) && rust_closed(*expr, x)),
        match expr.kind {
            TypedExprKind::ResultIsOk { target } => r matches Ok(x) ==> exists|t: RustExpr| #[trigger] wraps_lowered(
                x,
                *target,
                ""@,
                ".is_ok()"@,
                t,
            ),
            TypedExprKind::ResultIsErr { target } => r matches Ok(x) ==> exists|t: RustExpr| #[trigger] wraps_lowered(
                x,
                *target,
                ""@,
                ".is_err()"@,
                t,
            ),
            TypedExprKind::ResultValue { target } => r matches Ok(x) ==> exists|t: RustExpr| #[trigger] wraps_lowered(
                x,
                *target,
                "match "@,
                " { Ok(v) => v, Err(_) => panic!(\"InvalidResultValueAccess\") }"@,
                t,
            ),
            TypedExprKind::ResultError { target } => r matches Ok(x) ==> exists|t: RustExpr| #[trigger] wraps_lowered(
                x,
                *target,
                "match "@,
                " { Err(e) => e, Ok(_) => panic!(\"InvalidResultErrorAccess\") }"@,
                t,
            ),
            TypedExprKind::OptionIsSome { target } => r matches Ok(x) ==> exists|t: RustExpr| #[trigger] wraps_lowered(
                x,
                *target,
                ""@,
                ".is_some()"@,
                t,
            ),
            TypedExprKind::OptionIsNone { target } => r matches Ok(x) ==> exists|t: RustExpr| #[trigger] wraps_lowered(
                x,
                *target,
                ""@,
                ".is_none()"@,
                t,
            ),
            TypedExprKind::OptionValue { target } => r matches Ok(x) ==> exists|t: RustExpr| #[trigger] wraps_lowered(
                x,
                *target,
                "match "@,
                " { Some(v) => v, None => panic!(\"InvalidOptionValueAccess\") }"@,
                t,
            ),
            TypedExprKind::Unary { op, .. } => r matches Ok(x) ==> (x matches RustExpr::Unary { op: o, .. } && o@
                == unary_op_text(op)),
            TypedExprKind::Binary { op, .. } => r matches Ok(x) ==> if op is Add && expr.ty is Text {
                x is Raw
            } else {
                x matches RustExpr::Binary { op: o, .. } && o@ == binary_op_text(op)
            },
            _ => true,
        },
    decreases *expr, 4int,
{
    match &expr.kind {
        TypedExprKind::Literal(literal) => Ok(lower_literal(literal)),
        TypedExprKind::Symbol(symbol) => lower_symbol(symbol, &expr.ty, &expr.span),
        TypedExprKind::VariantConstructor { variant_type, variant_name, field_names, args } => {
            proof {
                assert forall|i: int| 0 <= i < args@.len() implies decreases_to!(*expr => #[trigger] args@[i]) by {
                    assert(decreases_to!(*expr => args@[i]));
                }
            }
            lower_variant_constructor(variant_type.as_str(), variant_name.as_str(), field_names, args, &expr.span, Ghost(*expr))
        },
        TypedExprKind::Call { callee, args } => {
            proof {
                assert(decreases_to!(*expr => **callee));
                assert forall|i: int| 0 <= i < args@.len() implies decreases_to!(*expr => #[trigger] args@[i].expr) by {
                    assert(decreases_to!(*expr => args@[i].expr));
                }
            }
            lower_call(callee, args, expr)
        },
        TypedExprKind::FieldAccess { base, field } => {
            proof {
                assert(decreases_to!(*expr => **base));
            }
            let base_expr = lower_expr(base)?;
            match &base.ty {
                Type::Record(_) => {
                    let mut text = render_expr(&base_expr);
                    text.append(".borrow().");
                    text.append(field.as_str());
                    Ok(raw(snapshot_expr(text.as_str(), &expr.ty)))
                },
                other => codegen_fail(
                    &expr.span,
                    concat3("unsupported field access on `", other.describe().as_str(), "`"),
                ),
            }
        },
        TypedExprKind::ResultIsOk { target } => {
            proof {
                assert(decreases_to!(*expr => **target));
            }
            lower_method_text(target, "", ".is_ok()", Ghost(*expr))
        },
        TypedExprKind::ResultIsErr { target } => {
            proof {
                assert(decreases_to!(*expr => **target));
            }
            lower_method_text(target, "", ".is_err()", Ghost(*expr))
        },
        TypedExprKind::ResultValue { target } => {
            proof {
                assert(decreases_to!(*expr => **target));
            }
            lower_method_text(target, "match ", " { Ok(v) => v, Err(_) => panic!(\"InvalidResultValueAccess\") }", Ghost(*expr))
        },
        TypedExprKind::ResultError { target } => {
            proof {
                assert(decreases_to!(*expr => **target));
            }
            lower_method_text(target, "match ", " { Err(e) => e, Ok(_) => panic!(\"InvalidResultErrorAccess\") }", Ghost(*expr))
        },
        TypedExprKind::OptionIsSome { target } => {
            proof {
                assert(decreases_to!(*expr => **target));
            }
            lower_method_text(target, "", ".is_some()", Ghost(*expr))
        },
        TypedExprKind::OptionIsNone { target } => {
            proof {
                assert(decreases_to!(*expr => **target));
            }
            lower_method_text(target, "", ".is_none()", Ghost(*expr))
        },
        TypedExprKind::OptionValue { target } => {
            proof {
                assert(decreases_to!(*expr => **target));
            }
            lower_method_text(target, "match ", " { Some(v) => v, None => panic!(\"InvalidOptionValueAccess\") }", Ghost(*expr))
        },
        TypedExprKind::Index { base, index } => {
            proof {
                assert(decreases_to!(*expr => **base));
                assert(decreases_to!(*expr => **index));
            }
            let base_expr = lower_expr(base)?;
            let index_expr = lower_expr(index)?;
            match &base.ty {
                Type::List(_) | Type::SetOf(_) => {
                    let mut text = concat3("support::list_get(&", render_expr(&base_expr).as_str(), ", ");
                    text.append(render_expr(&index_expr).as_str());
                    text.append(")");
                    Ok(raw(text))
                },
                Type::MapOf(_, _) => {
                    let mut text = concat3("support::map_get(&", render_expr(&base_expr).as_str(), ", &");
                    text.append(render_expr(&index_expr).as_str());
                    text.append(")");
                    Ok(raw(text))
                },
                other => codegen_fail(
                    &expr.span,
                    concat3("unsupported index access on `", other.describe().as_str(), "`"),
                ),
            }
        },
        TypedExprKind::Unary { op, expr: inner } => {
            proof {
                assert(decreases_to!(*expr => **inner));
            }
            let lowered = lower_expr(inner)?;
            let op_text = match op {
                UnaryOp::Negate => "-",
                UnaryOp::Not => "!",
            };
            proof {
                reveal_strlit("-");
                reveal_strlit("!");
            }
            Ok(RustExpr::Unary { op: String::from_str(op_text), expr: Box::new(lowered) })
        },
        TypedExprKind::Binary { left, op, right } => {
            proof {
                assert(decreases_to!(*expr => **left));
                assert(decreases_to!(*expr => **right));
            }
            let l = lower_expr(left)?;
            let r = lower_expr(right)?;
            if matches!(op, BinaryOp::Add) && matches!(expr.ty, Type::Text) {
                let mut text = concat3("support::text_add(", render_expr(&l).as_str(), ", ");
                text.append(render_expr(&r).as_str());
                text.append(")");
                Ok(raw(text))
            } else {
                Ok(RustExpr::Binary { left: Box::new(l), op: String::from_str(binary_op(*op)), right: Box::new(r) })
            }
        },
        TypedExprKind::List(items) => {
            proof {
                assert forall|i: int| 0 <= i < items@.len() implies decreases_to!(*expr => #[trigger] items@[i]) by {
                    assert(decreases_to!(*expr => items@[i]));
                }
            }
            let texts = lower_rendered(items, Ghost(*expr))?;
            Ok(raw(concat3("std::rc::Rc::new(std::cell::RefCell::new(vec![", join(&texts, ", ").as_str(), "]))")))
        },
        TypedExprKind::MapLiteral(entries) => {
            proof {
                assert forall|i: int| 0 <= i < entries@.len() implies decreases_to!(*expr => #[trigger] entries@[i].0)
                    && decreases_to!(*expr => entries@[i].1) by {
                    assert(decreases_to!(*expr => entries@[i].0));
                    assert(decreases_to!(*expr => entries@[i].1));
                }
            }
            let mut texts: Vec<String> = Vec::new();
            let mut i: usize = 0;
            while i < entries.len()
                invariant
                    !typed_closed(*expr),
                    i <= entries@.len(),
                    forall|k: int| 0 <= k < entries@.len() ==> decreases_to!(*expr => #[trigger] entries@[k].0)
                        && decreases_to!(*expr => entries@[k].1),
                decreases entries@.len() - i,
            {
                proof {
                    assert(decreases_to!(*expr => entries@[i as int].0));
                    assert(decreases_to!(*expr => entries@[i as int].1));
                }
                let k = lower_expr(&entries[i].0)?;
                let v = lower_expr(&entries[i].1)?;
                let mut text = concat3("(", render_expr(&k).as_str(), ", ");
                text.append(render_expr(&v).as_str());
                text.append(")");
                texts.push(text);
                i = i + 1;
            }
            Ok(raw(concat3("std::rc::Rc::new(std::cell::RefCell::new(vec![", join(&texts, ", ").as_str(), "]))")))
        },
        TypedExprKind::Tuple(items) => {
            proof {
                assert forall|i: int| 0 <= i < items@.len() implies decreases_to!(*expr => #[trigger] items@[i]) by {
                    assert(decreases_to!(*expr => items@[i]));
                }
            }
            let texts = lower_rendered(items, Ghost(*expr))?;
            Ok(raw(concat3("(", join(&texts, ", ").as_str(), ")")))
        },
    }
}

/// Whether a name is the qualified name of a standard runtime action.
pub open spec fn names_runtime_action(n: Seq<char>) -> bool {
    exists|a: StandardRuntimeAction| crate::standard_runtime::qualified_text(a) == n
}

/// The generated expression for a call: a standard runtime action, `Some`,
/// a record construction or a call of an action of the module.
fn lower_call(callee: &TypedExpr, args: &Vec<TypedCallArg>, expr: &TypedExpr) -> (r: Result<RustExpr, Vec<Diagnostic>>)
    requires
        forall|i: int| 0 <= i < args@.len() ==> decreases_to!(*expr => #[trigger] args@[i].expr),
    ensures
        codegen_outcome(r),
        match callee.kind {
            TypedExprKind::Symbol(sym) => !names_runtime_action(sym.name@) ==> {
                &&& (sym.kind is None && sym.name@ == "Some"@) ==> ((args@.len() != 1 || args@[0].name is Some) ==> r is Err)
                &&& (sym.kind is None && sym.name@ == "Some"@) ==> (r matches Ok(e) ==> e is Raw)
                &&& sym.kind == Some(SymbolKind::Record) ==> ((exists|k: int|
                    0 <= k < args@.len() && (#[trigger] args@[k]).name is None) ==> r is Err)
                &&& sym.kind == Some(SymbolKind::Record) ==> (r matches Ok(e) ==> e is Raw)
                &&& sym.kind == Some(SymbolKind::Action) ==> (!(callee.ty is Action) ==> r is Err)
                &&& sym.kind == Some(SymbolKind::Action) ==> (r matches Ok(e) ==> e is Call)
                &&& !(sym.kind is None && sym.name@ == "Some"@) && sym.kind != Some(SymbolKind::Record) && sym.kind != Some(
                    SymbolKind::Action,
                ) ==> r is Err
            },
            _ => r is Err,
        },
    decreases *expr, 2int,
{
    if let TypedExprKind::Symbol(symbol) = &callee.kind {
        if let Some(action) = lookup_standard_runtime_name(symbol.name.as_str()) {
            return lower_standard_runtime_call(action, args, &expr.span, Ghost(*expr));
        }
        if symbol.kind.is_none() && str_eq(symbol.name.as_str(), "Some") {
            if args.len() != 1 {
                return codegen_fail(&expr.span, String::from_str("`Some(...)` expects exactly one argument"));
            }
            if args[0].name.is_some() {
                return codegen_fail(&args[0].expr.span, String::from_str("`Some(...)` does not support named arguments"));
            }
            proof {
                assert(decreases_to!(*expr => args@[0].expr));
            }
            let inner = lower_expr(&args[0].expr)?;
            return Ok(raw(concat3("Some(", render_expr(&inner).as_str(), ")")));
        }
        match symbol.kind {
            Some(SymbolKind::Record) => {
                let mut fields: Vec<String> = Vec::new();
                let mut i: usize = 0;
                while i < args.len()
                    invariant
                        i <= args@.len(),
                        forall|k: int| 0 <= k < args@.len() ==> decreases_to!(*expr => #[trigger] args@[k].expr),
                        forall|k: int| 0 <= k < i ==> (#[trigger] args@[k]).name is Some,
                    decreases args@.len() - i,
                {
                    let name = match &args[i].name {
                        Some(n) => n,
                        None => {
                            return codegen_fail(&args[i].expr.span, String::from_str("record construction requires named arguments"));
                        },
                    };
                    proof {
                        assert(decreases_to!(*expr => args@[i as int].expr));
                    }
                    let value = lower_expr(&args[i].expr)?;
                    let mut text = concat(name.as_str(), ": ");
                    text.append(render_expr(&value).as_str());
                    fields.push(text);
                    i = i + 1;
                }
                let mut text = concat3("std::rc::Rc::new(std::cell::RefCell::new(", symbol.name.as_str(), " { ");
                text.append(join(&fields, ", ").as_str());
                text.append(" }))");
                return Ok(raw(text));
            },
            Some(SymbolKind::Action) => {
                let action_type = match &callee.ty {
                    Type::Action(a) => a,
                    other => {
                        return codegen_fail(
                            &expr.span,
                            concat3("expected action call type, found `", other.describe().as_str(), "`"),
                        );
                    },
                };
                let mut lowered: Vec<RustExpr> = Vec::new();
                let mut i: usize = 0;
                while i < args.len() && i < action_type.params.len()
                    invariant
                        forall|k: int| 0 <= k < args@.len() ==> decreases_to!(*expr => #[trigger] args@[k].expr),
                    decreases args@.len() - i,
                {
                    proof {
                        assert(decreases_to!(*expr => args@[i as int].expr));
                    }
                    let value = lower_expr(&args[i].expr)?;
                    lowered.push(coerce_expr_to_type(value, &args[i].expr.ty, &action_type.params[i]));
                    i = i + 1;
                }
                return Ok(RustExpr::Call { callee: action_fn_name(symbol.name.as_str()), args: lowered });
            },
            Some(SymbolKind::Extern) => {
                return codegen_fail(
                    &expr.span,
                    concat3("compile does not yet support calling extern action `", symbol.name.as_str(), "`"),
                );
            },
            _ => {},
        }
    }
    codegen_fail(&expr.span, String::from_str("compile only supports direct calls to records and actions"))
}

/// Whether a variant constructor wraps one payload in generated code:
/// `Option::Some`, `Result::Ok` and `Result::Err`.
pub open spec fn wraps_payload(owner: Seq<char>, variant: Seq<char>) -> bool {
    (owner == "Option"@ && variant == "Some"@) || (owner == "Result"@ && (variant == "Ok"@ || variant == "Err"@))
}

/// The generated expression for an enum variant, `Some`, `Ok` or `Err`
/// built from its arguments.
fn lower_variant_constructor(
    owner_name: &str,
    variant_name: &str,
    field_names: &Vec<String>,
    args: &Vec<TypedExpr>,
    span: &SourceSpan,
    Ghost(parent): Ghost<TypedExpr>,
) -> (r: Result<RustExpr, Vec<Diagnostic>>)
    requires
        forall|i: int| 0 <= i < args@.len() ==> decreases_to!(parent => #[trigger] args@[i]),
    ensures
        codegen_outcome(r),
        r matches Ok(e) ==> e is Raw,
        wraps_payload(owner_name@, variant_name@) && args@.len() == 0 ==> r is Err,
        !wraps_payload(owner_name@, variant_name@) && field_names@.len() == 0 ==> (r matches Ok(RustExpr::Raw(t)) ==> t@
            == owner_name@ + "::"@ + variant_name@),
        wraps_payload(owner_name@, variant_name@) ==> (r matches Ok(RustExpr::Raw(t)) ==> t@.take(
            variant_name@.len() + 1int,
        ) == variant_name@ + "("@ && t@.last() == ')'),
        !wraps_payload(owner_name@, variant_name@) && field_names@.len() > 0 ==> (r matches Ok(RustExpr::Raw(t)) ==> t@.take(
            owner_name@.len() + variant_name@.len() + 5int,
        ) == owner_name@ + "::"@ + variant_name@ + " { "@ && t@.last() == '}'),
    decreases parent, 3int,
{
    let rendered = lower_rendered(args, Ghost(parent))?;
    let wraps = (str_eq(owner_name, "Option") && str_eq(variant_name, "Some"))
        || (str_eq(owner_name, "Result") && (str_eq(variant_name, "Ok") || str_eq(variant_name, "Err")));
    if wraps {
        if rendered.len() == 0 {
            return codegen_fail(span, concat3("`", variant_name, "(...)` expects exactly one argument"));
        }
        let mut text = concat3(variant_name, "(", rendered[0].as_str());
        text.append(")");
        proof {
            reveal_strlit("(");
            reveal_strlit(")");
            assert(text@.take(variant_name@.len() + 1int) =~= variant_name@ + "("@);
        }
        Ok(raw(text))
    } else if field_names.len() == 0 {
        Ok(raw(concat3(owner_name, "::", variant_name)))
    } else {
        let mut parts: Vec<String> = Vec::new();
        let mut i: usize = 0;
        while i < field_names.len() && i < rendered.len()
            decreases field_names@.len() - i,
        {
            let mut text = concat(field_names[i].as_str(), ": ");
            text.append(rendered[i].as_str());
            parts.push(text);
            i = i + 1;
        }
        let mut text = concat3(owner_name, "::", variant_name);
        text.append(" { ");
        text.append(join(&parts, ", ").as_str());
        text.append(" }");
        proof {
            reveal_strlit("::");
            reveal_strlit(" { ");
            reveal_strlit(" }");
            assert(text@.take(owner_name@.len() + variant_name@.len() + 5int) =~= owner_name@ + "::"@ + variant_name@ + " { "@);
        }
        Ok(raw(text))
    }
}

/// The generated call of a standard runtime action, through the support
/// module of the generated program.
fn lower_standard_runtime_call(
    action: StandardRuntimeAction,
    args: &Vec<TypedCallArg>,
    span: &SourceSpan,
    Ghost(parent): Ghost<TypedExpr>,
) -> (r: Result<RustExpr, Vec<Diagnostic>>)
    requires
        forall|i: int| 0 <= i < args@.len() ==> decreases_to!(parent => #[trigger] args@[i].expr),
    ensures
        codegen_outcome(r),
        r is Ok ==> args@.len() == action.param_count(),
    decreases parent, 1int,
{
    let mut rendered: Vec<String> = Vec::new();
    let mut i: usize = 0;
    while i < args.len()
        invariant
            i <= args@.len(),
            rendered@.len() == i,
            forall|k: int| 0 <= k < args@.len() ==> decreases_to!(parent => #[trigger] args@[k].expr),
        decreases args@.len() - i,
    {
        if args[i].name.is_some() {
            return codegen_fail(&args[i].expr.span, String::from_str("standard runtime calls do not support named arguments"));
        }
        proof {
            assert(decreases_to!(parent => args@[i as int].expr));
        }
        let e = lower_expr(&args[i].expr)?;
        rendered.push(render_expr(&e));
        i = i + 1;
    }
    let expected = action.signature().params.len();
    if rendered.len() != expected {
        let mut m = concat3("call expects ", crate::text::usize_text(expected).as_str(), " arguments, found ");
        m.append(crate::text::usize_text(rendered.len()).as_str());
        return codegen_fail(span, m);
    }
    let text = match action {
        StandardRuntimeAction::ConsolePrint => concat3("support::console_print(", rendered[0].as_str(), ", false, false)"),
        StandardRuntimeAction::ConsolePrintln => concat3("support::console_print(", rendered[0].as_str(), ", true, false)"),
        StandardRuntimeAction::ConsoleEprint => concat3("support::console_print(", rendered[0].as_str(), ", false, true)"),
        StandardRuntimeAction::ConsoleEprintln => concat3("support::console_print(", rendered[0].as_str(), ", true, true)"),
        StandardRuntimeAction::ConsoleReadLine => String::from_str("support::console_read_line()"),
        StandardRuntimeAction::FileReadText => concat3("support::file_read_text(", rendered[0].as_str(), ")"),
        StandardRuntimeAction::FileWriteText => {
            let mut t = concat3("support::file_write_text(", rendered[0].as_str(), ", ");
            t.append(rendered[1].as_str());
            t.append(")");
            t
        },
        StandardRuntimeAction::FileAppendText => {
            let mut t = concat3("support::file_append_text(", rendered[0].as_str(), ", ");
            t.append(rendered[1].as_str());
            t.append(")");
            t
        },
        StandardRuntimeAction::FileExists => concat3("support::file_exists(", rendered[0].as_str(), ")"),
    };
    Ok(raw(text))
}

/// The type recorded for an assignment target.
pub open spec fn target_ty(t: TypedTarget) -> Type {
    match t {
        TypedTarget::Name { ty, .. } => ty,
        TypedTarget::Field { ty, .. } => ty,
        TypedTarget::Index { ty, .. } => ty,
    }
}

/// Whether generated code can read or write through a target: a name, a
/// field of a record, or an element of a list, set or map, each base
/// readable in turn.
pub open spec fn target_readable(t: TypedTarget) -> bool
    decreases t,
{
    match t {
        TypedTarget::Name { .. } => true,
        TypedTarget::Field { base, .. } => target_ty(*base) is Record && target_readable(*base),
        TypedTarget::Index { base, .. } => (target_ty(*base) is List || target_ty(*base) is SetOf || target_ty(*base) is MapOf)
            && target_readable(*base),
    }
}

/// The generated expression that reads the current value at a target.
fn lower_target_value(target: &TypedTarget) -> (r: Result<RustExpr, Vec<Diagnostic>>)
    ensures
        codegen_outcome(r),
        !target_readable(*target) ==> r is Err,
        target matches TypedTarget::Name { symbol, .. } ==> (r matches Ok(RustExpr::Raw(s)) && s@ == symbol.name@
            + ".clone()"@),
        r matches Ok(e) ==> e is Raw,
    decreases *target,
{
    match target {
        TypedTarget::Name { symbol, .. } => Ok(raw(concat(symbol.name.as_str(), ".clone()"))),
        TypedTarget::Field { base, field, span, .. } => {
            proof {
                assert(decreases_to!(*target => **base));
            }
            let base_expr = lower_target_value(base)?;
            match base.ty() {
                Type::Record(_) => {
                    let mut text = concat(render_expr(&base_expr).as_str(), ".borrow().");
                    text.append(field.as_str());
                    text.append(".clone()");
                    Ok(raw(text))
                },
                other => codegen_fail(span, concat3("unsupported target field base `", other.describe().as_str(), "`")),
            }
        },
        TypedTarget::Index { base, index, span, .. } => {
            proof {
                assert(decreases_to!(*target => **base));
            }
            let base_expr = lower_target_value(base)?;
            let index_expr = lower_expr(index)?;
            match base.ty() {
                Type::List(_) | Type::SetOf(_) => {
                    let mut text = concat3("support::list_get(&", render_expr(&base_expr).as_str(), ", ");
                    text.append(render_expr(&index_expr).as_str());
                    text.append(")");
                    Ok(raw(text))
                },
                Type::MapOf(_, _) => {
                    let mut text = concat3("support::map_get(&", render_expr(&base_expr).as_str(), ", &");
                    text.append(render_expr(&index_expr).as_str());
                    text.append(")");
                    Ok(raw(text))
                },
                other => codegen_fail(span, concat3("unsupported target index base `", other.describe().as_str(), "`")),
            }
        },
    }
}

/// The generated statement for `target := value`: a plain assignment to a
/// name, a write through the shared cell of a record, or a support call
/// that stores into a list or a map.
fn lower_assignment(target: &TypedTarget, value: &TypedExpr) -> (r: Result<RustStmt, Vec<Diagnostic>>)
    ensures
        codegen_outcome(r),
        !target_readable(*target) ==> r is Err,
        target matches TypedTarget::Name { symbol, .. } ==> (r matches Ok(st) ==> (st matches RustStmt::Assign {
            target: RustExpr::Raw(s),
            ..
        } && s == symbol.name)),
        !(target is Name) ==> (r matches Ok(st) ==> st is Raw),
{
    let lowered = lower_expr(value)?;
    let value_expr = coerce_expr_to_type(lowered, &value.ty, target.ty());
    match target {
        TypedTarget::Name { symbol, .. } => Ok(RustStmt::Assign { target: raw(symbol.name.clone()), value: value_expr }),
        TypedTarget::Field { base, field, span, .. } => {
            let base_expr = lower_target_value(base)?;
            match base.ty() {
                Type::Record(_) => {
                    let mut text = concat(render_expr(&base_expr).as_str(), ".borrow_mut().");
                    text.append(field.as_str());
                    text.append(" = ");
                    text.append(render_expr(&value_expr).as_str());
                    text.append(";");
                    Ok(RustStmt::Raw(text))
                },
                other => codegen_fail(span, concat3("unsupported field mutation base `", other.describe().as_str(), "`")),
            }
        },
        TypedTarget::Index { base, index, span, .. } => {
            let base_expr = lower_target_value(base)?;
            let index_expr = lower_expr(index)?;
            let base_code = render_expr(&base_expr);
            let index_code = render_expr(&index_expr);
            let prefix = match base.ty() {
                Type::List(_) | Type::SetOf(_) => "support::list_set(&",
                Type::MapOf(_, _) => "support::map_set(&",
                other => {
                    return codegen_fail(span, concat3("unsupported index mutation base `", other.describe().as_str(), "`"));
                },
            };
            let mut text = concat3(prefix, base_code.as_str(), ", ");
            text.append(index_code.as_str());
            text.append(", ");
            text.append(render_expr(&value_expr).as_str());
            text.append(");");
            Ok(RustStmt::Raw(text))
        },
    }
}

/// The name of the temporary that holds a destructured value, from the
/// position of its declaration (line and column at least 1).
fn destructure_temp_name(span: &SourceSpan) -> (r: String)
    ensures
        r@ == "__vulgata_destructure_"@ + crate::text::nat_text((if span.line < 1 { 1 } else { span.line }) as nat) + "_"@
            + crate::text::nat_text((if span.column < 1 { 1 } else { span.column }) as nat),
{
    let line_no = if span.line < 1 { 1 } else { span.line };
    let column = if span.column < 1 { 1 } else { span.column };
    let mut text = concat("__vulgata_destructure_", crate::text::usize_text(line_no).as_str());
    text.append("_");
    text.append(crate::text::usize_text(column).as_str());
    text
}

/// `let [mut] name: Type = support::snapshot(&source);`
fn render_destructure_binding(name: &str, ty: &Type, source_expr: &str, mutable: bool, span: &SourceSpan) -> (r: Result<String, Vec<Diagnostic>>)
    ensures
        codegen_outcome(r),
        r is Err <==> !storable(*ty),
        r matches Ok(text) ==> exists|t: RustType| (t is Unit <==> ty is NoneType) && text@ == "let "@ + (if mutable {
            "mut "@
        } else {
            Seq::empty()
        }) + name@ + ": "@ + type_text(t) + " = support::snapshot(&"@ + source_expr@ + ");"@,
{
    let t = lower_storage_type(ty, span)?;
    let mut text = String::from_str("let ");
    if mutable {
        text.append("mut ");
    }
    text.append(name);
    text.append(": ");
    text.append(render_type(&t).as_str());
    text.append(" = support::snapshot(&");
    text.append(source_expr);
    text.append(");");
    proof {
        assert(text@ =~= "let "@ + (if mutable { "mut "@ } else { Seq::empty() }) + name@ + ": "@ + type_text(t)
            + " = support::snapshot(&"@ + source_expr@ + ");"@);
    }
    Ok(text)
}

/// Whether `names` holds `name`.
fn contains_name(names: &Vec<String>, name: &str) -> (r: bool)
    ensures
        r == exists|i: int| 0 <= i < names@.len() && names@[i]@ == name@,
{
    let mut i: usize = 0;
    while i < names.len()
        invariant
            i <= names@.len(),
            forall|k: int| 0 <= k < i ==> names@[k]@ != name@,
        decreases names@.len() - i,
    {
        if str_eq(names[i].as_str(), name) {
            return true;
        }
        i = i + 1;
    }
    false
}

/// The generated statement for `let` or `var` with a pattern: a single
/// `let` for a name; for a tuple or a record, a temporary that holds the
/// value once, then one copy per bound name. A `var` binding is mutable only
/// when the name is assigned somewhere in the body.
fn lower_declaration_binding(
    pattern: &TypedBindingPattern,
    whole_type: &Type,
    value: &TypedExpr,
    is_var: bool,
    reassigned: &Vec<String>,
    span: &SourceSpan,
) -> (r: Result<RustStmt, Vec<Diagnostic>>)
    ensures
        codegen_outcome(r),
        r matches Ok(s) ==> (pattern.kind is Name ==> s is Let) && (!(pattern.kind is Name) ==> s is Raw),
        pattern.kind matches TypedBindingPatternKind::Name(b) ==> (r matches Ok(st) ==> (st matches RustStmt::Let {
            name,
            mutable,
            ..
        } && name == b.name && mutable == (is_var && names_have(reassigned@, b.name@)))),
{
    match &pattern.kind {
        TypedBindingPatternKind::Name(binding) => {
            let t = lower_storage_type(&binding.ty, span)?;
            let lowered = lower_expr(value)?;
            let mutable = is_var && contains_name(reassigned, binding.name.as_str());
            Ok(RustStmt::Let {
                name: binding.name.clone(),
                ty: Some(t),
                value: coerce_expr_to_type(lowered, &value.ty, whole_type),
                mutable,
            })
        },
        TypedBindingPatternKind::Tuple(bindings) => {
            let temp_name = destructure_temp_name(span);
            let whole = lower_storage_type(whole_type, span)?;
            let lowered = lower_expr(value)?;
            let coerced = coerce_expr_to_type(lowered, &value.ty, whole_type);
            let mut first = concat3("let ", temp_name.as_str(), ": ");
            first.append(render_type(&whole).as_str());
            first.append(" = ");
            first.append(render_expr(&coerced).as_str());
            first.append(";");
            let mut lines: Vec<String> = Vec::new();
            lines.push(first);
            let mut i: usize = 0;
            while i < bindings.len()
                invariant
                    i <= bindings@.len(),
                decreases bindings@.len() - i,
            {
                let binding = &bindings[i];
                let source = concat3(temp_name.as_str(), ".", crate::text::usize_text(i).as_str());
                let mutable = is_var && contains_name(reassigned, binding.name.as_str());
                lines.push(render_destructure_binding(binding.name.as_str(), &binding.ty, source.as_str(), mutable, span)?);
                i = i + 1;
            }
            Ok(RustStmt::Raw(join(&lines, "\n")))
        },
        TypedBindingPatternKind::Record { fields, .. } => {
            let temp_name = destructure_temp_name(span);
            let whole = lower_storage_type(whole_type, span)?;
            let lowered = lower_expr(value)?;
            let coerced = coerce_expr_to_type(lowered, &value.ty, whole_type);
            let mut first = concat3("let ", temp_name.as_str(), ": ");
            first.append(render_type(&whole).as_str());
            first.append(" = ");
            first.append(render_expr(&coerced).as_str());
            first.append(";");
            let mut lines: Vec<String> = Vec::new();
            lines.push(first);
            let mut i: usize = 0;
            while i < fields.len()
                invariant
                    i <= fields@.len(),
                decreases fields@.len() - i,
            {
                let field = &fields[i];
                let source = concat3(temp_name.as_str(), ".borrow().", field.field.as_str());
                let mutable = is_var && contains_name(reassigned, field.binding.name.as_str());
                lines.push(render_destructure_binding(field.binding.name.as_str(), &field.binding.ty, source.as_str(), mutable, span)?);
                i = i + 1;
            }
            Ok(RustStmt::Raw(join(&lines, "\n")))
        },
    }
}

/// The text of a match pattern in the generated program.
fn render_pattern(pattern: &TypedPattern) -> (r: Result<String, Vec<Diagnostic>>)
    ensures
        codegen_outcome(r),
        r matches Ok(t) && t@ == pattern_text(*pattern),
    decreases *pattern, 1int,
{
    match &pattern.kind {
        TypedPatternKind::Wildcard => Ok(String::from_str("_")),
        TypedPatternKind::Literal(literal) => Ok(match literal {
            TypedLiteral::Int(v) => i64_text(*v),
            TypedLiteral::Dec(v) => v.clone(),
            TypedLiteral::String(v) => debug_quoted(v.as_str()),
            TypedLiteral::Bool(v) => String::from_str(if *v { "true" } else { "false" }),
            TypedLiteral::NoneLiteral => String::from_str("None"),
        }),
        TypedPatternKind::Binding(name) => Ok(name.clone()),
        TypedPatternKind::Tuple(items) => {
            proof {
                assert forall|i: int| 0 <= i < items@.len() implies decreases_to!(*pattern => #[trigger] items@[i]) by {
                    assert(decreases_to!(*pattern => items@[i]));
                }
            }
            let texts = render_patterns(items, Ghost(*pattern))?;
            Ok(concat3("(", join(&texts, ", ").as_str(), ")"))
        },
        TypedPatternKind::Record { name, fields } => {
            proof {
                assert forall|i: int| 0 <= i < fields@.len() implies decreases_to!(*pattern => #[trigger] fields@[i].pattern) by {
                    assert(decreases_to!(*pattern => fields@[i].pattern));
                }
            }
            let mut texts: Vec<String> = Vec::new();
            let mut i: usize = 0;
            while i < fields.len()
                invariant
                    i <= fields@.len(),
                    forall|k: int| 0 <= k < fields@.len() ==> decreases_to!(*pattern => #[trigger] fields@[k].pattern),
                    views_of(texts@) == field_patterns_text(fields@.take(i as int)),
                decreases fields@.len() - i,
            {
                proof {
                    assert(decreases_to!(*pattern => fields@[i as int].pattern));
                }
                let p = render_pattern(&fields[i].pattern)?;
                let mut text = concat(fields[i].name.as_str(), ": ");
                text.append(p.as_str());
                proof {
                    assert(fields@.take(i + 1).drop_last() =~= fields@.take(i as int));
                    assert(views_of(texts@.push(text)) =~= views_of(texts@).push(text@));
                }
                texts.push(text);
                i = i + 1;
            }
            proof {
                assert(fields@.take(i as int) =~= fields@);
            }
            if texts.len() == 0 {
                Ok(concat(name.as_str(), " { .. }"))
            } else {
                let mut text = concat3(name.as_str(), " { ", join(&texts, ", ").as_str());
                text.append(", .. }");
                Ok(text)
            }
        },
        TypedPatternKind::Variant { variant_type, variant_name, field_names, args } => {
            proof {
                assert forall|i: int| 0 <= i < args@.len() implies decreases_to!(*pattern => #[trigger] args@[i]) by {
                    assert(decreases_to!(*pattern => args@[i]));
                }
            }
            let owner = variant_type.as_str();
            let name = variant_name.as_str();
            if (str_eq(owner, "Option") && str_eq(name, "Some"))
                || (str_eq(owner, "Result") && (str_eq(name, "Ok") || str_eq(name, "Err"))) {
                let texts = render_patterns(args, Ghost(*pattern))?;
                let mut text = concat3(name, "(", join(&texts, ", ").as_str());
                text.append(")");
                Ok(text)
            } else if str_eq(owner, "Option") && str_eq(name, "None") {
                Ok(String::from_str("None"))
            } else if field_names.len() == 0 {
                Ok(concat3(owner, "::", name))
            } else {
                let ghost used = named_args(field_names@, args@);
                let mut texts: Vec<String> = Vec::new();
                let mut i: usize = 0;
                while i < field_names.len() && i < args.len()
                    invariant
                        forall|k: int| 0 <= k < args@.len() ==> decreases_to!(*pattern => #[trigger] args@[k]),
                        i <= used.len(),
                        used == named_args(field_names@, args@),
                        views_of(texts@) == named_patterns_text(field_names@, used.take(i as int)),
                    decreases field_names@.len() - i,
                {
                    proof {
                        assert(decreases_to!(*pattern => args@[i as int]));
                        assert(used[i as int] == args@[i as int]);
                    }
                    let p = render_pattern(&args[i])?;
                    let mut text = concat(field_names[i].as_str(), ": ");
                    text.append(p.as_str());
                    proof {
                        assert(used.take(i + 1).drop_last() =~= used.take(i as int));
                        assert(views_of(texts@.push(text)) =~= views_of(texts@).push(text@));
                    }
                    texts.push(text);
                    i = i + 1;
                }
                proof {
                    assert(used.take(i as int) =~= used);
                }
                let mut text = concat3(owner, "::", name);
                text.append(" { ");
                text.append(join(&texts, ", ").as_str());
                text.append(" }");
                Ok(text)
            }
        },
    }
}

/// The texts of a list of patterns.
fn render_patterns(items: &Vec<TypedPattern>, Ghost(parent): Ghost<TypedPattern>) -> (r: Result<Vec<String>, Vec<Diagnostic>>)
    requires
        forall|i: int| 0 <= i < items@.len() ==> decreases_to!(parent => #[trigger] items@[i]),
    ensures
        codegen_outcome(r),
        r matches Ok(texts) && views_of(texts@) == patterns_text(items@),
    decreases parent, 0int,
{
    let mut texts: Vec<String> = Vec::new();
    let mut i: usize = 0;
    while i < items.len()
        invariant
            i <= items@.len(),
            forall|k: int| 0 <= k < items@.len() ==> decreases_to!(parent => #[trigger] items@[k]),
            views_of(texts@) == patterns_text(items@.take(i as int)),
        decreases items@.len() - i,
    {
        proof {
            assert(decreases_to!(parent => items@[i as int]));
        }
        let t = render_pattern(&items[i])?;
        proof {
            assert(items@.take(i + 1).drop_last() =~= items@.take(i as int));
            assert(views_of(texts@.push(t)) =~= views_of(texts@).push(t@));
        }
        texts.push(t);
        i = i + 1;
    }
    proof {
        assert(items@.take(i as int) =~= items@);
    }
    Ok(texts)
}

/// The text of a literal in a pattern.
pub open spec fn literal_pattern_text(l: TypedLiteral) -> Seq<char> {
    match l {
        TypedLiteral::Int(v) => int_text(v as int),
        TypedLiteral::Dec(v) => v@,
        TypedLiteral::String(v) => seq!['"'] + escaped(v@) + seq!['"'],
        TypedLiteral::Bool(b) => if b {
            "true"@
        } else {
            "false"@
        },
        TypedLiteral::NoneLiteral => "None"@,
    }
}

/// The payload patterns of a variant pattern that have a field name.
pub open spec fn named_args(names: Seq<String>, args: Seq<TypedPattern>) -> Seq<TypedPattern> {
    if names.len() < args.len() {
        args.take(names.len() as int)
    } else {
        args
    }
}

/// The Rust text of a pattern: `_`, the literal, the name, a tuple, a record
/// with `..`, `Some(..)`, `Ok(..)`, `Err(..)`, `None`, a unit variant
/// `Enum::Variant`, or `Enum::Variant { field: pattern, .. }`.
pub open spec fn pattern_text(p: TypedPattern) -> Seq<char>
    decreases p, 1int,
{
    match p.kind {
        TypedPatternKind::Wildcard => "_"@,
        TypedPatternKind::Literal(l) => literal_pattern_text(l),
        TypedPatternKind::Binding(n) => n@,
        TypedPatternKind::Tuple(items) => {
            proof {
                assert(decreases_to!(p => items@));
            }
            "("@ + joined(patterns_text(items@), ", "@) + ")"@
        },
        TypedPatternKind::Record { name, fields } => {
            proof {
                assert(decreases_to!(p => fields@));
            }
            if fields@.len() == 0 {
                name@ + " { .. }"@
            } else {
                name@ + " { "@ + joined(field_patterns_text(fields@), ", "@) + ", .. }"@
            }
        },
        TypedPatternKind::Variant { variant_type, variant_name, field_names, args } => {
            proof {
                assert(decreases_to!(p => args@));
                if field_names@.len() < args@.len() {
                    assert(decreases_to!(args@ => args@.subrange(0, field_names@.len() as int)));
                }
            }
            let owner = variant_type@;
            let name = variant_name@;
            if (owner == "Option"@ && name == "Some"@) || (owner == "Result"@ && (name == "Ok"@ || name == "Err"@)) {
                name + "("@ + joined(patterns_text(args@), ", "@) + ")"@
            } else if owner == "Option"@ && name == "None"@ {
                "None"@
            } else if field_names@.len() == 0 {
                owner + "::"@ + name
            } else {
                owner + "::"@ + name + " { "@ + joined(
                    named_patterns_text(field_names@, named_args(field_names@, args@)),
                    ", "@,
                ) + " }"@
            }
        },
    }
}

/// The texts of a list of patterns.
pub open spec fn patterns_text(items: Seq<TypedPattern>) -> Seq<Seq<char>>
    decreases items, 0int,
{
    if items.len() == 0 {
        Seq::empty()
    } else {
        proof {
            assert(decreases_to!(items => items.drop_last()));
            assert(decreases_to!(items => items[items.len() - 1]));
        }
        patterns_text(items.drop_last()).push(pattern_text(items.last()))
    }
}

/// The texts `field: pattern` of the fields of a record pattern.
pub open spec fn field_patterns_text(fields: Seq<crate::tir::TypedRecordPatternField>) -> Seq<Seq<char>>
    decreases fields, 0int,
{
    if fields.len() == 0 {
        Seq::empty()
    } else {
        proof {
            assert(decreases_to!(fields => fields.drop_last()));
            assert(decreases_to!(fields => fields[fields.len() - 1]));
        }
        field_patterns_text(fields.drop_last()).push(fields.last().name@ + ": "@ + pattern_text(fields.last().pattern))
    }
}

/// The texts `name: pattern` of payload patterns, each with the field name
/// at its place.
pub open spec fn named_patterns_text(names: Seq<String>, args: Seq<TypedPattern>) -> Seq<Seq<char>>
    decreases args, 0int,
{
    if args.len() == 0 {
        Seq::empty()
    } else {
        proof {
            assert(decreases_to!(args => args.drop_last()));
            assert(decreases_to!(args => args[args.len() - 1]));
        }
        named_patterns_text(names, args.drop_last()).push(names[args.len() - 1]@ + ": "@ + pattern_text(args.last()))
    }
}

/// The lines of a text as `str::lines` yields them: split at each `\n`,
/// with no empty line after a final `\n`, and a `\r` before a `\n` dropped.
fn split_lines(text: &str) -> (r: Vec<String>)
    ensures
        r@.len() == crate::lexer::source_lines(text@).len(),
        forall|k: int| 0 <= k < r@.len() ==> (#[trigger] r@[k])@ == crate::lexer::source_lines(text@)[k],
{
    let chars = crate::text::chars_of(text);
    let parts = crate::lexer::split_lines(&chars);
    let mut lines: Vec<String> = Vec::new();
    let mut i: usize = 0;
    while i < parts.len()
        invariant
            i <= parts@.len(),
            chars@ == text@,
            parts@.map_values(|l: Vec<char>| l@) == crate::lexer::source_lines(chars@),
            lines@.len() == i,
            forall|k: int| 0 <= k < i ==> (#[trigger] lines@[k])@ == crate::lexer::source_lines(chars@)[k],
        decreases parts@.len() - i,
    {
        proof {
            assert(parts@.map_values(|l: Vec<char>| l@)[i as int] == parts@[i as int]@);
        }
        lines.push(crate::text::text_of_range(parts[i].as_slice(), 0, parts[i].len()));
        proof {
            assert(parts@[i as int]@.subrange(0, parts@[i as int]@.len() as int) =~= parts@[i as int]@);
        }
        i = i + 1;
    }
    lines
}

/// The generated statement for a typed statement. `expect` compiles only in
/// a test body, where a false expectation is recorded as a failure; the
/// descriptive constructs do not compile.
fn lower_stmt(stmt: &TypedStmt, in_test: bool, reassigned: &Vec<String>, return_type: &Type) -> (r: Result<RustStmt, Vec<Diagnostic>>)
    ensures
        codegen_outcome(r),
        (stmt.kind is IntentBlock || stmt.kind is ExplainBlock || stmt.kind is StepBlock || stmt.kind is RequiresClause
            || stmt.kind is EnsuresClause || stmt.kind is ExampleBlock) ==> r is Err,
        (stmt.kind is Expect && !in_test) ==> r is Err,
        (stmt.kind is Expect && in_test) ==> (r matches Ok(st) ==> (st matches RustStmt::Raw(t) && t@.take(4) == "if !"@)),
        stmt.kind matches TypedStmtKind::Let { pattern, .. } ==> (pattern.kind matches TypedBindingPatternKind::Name(b) ==> (
        r matches Ok(st) ==> (st matches RustStmt::Let { name, mutable, .. } && name == b.name && !mutable))),
        stmt.kind matches TypedStmtKind::Var { pattern, .. } ==> (pattern.kind matches TypedBindingPatternKind::Name(b) ==> (
        r matches Ok(st) ==> (st matches RustStmt::Let { name, mutable, .. } && name == b.name && mutable == names_have(
            reassigned@,
            b.name@,
        )))),
        stmt.kind is Break ==> r == Ok::<RustStmt, Vec<Diagnostic>>(RustStmt::Break),
        stmt.kind is Continue ==> r == Ok::<RustStmt, Vec<Diagnostic>>(RustStmt::Continue),
        stmt.kind == TypedStmtKind::Return(None) ==> r == Ok::<RustStmt, Vec<Diagnostic>>(RustStmt::Return(None)),
        stmt.kind matches TypedStmtKind::Return(Some(e)) && typed_closed(e) ==> r matches Ok(RustStmt::Return(Some(_))),
        match stmt.kind {
            TypedStmtKind::Expr(e) => typed_closed(e) ==> (r matches Ok(RustStmt::Expr(x)) && rust_closed(e, x)),
            _ => true,
        },
    decreases *stmt, 1int,
{
    match &stmt.kind {
        TypedStmtKind::Let { pattern, ty, value } => lower_declaration_binding(pattern, ty, value, false, reassigned, &stmt.span),
        TypedStmtKind::Var { pattern, ty, value } => lower_declaration_binding(pattern, ty, value, true, reassigned, &stmt.span),
        TypedStmtKind::Assign { target, value } => lower_assignment(target, value),
        TypedStmtKind::If { branches, else_branch } => {
            proof {
                assert forall|k: int| 0 <= k < branches@.len() implies decreases_to!(*stmt => #[trigger] branches@[k].1) by {
                    assert(decreases_to!(*stmt => branches@[k].1));
                }
                assert(decreases_to!(*stmt => *else_branch));
            }
            lower_if(branches, else_branch, in_test, reassigned, return_type, Ghost(*stmt))
        },
        TypedStmtKind::While { condition, body } => {
            let c = lower_expr(condition)?;
            proof {
                assert(decreases_to!(*stmt => *body));
            }
            let b = lower_block(body, in_test, reassigned, return_type)?;
            Ok(RustStmt::While { condition: c, body: b })
        },
        TypedStmtKind::Match { scrutinee, arms } => {
            proof {
                assert forall|k: int| 0 <= k < arms@.len() implies decreases_to!(*stmt => #[trigger] arms@[k].body) by {
                    assert(decreases_to!(*stmt => arms@[k].body));
                }
            }
            lower_match_stmt(scrutinee, arms, in_test, reassigned, return_type, Ghost(*stmt))
        },
        TypedStmtKind::ForEach { binding, iterable, body } => {
            let it = lower_expr(iterable)?;
            proof {
                assert(decreases_to!(*stmt => *body));
            }
            let b = lower_block(body, in_test, reassigned, return_type)?;
            Ok(RustStmt::ForEach { binding: binding.clone(), iterable: it, body: b })
        },
        TypedStmtKind::Return(expr) => match expr {
            Some(e) => {
                let lowered = lower_expr(e)?;
                Ok(RustStmt::Return(Some(coerce_expr_to_type(lowered, &e.ty, return_type))))
            },
            None => Ok(RustStmt::Return(None)),
        },
        TypedStmtKind::Break => Ok(RustStmt::Break),
        TypedStmtKind::Continue => Ok(RustStmt::Continue),
        TypedStmtKind::IntentBlock { .. } | TypedStmtKind::ExplainBlock { .. } | TypedStmtKind::StepBlock { .. }
        | TypedStmtKind::RequiresClause(_) | TypedStmtKind::EnsuresClause(_) | TypedStmtKind::ExampleBlock { .. } => {
            codegen_fail(&stmt.span, String::from_str("compile does not yet support semantic-layer constructs"))
        },
        TypedStmtKind::Expect(expr) => {
            if !in_test {
                return codegen_fail(&stmt.span, String::from_str("`expect` can only be compiled inside test bodies"));
            }
            let lowered = lower_expr(expr)?;
            let message = concat(expr.span.render().as_str(), " expect expression evaluated to false");
            let mut text = concat3("if !", render_expr(&lowered).as_str(), " { failures.push(");
            proof {
                reveal_strlit("if !");
                assert(text@.take(4) =~= "if !"@);
            }
            let ghost head = text@;
            text.append(debug_quoted(message.as_str()).as_str());
            text.append(".to_string()); }");
            proof {
                assert(text@.take(4) =~= head.take(4));
            }
            Ok(RustStmt::Raw(text))
        },
        TypedStmtKind::Expr(expr) => {
            let lowered = lower_expr(expr)?;
            Ok(RustStmt::Expr(lowered))
        },
    }
}

/// The generated statements of a block, in order.
fn lower_block(block: &Vec<TypedStmt>, in_test: bool, reassigned: &Vec<String>, return_type: &Type) -> (r: Result<Vec<RustStmt>, Vec<Diagnostic>>)
    ensures
        codegen_outcome(r),
        r matches Ok(v) ==> v@.len() == block@.len(),
    decreases *block, 0int,
{
    let mut out: Vec<RustStmt> = Vec::new();
    let mut i: usize = 0;
    while i < block.len()
        invariant
            i <= block@.len(),
            out@.len() == i,
        decreases block@.len() - i,
    {
        proof {
            assert(decreases_to!(*block => block@[i as int]));
        }
        let s = lower_stmt(&block[i], in_test, reassigned, return_type)?;
        out.push(s);
        i = i + 1;
    }
    Ok(out)
}

/// The generated `if` chain: the first branch with the `else` branch, then
/// each further branch wrapped around it, from the last to the second.
fn lower_if(
    branches: &Vec<(TypedExpr, Vec<TypedStmt>)>,
    else_branch: &Vec<TypedStmt>,
    in_test: bool,
    reassigned: &Vec<String>,
    return_type: &Type,
    Ghost(parent): Ghost<TypedStmt>,
) -> (r: Result<RustStmt, Vec<Diagnostic>>)
    requires
        forall|k: int| 0 <= k < branches@.len() ==> decreases_to!(parent => #[trigger] branches@[k].1),
        decreases_to!(parent => *else_branch),
    ensures
        codegen_outcome(r),
        branches@.len() == 0 ==> (r matches Ok(RustStmt::Raw(t)) && t@ == "{}"@),
        branches@.len() > 0 ==> (r matches Ok(s) ==> s is If),
    decreases parent, 0int,
{
    if branches.len() == 0 {
        return Ok(RustStmt::Raw(String::from_str("{}")));
    }
    let c0 = lower_expr(&branches[0].0)?;
    proof {
        assert(decreases_to!(parent => branches@[0].1));
    }
    let t0 = lower_block(&branches[0].1, in_test, reassigned, return_type)?;
    let e0 = lower_block(else_branch, in_test, reassigned, return_type)?;
    let mut statement = RustStmt::If { condition: c0, then_body: t0, else_body: e0 };
    let mut k: usize = branches.len();
    while k > 1
        invariant
            k <= branches@.len(),
            forall|j: int| 0 <= j < branches@.len() ==> decreases_to!(parent => #[trigger] branches@[j].1),
            statement is If,
        decreases k,
    {
        k = k - 1;
        let c = lower_expr(&branches[k].0)?;
        proof {
            assert(decreases_to!(parent => branches@[k as int].1));
        }
        let t = lower_block(&branches[k].1, in_test, reassigned, return_type)?;
        let mut wrapped: Vec<RustStmt> = Vec::new();
        wrapped.push(statement);
        statement = RustStmt::If { condition: c, then_body: t, else_body: wrapped };
    }
    Ok(statement)
}

/// The generated `match`, written out as text: one arm per pattern, each
/// arm's statements indented inside it, and a final arm that panics with
/// `NonExhaustiveMatch`.
fn lower_match_stmt(
    scrutinee: &TypedExpr,
    arms: &Vec<TypedMatchArm>,
    in_test: bool,
    reassigned: &Vec<String>,
    return_type: &Type,
    Ghost(parent): Ghost<TypedStmt>,
) -> (r: Result<RustStmt, Vec<Diagnostic>>)
    requires
        forall|k: int| 0 <= k < arms@.len() ==> decreases_to!(parent => #[trigger] arms@[k].body),
    ensures
        codegen_outcome(r),
        r matches Ok(s) ==> s is Raw,
    decreases parent, 0int,
{
    let s = lower_expr(scrutinee)?;
    let mut lines: Vec<String> = Vec::new();
    lines.push(concat3("match ", render_expr(&s).as_str(), " {"));
    let mut i: usize = 0;
    while i < arms.len()
        invariant
            i <= arms@.len(),
            forall|k: int| 0 <= k < arms@.len() ==> decreases_to!(parent => #[trigger] arms@[k].body),
        decreases arms@.len() - i,
    {
        let pattern = render_pattern(&arms[i].pattern)?;
        lines.push(concat3("    ", pattern.as_str(), " => {"));
        proof {
            assert(decreases_to!(parent => arms@[i as int].body));
        }
        let body = lower_block(&arms[i].body, in_test, reassigned, return_type)?;
        let mut k: usize = 0;
        while k < body.len()
            invariant
                k <= body@.len(),
            decreases body@.len() - k,
        {
            let mut rendered = String::new();
            render_stmt(&body[k], 2, &mut rendered);
            let pieces = split_lines(rendered.as_str());
            let mut j: usize = 0;
            while j < pieces.len()
                invariant
                    j <= pieces@.len(),
                decreases pieces@.len() - j,
            {
                lines.push(pieces[j].clone());
                j = j + 1;
            }
            k = k + 1;
        }
        lines.push(String::from_str("    },"));
        i = i + 1;
    }
    lines.push(String::from_str("    _ => panic!(\"NonExhaustiveMatch\"),"));
    lines.push(String::from_str("}"));
    Ok(RustStmt::Raw(join(&lines, "\n")))
}

/// Whether `n` occurs among `names`.
pub open spec fn names_have(names: Seq<String>, n: Seq<char>) -> bool {
    exists|i: int| 0 <= i < names.len() && names[i]@ == n
}

/// Whether a statement assigns the name `n` directly, at any depth of its
/// nested blocks.
pub open spec fn stmt_assigns(stmt: TypedStmt, n: Seq<char>) -> bool
    decreases stmt, 1int,
{
    match stmt.kind {
        TypedStmtKind::Assign { target, .. } => target matches TypedTarget::Name { symbol, .. } && symbol.name@ == n,
        TypedStmtKind::If { branches, else_branch } => {
            proof {
                assert(decreases_to!(stmt => else_branch@));
            }
            (exists|k: int|
                0 <= k < branches@.len() && {
                    proof {
                        assert(decreases_to!(stmt => branches@[k].1@));
                    }
                    block_assigns(#[trigger] branches@[k].1@, n)
                }) || block_assigns(else_branch@, n)
        },
        TypedStmtKind::While { body, .. } | TypedStmtKind::ForEach { body, .. } | TypedStmtKind::StepBlock {
            body,
            ..
        } => {
            proof {
                assert(decreases_to!(stmt => body@));
            }
            block_assigns(body@, n)
        },
        TypedStmtKind::Match { arms, .. } => exists|k: int|
            0 <= k < arms@.len() && {
                proof {
                    assert(decreases_to!(stmt => arms@[k].body@));
                }
                block_assigns(#[trigger] arms@[k].body@, n)
            },
        _ => false,
    }
}

/// Whether a statement of a block assigns the name `n` directly.
pub open spec fn block_assigns(block: Seq<TypedStmt>, n: Seq<char>) -> bool
    decreases block, 0int,
{
    exists|i: int|
        0 <= i < block.len() && {
            proof {
                assert(decreases_to!(block => block[i]));
            }
            stmt_assigns(#[trigger] block[i], n)
        }
}

/// Adds `name` to `names` unless it is already there.
fn add_name(names: &mut Vec<String>, name: &str)
    ensures
        exists|i: int| 0 <= i < final(names)@.len() && final(names)@[i]@ == name@,
        forall|n: Seq<char>| #[trigger] names_have(final(names)@, n) <==> (names_have(old(names)@, n) || n == name@),
{
    if !contains_name(names, name) {
        let ghost before = names@;
        names.push(String::from_str(name));
        assert(names@[names@.len() - 1]@ == name@);
        proof {
            assert forall|n: Seq<char>| #[trigger] names_have(names@, n) <==> (names_have(before, n) || n == name@) by {
                if names_have(before, n) {
                    let i = choose|i: int| 0 <= i < before.len() && before[i]@ == n;
                    assert(names@[i] == before[i]);
                }
                if names_have(names@, n) {
                    let i = choose|i: int| 0 <= i < names@.len() && names@[i]@ == n;
                    if i < before.len() {
                        assert(names@[i] == before[i]);
                    }
                }
            }
        }
    }
}

/// Collects the names that a statement assigns directly, at any depth of
/// its nested blocks.
fn collect_stmt_assignments(stmt: &TypedStmt, names: &mut Vec<String>)
    ensures
        forall|n: Seq<char>| #[trigger] names_have(final(names)@, n) <==> (names_have(old(names)@, n) || stmt_assigns(
            *stmt,
            n,
        )),
    decreases *stmt, 1int,
{
    let ghost start = names@;
    match &stmt.kind {
        TypedStmtKind::Assign { target, .. } => {
            if let TypedTarget::Name { symbol, .. } = target {
                add_name(names, symbol.name.as_str());
            }
        },
        TypedStmtKind::If { branches, else_branch } => {
            proof {
                assert forall|k: int| 0 <= k < branches@.len() implies decreases_to!(*stmt => #[trigger] branches@[k].1) by {
                    assert(decreases_to!(*stmt => branches@[k].1));
                }
            }
            let mut i: usize = 0;
            while i < branches.len()
                invariant
                    i <= branches@.len(),
                    forall|k: int| 0 <= k < branches@.len() ==> decreases_to!(*stmt => #[trigger] branches@[k].1),
                    forall|n: Seq<char>| #[trigger] names_have(names@, n) <==> (names_have(start, n) || exists|k: int|
                        0 <= k < i && block_assigns(#[trigger] branches@[k].1@, n)),
                decreases branches@.len() - i,
            {
                proof {
                    assert(decreases_to!(*stmt => branches@[i as int].1));
                }
                let ghost before = names@;
                collect_block_assignments(&branches[i].1, names);
                proof {
                    assert forall|n: Seq<char>| #[trigger] names_have(names@, n) <==> (names_have(start, n) || exists|k: int|
                        0 <= k < i + 1 && block_assigns(#[trigger] branches@[k].1@, n)) by {
                        if exists|k: int| 0 <= k < i + 1 && block_assigns(#[trigger] branches@[k].1@, n) {
                            let k = choose|k: int| 0 <= k < i + 1 && block_assigns(#[trigger] branches@[k].1@, n);
                            if k < i {
                                assert(names_have(before, n));
                            }
                        }
                    }
                }
                i = i + 1;
            }
            proof {
                assert(decreases_to!(*stmt => *else_branch));
            }
            collect_block_assignments(else_branch, names);
        },
        TypedStmtKind::While { body, .. } | TypedStmtKind::ForEach { body, .. } | TypedStmtKind::StepBlock { body, .. } => {
            proof {
                assert(decreases_to!(*stmt => *body));
            }
            collect_block_assignments(body, names);
        },
        TypedStmtKind::Match { arms, .. } => {
            proof {
                assert forall|k: int| 0 <= k < arms@.len() implies decreases_to!(*stmt => #[trigger] arms@[k].body) by {
                    assert(decreases_to!(*stmt => arms@[k].body));
                }
            }
            let mut i: usize = 0;
            while i < arms.len()
                invariant
                    i <= arms@.len(),
                    forall|k: int| 0 <= k < arms@.len() ==> decreases_to!(*stmt => #[trigger] arms@[k].body),
                    forall|n: Seq<char>| #[trigger] names_have(names@, n) <==> (names_have(start, n) || exists|k: int|
                        0 <= k < i && block_assigns(#[trigger] arms@[k].body@, n)),
                decreases arms@.len() - i,
            {
                proof {
                    assert(decreases_to!(*stmt => arms@[i as int].body));
                }
                let ghost before = names@;
                collect_block_assignments(&arms[i].body, names);
                proof {
                    assert forall|n: Seq<char>| #[trigger] names_have(names@, n) <==> (names_have(start, n) || exists|k: int|
                        0 <= k < i + 1 && block_assigns(#[trigger] arms@[k].body@, n)) by {
                        if exists|k: int| 0 <= k < i + 1 && block_assigns(#[trigger] arms@[k].body@, n) {
                            let k = choose|k: int| 0 <= k < i + 1 && block_assigns(#[trigger] arms@[k].body@, n);
                            if k < i {
                                assert(names_have(before, n));
                            }
                        }
                    }
                }
                i = i + 1;
            }
        },
        _ => {},
    }
}

/// Collects the names that the statements of a block assign directly.
fn collect_block_assignments(block: &Vec<TypedStmt>, names: &mut Vec<String>)
    ensures
        forall|n: Seq<char>| #[trigger] names_have(final(names)@, n) <==> (names_have(old(names)@, n) || block_assigns(
            block@,
            n,
        )),
    decreases *block, 0int,
{
    let ghost start = names@;
    let mut i: usize = 0;
    while i < block.len()
        invariant
            i <= block@.len(),
            forall|n: Seq<char>| #[trigger] names_have(names@, n) <==> (names_have(start, n) || exists|k: int|
                0 <= k < i && stmt_assigns(#[trigger] block@[k], n)),
        decreases block@.len() - i,
    {
        proof {
            assert(decreases_to!(*block => block@[i as int]));
        }
        let ghost before = names@;
        collect_stmt_assignments(&block[i], names);
        proof {
            assert forall|n: Seq<char>| #[trigger] names_have(names@, n) <==> (names_have(start, n) || exists|k: int|
                0 <= k < i + 1 && stmt_assigns(#[trigger] block@[k], n)) by {
                if exists|k: int| 0 <= k < i + 1 && stmt_assigns(#[trigger] block@[k], n) {
                    let k = choose|k: int| 0 <= k < i + 1 && stmt_assigns(#[trigger] block@[k], n);
                    if k < i {
                        assert(names_have(before, n));
                    }
                }
            }
        }
        i = i + 1;
    }
}

/// Whether control can reach the end of a generated statement.
pub open spec fn stmt_falls_through(stmt: RustStmt) -> bool
    decreases stmt, 1int,
{
    match stmt {
        RustStmt::Return(_) | RustStmt::Break | RustStmt::Continue => false,
        RustStmt::If { then_body, else_body, .. } => {
            if else_body@.len() == 0 {
                true
            } else {
                block_falls_through(then_body@) || block_falls_through(else_body@)
            }
        },
        _ => true,
    }
}

/// Whether control can reach the end of a generated block: every statement
/// lets control through.
pub open spec fn block_falls_through(block: Seq<RustStmt>) -> bool
    decreases block, 0int,
{
    forall|i: int| 0 <= i < block.len() ==> stmt_falls_through(#[trigger] block[i])
}

fn stmt_may_fall_through(stmt: &RustStmt) -> (r: bool)
    ensures
        r == stmt_falls_through(*stmt),
    decreases *stmt, 1int,
{
    match stmt {
        RustStmt::Return(_) | RustStmt::Break | RustStmt::Continue => false,
        RustStmt::If { then_body, else_body, .. } => {
            if else_body.len() == 0 {
                true
            } else {
                proof {
                    assert(decreases_to!(*stmt => *then_body));
                    assert(decreases_to!(*stmt => *else_body));
                }
                block_may_fall_through(then_body) || block_may_fall_through(else_body)
            }
        },
        _ => true,
    }
}

fn block_may_fall_through(block: &Vec<RustStmt>) -> (r: bool)
    ensures
        r == block_falls_through(block@),
    decreases *block, 0int,
{
    let mut i: usize = 0;
    while i < block.len()
        invariant
            i <= block@.len(),
            forall|k: int| 0 <= k < i ==> stmt_falls_through(#[trigger] block@[k]),
        decreases block@.len() - i,
    {
        proof {
            assert(decreases_to!(*block => block@[i as int]));
        }
        if !stmt_may_fall_through(&block[i]) {
            return false;
        }
        i = i + 1;
    }
    true
}

/// The result type of an action type.
fn action_result<'a>(ty: &'a Type, span: &SourceSpan) -> (r: Result<&'a Type, Vec<Diagnostic>>)
    ensures
        codegen_outcome(r),
        ty matches Type::Action(a) ==> (r matches Ok(t) && *t == *a.result),
        !(ty is Action) ==> r is Err,
{
    match ty {
        Type::Action(a) => Ok(&a.result),
        other => codegen_fail(span, concat("expected action type, found ", other.describe().as_str())),
    }
}

/// The generated body of an action. A body that can end without returning
/// ends with `()` when the action returns `None`, and with a panic
/// otherwise.
fn lower_action_body(action: &TypedActionDecl) -> (r: Result<Vec<RustStmt>, Vec<Diagnostic>>)
    ensures
        codegen_outcome(r),
        r matches Ok(v) ==> v@.len() >= action.body@.len(),
{
    let result_type = action_result(&action.ty, &action.span)?;
    let mut reassigned: Vec<String> = Vec::new();
    collect_block_assignments(&action.body, &mut reassigned);
    let mut body = lower_block(&action.body, false, &reassigned, result_type)?;
    if block_may_fall_through(&body) {
        if matches!(result_type, Type::NoneType) {
            body.push(RustStmt::Raw(String::from_str("()")));
        } else {
            let text = concat3("panic!(\"action `", action.name.as_str(), "` fell through without returning\");");
            body.push(RustStmt::Raw(text));
        }
    }
    Ok(body)
}

/// The generated body of a test: a list of failures, the test's statements,
/// and the list as the result.
fn lower_test_body(test_decl: &TypedTestDecl) -> (r: Result<Vec<RustStmt>, Vec<Diagnostic>>)
    ensures
        codegen_outcome(r),
        r matches Ok(v) ==> v@.len() == test_decl.body@.len() + 2 && v@[0] is Let && v@.last() is Return,
{
    let mut reassigned: Vec<String> = Vec::new();
    collect_block_assignments(&test_decl.body, &mut reassigned);
    let none_type = Type::NoneType;
    let lowered = lower_block(&test_decl.body, true, &reassigned, &none_type)?;
    let mut body: Vec<RustStmt> = Vec::new();
    body.push(RustStmt::Let {
        name: String::from_str("failures"),
        ty: Some(RustType::Path(String::from_str("Vec<String>"))),
        value: raw(String::from_str("Vec::new()")),
        mutable: true,
    });
    let mut rest = lowered;
    let n = rest.len();
    while rest.len() > 0
        invariant
            body@.len() + rest@.len() == n + 1,
            body@.len() >= 1,
            body@[0] is Let,
        decreases rest@.len(),
    {
        let s = rest.remove(0);
        body.push(s);
    }
    body.push(RustStmt::Return(Some(raw(String::from_str("failures")))));
    Ok(body)
}

/// The generated text that prints the value of `binding`, of type `ty`, as
/// the interpreter shows values.
fn render_runtime_value(binding: &str, ty: &Type) -> (r: String)
    ensures
        r@ == match *ty {
            Type::Bool => "format!(\"Bool({})\", "@ + binding@ + ")"@,
            Type::Int => "format!(\"Int({})\", "@ + binding@ + ")"@,
            Type::Dec => "format!(\"Dec({})\", "@ + binding@ + ")"@,
            Type::Text => "format!(\"Text({:?})\", "@ + binding@ + ")"@,
            Type::NoneType => "\"None\".to_string()"@,
            _ => "format!(\"{:?}\", "@ + binding@ + ")"@,
        },
{
    match ty {
        Type::Bool => concat3("format!(\"Bool({})\", ", binding, ")"),
        Type::Int => concat3("format!(\"Int({})\", ", binding, ")"),
        Type::Dec => concat3("format!(\"Dec({})\", ", binding, ")"),
        Type::Text => concat3("format!(\"Text({:?})\", ", binding, ")"),
        Type::NoneType => String::from_str("\"None\".to_string()"),
        _ => concat3("format!(\"{:?}\", ", binding, ")"),
    }
}

/// The generated `main`: it runs every test and reports each, exiting with
/// failure when one fails; without tests it runs and prints `main()` of the
/// module, if there is one without parameters.
fn entrypoint_item(module: &TypedIrModule) -> (r: RustItem)
    ensures
        r matches RustItem::Function { name, params, result, .. } && name@ == "main"@ && params@.len() == 0 && result is Unit,
{
    let decls = &module.declarations;
    let mut test_names: Vec<String> = Vec::new();
    let mut main_action: Option<&TypedActionDecl> = None;
    let mut i: usize = 0;
    while i < decls.len()
        invariant
            i <= decls@.len(),
        decreases decls@.len() - i,
    {
        match &decls[i] {
            TypedDecl::Test(t) => {
                test_names.push(t.name.clone());
            },
            TypedDecl::Action(a) => {
                if main_action.is_none() && str_eq(a.name.as_str(), "main") && a.params.len() == 0 {
                    main_action = Some(a);
                }
            },
            _ => {},
        }
        i = i + 1;
    }
    let mut body: Vec<RustStmt> = Vec::new();
    if test_names.len() > 0 {
        body.push(RustStmt::Let {
            name: String::from_str("failed"),
            ty: Some(RustType::Path(String::from_str("usize"))),
            value: raw(String::from_str("0usize")),
            mutable: true,
        });
        let mut k: usize = 0;
        while k < test_names.len()
            invariant
                k <= test_names@.len(),
            decreases test_names@.len() - k,
        {
            let name = test_names[k].as_str();
            body.push(RustStmt::Let {
                name: String::from_str("failures"),
                ty: Some(RustType::Path(String::from_str("Vec<String>"))),
                value: RustExpr::Call { callee: test_fn_name(name), args: Vec::new() },
                mutable: false,
            });
            let mut text = concat3("if failures.is_empty() { println!(\"PASS ", name, "\"); } else { failed += 1; println!(\"FAIL ");
            text.append(name);
            text.append("\"); for failure in &failures { println!(\"  {}\", failure); } }");
            body.push(RustStmt::Raw(text));
            k = k + 1;
        }
        body.push(RustStmt::Raw(String::from_str("if failed > 0 { std::process::exit(1); }")));
    } else {
        match main_action {
            Some(action) => {
                let shown = match &action.ty {
                    Type::Action(a) => render_runtime_value("result", &a.result),
                    other => render_runtime_value("result", other),
                };
                let mut text = concat3("let result = ", action_fn_name("main").as_str(), "(); println!(\"{}\", ");
                text.append(shown.as_str());
                text.append(");");
                body.push(RustStmt::Raw(text));
            },
            None => {
                body.push(RustStmt::Raw(String::from_str("println!(\"compiled module has no runnable entrypoint\");")));
            },
        }
    }
    RustItem::Function { name: String::from_str("main"), params: Vec::new(), result: RustType::Unit, body, is_pub: false }
}

/// The support module every generated program starts with: value copies,
/// console and file access, and the list and map helpers.
pub closed spec fn support_module_text() -> Seq<char> {
    SUPPORT_TEXT@
}

fn support_module() -> (r: &'static str)
    ensures
        r@ == support_module_text(),
{
    SUPPORT_TEXT
}

const SUPPORT_TEXT: &'static str = r#"mod support {
    #![allow(dead_code)]

    use std::cell::RefCell;
    use std::io::Write;
    use std::rc::Rc;

    pub trait Snapshot {
        fn snapshot(&self) -> Self;
    }

    pub fn snapshot<T: Snapshot>(value: &T) -> T {
        value.snapshot()
    }

    impl Snapshot for bool {
        fn snapshot(&self) -> Self {
            *self
        }
    }

    impl Snapshot for i64 {
        fn snapshot(&self) -> Self {
            *self
        }
    }

    impl Snapshot for f64 {
        fn snapshot(&self) -> Self {
            *self
        }
    }

    impl Snapshot for String {
        fn snapshot(&self) -> Self {
            self.clone()
        }
    }

    impl Snapshot for () {
        fn snapshot(&self) -> Self {
            *self
        }
    }

    impl<T: Snapshot> Snapshot for Vec<T> {
        fn snapshot(&self) -> Self {
            self.iter().map(Snapshot::snapshot).collect()
        }
    }

    impl<T: Snapshot> Snapshot for Option<T> {
        fn snapshot(&self) -> Self {
            self.as_ref().map(Snapshot::snapshot)
        }
    }

    impl<T: Snapshot, E: Snapshot> Snapshot for Result<T, E> {
        fn snapshot(&self) -> Self {
            match self {
                Ok(value) => Ok(value.snapshot()),
                Err(error) => Err(error.snapshot()),
            }
        }
    }

    impl<A: Snapshot> Snapshot for (A,) {
        fn snapshot(&self) -> Self {
            (self.0.snapshot(),)
        }
    }

    impl<A: Snapshot, B: Snapshot> Snapshot for (A, B) {
        fn snapshot(&self) -> Self {
            (self.0.snapshot(), self.1.snapshot())
        }
    }

    impl<A: Snapshot, B: Snapshot, C: Snapshot> Snapshot for (A, B, C) {
        fn snapshot(&self) -> Self {
            (self.0.snapshot(), self.1.snapshot(), self.2.snapshot())
        }
    }

    impl<A: Snapshot, B: Snapshot, C: Snapshot, D: Snapshot> Snapshot for (A, B, C, D) {
        fn snapshot(&self) -> Self {
            (
                self.0.snapshot(),
                self.1.snapshot(),
                self.2.snapshot(),
                self.3.snapshot(),
            )
        }
    }

    impl<T: Snapshot> Snapshot for Rc<RefCell<T>> {
        fn snapshot(&self) -> Self {
            Rc::new(RefCell::new(self.borrow().snapshot()))
        }
    }

    pub fn text_add(left: String, right: String) -> String {
        let mut joined = left;
        joined.push_str(&right);
        joined
    }

    pub fn console_print(value: String, newline: bool, stderr: bool) -> Result<(), String> {
        let result = if stderr {
            let mut handle = std::io::stderr();
            if newline {
                writeln!(handle, "{value}")
            } else {
                write!(handle, "{value}")
            }
        } else {
            let mut handle = std::io::stdout();
            if newline {
                writeln!(handle, "{value}")
            } else {
                write!(handle, "{value}")
            }
        };

        result.map_err(|error| error.to_string())
    }

    pub fn console_read_line() -> Result<String, String> {
        let mut line = String::new();
        match std::io::stdin().read_line(&mut line) {
            Ok(0) => Err("end of input".to_string()),
            Ok(_) => {
                while matches!(line.chars().last(), Some('\n' | '\r')) {
                    line.pop();
                }
                Ok(line)
            }
            Err(error) => Err(error.to_string()),
        }
    }

    pub fn file_read_text(path: String) -> Result<String, String> {
        std::fs::read_to_string(path).map_err(|error| error.to_string())
    }

    pub fn file_write_text(path: String, content: String) -> Result<(), String> {
        std::fs::write(path, content).map_err(|error| error.to_string())
    }

    pub fn file_append_text(path: String, content: String) -> Result<(), String> {
        std::fs::OpenOptions::new()
            .create(true)
            .append(true)
            .open(path)
            .and_then(|mut file| file.write_all(content.as_bytes()))
            .map_err(|error| error.to_string())
    }

    pub fn file_exists(path: String) -> bool {
        std::path::Path::new(&path).exists()
    }

    pub fn list_get<T: Snapshot>(items: &Rc<RefCell<Vec<T>>>, index: i64) -> T {
        items.borrow()[index as usize].snapshot()
    }

    pub fn list_set<T>(items: &Rc<RefCell<Vec<T>>>, index: i64, value: T) {
        items.borrow_mut()[index as usize] = value;
    }

    pub fn map_get<K: PartialEq, V: Snapshot>(
        entries: &Rc<RefCell<Vec<(K, V)>>>,
        key: &K,
    ) -> V {
        entries
            .borrow()
            .iter()
            .find(|(existing_key, _)| existing_key == key)
            .map(|(_, value)| value.snapshot())
            .expect("map key not found")
    }

    pub fn map_set<K: PartialEq, V>(
        entries: &Rc<RefCell<Vec<(K, V)>>>,
        key: K,
        value: V,
    ) {
        let mut entries = entries.borrow_mut();
        if let Some((_, existing_value)) = entries.iter_mut().find(|(existing_key, _)| *existing_key == key) {
            *existing_value = value;
        } else {
            entries.push((key, value));
        }
    }
}"#;

/// Declares an extern action.
pub open spec fn declares_extern_decl(module: TypedIrModule) -> bool {
    exists|i: int| 0 <= i < module.declarations@.len() && module.declarations@[i] is Extern
}

/// Lowers a module to a Rust syntax tree: the support module, one item per
/// declaration in order (a struct per record, an enum per enum, a function
/// per constant, action and test), and the generated `main`. A module that
/// declares an extern action does not compile.
pub fn lower_module(module: &TypedIrModule) -> (r: Result<RustModule, Vec<Diagnostic>>)
    ensures
        codegen_outcome(r),
        declares_extern_decl(*module) ==> r is Err,
        r matches Ok(m) ==> m.uses@.len() == 0 && m.items@.len() == module.declarations@.len() + 2
            && (m.items@[0] matches RustItem::Raw(t) && t@ == support_module_text())
            && (m.items@.last() matches RustItem::Function { name, .. } && name@ == "main"@),
        r matches Ok(m) ==> (m.items@.last() matches RustItem::Function { params, result, .. } && params@.len() == 0
            && result is Unit),
{
    let mut items: Vec<RustItem> = Vec::new();
    items.push(RustItem::Raw(String::from_str(support_module())));
    let decls = &module.declarations;
    let mut i: usize = 0;
    while i < decls.len()
        invariant
            i <= decls@.len(),
            decls == &module.declarations,
            items@.len() == i + 1,
            (items@[0] matches RustItem::Raw(t) && t@ == support_module_text()),
            forall|k: int| 0 <= k < i ==> !(decls@[k] is Extern),
        decreases decls@.len() - i,
    {
        let item = match &decls[i] {
            TypedDecl::Record(record) => {
                let mut fields: Vec<(String, RustType)> = Vec::new();
                let mut k: usize = 0;
                while k < record.fields.len()
                    invariant
                        k <= record.fields@.len(),
                    decreases record.fields@.len() - k,
                {
                    let t = lower_storage_type(&record.fields[k].ty, &record.span)?;
                    fields.push((record.fields[k].name.clone(), t));
                    k = k + 1;
                }
                RustItem::Struct { name: record.name.clone(), fields }
            },
            TypedDecl::Enum(enum_decl) => {
                let mut variants: Vec<RustEnumVariant> = Vec::new();
                let mut k: usize = 0;
                while k < enum_decl.variants.len()
                    invariant
                        k <= enum_decl.variants@.len(),
                    decreases enum_decl.variants@.len() - k,
                {
                    let variant = &enum_decl.variants[k];
                    let mut fields: Vec<(String, RustType)> = Vec::new();
                    let mut j: usize = 0;
                    while j < variant.fields.len()
                        invariant
                            j <= variant.fields@.len(),
                        decreases variant.fields@.len() - j,
                    {
                        let t = lower_storage_type(&variant.fields[j].1, &enum_decl.span)?;
                        fields.push((variant.fields[j].0.clone(), t));
                        j = j + 1;
                    }
                    variants.push(RustEnumVariant { name: variant.name.clone(), fields });
                    k = k + 1;
                }
                RustItem::Enum { name: enum_decl.name.clone(), variants }
            },
            TypedDecl::Const(const_decl) => {
                let result = lower_storage_type(&const_decl.ty, &const_decl.span)?;
                let value = lower_expr(&const_decl.value)?;
                let mut body: Vec<RustStmt> = Vec::new();
                body.push(RustStmt::Return(Some(value)));
                RustItem::Function {
                    name: const_fn_name(const_decl.name.as_str()),
                    params: Vec::new(),
                    result,
                    body,
                    is_pub: false,
                }
            },
            TypedDecl::Extern(extern_decl) => {
                return codegen_fail(
                    &extern_decl.span,
                    String::from_str("compile does not yet support extern declarations without explicit compile-time bindings"),
                );
            },
            TypedDecl::Action(action) => {
                let mut params: Vec<RustParam> = Vec::new();
                let mut k: usize = 0;
                while k < action.params.len()
                    invariant
                        k <= action.params@.len(),
                    decreases action.params@.len() - k,
                {
                    let t = lower_storage_type(&action.params[k].1, &action.span)?;
                    params.push(RustParam { name: action.params[k].0.clone(), ty: t, mutable: false });
                    k = k + 1;
                }
                let result_type = action_result(&action.ty, &action.span)?;
                let result = lower_storage_type(result_type, &action.span)?;
                let body = lower_action_body(action)?;
                RustItem::Function { name: action_fn_name(action.name.as_str()), params, result, body, is_pub: false }
            },
            TypedDecl::Test(test_decl) => {
                let body = lower_test_body(test_decl)?;
                RustItem::Function {
                    name: test_fn_name(test_decl.name.as_str()),
                    params: Vec::new(),
                    result: RustType::Path(String::from_str("Vec<String>")),
                    body,
                    is_pub: false,
                }
            },
        };
        items.push(item);
        i = i + 1;
    }
    items.push(entrypoint_item(module));
    Ok(RustModule { uses: Vec::new(), items })
}

} // verus!
