//! The syntax tree the parser builds.
use vstd::prelude::*;

use crate::diagnostics::SourceSpan;
use crate::text::join;

verus! {

/// Identifies an expression or statement node within one parse.
pub type NodeId = u32;

/// A parsed source file.
#[derive(Debug)]
pub struct AstModule {
    pub module_decl: Option<ModuleDecl>,
    pub imports: Vec<ImportDecl>,
    pub declarations: Vec<Decl>,
    pub span: SourceSpan,
}

impl AstModule {
    /// Every import of the module is well formed.
    pub open spec fn imports_well_formed(&self) -> bool {
        forall|i: int| 0 <= i < self.imports@.len() ==> (#[trigger] self.imports@[i]).well_formed()
    }
}

/// `module a.b.c`
#[derive(Debug, Clone)]
pub struct ModuleDecl {
    pub name: ModuleName,
    pub span: SourceSpan,
}

/// A dotted module name.
#[derive(Debug, Clone, PartialEq, Eq, Hash)]
pub struct ModuleName {
    pub segments: Vec<String>,
}

impl ModuleName {
    /// The segments joined with `.`.
    pub fn as_string(&self) -> (r: String)
        ensures
            r@ == crate::text::joined(crate::text::views_of(self.segments@), "."@),
    {
        join(&self.segments, ".")
    }
}

/// `import a.b [as c]` or `from a.b import x, y`.
#[derive(Debug, Clone)]
pub struct ImportDecl {
    pub kind: ImportKind,
    pub span: SourceSpan,
}

impl ImportDecl {
    /// A plain `import` names a module of at least one segment.
    pub open spec fn well_formed(&self) -> bool {
        self.kind matches ImportKind::Module { module, .. } ==> module.segments@.len() > 0
    }
}

#[derive(Debug, Clone)]
pub enum ImportKind {
    Module { module: ModuleName, alias: Option<String> },
    From { module: ModuleName, names: Vec<String> },
}

/// A top-level declaration.
#[derive(Debug)]
pub enum Decl {
    Const(ConstDecl),
    Record(RecordDecl),
    Enum(EnumDecl),
    Extern(ExternDecl),
    Action(ActionDecl),
    Test(TestDecl),
}

impl Decl {
    /// The declared name.
    pub open spec fn spec_name(&self) -> Seq<char> {
        match self {
            Decl::Const(d) => d.name@,
            Decl::Record(d) => d.name@,
            Decl::Enum(d) => d.name@,
            Decl::Extern(d) => d.name@,
            Decl::Action(d) => d.name@,
            Decl::Test(d) => d.name@,
        }
    }

    /// The declaration's position.
    pub open spec fn spec_span(&self) -> SourceSpan {
        match self {
            Decl::Const(d) => d.span,
            Decl::Record(d) => d.span,
            Decl::Enum(d) => d.span,
            Decl::Extern(d) => d.span,
            Decl::Action(d) => d.span,
            Decl::Test(d) => d.span,
        }
    }

    /// The declared name.
    pub fn name(&self) -> (r: &str)
        ensures
            r@ == self.spec_name(),
    {
        match self {
            Decl::Const(d) => d.name.as_str(),
            Decl::Record(d) => d.name.as_str(),
            Decl::Enum(d) => d.name.as_str(),
            Decl::Extern(d) => d.name.as_str(),
            Decl::Action(d) => d.name.as_str(),
            Decl::Test(d) => d.name.as_str(),
        }
    }

    /// The declaration's position.
    pub fn span(&self) -> (r: &SourceSpan)
        ensures
            *r == self.spec_span(),
    {
        match self {
            Decl::Const(d) => &d.span,
            Decl::Record(d) => &d.span,
            Decl::Enum(d) => &d.span,
            Decl::Extern(d) => &d.span,
            Decl::Action(d) => &d.span,
            Decl::Test(d) => &d.span,
        }
    }
}

/// `const NAME: Type = value`
#[derive(Debug)]
pub struct ConstDecl {
    pub name: String,
    pub ty: TypeRef,
    pub value: Expr,
    pub span: SourceSpan,
}

/// `record Name:` with its fields.
#[derive(Debug)]
pub struct RecordDecl {
    pub name: String,
    pub fields: Vec<FieldDecl>,
    pub span: SourceSpan,
}

/// A record field, with its optional `meaning:` annotation.
#[derive(Debug)]
pub struct FieldDecl {
    pub name: String,
    pub ty: TypeRef,
    pub meaning: Option<String>,
    pub span: SourceSpan,
}

/// `enum Name:` with its variants.
#[derive(Debug)]
pub struct EnumDecl {
    pub name: String,
    pub variants: Vec<EnumVariant>,
    pub span: SourceSpan,
}

#[derive(Debug)]
pub struct EnumVariant {
    pub name: String,
    pub fields: Vec<VariantField>,
    pub span: SourceSpan,
}

#[derive(Debug)]
pub struct VariantField {
    pub name: String,
    pub ty: TypeRef,
    pub span: SourceSpan,
}

/// `extern [pure|impure] action name(params) -> Type`
#[derive(Debug)]
pub struct ExternDecl {
    pub name: String,
    pub purity: Option<Purity>,
    pub params: Vec<Param>,
    pub return_type: TypeRef,
    pub span: SourceSpan,
}

#[derive(Debug, Clone, Copy, PartialEq, Eq, Structural)]
pub enum Purity {
    Pure,
    Impure,
}

/// `action name(params) [-> Type]:` with its body.
#[derive(Debug)]
pub struct ActionDecl {
    pub name: String,
    pub params: Vec<Param>,
    pub return_type: Option<TypeRef>,
    pub body: Vec<Stmt>,
    pub span: SourceSpan,
}

#[derive(Debug)]
pub struct Param {
    pub name: String,
    pub ty: TypeRef,
    pub span: SourceSpan,
}

/// `test name:` with its body.
#[derive(Debug)]
pub struct TestDecl {
    pub name: String,
    pub body: Vec<Stmt>,
    pub span: SourceSpan,
}

#[derive(Debug)]
pub struct Stmt {
    pub id: NodeId,
    pub kind: StmtKind,
    pub span: SourceSpan,
}

#[derive(Debug)]
pub enum StmtKind {
    IntentBlock {
        goal: Option<String>,
        constraints: Vec<String>,
        assumptions: Vec<String>,
        properties: Vec<String>,
    },
    ExplainBlock { lines: Vec<String> },
    StepBlock { label: String, body: Vec<Stmt> },
    RequiresClause { condition: Expr },
    EnsuresClause { condition: Expr },
    ExampleBlock { name: String, inputs: Vec<(String, Expr)>, outputs: Vec<(String, Expr)> },
    Let { pattern: BindingPattern, explicit_type: Option<TypeRef>, value: Expr },
    Var { pattern: BindingPattern, explicit_type: Option<TypeRef>, value: Expr },
    Assign { target: Target, value: Expr },
    If { branches: Vec<ConditionalBranch>, else_branch: Vec<Stmt> },
    While { condition: Expr, body: Vec<Stmt> },
    Match { scrutinee: Expr, arms: Vec<MatchArm> },
    ForEach { binding: String, iterable: Expr, body: Vec<Stmt> },
    Return(Option<Expr>),
    Break,
    Continue,
    Expect(Expr),
    Expr(Expr),
}

/// The left side of `let` / `var`: a name, a tuple of names, or a record
/// with named fields bound to names.
#[derive(Debug)]
pub struct BindingPattern {
    pub kind: BindingPatternKind,
    pub span: SourceSpan,
}

#[derive(Debug)]
pub enum BindingPatternKind {
    Name(String),
    Tuple(Vec<String>),
    Record { name: String, fields: Vec<RecordBindingField> },
}

#[derive(Debug)]
pub struct RecordBindingField {
    pub field: String,
    pub binding: String,
    pub span: SourceSpan,
}

/// One arm of a `match` statement.
#[derive(Debug)]
pub struct MatchArm {
    pub pattern: Pattern,
    pub body: Vec<Stmt>,
    pub span: SourceSpan,
}

#[derive(Debug)]
pub struct Pattern {
    pub kind: PatternKind,
    pub span: SourceSpan,
}

#[derive(Debug)]
pub enum PatternKind {
    Wildcard,
    Literal(PatternLiteral),
    Binding(String),
    Variant { name: String, args: Vec<Pattern> },
    Tuple(Vec<Pattern>),
    Record { name: String, fields: Vec<RecordPatternField> },
}

#[derive(Debug)]
pub enum PatternLiteral {
    Int(i64),
    Dec(String),
    String(String),
    Bool(bool),
    NoneLiteral,
}

#[derive(Debug)]
pub struct RecordPatternField {
    pub name: String,
    pub pattern: Pattern,
    pub span: SourceSpan,
}

#[derive(Debug)]
pub struct ConditionalBranch {
    pub condition: Expr,
    pub body: Vec<Stmt>,
    pub span: SourceSpan,
}

#[derive(Debug)]
pub struct Expr {
    pub id: NodeId,
    pub kind: ExprKind,
    pub span: SourceSpan,
}

#[derive(Debug)]
pub enum ExprKind {
    Int(i64),
    Dec(String),
    String(String),
    Bool(bool),
    NoneLiteral,
    List(Vec<Expr>),
    MapLiteral(Vec<(Expr, Expr)>),
    Tuple(Vec<Expr>),
    Name(String),
    Call { callee: Box<Expr>, args: Vec<CallArg> },
    FieldAccess { base: Box<Expr>, field: String },
    Index { base: Box<Expr>, index: Box<Expr> },
    Unary { op: UnaryOp, expr: Box<Expr> },
    Binary { left: Box<Expr>, op: BinaryOp, right: Box<Expr> },
}

#[derive(Debug)]
pub struct CallArg {
    pub name: Option<String>,
    pub expr: Expr,
    pub span: SourceSpan,
}

#[derive(Debug, Clone, Copy, PartialEq, Eq, Structural)]
pub enum UnaryOp {
    Negate,
    Not,
}

#[derive(Debug, Clone, Copy, PartialEq, Eq, Structural)]
pub enum BinaryOp {
    Add,
    Subtract,
    Multiply,
    Divide,
    Modulo,
    Equal,
    NotEqual,
    Less,
    LessEqual,
    Greater,
    GreaterEqual,
    And,
    Or,
}

/// The left side of `:=`: a name followed by field and index steps.
#[derive(Debug)]
pub enum Target {
    Name { name: String, span: SourceSpan },
    Field { base: Box<Target>, field: String, span: SourceSpan },
    Index { base: Box<Target>, index: Expr, span: SourceSpan },
}

impl Target {
    /// The position of the outermost step.
    pub open spec fn spec_span(&self) -> SourceSpan {
        match self {
            Target::Name { span, .. } => *span,
            Target::Field { span, .. } => *span,
            Target::Index { span, .. } => *span,
        }
    }

    /// The position of the outermost step.
    pub fn span(&self) -> (r: &SourceSpan)
        ensures
            *r == self.spec_span(),
    {
        match self {
            Target::Name { span, .. } => span,
            Target::Field { span, .. } => span,
            Target::Index { span, .. } => span,
        }
    }
}

/// A type as written in the source.
#[derive(Debug)]
pub enum TypeRef {
    Named(String),
    Generic { name: String, args: Vec<TypeRef> },
    Tuple(Vec<TypeRef>),
    Action { params: Vec<TypeRef>, result: Box<TypeRef> },
}

} // verus!
