//! Source positions and the diagnostics every phase reports.
use vstd::prelude::*;

use crate::text::{concat, u64_text};

verus! {

/// A position in a source file: path, 1-based line and 1-based column.
#[derive(Debug, Clone, PartialEq, Eq, Hash)]
pub struct SourceSpan {
    pub path: String,
    pub line: usize,
    pub column: usize,
}

impl SourceSpan {
    /// The position `line`:`column` in `path`.
    pub fn new(path: &str, line: usize, column: usize) -> (r: Self)
        ensures
            r.path@ == path@,
            r.line == line,
            r.column == column,
    {
        SourceSpan { path: String::from_str(path), line, column }
    }

    /// The position `line`:`column` in the file at `path`.
    pub fn for_path(path: &str, line: usize, column: usize) -> (r: Self)
        ensures
            r.path@ == path@,
            r.line == line,
            r.column == column,
    {
        Self::new(path, line, column)
    }

    /// A copy of this span.
    pub fn duplicate(&self) -> (r: Self)
        ensures
            r == *self,
    {
        SourceSpan { path: self.path.clone(), line: self.line, column: self.column }
    }

    /// The span as plain values: path characters, line and column.
    pub open spec fn key(&self) -> (Seq<char>, usize, usize) {
        (self.path@, self.line, self.column)
    }

    /// Whether two spans denote the same position.
    pub fn same_position(&self, other: &SourceSpan) -> (r: bool)
        ensures
            r == (self.key() == other.key()),
    {
        self.line == other.line && self.column == other.column && self.path == other.path
    }

    /// `path:line:column`.
    pub open spec fn text(&self) -> Seq<char> {
        self.path@ + ":"@ + crate::text::nat_text(self.line as nat) + ":"@ + crate::text::nat_text(self.column as nat)
    }

    /// `path:line:column`.
    pub fn render(&self) -> (r: String)
        ensures
            r@ == self.text(),
    {
        let mut s = concat(self.path.as_str(), ":");
        let line = u64_text(self.line as u64);
        s.append(line.as_str());
        s.append(":");
        let column = u64_text(self.column as u64);
        s.append(column.as_str());
        s
    }
}

/// The phase of the pipeline that reported a diagnostic.
#[derive(Debug, Clone, Copy, PartialEq, Eq, Hash, Structural)]
pub enum Phase {
    Lex,
    Parse,
    Resolve,
    TypeCheck,
    Lower,
    Runtime,
    Extern,
    Codegen,
    Cli,
}

impl Phase {
    /// The label printed for the phase.
    pub open spec fn spec_label(self) -> Seq<char> {
        match self {
            Phase::Lex => "lex"@,
            Phase::Parse => "parse"@,
            Phase::Resolve => "resolve"@,
            Phase::TypeCheck => "type-check"@,
            Phase::Lower => "lower"@,
            Phase::Runtime => "runtime"@,
            Phase::Extern => "extern"@,
            Phase::Codegen => "codegen"@,
            Phase::Cli => "cli"@,
        }
    }

    /// The label printed for the phase.
    pub fn label(self) -> (r: &'static str)
        ensures
            r@ == self.spec_label(),
    {
        match self {
            Phase::Lex => "lex",
            Phase::Parse => "parse",
            Phase::Resolve => "resolve",
            Phase::TypeCheck => "type-check",
            Phase::Lower => "lower",
            Phase::Runtime => "runtime",
            Phase::Extern => "extern",
            Phase::Codegen => "codegen",
            Phase::Cli => "cli",
        }
    }
}

/// A message reported by one phase at one position.
#[derive(Debug, Clone, PartialEq, Eq)]
pub struct Diagnostic {
    pub span: SourceSpan,
    pub phase: Phase,
    pub message: String,
}

impl Diagnostic {
    /// A diagnostic with the given parts.
    pub fn new(span: SourceSpan, phase: Phase, message: String) -> (r: Self)
        ensures
            r.span == span,
            r.phase == phase,
            r.message == message,
    {
        Diagnostic { span, phase, message }
    }

    /// `path:line:column: phase: message`.
    pub open spec fn text(&self) -> Seq<char> {
        self.span.text() + ": "@ + self.phase.spec_label() + ": "@ + self.message@
    }

    /// `path:line:column: phase: message`.
    pub fn render(&self) -> (r: String)
        ensures
            r@ == self.text(),
    {
        let mut s = self.span.render();
        s.append(": ");
        s.append(self.phase.label());
        s.append(": ");
        s.append(self.message.as_str());
        s
    }
}

/// Every diagnostic of `ds` was reported by phase `p`.
pub open spec fn all_in_phase(ds: Seq<Diagnostic>, p: Phase) -> bool {
    forall|i: int| 0 <= i < ds.len() ==> (#[trigger] ds[i]).phase == p
}

/// A failed phase reports at least one diagnostic, all of its own phase.
pub open spec fn failure_of(ds: Seq<Diagnostic>, p: Phase) -> bool {
    ds.len() > 0 && all_in_phase(ds, p)
}

/// A single diagnostic.
pub fn one(d: Diagnostic) -> (r: Vec<Diagnostic>)
    ensures
        r@ == seq![d],
{
    let mut v = Vec::new();
    v.push(d);
    assert(v@ =~= seq![d]);
    v
}

} // verus!
