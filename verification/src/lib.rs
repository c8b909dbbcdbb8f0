//! Vulgata: a small indentation-based language with a lexer, parser, type
//! checker, typed lowering, interpreter and Rust code generator.
pub mod ast;
pub mod cli;
pub mod codegen;
pub mod diagnostics;
pub mod externs;
pub mod lexer;
pub mod metadata;
pub mod parser;
pub mod repl;
pub mod resolver;
pub mod runtime;
pub mod standard_runtime;
pub mod text;
pub mod tir;
pub mod types;

use vstd::prelude::*;

use crate::ast::{AstModule, Expr, Stmt};
use crate::diagnostics::{failure_of, Diagnostic, Phase};
use crate::lexer::{layout_fits, line_refused, source_lines, stream_from, tokens_of, well_formed_stream, Lexer, SpannedToken};
use crate::parser::Parser;
use crate::resolver::Resolver;
use crate::runtime::{exec_failure, ExecutionMode, Interpreter, RunResult, TestResult, Value};
use crate::tir::TypedIrModule;
use crate::types::{check_failure, has_key, CheckedModule, ReplBinding, TypeChecker};

verus! {

/// The outcome of a front-end phase: its product or its diagnostics.
pub type FrontendResult<T> = Result<T, Vec<Diagnostic>>;

/// The diagnostics of a failed lex-then-parse: those of one of the two phases.
pub open spec fn front_end_failure(ds: Seq<Diagnostic>) -> bool {
    failure_of(ds, Phase::Lex) || failure_of(ds, Phase::Parse)
}

/// A source text with a line that the lexer refuses.
pub open spec fn lexically_refused(source: Seq<char>) -> bool {
    exists|k: int| 0 <= k < source_lines(source).len() && line_refused(#[trigger] source_lines(source)[k])
}

/// Tokenizes `source`, read from `path`.
pub fn lex_source(path: &str, source: &str) -> (r: FrontendResult<Vec<SpannedToken>>)
    ensures
        match r {
            Ok(tokens) => well_formed_stream(tokens@),
            Err(ds) => failure_of(ds@, Phase::Lex),
        },
        lexically_refused(source@) ==> r is Err,
        r matches Ok(tokens) ==> stream_from(source_lines(source@), 0, seq![0usize], tokens_of(tokens@)),
        !lexically_refused(source@) && layout_fits(source_lines(source@), 0, seq![0usize]) ==> r is Ok,
        r matches Ok(tokens) ==> forall|i: int|
            0 <= i < tokens@.len() ==> (#[trigger] tokens@[i]).span.path@ == path@ && 1 <= tokens@[i].span.line <= (if source_lines(
                source@,
            ).len() > 1 {
                source_lines(source@).len()
            } else {
                1
            }),
        (exists|k: int| 0 <= k < source_lines(source@).len() && (#[trigger] source_lines(source@)[k]).contains('\t')) ==> (
        r matches Err(ds) && exists|j: int|
            0 <= j < ds@.len() && (#[trigger] ds@[j]).message@ == "tab indentation is not supported"@),
{
    Lexer::new(path, source).tokenize()
}

/// Tokenizes and parses a whole module.
pub fn parse_source(path: &str, source: &str) -> (r: FrontendResult<AstModule>)
    ensures
        lexically_refused(source@) ==> r is Err,
        r matches Err(ds) ==> front_end_failure(ds@),
        r matches Ok(m) ==> m.imports_well_formed(),
{
    let tokens = lex_source(path, source)?;
    Parser::new(path, tokens).parse_module()
}

/// Tokenizes and parses a single expression.
pub fn parse_expression_source(path: &str, source: &str) -> (r: FrontendResult<Expr>)
    ensures
        lexically_refused(source@) ==> r is Err,
        r matches Err(ds) ==> front_end_failure(ds@),
{
    let tokens = lex_source(path, source)?;
    Parser::new(path, tokens).parse_expression()
}

/// The text of a statement with a final newline, supplied when it lacks one.
pub open spec fn statement_text(source: Seq<char>) -> Seq<char> {
    if source.len() > 0 && source.last() == '\n' {
        source
    } else {
        source + "\n"@
    }
}

/// Tokenizes and parses a single statement; a final newline is supplied when
/// the text lacks one.
pub fn parse_statement_source(path: &str, source: &str) -> (r: FrontendResult<Stmt>)
    ensures
        r matches Err(ds) ==> front_end_failure(ds@),
        lexically_refused(statement_text(source@)) ==> r is Err,
{
    let n = source.unicode_len();
    let owned = if n > 0 && source.get_char(n - 1) == '\n' {
        String::from_str(source)
    } else {
        crate::text::concat(source, "\n")
    };
    let tokens = lex_source(path, owned.as_str())?;
    Parser::new(path, tokens).parse_statement()
}


/// The diagnostics of a failed check of a source text: those of the lexer,
/// of the parser, of name resolution, or of the type checker.
pub open spec fn check_source_failure(ds: Seq<Diagnostic>) -> bool {
    front_end_failure(ds) || failure_of(ds, Phase::Resolve) || check_failure(ds)
}

/// Tokenizes, parses, resolves and type-checks a module.
pub fn check_source(path: &str, source: &str) -> (r: FrontendResult<CheckedModule>)
    ensures
        lexically_refused(source@) ==> r is Err,
        r matches Err(ds) ==> check_source_failure(ds@),
        r matches Ok(c) ==> c.well_formed(),
{
    let module = parse_source(path, source)?;
    let resolution = Resolver::new(&module).resolve()?;
    TypeChecker::new(module, resolution).check()
}


/// Tokenizes, parses, resolves, type-checks and lowers a module.
pub fn lower_source(path: &str, source: &str) -> (r: FrontendResult<TypedIrModule>)
    ensures
        lexically_refused(source@) ==> r is Err,
        r matches Err(ds) ==> check_source_failure(ds@) || failure_of(ds@, Phase::Lower),
{
    let checked = check_source(path, source)?;
    crate::tir::lower_module(&checked)
}

/// The diagnostics of a failed run of a source text: those of a front-end
/// phase, of lowering, or of execution.
pub open spec fn run_source_failure(ds: Seq<Diagnostic>) -> bool {
    check_source_failure(ds) || failure_of(ds, Phase::Lower) || exec_failure(ds)
}

/// Checks, lowers and runs `main` of a module.
pub fn run_source(path: &str, source: &str) -> (r: FrontendResult<RunResult>)
    ensures
        lexically_refused(source@) ==> r is Err,
        r matches Err(ds) ==> run_source_failure(ds@),
{
    let lowered = lower_source(path, source)?;
    let interpreter = Interpreter::new(&lowered)?;
    interpreter.run_main()
}

/// Checks and lowers a module, then evaluates an expression against it.
pub fn eval_expression_source(path: &str, module_source: &str, expression_source: &str) -> (r: FrontendResult<Value>)
    ensures
        r matches Err(ds) ==> run_source_failure(ds@),
        lexically_refused(module_source@) || lexically_refused(expression_source@) ==> r is Err,
{
    let checked = check_source(path, module_source)?;
    let expression = parse_expression_source(path, expression_source)?;
    let checked_expr = crate::types::check_expression(&checked, &expression)?;
    let typed_expr = crate::tir::lower_expression(&checked, &expression, &checked_expr.expr_types)?;
    let lowered = crate::tir::lower_module(&checked)?;
    let interpreter = Interpreter::new(&lowered)?;
    interpreter.eval_expression(&typed_expr)
}

/// Every interactive binding has a runtime value.
pub open spec fn bindings_have_values(bindings: Seq<(String, ReplBinding)>, values: Seq<(String, Value)>) -> bool {
    forall|i: int| 0 <= i < bindings.len() ==> has_key(values, (#[trigger] bindings[i]).0@)
}

/// Evaluates an expression against a module and the bindings of an
/// interactive session, whose runtime values are `values`. A binding
/// without a value is reported as a command-line error.
pub fn eval_expression_source_with_bindings(
    path: &str,
    module_source: &str,
    expression_source: &str,
    bindings: &Vec<(String, ReplBinding)>,
    values: &Vec<(String, Value)>,
) -> (r: FrontendResult<Value>)
    ensures
        r is Ok ==> bindings_have_values(bindings@, values@),
        r matches Err(ds) ==> run_source_failure(ds@)
            || (failure_of(ds@, Phase::Cli) && !bindings_have_values(bindings@, values@)),
{
    let checked = check_source(path, module_source)?;
    let expression = parse_expression_source(path, expression_source)?;
    let checked_expr = crate::types::check_expression_with_bindings(&checked, &expression, bindings)?;
    let typed_expr = crate::tir::lower_expression(&checked, &expression, &checked_expr.expr_types)?;
    let lowered = crate::tir::lower_module(&checked)?;
    let interpreter = Interpreter::new(&lowered)?;
    let mut i: usize = 0;
    while i < bindings.len()
        invariant
            i <= bindings@.len(),
            forall|k: int| 0 <= k < i ==> has_key(values@, (#[trigger] bindings@[k]).0@),
        decreases bindings@.len() - i,
    {
        let name = bindings[i].0.as_str();
        if crate::types::find_key(values, name).is_none() {
            let mut m = crate::text::concat3("missing runtime value for repl binding `", name, "` (");
            m.append(bindings[i].1.ty.describe().as_str());
            m.append(")");
            let d = Diagnostic::new(crate::diagnostics::SourceSpan::for_path(path, 1, 1), Phase::Cli, m);
            let ds = crate::diagnostics::one(d);
            proof {
                assert(ds@[0].phase == Phase::Cli);
                assert(!has_key(values@, bindings@[i as int].0@));
                assert(crate::diagnostics::all_in_phase(ds@, Phase::Cli));
            }
            return Err(ds);
        }
        i = i + 1;
    }
    interpreter.eval_expression_with_env(&typed_expr, values)
}

/// Checks, lowers and runs every test of a module.
pub fn test_source(path: &str, source: &str) -> (r: FrontendResult<Vec<TestResult>>)
    ensures
        lexically_refused(source@) ==> r is Err,
        r matches Err(ds) ==> run_source_failure(ds@),
{
    let lowered = lower_source(path, source)?;
    let interpreter = Interpreter::new(&lowered)?;
    interpreter.run_tests()
}

/// Checks and lowers a module, then generates the source text of a Rust
/// program for it. A module that declares an extern action does not compile.
pub fn compile_source(path: &str, source: &str) -> (r: FrontendResult<String>)
    ensures
        lexically_refused(source@) ==> r is Err,
        r matches Err(ds) ==> check_source_failure(ds@) || failure_of(ds@, Phase::Lower) || failure_of(ds@, Phase::Codegen),
{
    let lowered = lower_source(path, source)?;
    let rust_module = crate::codegen::lower_module(&lowered)?;
    Ok(crate::codegen::emit_module(&rust_module))
}

/// Checks, lowers and runs `main` of a module in the given mode.
pub fn run_source_in_mode(path: &str, source: &str, mode: ExecutionMode) -> (r: FrontendResult<RunResult>)
    ensures
        lexically_refused(source@) ==> r is Err,
        r matches Err(ds) ==> run_source_failure(ds@),
{
    let lowered = lower_source(path, source)?;
    let interpreter = Interpreter::new_with_mode(&lowered, mode)?;
    interpreter.run_main()
}

/// Checks, lowers and runs every test of a module in the given mode.
pub fn test_source_in_mode(path: &str, source: &str, mode: ExecutionMode) -> (r: FrontendResult<Vec<TestResult>>)
    ensures
        lexically_refused(source@) ==> r is Err,
        r matches Err(ds) ==> run_source_failure(ds@),
{
    let lowered = lower_source(path, source)?;
    let interpreter = Interpreter::new_with_mode(&lowered, mode)?;
    interpreter.run_tests()
}

/// Parses a module and collects its semantic-layer metadata.
pub fn emit_metadata_source(path: &str, source: &str) -> (r: FrontendResult<crate::metadata::JsonValue>)
    ensures
        lexically_refused(source@) ==> r is Err,
        r matches Err(ds) ==> front_end_failure(ds@),
        r matches Ok(v) ==> crate::metadata::is_object(v) && crate::metadata::fields_of(v).dom().contains("module"@)
            && crate::metadata::fields_of(v).dom().contains("actions"@),
{
    let module = parse_source(path, source)?;
    Ok(crate::metadata::emit_metadata(&module))
}

} // verus!
