//! Extern actions: the configuration that binds declared externs to built-in
//! adapters, and the registry that dispatches calls to them.
use vstd::prelude::*;

use crate::diagnostics::{Diagnostic, Phase, SourceSpan};
use crate::runtime::Value;
use crate::text::{chars_of, concat, concat3, push_char, str_eq, text_of_range};
use crate::tir::{TypedDecl, TypedIrModule};
use crate::types::{action_types_equal, find_key, has_key, lookup, same, ActionType, Type};
use crate::lexer::source_lines;
use crate::repl::{trim_end_spec, trim_spec, trim_start_spec};

verus! {

broadcast use vstd::std_specs::vec::group_vec_axioms;

/// How a declared extern is bound: provider, symbol and configured types.
#[derive(Debug)]
pub struct ExternBinding {
    pub provider: String,
    pub symbol: String,
    pub params: Vec<Type>,
    pub return_type: Type,
}

/// The built-in implementations an extern may be bound to.
#[derive(Debug, Clone, Copy, PartialEq, Eq)]
enum BuiltinAdapter {
    AddInt,
    EchoText,
    TextLen,
}

/// A registered extern: its declared type, its binding and its adapter.
#[derive(Debug)]
pub struct ExternEntry {
    pub signature: ActionType,
    pub binding: ExternBinding,
    adapter: BuiltinAdapter,
}

/// The externs a program may call, by name.
#[derive(Debug)]
pub struct ExternRegistry {
    entries: Vec<(String, ExternEntry)>,
}

/// Whether the module declares an extern action.
pub open spec fn declares_some_extern(module: TypedIrModule) -> bool {
    exists|n: Seq<char>| declares_extern(module, n)
}

/// The names of the externs a lowered module declares.
pub open spec fn declares_extern(module: TypedIrModule, name: Seq<char>) -> bool {
    exists|i: int| 0 <= i < module.declarations@.len()
        && (#[trigger] module.declarations@[i] matches TypedDecl::Extern(e) && e.ty is ExternAction && e.name@ == name)
}

/// An extern failure.
pub open spec fn extern_failure(ds: Seq<Diagnostic>) -> bool {
    crate::diagnostics::failure_of(ds, Phase::Extern)
}

fn extern_error(span: SourceSpan, message: String) -> (r: Diagnostic)
    ensures
        r.phase == Phase::Extern,
        r.span == span,
        r.message == message,
{
    Diagnostic::new(span, Phase::Extern, message)
}

/// Where a configuration problem is reported: line `line` of the file at
/// `path`, or of `<extern-config>` when the text came from elsewhere.
fn span_for(path: Option<&str>, line: usize) -> (r: SourceSpan)
    ensures
        r.line == line,
        r.column == 1,
{
    match path {
        Some(p) => SourceSpan::for_path(p, line, 1),
        None => SourceSpan::new("<extern-config>", line, 1),
    }
}

impl ExternRegistry {
    /// The names the registry binds.
    pub closed spec fn binds(&self, name: Seq<char>) -> bool {
        has_key(self.entries@, name)
    }

    /// A registry with no externs.
    pub fn new() -> (r: Self)
        ensures
            forall|n: Seq<char>| !r.binds(n),
    {
        ExternRegistry { entries: Vec::new() }
    }

    /// The registry for a module that needs no configuration.
    pub fn from_module(module: &TypedIrModule) -> (r: Result<Self, Vec<Diagnostic>>)
        ensures
            r matches Err(ds) ==> extern_failure(ds@),
            r matches Ok(reg) ==> forall|n: Seq<char>| reg.binds(n) <==> declares_extern(*module, n),
            !declares_some_extern(*module) ==> r is Ok,
            declares_some_extern(*module) ==> r is Err,
    {
        Self::from_config_text(module, None, None)
    }

    /// Binds every extern the module declares through the configuration
    /// text `source` (read from `path`). Succeeds exactly when every
    /// configured extern is declared with the configured types and names a
    /// known adapter, and every declared extern is configured; the registry
    /// then binds exactly the declared externs.
    pub fn from_config_text(module: &TypedIrModule, path: Option<&str>, source: Option<&str>) -> (r: Result<Self, Vec<Diagnostic>>)
        ensures
            r matches Err(ds) ==> extern_failure(ds@),
            r matches Ok(reg) ==> forall|n: Seq<char>| reg.binds(n) <==> declares_extern(*module, n),
            source matches Some(text) && (exists|i: int| 0 <= i < source_lines(text@).len() && config_line_refused(
                source_lines(text@),
                i,
            )) ==> r is Err,
            declares_some_extern(*module) && source is None ==> r is Err,
            !declares_some_extern(*module) && source is None ==> r is Ok,
    {
        let declared = declared_externs(module);
        proof {
            if declared@.len() > 0 {
                assert(has_key(declared@, declared@[0].0@));
                assert(declares_extern(*module, declared@[0].0@));
                assert(declares_some_extern(*module));
            }
        }
        if declared.len() == 0 && source.is_none() {
            let reg = ExternRegistry::new();
            proof {
                assert forall|n: Seq<char>| !declares_extern(*module, n) by {
                    if declares_extern(*module, n) {
                        let i = choose|i: int| 0 <= i < module.declarations@.len()
                            && (#[trigger] module.declarations@[i] matches TypedDecl::Extern(e) && e.ty is ExternAction && e.name@ == n);
                        assert(has_key(declared@, n));
                    }
                }
            }
            return Ok(reg);
        }
        let source = match source {
            Some(s) => s,
            None => {
                return Err(crate::diagnostics::one(extern_error(span_for(path, 1), String::from_str("extern declarations require a configuration file"))));
            },
        };
        let parsed = parse_extern_config(source, path)?;
        let mut diagnostics: Vec<Diagnostic> = Vec::new();
        let mut entries: Vec<(String, ExternEntry)> = Vec::new();
        let mut configured: Vec<(String, usize)> = Vec::new();
        let mut i: usize = 0;
        while i < parsed.len()
            invariant
                i <= parsed@.len(),
                forall|k: int| 0 <= k < diagnostics@.len() ==> (#[trigger] diagnostics@[k]).phase == Phase::Extern,
                forall|n: Seq<char>| has_key(entries@, n) ==> #[trigger] has_key(declared@, n),
                diagnostics@.len() == 0 ==> forall|n: Seq<char>| has_key(configured@, n) ==> #[trigger] has_key(entries@, n),
            decreases parsed@.len() - i,
        {
            let name = &parsed[i].0;
            let binding = &parsed[i].1;
            let ghost configured_before = configured@;
            crate::types::assoc_insert(&mut configured, name.clone(), binding.line);
            let signature = match lookup(&declared, name.as_str()) {
                Some(sig) => sig,
                None => {
                    diagnostics.push(extern_error(span_for(path, binding.line), concat3("extern config `", name.as_str(), "` has no matching declaration")));
                    i = i + 1;
                    continue;
                },
            };
            let binding_signature = ActionType { params: copy_types(&binding.params), result: Box::new(binding.return_type.duplicate()) };
            if !action_types_equal(signature, &binding_signature) {
                let mut m = concat3("extern `", name.as_str(), "` signature mismatch: declared `");
                m.append(format_action_type(signature).as_str());
                m.append("`, configured `");
                m.append(format_action_type(&binding_signature).as_str());
                m.append("`");
                diagnostics.push(extern_error(span_for(path, binding.line), m));
                i = i + 1;
                continue;
            }
            match resolve_builtin_adapter(binding.provider.as_str(), binding.symbol.as_str(), signature) {
                Ok(adapter) => {
                    let entry = ExternEntry {
                        signature: signature.duplicate(),
                        binding: ExternBinding {
                            provider: binding.provider.clone(),
                            symbol: binding.symbol.clone(),
                            params: copy_types(&binding.params),
                            return_type: binding.return_type.duplicate(),
                        },
                        adapter,
                    };
                    proof {
                        let j = choose|j: int| 0 <= j < declared@.len() && declared@[j].0@ == name@ && declared@[j].1 == *signature;
                        assert(has_key(declared@, name@));
                    }
                    crate::types::assoc_insert(&mut entries, name.clone(), entry);
                },
                Err(message) => {
                    let mut m = concat3("extern `", name.as_str(), "` binding is invalid: ");
                    m.append(message.as_str());
                    diagnostics.push(extern_error(span_for(path, binding.line), m));
                },
            }
            i = i + 1;
        }
        let mut j: usize = 0;
        while j < declared.len()
            invariant
                j <= declared@.len(),
                forall|k: int| 0 <= k < diagnostics@.len() ==> (#[trigger] diagnostics@[k]).phase == Phase::Extern,
                forall|n: Seq<char>| has_key(entries@, n) ==> #[trigger] has_key(declared@, n),
                diagnostics@.len() == 0 ==> forall|n: Seq<char>| has_key(configured@, n) ==> #[trigger] has_key(entries@, n),
                diagnostics@.len() == 0 ==> forall|k: int| 0 <= k < j ==> #[trigger] has_key(entries@, declared@[k].0@),
            decreases declared@.len() - j,
        {
            let name = &declared[j].0;
            let in_entries = find_key(&entries, name.as_str()).is_some();
            let in_configured = find_key(&configured, name.as_str()).is_some();
            if !in_entries && !in_configured {
                diagnostics.push(extern_error(span_for(path, 1), concat3("extern `", name.as_str(), "` is declared but has no configuration binding")));
            }
            proof {
                if in_configured && diagnostics@.len() == 0 {
                    assert(has_key(configured@, name@));
                }
            }
            j = j + 1;
        }
        if diagnostics.len() == 0 {
            let reg = ExternRegistry { entries };
            proof {
                assert forall|n: Seq<char>| reg.binds(n) <==> declares_extern(*module, n) by {
                    if declares_extern(*module, n) {
                        assert(has_key(declared@, n));
                        let k = choose|k: int| 0 <= k < declared@.len() && declared@[k].0@ == n;
                        assert(has_key(reg.entries@, declared@[k].0@));
                    }
                }
            }
            Ok(reg)
        } else {
            Err(diagnostics)
        }
    }
}


/// A binding read from the configuration, before it is checked.
struct ParsedBinding {
    line: usize,
    provider: String,
    symbol: String,
    params: Vec<Type>,
    return_type: Type,
}

impl ExternRegistry {
    /// The entry `name` adds two integers.
    pub closed spec fn sums_ints(&self, name: Seq<char>) -> bool {
        exists|i: int| 0 <= i < self.entries@.len() && self.entries@[i].0@ == name
            && self.entries@[i].1.adapter == BuiltinAdapter::AddInt
            && self.entries@[i].1.signature.params@.len() == 2
            && forall|k: int| 0 <= k < i ==> (#[trigger] self.entries@[k]).0@ != name
    }

    /// Binds `name` to `entry`, replacing any entry of that name.
    pub fn insert(&mut self, name: String, entry: ExternEntry)
        ensures
            final(self).binds(name@),
            forall|n: Seq<char>| old(self).binds(n) ==> final(self).binds(n),
    {
        crate::types::assoc_insert(&mut self.entries, name, entry);
    }

    /// The entry bound to `name`, if any.
    pub fn get(&self, name: &str) -> (r: Option<&ExternEntry>)
        ensures
            r is Some <==> self.binds(name@),
    {
        let r = lookup(&self.entries, name);
        proof {
            if r is Some {
                assert(has_key(self.entries@, name@));
            } else if self.binds(name@) {
                let k = choose|k: int| 0 <= k < self.entries@.len() && self.entries@[k].0@ == name@;
                assert(self.entries@[k].0@ != name@);
            }
        }
        r
    }

    /// Whether `name` is bound.
    pub fn contains(&self, name: &str) -> (r: bool)
        ensures
            r == self.binds(name@),
    {
        self.get(name).is_some()
    }

    /// Calls the extern `name` with evaluated arguments. An unbound name, a
    /// wrong number of arguments or an argument of the wrong kind is an
    /// extern error; so is an addition that does not fit in `Int`.
    pub fn call(&self, name: &str, args: Vec<Value>, span: &SourceSpan) -> (r: Result<Value, Vec<Diagnostic>>)
        ensures
            r matches Err(ds) ==> extern_failure(ds@),
            !self.binds(name@) ==> r is Err,
            self.sums_ints(name@) && args@.len() == 2 ==> match (args@[0], args@[1]) {
                (Value::Int(a), Value::Int(b)) => match a.checked_add(b) {
                    Some(s) => r == Ok::<Value, Vec<Diagnostic>>(Value::Int(s)),
                    None => r is Err,
                },
                _ => r is Err,
            },
    {
        let index = match find_key(&self.entries, name) {
            Some(i) => i,
            None => {
                proof {
                    if self.binds(name@) {
                        let k = choose|k: int| 0 <= k < self.entries@.len() && self.entries@[k].0@ == name@;
                        assert(self.entries@[k].0@ != name@);
                    }
                }
                return Err(crate::diagnostics::one(extern_error(span.duplicate(), concat3("extern `", name, "` is not registered"))));
            },
        };
        let entry = &self.entries[index].1;
        proof {
            if self.sums_ints(name@) {
                let i = choose|i: int| 0 <= i < self.entries@.len() && self.entries@[i].0@ == name@
                    && self.entries@[i].1.adapter == BuiltinAdapter::AddInt
                    && self.entries@[i].1.signature.params@.len() == 2
                    && forall|k: int| 0 <= k < i ==> (#[trigger] self.entries@[k]).0@ != name@;
                if i < index {
                    assert(self.entries@[i].0@ != name@);
                }
                if index < i {
                    assert(self.entries@[index as int].0@ != name@);
                }
            }
        }
        if entry.signature.params.len() != args.len() {
            let mut m = concat3("extern `", name, "` expected ");
            m.append(crate::text::usize_text(entry.signature.params.len()).as_str());
            m.append(" arguments, found ");
            m.append(crate::text::usize_text(args.len()).as_str());
            return Err(crate::diagnostics::one(extern_error(span.duplicate(), m)));
        }
        match entry.adapter {
            BuiltinAdapter::AddInt => {
                if args.len() != 2 {
                    return Err(crate::diagnostics::one(extern_error(span.duplicate(), concat3("extern `", name, "` expects two arguments"))));
                }
                let left = expect_int(&args[0], span, name, 0)?;
                let right = expect_int(&args[1], span, name, 1)?;
                match left.checked_add(right) {
                    Some(s) => Ok(Value::Int(s)),
                    None => Err(crate::diagnostics::one(extern_error(span.duplicate(), concat3("extern `", name, "` overflowed `Int`")))),
                }
            },
            BuiltinAdapter::EchoText => {
                if args.len() < 1 {
                    return Err(crate::diagnostics::one(extern_error(span.duplicate(), concat3("extern `", name, "` expects an argument"))));
                }
                let text = expect_text(&args[0], span, name, 0)?;
                Ok(Value::Text(text))
            },
            BuiltinAdapter::TextLen => {
                if args.len() < 1 {
                    return Err(crate::diagnostics::one(extern_error(span.duplicate(), concat3("extern `", name, "` expects an argument"))));
                }
                let text = expect_text(&args[0], span, name, 0)?;
                let chars = chars_of(text.as_str());
                let n = crate::lexer::utf8_byte_len(chars.as_slice());
                let len: i64 = if (n as u64) > 9223372036854775807u64 { 9223372036854775807i64 } else { n as i64 };
                Ok(Value::Int(len))
            },
        }
    }
}

/// The integer argument at `index`.
fn expect_int(value: &Value, span: &SourceSpan, name: &str, index: usize) -> (r: Result<i64, Vec<Diagnostic>>)
    requires
        index < 2,
    ensures
        match *value {
            Value::Int(v) => r == Ok::<i64, Vec<Diagnostic>>(v),
            _ => r is Err,
        },
        r matches Err(ds) ==> extern_failure(ds@),
{
    match value {
        Value::Int(v) => Ok(*v),
        other => {
            let mut m = concat3("extern `", name, "` argument ");
            m.append(crate::text::usize_text(index + 1).as_str());
            m.append(" expected Int, found ");
            m.append(other.debug_text().as_str());
            Err(crate::diagnostics::one(extern_error(span.duplicate(), m)))
        },
    }
}

/// The text argument at `index`.
fn expect_text(value: &Value, span: &SourceSpan, name: &str, index: usize) -> (r: Result<String, Vec<Diagnostic>>)
    requires
        index < 2,
    ensures
        r matches Err(ds) ==> extern_failure(ds@),
        match *value {
            Value::Text(v) => r == Ok::<String, Vec<Diagnostic>>(v),
            _ => r is Err,
        },
{
    match value {
        Value::Text(v) => Ok(v.clone()),
        other => {
            let mut m = concat3("extern `", name, "` argument ");
            m.append(crate::text::usize_text(index + 1).as_str());
            m.append(" expected Text, found ");
            m.append(other.debug_text().as_str());
            Err(crate::diagnostics::one(extern_error(span.duplicate(), m)))
        },
    }
}

/// The externs a lowered module declares, with their types.
fn declared_externs(module: &TypedIrModule) -> (r: Vec<(String, ActionType)>)
    ensures
        forall|n: Seq<char>| has_key(r@, n) <==> declares_extern(*module, n),
{
    let mut out: Vec<(String, ActionType)> = Vec::new();
    let mut i: usize = 0;
    while i < module.declarations.len()
        invariant
            i <= module.declarations@.len(),
            forall|n: Seq<char>| has_key(out@, n) <==> exists|k: int| 0 <= k < i
                && (#[trigger] module.declarations@[k] matches TypedDecl::Extern(e) && e.ty is ExternAction && e.name@ == n),
        decreases module.declarations@.len() - i,
    {
        let ghost before = out@;
        if let TypedDecl::Extern(e) = &module.declarations[i] {
            if let Type::ExternAction(sig) = &e.ty {
                crate::types::assoc_insert(&mut out, e.name.clone(), sig.duplicate());
            }
        }
        proof {
            assert forall|n: Seq<char>| has_key(out@, n) <==> exists|k: int| 0 <= k < i + 1
                && (#[trigger] module.declarations@[k] matches TypedDecl::Extern(e) && e.ty is ExternAction && e.name@ == n) by {
                if has_key(out@, n) && !has_key(before, n) {
                    assert(module.declarations@[i as int] matches TypedDecl::Extern(e) && e.ty is ExternAction && e.name@ == n);
                }
                if has_key(before, n) {
                    let k = choose|k: int| 0 <= k < i
                        && (#[trigger] module.declarations@[k] matches TypedDecl::Extern(e) && e.ty is ExternAction && e.name@ == n);
                    assert(0 <= k < i + 1);
                }
                if exists|k: int| 0 <= k < i + 1
                    && (#[trigger] module.declarations@[k] matches TypedDecl::Extern(e) && e.ty is ExternAction && e.name@ == n) {
                    let k = choose|k: int| 0 <= k < i + 1
                        && (#[trigger] module.declarations@[k] matches TypedDecl::Extern(e) && e.ty is ExternAction && e.name@ == n);
                    if k < i {
                        assert(has_key(before, n));
                    }
                }
            }
        }
        i = i + 1;
    }
    out
}

/// Copies of a list of types.
fn copy_types(types: &Vec<Type>) -> (r: Vec<Type>)
    ensures
        r@.len() == types@.len(),
        forall|i: int| 0 <= i < types@.len() ==> same(#[trigger] r@[i], types@[i]),
{
    let mut out: Vec<Type> = Vec::new();
    let mut i: usize = 0;
    while i < types.len()
        invariant
            i <= types@.len(),
            out@.len() == i,
            forall|k: int| 0 <= k < i ==> same(#[trigger] out@[k], types@[k]),
        decreases types@.len() - i,
    {
        out.push(types[i].duplicate());
        i = i + 1;
    }
    out
}

/// `Action[P1, P2 -> R]`.
fn format_action_type(action: &ActionType) -> (r: String) {
    let t = Type::Action(action.duplicate());
    t.describe()
}


/// `chars[from..to]`.
fn slice(chars: &Vec<char>, from: usize, to: usize) -> (r: Vec<char>)
    requires
        from <= to <= chars@.len(),
    ensures
        r@ == chars@.subrange(from as int, to as int),
{
    let mut out: Vec<char> = Vec::new();
    let mut i: usize = from;
    while i < to
        invariant
            from <= i <= to,
            to <= chars@.len(),
            out@ == chars@.subrange(from as int, i as int),
        decreases to - i,
    {
        out.push(chars[i]);
        i = i + 1;
        assert(out@ =~= chars@.subrange(from as int, i as int));
    }
    out
}

/// `chars` without leading and trailing white space.
fn trim(chars: &Vec<char>) -> (r: Vec<char>)
    ensures
        r@ == trim_spec(chars@),
        r@.len() <= chars@.len(),
{
    let mut start: usize = 0;
    proof {
        assert(chars@.subrange(0, chars@.len() as int) =~= chars@);
    }
    while start < chars.len() && crate::lexer::white(chars[start])
        invariant
            start <= chars@.len(),
            trim_start_spec(chars@.subrange(start as int, chars@.len() as int)) == trim_start_spec(chars@),
        decreases chars@.len() - start,
    {
        proof {
            assert(chars@.subrange(start as int, chars@.len() as int).drop_first()
                =~= chars@.subrange(start + 1, chars@.len() as int));
        }
        start = start + 1;
    }
    let ghost front = chars@.subrange(start as int, chars@.len() as int);
    proof {
        if start < chars@.len() {
            assert(front[0] == chars@[start as int]);
        }
        assert(trim_start_spec(front) == front);
    }
    let mut end: usize = chars.len();
    proof {
        assert(chars@.subrange(start as int, end as int) =~= front);
    }
    while end > start && crate::lexer::white(chars[end - 1])
        invariant
            start <= end <= chars@.len(),
            front == chars@.subrange(start as int, chars@.len() as int),
            trim_end_spec(chars@.subrange(start as int, end as int)) == trim_end_spec(front),
        decreases end,
    {
        proof {
            assert(chars@.subrange(start as int, end as int).drop_last() =~= chars@.subrange(start as int, end - 1));
        }
        end = end - 1;
    }
    proof {
        let kept = chars@.subrange(start as int, end as int);
        if end > start {
            assert(kept.last() == chars@[end - 1]);
        }
        assert(trim_end_spec(kept) == kept);
    }
    slice(chars, start, end)
}

/// Whether `chars` spells `lit`.
fn is_lit(chars: &Vec<char>, lit: &str) -> (r: bool)
    ensures
        r == (chars@ == lit@),
{
    let l = chars_of(lit);
    if l.len() != chars.len() {
        return false;
    }
    let mut i: usize = 0;
    while i < chars.len()
        invariant
            i <= chars@.len(),
            l@ == lit@,
            l@.len() == chars@.len(),
            forall|k: int| 0 <= k < i ==> chars@[k] == l@[k],
        decreases chars@.len() - i,
    {
        if chars[i] != l[i] {
            return false;
        }
        i = i + 1;
    }
    assert(chars@ =~= lit@);
    true
}

/// Whether `chars` begins with `lit`.
fn starts_with_lit(chars: &Vec<char>, lit: &str) -> (r: bool)
    ensures
        r == (chars@.len() >= lit@.len() && chars@.subrange(0, lit@.len() as int) == lit@),
{
    let l = chars_of(lit);
    if l.len() > chars.len() {
        return false;
    }
    let mut i: usize = 0;
    while i < l.len()
        invariant
            i <= l@.len(),
            l@ == lit@,
            l@.len() <= chars@.len(),
            forall|k: int| 0 <= k < i ==> chars@[k] == l@[k],
        decreases l@.len() - i,
    {
        if chars[i] != l[i] {
            assert(chars@.subrange(0, lit@.len() as int)[i as int] != lit@[i as int]);
            return false;
        }
        i = i + 1;
    }
    assert(chars@.subrange(0, lit@.len() as int) =~= lit@);
    true
}

/// Whether `chars` ends with `c`.
fn ends_with_char(chars: &Vec<char>, c: char) -> (r: bool)
    ensures
        r == (chars@.len() > 0 && chars@.last() == c),
{
    chars.len() > 0 && chars[chars.len() - 1] == c
}

/// A `String` of the characters.
fn text_of(chars: &Vec<char>) -> (r: String)
    ensures
        r@ == chars@,
{
    crate::text::text_of_chars(chars.as_slice())
}

/// The characters between the double quotes of a quoted value, once
/// surrounding white space is trimmed; `None` when it is not quoted.
pub open spec fn quoted_content(value: Seq<char>) -> Option<Seq<char>> {
    let v = trim_spec(value);
    if v.len() >= 2 && v[0] == '"' && v.last() == '"' {
        Some(v.subrange(1, v.len() - 1))
    } else {
        None
    }
}

/// The contents of a double-quoted string value.
fn parse_string(value: &Vec<char>) -> (r: Option<Vec<char>>)
    ensures
        r matches Some(v) ==> v@.len() < value@.len(),
        match r {
            Some(v) => quoted_content(value@) == Some(v@),
            None => quoted_content(value@) is None,
        },
{
    let v = trim(value);
    if v.len() >= 2 && v[0] == '"' && v[v.len() - 1] == '"' {
        Some(slice(&v, 1, v.len() - 1))
    } else {
        None
    }
}

/// Whether the brackets and parentheses of `s` from `i` on, with `b`
/// brackets and `p` parentheses already open, never close what is not open
/// and are all closed at the end.
pub open spec fn balanced_from(s: Seq<char>, i: int, b: int, p: int) -> bool
    decreases s.len() - i,
{
    if i < 0 || i >= s.len() {
        b == 0 && p == 0
    } else if s[i] == '[' {
        balanced_from(s, i + 1, b + 1, p)
    } else if s[i] == ']' {
        b > 0 && balanced_from(s, i + 1, b - 1, p)
    } else if s[i] == '(' {
        balanced_from(s, i + 1, b, p + 1)
    } else if s[i] == ')' {
        p > 0 && balanced_from(s, i + 1, b, p - 1)
    } else {
        balanced_from(s, i + 1, b, p)
    }
}

/// Splits `input` at the commas outside brackets and parentheses, each part
/// trimmed; refused unless its brackets and parentheses balance.
fn split_top_level(input: &Vec<char>) -> (r: Result<Vec<Vec<char>>, String>)
    ensures
        r matches Ok(parts) ==> forall|i: int| 0 <= i < parts@.len() ==> (#[trigger] parts@[i])@.len() <= input@.len(),
        r is Ok <==> balanced_from(input@, 0, 0, 0),
        r matches Ok(parts) ==> parts@.len() >= 1,
{
    let mut parts: Vec<Vec<char>> = Vec::new();
    let mut start: usize = 0;
    let mut bracket_depth: usize = 0;
    let mut paren_depth: usize = 0;
    let mut i: usize = 0;
    while i < input.len()
        invariant
            i <= input@.len(),
            start <= i,
            bracket_depth <= i,
            paren_depth <= i,
            forall|k: int| 0 <= k < parts@.len() ==> (#[trigger] parts@[k])@.len() <= input@.len(),
            balanced_from(input@, 0, 0, 0) == balanced_from(input@, i as int, bracket_depth as int, paren_depth as int),
        decreases input@.len() - i,
    {
        let c = input[i];
        if c == '[' {
            bracket_depth = bracket_depth + 1;
        } else if c == ']' {
            if bracket_depth == 0 {
                return Err(concat3("unbalanced `]` in `", text_of(input).as_str(), "`"));
            }
            bracket_depth = bracket_depth - 1;
        } else if c == '(' {
            paren_depth = paren_depth + 1;
        } else if c == ')' {
            if paren_depth == 0 {
                return Err(concat3("unbalanced `)` in `", text_of(input).as_str(), "`"));
            }
            paren_depth = paren_depth - 1;
        } else if c == ',' && bracket_depth == 0 && paren_depth == 0 {
            let part = trim(&slice(input, start, i));
            parts.push(part);
            start = i + 1;
        }
        i = i + 1;
    }
    if bracket_depth != 0 || paren_depth != 0 {
        return Err(concat3("unbalanced type expression `", text_of(input).as_str(), "`"));
    }
    let last = trim(&slice(input, start, input.len()));
    parts.push(last);
    Ok(parts)
}

/// A written type that is neither bracketed (`..]`) nor a tuple (`(..)`).
pub open spec fn plain_type_text(raw: Seq<char>) -> bool {
    !(raw.len() > 0 && raw.last() == ']') && !(raw.len() >= 2 && raw[0] == '(' && raw.last() == ')')
}

/// A type written in the configuration: a built-in name, `List[..]`,
/// `Set[..]`, `Option[..]`, `Map[.., ..]`, `Result[.., ..]`, a tuple, or
/// otherwise a record name.
fn parse_type_expr(raw: &Vec<char>) -> (r: Result<Type, String>)
    ensures
        crate::types::builtin_type_of(raw@) matches Some(t) ==> r == Ok::<Type, String>(t),
        crate::types::builtin_type_of(raw@) is None && plain_type_text(raw@) ==> (r matches Ok(Type::Record(n)) && n@ == raw@),
        r matches Ok(t) ==> (t is List <==> raw@.len() > 5 && raw@.subrange(0, 5) == "List["@ && raw@.last() == ']'),
    decreases raw@.len(),
{
    proof {
        reveal_strlit("Bool");
        reveal_strlit("Int");
        reveal_strlit("Dec");
        reveal_strlit("Text");
        reveal_strlit("Bytes");
        reveal_strlit("None");
        reveal_strlit("List[");
        reveal_strlit("Set[");
        reveal_strlit("Option[");
        reveal_strlit("Map[");
        reveal_strlit("Result[");
    }
    if is_lit(raw, "Bool") {
        return Ok(Type::Bool);
    }
    if is_lit(raw, "Int") {
        return Ok(Type::Int);
    }
    if is_lit(raw, "Dec") {
        return Ok(Type::Dec);
    }
    if is_lit(raw, "Text") {
        return Ok(Type::Text);
    }
    if is_lit(raw, "Bytes") {
        return Ok(Type::Bytes);
    }
    if is_lit(raw, "None") {
        return Ok(Type::NoneType);
    }
    let closes = ends_with_char(raw, ']');
    if closes && raw.len() > 5 && starts_with_lit(raw, "List[") {
        let inner = trim(&slice(raw, 5, raw.len() - 1));
        return Ok(Type::List(Box::new(parse_type_expr(&inner)?)));
    }
    if closes && raw.len() > 4 && starts_with_lit(raw, "Set[") {
        let inner = trim(&slice(raw, 4, raw.len() - 1));
        return Ok(Type::SetOf(Box::new(parse_type_expr(&inner)?)));
    }
    if closes && raw.len() > 7 && starts_with_lit(raw, "Option[") {
        let inner = trim(&slice(raw, 7, raw.len() - 1));
        return Ok(Type::Option(Box::new(parse_type_expr(&inner)?)));
    }
    if closes && raw.len() > 4 && starts_with_lit(raw, "Map[") {
        let inner = slice(raw, 4, raw.len() - 1);
        let parts = split_top_level(&inner)?;
        if parts.len() != 2 {
            return Err(concat3("Map type requires 2 parameters, found `", text_of(raw).as_str(), "`"));
        }
        let k = parse_type_expr(&parts[0])?;
        let v = parse_type_expr(&parts[1])?;
        return Ok(Type::MapOf(Box::new(k), Box::new(v)));
    }
    if closes && raw.len() > 7 && starts_with_lit(raw, "Result[") {
        let inner = slice(raw, 7, raw.len() - 1);
        let parts = split_top_level(&inner)?;
        if parts.len() != 2 {
            return Err(concat3("Result type requires 2 parameters, found `", text_of(raw).as_str(), "`"));
        }
        let o = parse_type_expr(&parts[0])?;
        let e = parse_type_expr(&parts[1])?;
        return Ok(Type::Result(Box::new(o), Box::new(e)));
    }
    if raw.len() >= 2 && raw[0] == '(' && raw[raw.len() - 1] == ')' {
        let inner = slice(raw, 1, raw.len() - 1);
        let parts = split_top_level(&inner)?;
        let mut items: Vec<Type> = Vec::new();
        let mut i: usize = 0;
        assert(crate::types::builtin_type_of(raw@) is None);
        while i < parts.len()
            invariant
                i <= parts@.len(),
                crate::types::builtin_type_of(raw@) is None,
                !plain_type_text(raw@),
                !(raw@.len() > 0 && raw@.last() == ']'),
                inner@.len() < raw@.len(),
                forall|k: int| 0 <= k < parts@.len() ==> (#[trigger] parts@[k])@.len() <= inner@.len(),
            decreases parts@.len() - i,
        {
            assert(parts@[i as int]@.len() <= inner@.len());
            items.push(parse_type_expr(&parts[i])?);
            i = i + 1;
        }
        return Ok(Type::Tuple(items));
    }
    Ok(Type::Record(text_of(raw)))
}

/// The type text of a configuration value: its quoted content, or the value
/// itself when it is not quoted, trimmed.
pub open spec fn config_type_text(value: Seq<char>) -> Seq<char> {
    match quoted_content(value) {
        Some(inner) => trim_spec(inner),
        None => trim_spec(trim_spec(value)),
    }
}

/// A type given as a quoted string (or bare).
fn parse_type_string(value: &Vec<char>) -> (r: Result<Type, String>)
    ensures
        crate::types::builtin_type_of(config_type_text(value@)) matches Some(t) ==> r == Ok::<Type, String>(t),
        crate::types::builtin_type_of(config_type_text(value@)) is None && plain_type_text(config_type_text(value@)) ==> (
        r matches Ok(Type::Record(n)) && n@ == config_type_text(value@)),
{
    let raw = match parse_string(value) {
        Some(inner) => inner,
        None => trim(value),
    };
    let t = trim(&raw);
    parse_type_expr(&t)
}

/// An array of quoted type strings: `["Int", "Text"]`.
fn parse_type_array(value: &Vec<char>) -> (r: Result<Vec<Type>, String>)
    ensures
        !(trim_spec(value@).len() >= 2 && trim_spec(value@)[0] == '[' && trim_spec(value@).last() == ']') ==> r is Err,
        (trim_spec(value@).len() >= 2 && trim_spec(value@)[0] == '[' && trim_spec(value@).last() == ']' && trim_spec(
            trim_spec(value@).subrange(1, trim_spec(value@).len() - 1),
        ).len() == 0) ==> (r matches Ok(ts) && ts@.len() == 0),
{
    let v = trim(value);
    if !(v.len() >= 2 && v[0] == '[' && v[v.len() - 1] == ']') {
        return Err(concat3("expected array of type strings, found `", text_of(&v).as_str(), "`"));
    }
    let inner = slice(&v, 1, v.len() - 1);
    if trim(&inner).len() == 0 {
        return Ok(Vec::new());
    }
    let mut items: Vec<Type> = Vec::new();
    let mut current: Vec<char> = Vec::new();
    let mut bracket_depth: usize = 0;
    let mut paren_depth: usize = 0;
    let mut i: usize = 0;
    while i < inner.len()
        invariant
            i <= inner@.len(),
            bracket_depth <= i,
            paren_depth <= i,
            trim_spec(trim_spec(value@).subrange(1, trim_spec(value@).len() - 1)).len() != 0,
        decreases inner@.len() - i,
    {
        let c = inner[i];
        if c == '[' {
            bracket_depth = bracket_depth + 1;
            current.push(c);
        } else if c == ']' {
            bracket_depth = if bracket_depth > 0 { bracket_depth - 1 } else { 0 };
            current.push(c);
        } else if c == '(' {
            paren_depth = paren_depth + 1;
            current.push(c);
        } else if c == ')' {
            paren_depth = if paren_depth > 0 { paren_depth - 1 } else { 0 };
            current.push(c);
        } else if c == ',' && bracket_depth == 0 && paren_depth == 0 {
            items.push(parse_type_string(&trim(&current))?);
            current = Vec::new();
        } else {
            current.push(c);
        }
        i = i + 1;
    }
    if trim(&current).len() != 0 {
        items.push(parse_type_string(&trim(&current))?);
    }
    Ok(items)
}

/// The value of `key` among a section's entries.
fn prop<'a>(values: &'a Vec<(String, String)>, key: &str) -> (r: Option<&'a String>) {
    lookup(values, key)
}

/// A configuration line passed over: blank, or a `#` comment, once
/// trimmed.
pub open spec fn config_skipped(t: Seq<char>) -> bool {
    t.len() == 0 || t[0] == '#'
}

/// A trimmed configuration line that opens a section: `[...]`.
pub open spec fn config_header(t: Seq<char>) -> bool {
    t.len() >= 2 && t[0] == '[' && t.last() == ']'
}

/// A section header of the form `[extern.<name>]`.
pub open spec fn extern_header(t: Seq<char>) -> bool {
    config_header(t) && t.len() >= 9 && t.subrange(1, 8) == "extern."@
}

/// The extern a `[extern.<name>]` header names.
pub open spec fn header_name(t: Seq<char>) -> Seq<char> {
    t.subrange(8, t.len() - 1)
}

/// Whether trimmed line `i` of the configuration is refused: a header of
/// any other section; or an entry line that no extern header precedes, or
/// that has no `=`.
pub open spec fn config_line_refused(lines: Seq<Seq<char>>, i: int) -> bool {
    let t = trim_spec(lines[i]);
    !config_skipped(t) && if config_header(t) {
        !extern_header(t)
    } else {
        (forall|j: int| 0 <= j < i ==> !extern_header(#[trigger] trim_spec(lines[j]))) || !t.contains('=')
    }
}

/// The message for the refused configuration line `i`: a section that is
/// not `[extern.<name>]`, an entry before any section, or an entry without
/// `=`.
pub open spec fn config_refusal(lines: Seq<Seq<char>>, i: int) -> Seq<char> {
    let t = trim_spec(lines[i]);
    if config_header(t) {
        "unsupported config section `"@ + t.subrange(1, t.len() - 1) + "`"@
    } else if forall|j: int| 0 <= j < i ==> !extern_header(#[trigger] trim_spec(lines[j])) {
        "extern config entries must appear inside [extern.<name>] sections"@
    } else {
        "expected `key = value` entry in extern config"@
    }
}

/// Whether some line of the configuration names the extern `name` in its
/// header.
pub open spec fn config_names(lines: Seq<Seq<char>>, name: Seq<char>) -> bool {
    exists|j: int| 0 <= j < lines.len() && extern_header(#[trigger] trim_spec(lines[j])) && header_name(trim_spec(lines[j])) == name
}

/// Parses the configuration text: `[extern.<name>]` sections of
/// `key = value` entries, with blank lines and `#` comments ignored. Each
/// section must give a quoted `provider` and `symbol`, a `return` type and
/// optionally `params`.
fn parse_extern_config(source: &str, path: Option<&str>) -> (r: Result<Vec<(String, ParsedBinding)>, Vec<Diagnostic>>)
    ensures
        r matches Err(ds) ==> extern_failure(ds@),
        (exists|i: int| 0 <= i < source_lines(source@).len() && config_line_refused(source_lines(source@), i)) ==> r is Err,
        r matches Ok(bindings) ==> forall|k: int| 0 <= k < bindings@.len() ==> config_names(
            source_lines(source@),
            (#[trigger] bindings@[k]).0@,
        ),
        forall|i: int|
            0 <= i < source_lines(source@).len() && #[trigger] config_line_refused(source_lines(source@), i) && (forall|j: int|
                0 <= j < i ==> !config_line_refused(source_lines(source@), j)) ==> (r matches Err(ds) && ds@.len() == 1
                && ds@[0].span.line == i + 1 && ds@[0].message@ == config_refusal(source_lines(source@), i)),
{
    let chars = chars_of(source);
    let lines = crate::lexer::split_lines(&chars);
    let ghost ls = source_lines(source@);
    proof {
        assert(lines@.len() == ls.len());
        assert forall|j: int| 0 <= j < lines@.len() implies (#[trigger] lines@[j])@ == ls[j] by {
            assert(lines@.map_values(|l: Vec<char>| l@)[j] == lines@[j]@);
        }
    }
    let mut current_name: Option<String> = None;
    let mut current_line: usize = 1;
    let mut props: Vec<(String, Vec<(String, String)>)> = Vec::new();
    let mut line_numbers: Vec<(String, usize)> = Vec::new();
    let mut index: usize = 0;
    while index < lines.len()
        invariant
            index <= lines@.len(),
            lines@.len() == ls.len(),
            ls == source_lines(source@),
            forall|j: int| 0 <= j < lines@.len() ==> (#[trigger] lines@[j])@ == ls[j],
            forall|j: int| 0 <= j < index ==> !config_line_refused(ls, j),
            current_name matches Some(n) ==> exists|j: int| 0 <= j < index && extern_header(#[trigger] trim_spec(ls[j]))
                && header_name(trim_spec(ls[j])) == n@,
            current_name is None ==> forall|j: int| 0 <= j < index ==> !extern_header(#[trigger] trim_spec(ls[j])),
            forall|p: int| 0 <= p < props@.len() ==> config_names(ls, (#[trigger] props@[p]).0@),
        decreases lines@.len() - index,
    {
        let line_number = index + 1;
        let ghost li = index as int;
        let line = trim(&lines[index]);
        let ghost t = trim_spec(ls[li]);
        assert(line@ == t);
        index = index + 1;
        if line.len() == 0 || line[0] == '#' {
            assert(config_skipped(t));
            continue;
        }
        if line[0] == '[' && line[line.len() - 1] == ']' && line.len() >= 2 {
            assert(config_header(t));
            let section = slice(&line, 1, line.len() - 1);
            proof {
                reveal_strlit("extern.");
                if section@.len() >= 7 {
                    assert(section@.subrange(0, 7) =~= t.subrange(1, 8));
                }
            }
            if starts_with_lit(&section, "extern.") {
                assert(extern_header(t));
                let name_chars = slice(&section, 7, section.len());
                let name = text_of(&name_chars);
                assert(name@ =~= header_name(t));
                current_name = Some(name.clone());
                current_line = line_number;
                if find_key(&props, name.as_str()).is_none() {
                    props.push((name.clone(), Vec::new()));
                }
                crate::types::assoc_insert(&mut line_numbers, name, line_number);
            } else {
                proof {
                    assert(config_line_refused(ls, li));
                    assert(section@ =~= t.subrange(1, t.len() - 1));
                }
                return Err(crate::diagnostics::one(extern_error(span_for(path, line_number), concat3("unsupported config section `", text_of(&section).as_str(), "`"))));
            }
            continue;
        }
        assert(!config_header(t));
        let current = match &current_name {
            Some(c) => c,
            None => {
                proof {
                    assert(config_line_refused(ls, li));
                }
                return Err(crate::diagnostics::one(extern_error(span_for(path, line_number), String::from_str("extern config entries must appear inside [extern.<name>] sections"))));
            },
        };
        let mut eq: usize = 0;
        while eq < line.len() && line[eq] != '='
            invariant
                eq <= line@.len(),
                forall|k: int| 0 <= k < eq ==> line@[k] != '=',
            decreases line@.len() - eq,
        {
            eq = eq + 1;
        }
        if eq == line.len() {
            proof {
                assert(!t.contains('='));
                assert(config_line_refused(ls, li));
            }
            return Err(crate::diagnostics::one(extern_error(span_for(path, line_number), String::from_str("expected `key = value` entry in extern config"))));
        }
        assert(t[eq as int] == '=');
        assert(t.contains('='));
        let key = text_of(&trim(&slice(&line, 0, eq)));
        let value = text_of(&trim(&slice(&line, eq + 1, line.len())));
        match find_key(&props, current.as_str()) {
            Some(p) => {
                let mut entries = copy_props(&props[p].1);
                crate::types::assoc_insert(&mut entries, key, value);
                props.set(p, (current.clone(), entries));
            },
            None => {
                let mut entries: Vec<(String, String)> = Vec::new();
                entries.push((key, value));
                props.push((current.clone(), entries));
            },
        }
        if find_key(&line_numbers, current.as_str()).is_none() {
            line_numbers.push((current.clone(), current_line));
        }
    }
    let mut bindings: Vec<(String, ParsedBinding)> = Vec::new();
    let mut diagnostics: Vec<Diagnostic> = Vec::new();
    let mut i: usize = 0;
    while i < props.len()
        invariant
            i <= props@.len(),
            forall|k: int| 0 <= k < diagnostics@.len() ==> (#[trigger] diagnostics@[k]).phase == Phase::Extern,
            forall|p: int| 0 <= p < props@.len() ==> config_names(ls, (#[trigger] props@[p]).0@),
            forall|k: int| 0 <= k < bindings@.len() ==> config_names(ls, (#[trigger] bindings@[k]).0@),
        decreases props@.len() - i,
    {
        let name = &props[i].0;
        let values = &props[i].1;
        let line = match lookup(&line_numbers, name.as_str()) {
            Some(l) => *l,
            None => 1,
        };
        let provider = match prop(values, "provider") {
            Some(v) => parse_string(&chars_of(v.as_str())),
            None => None,
        };
        let symbol = match prop(values, "symbol") {
            Some(v) => parse_string(&chars_of(v.as_str())),
            None => None,
        };
        let params = match prop(values, "params") {
            Some(v) => parse_type_array(&chars_of(v.as_str())),
            None => Ok(Vec::new()),
        };
        let return_type = match prop(values, "return") {
            Some(v) => parse_type_string(&chars_of(v.as_str())),
            None => Err(String::from_str("missing `return`")),
        };
        match (provider, symbol, params, return_type) {
            (Some(provider), Some(symbol), Ok(params), Ok(return_type)) => {
                bindings.push((name.clone(), ParsedBinding {
                    line,
                    provider: text_of(&provider),
                    symbol: text_of(&symbol),
                    params,
                    return_type,
                }));
            },
            (provider, symbol, params, return_type) => {
                if provider.is_none() {
                    diagnostics.push(extern_error(span_for(path, line), concat3("extern `", name.as_str(), "` is missing `provider`")));
                }
                if symbol.is_none() {
                    diagnostics.push(extern_error(span_for(path, line), concat3("extern `", name.as_str(), "` is missing `symbol`")));
                }
                if let Err(message) = params {
                    diagnostics.push(extern_error(span_for(path, line), concat("extern config type error: ", message.as_str())));
                }
                if let Err(message) = return_type {
                    diagnostics.push(extern_error(span_for(path, line), concat("extern config type error: ", message.as_str())));
                }
            },
        }
        i = i + 1;
    }
    if diagnostics.len() == 0 {
        Ok(bindings)
    } else {
        Err(diagnostics)
    }
}

/// Copies of a section's entries.
fn copy_props(values: &Vec<(String, String)>) -> (r: Vec<(String, String)>)
    ensures
        r@ == values@,
{
    let mut out: Vec<(String, String)> = Vec::new();
    let mut i: usize = 0;
    while i < values.len()
        invariant
            i <= values@.len(),
            out@ == values@.subrange(0, i as int),
        decreases values@.len() - i,
    {
        out.push((values[i].0.clone(), values[i].1.clone()));
        i = i + 1;
        assert(out@ =~= values@.subrange(0, i as int));
    }
    assert(values@.subrange(0, values@.len() as int) =~= values@);
    out
}

/// The adapter a symbol names.
spec fn adapter_named(symbol: Seq<char>) -> Option<BuiltinAdapter> {
    if symbol == "builtin::add_int"@ {
        Some(BuiltinAdapter::AddInt)
    } else if symbol == "builtin::echo_text"@ {
        Some(BuiltinAdapter::EchoText)
    } else if symbol == "builtin::text_len"@ {
        Some(BuiltinAdapter::TextLen)
    } else {
        None
    }
}

/// Whether a declared type is the one an adapter implements: `add_int`
/// takes two `Int`s and gives an `Int`, `echo_text` takes a `Text` and gives
/// a `Text`, `text_len` takes a `Text` and gives an `Int`.
spec fn adapter_fits(adapter: BuiltinAdapter, signature: ActionType) -> bool {
    match adapter {
        BuiltinAdapter::AddInt => signature.params@.len() == 2 && signature.params@[0] is Int && signature.params@[1] is Int
            && *signature.result is Int,
        BuiltinAdapter::EchoText => signature.params@.len() == 1 && signature.params@[0] is Text && *signature.result is Text,
        BuiltinAdapter::TextLen => signature.params@.len() == 1 && signature.params@[0] is Text && *signature.result is Int,
    }
}

/// The adapter a `rust` binding names, checked against the declared type.
fn resolve_builtin_adapter(provider: &str, symbol: &str, signature: &ActionType) -> (r: Result<BuiltinAdapter, String>)
    ensures
        r is Ok <==> (provider@ == "rust"@ && (match adapter_named(symbol@) {
            Some(a) => adapter_fits(a, *signature),
            None => false,
        })),
        r matches Ok(a) ==> adapter_named(symbol@) == Some(a),
{
    if !str_eq(provider, "rust") {
        return Err(concat3("unsupported provider `", provider, "`"));
    }
    let (adapter, expected) = if str_eq(symbol, "builtin::add_int") {
        (BuiltinAdapter::AddInt, ActionType { params: vec![Type::Int, Type::Int], result: Box::new(Type::Int) })
    } else if str_eq(symbol, "builtin::echo_text") {
        (BuiltinAdapter::EchoText, ActionType { params: vec![Type::Text], result: Box::new(Type::Text) })
    } else if str_eq(symbol, "builtin::text_len") {
        (BuiltinAdapter::TextLen, ActionType { params: vec![Type::Text], result: Box::new(Type::Int) })
    } else {
        return Err(concat3("unsupported rust extern symbol `", symbol, "`"));
    };
    proof {
        reveal_strlit("builtin::add_int");
        reveal_strlit("builtin::echo_text");
        reveal_strlit("builtin::text_len");
        reveal_with_fuel(crate::types::same_all, 3);
        let ps = signature.params@;
        let es = expected.params@;
        if ps.len() == es.len() && ps.len() > 0 {
            assert(ps.drop_last().len() == es.drop_last().len());
            if ps.len() == 2 {
                assert(ps.drop_last().last() == ps[0]);
                assert(es.drop_last().last() == es[0]);
                assert(ps.drop_last().drop_last().len() == 0);
            }
        }
        assert(signature.same_as(expected) <==> adapter_fits(adapter, *signature));
    }
    if action_types_equal(signature, &expected) {
        Ok(adapter)
    } else {
        let mut m = concat3("symbol `", symbol, "` expects `");
        m.append(format_action_type(&expected).as_str());
        m.append("`");
        Err(m)
    }
}

} // verus!
