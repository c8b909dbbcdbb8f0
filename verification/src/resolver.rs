//! Top-level name resolution: every module, import and declaration name of a
//! module is bound once.
use vstd::prelude::*;

use crate::ast::{AstModule, Decl, ImportDecl, ImportKind};
use crate::diagnostics::{failure_of, Diagnostic, Phase, SourceSpan};
use crate::text::{concat3, joined, str_eq, views_of};

verus! {

/// What a top-level name stands for.
#[derive(Debug, Clone, Copy, PartialEq, Eq, Hash, Structural)]
pub enum SymbolKind {
    Module,
    Import,
    Const,
    Record,
    Enum,
    Action,
    Extern,
    Test,
    Runtime,
}

/// A bound top-level name.
#[derive(Debug, Clone, PartialEq, Eq)]
pub struct Symbol {
    pub name: String,
    pub kind: SymbolKind,
}

/// The top-level names of a module, each bound once, in the order in which
/// the module introduces them.
#[derive(Debug, Clone)]
pub struct Resolution {
    pub symbols: Vec<Symbol>,
}

/// A name and what it stands for, as plain values.
pub type SymbolEntry = (Seq<char>, SymbolKind);

/// The kind of symbol a declaration binds.
pub open spec fn decl_kind(d: Decl) -> SymbolKind {
    match d {
        Decl::Const(_) => SymbolKind::Const,
        Decl::Record(_) => SymbolKind::Record,
        Decl::Enum(_) => SymbolKind::Enum,
        Decl::Extern(_) => SymbolKind::Extern,
        Decl::Action(_) => SymbolKind::Action,
        Decl::Test(_) => SymbolKind::Test,
    }
}

/// The names one import binds: its alias, or the last segment of the module
/// name; or each name of a `from` import.
pub open spec fn import_names(d: ImportDecl) -> Seq<Seq<char>> {
    match d.kind {
        ImportKind::Module { module, alias } => match alias {
            Some(a) => seq![a@],
            None => seq![module.segments@.last()@],
        },
        ImportKind::From { names, .. } => views_of(names@),
    }
}

/// The entries bound by a sequence of imports, in order.
pub open spec fn import_entries(ds: Seq<ImportDecl>) -> Seq<SymbolEntry>
    decreases ds.len(),
{
    if ds.len() == 0 {
        Seq::empty()
    } else {
        import_entries(ds.drop_last()) + import_names(ds.last()).map_values(
            |n: Seq<char>| (n, SymbolKind::Import),
        )
    }
}

/// The entry of the module declaration, if there is one.
pub open spec fn module_entries(m: AstModule) -> Seq<SymbolEntry> {
    match m.module_decl {
        Some(md) => seq![(joined(views_of(md.name.segments@), "."@), SymbolKind::Module)],
        None => Seq::empty(),
    }
}

/// The entries bound by the declarations, in order.
pub open spec fn decl_entries(ds: Seq<Decl>) -> Seq<SymbolEntry> {
    ds.map_values(|d: Decl| (d.spec_name(), decl_kind(d)))
}

/// Every top-level entry of a module: its own name, then its imports, then
/// its declarations.
pub open spec fn top_level_entries(m: AstModule) -> Seq<SymbolEntry> {
    module_entries(m) + import_entries(m.imports@) + decl_entries(m.declarations@)
}

/// No name occurs twice.
pub open spec fn names_distinct(es: Seq<SymbolEntry>) -> bool {
    forall|i: int, j: int| 0 <= i < j < es.len() ==> es[i].0 != es[j].0
}

/// Whether some entry has the name `n`.
pub open spec fn has_name(es: Seq<SymbolEntry>, n: Seq<char>) -> bool {
    exists|i: int| 0 <= i < es.len() && es[i].0 == n
}

/// The names of the entries whose name an earlier entry already has, in
/// order.
pub open spec fn repeated_names(es: Seq<SymbolEntry>) -> Seq<Seq<char>>
    decreases es.len(),
{
    if es.len() == 0 {
        Seq::empty()
    } else if has_name(es.drop_last(), es.last().0) {
        repeated_names(es.drop_last()).push(es.last().0)
    } else {
        repeated_names(es.drop_last())
    }
}

/// The symbols as plain entries.
pub open spec fn symbol_entries(symbols: Seq<Symbol>) -> Seq<SymbolEntry> {
    symbols.map_values(|s: Symbol| (s.name@, s.kind))
}

impl Resolution {
    /// The bound names, in order, as plain entries.
    pub open spec fn entries(&self) -> Seq<SymbolEntry> {
        symbol_entries(self.symbols@)
    }

    /// The symbol bound to `name`, if any.
    pub fn get(&self, name: &str) -> (r: Option<&Symbol>)
        ensures
            r is Some <==> has_name(self.entries(), name@),
            r matches Some(s) ==> s.name@ == name@,
            r matches Some(s) ==> exists|i: int| 0 <= i < self.entries().len() && self.entries()[i] == (s.name@, s.kind)
                && forall|k: int| 0 <= k < i ==> (#[trigger] self.entries()[k]).0 != name@,
    {
        let mut i: usize = 0;
        while i < self.symbols.len()
            invariant
                i <= self.symbols@.len(),
                forall|k: int| 0 <= k < i ==> self.symbols@[k].name@ != name@,
            decreases self.symbols@.len() - i,
        {
            if str_eq(self.symbols[i].name.as_str(), name) {
                assert(self.entries()[i as int].0 == name@);
                assert(self.entries()[i as int] == (self.symbols@[i as int].name@, self.symbols@[i as int].kind));
                assert forall|k: int| 0 <= k < i implies (#[trigger] self.entries()[k]).0 != name@ by {
                    assert(self.entries()[k].0 == self.symbols@[k].name@);
                }
                return Some(&self.symbols[i]);
            }
            i = i + 1;
        }
        assert forall|k: int| 0 <= k < self.entries().len() implies self.entries()[k].0 != name@ by {
            assert(self.symbols@[k].name@ != name@);
        }
        None
    }
}

/// A top-level name with its kind and the position that introduced it.
struct PendingEntry {
    name: String,
    kind: SymbolKind,
    span: SourceSpan,
}

spec fn pending_entries(ps: Seq<PendingEntry>) -> Seq<SymbolEntry> {
    ps.map_values(|p: PendingEntry| (p.name@, p.kind))
}

/// Binds the top-level names of one module.
pub struct Resolver<'a> {
    module: &'a AstModule,
}

impl<'a> Resolver<'a> {
    /// The module this resolver binds.
    pub closed spec fn module(&self) -> AstModule {
        *self.module
    }

    /// A resolver for `module`.
    pub fn new(module: &'a AstModule) -> (r: Self)
        ensures
            r.module() == *module,
    {
        Resolver { module }
    }

    /// Binds every top-level name once. Succeeds exactly when no name occurs
    /// twice; the symbols are then the module's entries in order. Otherwise
    /// each repeated name is reported as a resolve error.
    pub fn resolve(&self) -> (r: Result<Resolution, Vec<Diagnostic>>)
        requires
            self.module().imports_well_formed(),
        ensures
            r is Ok <==> names_distinct(top_level_entries(self.module())),
            r matches Ok(res) ==> res.entries() == top_level_entries(self.module()),
            r matches Err(ds) ==> failure_of(ds@, Phase::Resolve),
            r matches Err(ds) ==> ds@.len() == repeated_names(top_level_entries(self.module())).len() && forall|k: int|
                0 <= k < ds@.len() ==> (#[trigger] ds@[k]).message@ == "duplicate top-level symbol `"@
                    + repeated_names(top_level_entries(self.module()))[k] + "`"@,
    {
        let pending = collect_entries(self.module);
        let ghost all = pending_entries(pending@);
        let mut symbols: Vec<Symbol> = Vec::new();
        let mut diagnostics: Vec<Diagnostic> = Vec::new();
        let mut i: usize = 0;
        while i < pending.len()
            invariant
                all == pending_entries(pending@),
                i <= pending@.len(),
                diagnostics@.len() == 0 <==> names_distinct(all.take(i as int)),
                diagnostics@.len() == 0 ==> symbol_entries(symbols@) == all.take(i as int),
                forall|k: int| 0 <= k < diagnostics@.len() ==> (#[trigger] diagnostics@[k]).phase == Phase::Resolve,
                forall|n: Seq<char>| (exists|k: int| 0 <= k < symbols@.len() && symbols@[k].name@ == n) <==> #[trigger] has_name(
                    all.take(i as int),
                    n,
                ),
                diagnostics@.len() == repeated_names(all.take(i as int)).len(),
                forall|k: int| 0 <= k < diagnostics@.len() ==> (#[trigger] diagnostics@[k]).message@
                    == "duplicate top-level symbol `"@ + repeated_names(all.take(i as int))[k] + "`"@,
            decreases pending@.len() - i,
        {
            let entry = &pending[i];
            let ghost before = all.take(i as int);
            let ghost after = all.take(i + 1);
            assert(after == before.push(all[i as int]));
            let mut found = false;
            let mut j: usize = 0;
            while j < symbols.len()
                invariant
                    j <= symbols@.len(),
                    !found ==> forall|k: int| 0 <= k < j ==> symbols@[k].name@ != entry.name@,
                    found ==> exists|k: int| 0 <= k < symbols@.len() && symbols@[k].name@ == entry.name@,
                decreases symbols@.len() - j,
            {
                if !found && str_eq(symbols[j].name.as_str(), entry.name.as_str()) {
                    found = true;
                }
                j = j + 1;
            }
            proof {
                assert(after.drop_last() == before);
                assert(after.last() == all[i as int]);
                assert(all[i as int].0 == entry.name@);
                assert forall|n: Seq<char>| #[trigger] has_name(after, n) <==> (has_name(before, n) || n == entry.name@) by {
                    if has_name(after, n) {
                        let k = choose|k: int| 0 <= k < after.len() && after[k].0 == n;
                        if k < i {
                            assert(before[k] == after[k]);
                        }
                    }
                    if has_name(before, n) {
                        let k = choose|k: int| 0 <= k < before.len() && before[k].0 == n;
                        assert(after[k] == before[k]);
                    }
                    if n == entry.name@ {
                        assert(after[i as int].0 == n);
                    }
                }
                assert(found <==> has_name(before, entry.name@));
            }
            let ghost dbefore = diagnostics@;
            if found {
                let message = concat3("duplicate top-level symbol `", entry.name.as_str(), "`");
                diagnostics.push(Diagnostic::new(entry.span.duplicate(), Phase::Resolve, message));
                proof {
                    assert(repeated_names(after) == repeated_names(before).push(entry.name@));
                    assert forall|k: int| 0 <= k < diagnostics@.len() implies (#[trigger] diagnostics@[k]).message@
                        == "duplicate top-level symbol `"@ + repeated_names(after)[k] + "`"@ by {
                        if k < dbefore.len() {
                            assert(diagnostics@[k] == dbefore[k]);
                        }
                    }
                }
                proof {
                    if names_distinct(before) {
                        let k = choose|k: int| 0 <= k < symbols@.len() && symbols@[k].name@ == entry.name@;
                        assert(symbol_entries(symbols@)[k].0 == before[k].0);
                        assert(after[k].0 == after[i as int].0);
                    }
                }
            } else {
                proof {
                    if diagnostics@.len() == 0 {
                        assert forall|a: int, b: int| 0 <= a < b < after.len() implies after[a].0 != after[b].0 by {
                            if b == i {
                                assert(symbol_entries(symbols@)[a].0 == before[a].0);
                                assert(symbols@[a].name@ != entry.name@);
                            }
                        }
                    }
                }
                let ghost sbefore = symbols@;
                symbols.push(Symbol { name: entry.name.clone(), kind: entry.kind });
                proof {
                    assert(repeated_names(after) =~= repeated_names(before));
                    assert forall|n: Seq<char>| (exists|k: int| 0 <= k < symbols@.len() && symbols@[k].name@ == n) <==> #[trigger] has_name(
                        after,
                        n,
                    ) by {
                        if exists|k: int| 0 <= k < symbols@.len() && symbols@[k].name@ == n {
                            let k = choose|k: int| 0 <= k < symbols@.len() && symbols@[k].name@ == n;
                            if k < sbefore.len() {
                                assert(sbefore[k] == symbols@[k]);
                                assert(has_name(before, n));
                            }
                        }
                        if has_name(before, n) {
                            let k = choose|k: int| 0 <= k < sbefore.len() && sbefore[k].name@ == n;
                            assert(symbols@[k] == sbefore[k]);
                        }
                        if n == entry.name@ {
                            assert(symbols@[sbefore.len() as int].name@ == n);
                        }
                    }
                }
                proof {
                    if diagnostics@.len() == 0 {
                        assert(symbol_entries(symbols@) =~= after);
                    }
                }
            }
            i = i + 1;
        }
        assert(all.take(pending@.len() as int) =~= all);
        if diagnostics.len() == 0 {
            Ok(Resolution { symbols })
        } else {
            Err(diagnostics)
        }
    }
}

/// The names one import binds, each with the import's position.
fn push_import_entries(d: &ImportDecl, out: &mut Vec<PendingEntry>)
    requires
        d.well_formed(),
    ensures
        pending_entries(final(out)@) == pending_entries(old(out)@) + import_names(*d).map_values(
            |n: Seq<char>| (n, SymbolKind::Import),
        ),
{
    let ghost start = pending_entries(out@);
    match &d.kind {
        ImportKind::Module { module, alias } => {
            let binding = match alias {
                Some(a) => a.clone(),
                None => {
                    let n = module.segments.len();
                    module.segments[n - 1].clone()
                },
            };
            out.push(PendingEntry { name: binding, kind: SymbolKind::Import, span: d.span.duplicate() });
            assert(pending_entries(out@) =~= start + import_names(*d).map_values(
                |n: Seq<char>| (n, SymbolKind::Import),
            ));
        },
        ImportKind::From { names, .. } => {
            let ghost all = views_of(names@).map_values(|n: Seq<char>| (n, SymbolKind::Import));
            let mut j: usize = 0;
            while j < names.len()
                invariant
                    j <= names@.len(),
                    all == views_of(names@).map_values(|n: Seq<char>| (n, SymbolKind::Import)),
                    pending_entries(out@) == start + all.take(j as int),
                decreases names@.len() - j,
            {
                let ghost old_out = out@;
                out.push(PendingEntry { name: names[j].clone(), kind: SymbolKind::Import, span: d.span.duplicate() });
                assert(all[j as int] == (names@[j as int]@, SymbolKind::Import));
                assert(pending_entries(out@) =~= pending_entries(old_out).push(all[j as int]));
                assert(all.take(j + 1) =~= all.take(j as int).push(all[j as int]));
                assert(pending_entries(out@) =~= start + all.take(j + 1));
                j = j + 1;
            }
            assert(all.take(names@.len() as int) =~= all);
        },
    }
}

/// Every top-level entry of `m` in order, with the position that introduced it.
fn collect_entries(m: &AstModule) -> (r: Vec<PendingEntry>)
    requires
        m.imports_well_formed(),
    ensures
        pending_entries(r@) == top_level_entries(*m),
{
    let mut out: Vec<PendingEntry> = Vec::new();
    if let Some(md) = &m.module_decl {
        let name = md.name.as_string();
        out.push(PendingEntry { name, kind: SymbolKind::Module, span: md.span.duplicate() });
    }
    assert(pending_entries(out@) =~= module_entries(*m));
    let mut i: usize = 0;
    while i < m.imports.len()
        invariant
            m.imports_well_formed(),
            i <= m.imports@.len(),
            pending_entries(out@) == module_entries(*m) + import_entries(m.imports@.take(i as int)),
        decreases m.imports@.len() - i,
    {
        assert(m.imports@[i as int].well_formed());
        push_import_entries(&m.imports[i], &mut out);
        assert(m.imports@.take(i + 1).drop_last() =~= m.imports@.take(i as int));
        i = i + 1;
    }
    assert(m.imports@.take(m.imports@.len() as int) =~= m.imports@);
    let ghost base = pending_entries(out@);
    let mut k: usize = 0;
    while k < m.declarations.len()
        invariant
            k <= m.declarations@.len(),
            pending_entries(out@) == base + decl_entries(m.declarations@.take(k as int)),
        decreases m.declarations@.len() - k,
    {
        let d = &m.declarations[k];
        let name = crate::text::text(d.name());
        let kind = match d {
            Decl::Const(_) => SymbolKind::Const,
            Decl::Record(_) => SymbolKind::Record,
            Decl::Enum(_) => SymbolKind::Enum,
            Decl::Extern(_) => SymbolKind::Extern,
            Decl::Action(_) => SymbolKind::Action,
            Decl::Test(_) => SymbolKind::Test,
        };
        let ghost old_out = out@;
        out.push(PendingEntry { name, kind, span: d.span().duplicate() });
        assert(pending_entries(out@) =~= pending_entries(old_out).push((d.spec_name(), decl_kind(*d))));
        assert(m.declarations@.take(k + 1) =~= m.declarations@.take(k as int).push(*d));
        assert(decl_entries(m.declarations@.take(k + 1)) =~= decl_entries(m.declarations@.take(k as int)).push((d.spec_name(), decl_kind(*d))));
        assert(pending_entries(out@) =~= base + decl_entries(m.declarations@.take(k + 1)));
        k = k + 1;
    }
    assert(m.declarations@.take(m.declarations@.len() as int) =~= m.declarations@);
    out
}

} // verus!
