//! The semantic-layer metadata of a module: for each action its intent,
//! contracts, steps, explanations and examples, and the documented fields of
//! its records, as a JSON-shaped value.
use vstd::prelude::*;

use crate::ast::{
    ActionDecl, AstModule, BinaryOp, ConditionalBranch, Decl, Expr, ExprKind, FieldDecl, RecordDecl, Stmt, StmtKind,
    UnaryOp,
};
use crate::text::{concat, concat3, debug_quoted, i64_text, join, text_before, views_of};
use crate::types::{find_key, has_key, keys_distinct};

verus! {

/// A JSON value as the metadata uses it: text, arrays, and objects whose
/// entries are kept in ascending key order with each key once.
#[derive(Debug, PartialEq)]
pub enum JsonValue {
    Text(String),
    Array(Vec<JsonValue>),
    Object(Vec<(String, JsonValue)>),
}

/// An object's entries as a map from key to value: where each key occurs
/// once, each key maps to the value of its entry.
pub open spec fn entries_map(entries: Seq<(String, JsonValue)>) -> Map<Seq<char>, JsonValue> {
    Map::new(
        |k: Seq<char>| has_key(entries, k),
        |k: Seq<char>| entries[choose|i: int| 0 <= i < entries.len() && entries[i].0@ == k].1,
    )
}

/// An object whose keys occur once each.
pub open spec fn is_object(v: JsonValue) -> bool {
    v matches JsonValue::Object(entries) && keys_distinct(entries@)
}

/// The key-value map of an object; empty for text and arrays.
pub open spec fn fields_of(v: JsonValue) -> Map<Seq<char>, JsonValue> {
    match v {
        JsonValue::Object(entries) => entries_map(entries@),
        _ => Map::empty(),
    }
}

/// Whether the value is text with the given characters.
pub open spec fn is_text(v: JsonValue, s: Seq<char>) -> bool {
    v matches JsonValue::Text(t) && t@ == s
}

/// Whether the value is an array of the given texts, in order.
pub open spec fn is_text_array(v: JsonValue, items: Seq<Seq<char>>) -> bool {
    v matches JsonValue::Array(values) && values@.len() == items.len()
        && forall|k: int| 0 <= k < items.len() ==> is_text(#[trigger] values@[k], items[k])
}

/// In an object whose keys occur once, the entry at `i` is what the map
/// gives for its key.
proof fn lemma_entries_map_at(entries: Seq<(String, JsonValue)>, i: int)
    requires
        keys_distinct(entries),
        0 <= i < entries.len(),
    ensures
        entries_map(entries).dom().contains(entries[i].0@),
        entries_map(entries)[entries[i].0@] == entries[i].1,
{
    let k = entries[i].0@;
    assert(has_key(entries, k));
    let j = choose|j: int| 0 <= j < entries.len() && entries[j].0@ == k;
    if j < i {
        assert(entries[j].0@ != entries[i].0@);
    } else if j > i {
        assert(entries[i].0@ != entries[j].0@);
    }
}

/// The keys that the metadata's objects use are different words.
proof fn lemma_keys_differ()
    ensures
        "goal"@ != "constraints"@,
        "goal"@ != "assumptions"@,
        "goal"@ != "properties"@,
        "constraints"@ != "assumptions"@,
        "constraints"@ != "properties"@,
        "assumptions"@ != "properties"@,
        "name"@ != "inputs"@,
        "name"@ != "outputs"@,
        "inputs"@ != "outputs"@,
        "name"@ != "intent"@,
        "name"@ != "contracts"@,
        "name"@ != "steps"@,
        "name"@ != "explain"@,
        "name"@ != "examples"@,
        "intent"@ != "contracts"@,
        "intent"@ != "steps"@,
        "intent"@ != "explain"@,
        "intent"@ != "examples"@,
        "contracts"@ != "steps"@,
        "contracts"@ != "explain"@,
        "contracts"@ != "examples"@,
        "steps"@ != "explain"@,
        "steps"@ != "examples"@,
        "explain"@ != "examples"@,
        "requires"@ != "ensures"@,
        "name"@ != "meaning"@,
        "name"@ != "fields"@,
        "module"@ != "actions"@,
        "module"@ != "records"@,
        "actions"@ != "records"@,
{
    reveal_strlit("goal");
    reveal_strlit("constraints");
    reveal_strlit("assumptions");
    reveal_strlit("properties");
    reveal_strlit("name");
    reveal_strlit("inputs");
    reveal_strlit("outputs");
    reveal_strlit("intent");
    reveal_strlit("contracts");
    reveal_strlit("steps");
    reveal_strlit("explain");
    reveal_strlit("examples");
    reveal_strlit("requires");
    reveal_strlit("ensures");
    reveal_strlit("meaning");
    reveal_strlit("fields");
    reveal_strlit("module");
    reveal_strlit("actions");
    reveal_strlit("records");
    assert("goal"@[0] != "constraints"@[0]);
    assert("goal"@[0] != "assumptions"@[0]);
    assert("goal"@[0] != "properties"@[0]);
    assert("constraints"@[0] != "assumptions"@[0]);
    assert("constraints"@[0] != "properties"@[0]);
    assert("assumptions"@[0] != "properties"@[0]);
    assert("name"@[0] != "inputs"@[0]);
    assert("name"@[0] != "outputs"@[0]);
    assert("inputs"@[0] != "outputs"@[0]);
    assert("name"@[0] != "intent"@[0]);
    assert("name"@[0] != "contracts"@[0]);
    assert("name"@[0] != "steps"@[0]);
    assert("name"@[0] != "explain"@[0]);
    assert("name"@[0] != "examples"@[0]);
    assert("intent"@[0] != "contracts"@[0]);
    assert("intent"@[0] != "steps"@[0]);
    assert("intent"@[0] != "explain"@[0]);
    assert("intent"@[0] != "examples"@[0]);
    assert("contracts"@[0] != "steps"@[0]);
    assert("contracts"@[0] != "explain"@[0]);
    assert("contracts"@[0] != "examples"@[0]);
    assert("steps"@[0] != "explain"@[0]);
    assert("steps"@[0] != "examples"@[0]);
    assert("explain"@[2] != "examples"@[2]);
    assert("requires"@[0] != "ensures"@[0]);
    assert("name"@[0] != "meaning"@[0]);
    assert("name"@[0] != "fields"@[0]);
    assert("module"@[0] != "actions"@[0]);
    assert("module"@[0] != "records"@[0]);
    assert("actions"@[0] != "records"@[0]);
}

/// Sets `key` to `value` in an object's entries: the entry for `key` is
/// replaced if there is one; otherwise a new entry goes before the first key
/// that ascending order puts after it. Entries for other keys stay.
fn object_insert(entries: &mut Vec<(String, JsonValue)>, key: String, value: JsonValue)
    requires
        keys_distinct(old(entries)@),
    ensures
        keys_distinct(final(entries)@),
        entries_map(final(entries)@) == entries_map(old(entries)@).insert(key@, value),
{
    let ghost before = entries@;
    let ghost k0 = key@;
    let ghost v0 = value;
    match find_key(entries, key.as_str()) {
        Some(i) => {
            entries.set(i, (key, value));
            proof {
                let after = entries@;
                assert(after == before.update(i as int, (key, value)));
                assert forall|a: int, b: int| 0 <= a < b < after.len() implies after[a].0@ != after[b].0@ by {
                    assert(after[a].0@ == before[a].0@);
                    assert(after[b].0@ == before[b].0@);
                }
                assert forall|k: Seq<char>| has_key(after, k) <==> has_key(before, k) || k == k0 by {
                    if has_key(after, k) {
                        let m = choose|m: int| 0 <= m < after.len() && after[m].0@ == k;
                        assert(before[m].0@ == after[m].0@);
                    }
                    if has_key(before, k) {
                        let m = choose|m: int| 0 <= m < before.len() && before[m].0@ == k;
                        assert(before[m].0@ == after[m].0@);
                    }
                    if k == k0 {
                        assert(after[i as int].0@ == k0);
                    }
                }
                assert forall|k: Seq<char>| #[trigger] entries_map(after).dom().contains(k) implies entries_map(after)[k]
                    == entries_map(before).insert(k0, v0)[k] by {
                    let m = choose|m: int| 0 <= m < after.len() && after[m].0@ == k;
                    lemma_entries_map_at(after, m);
                    if m == i {
                        assert(k == k0);
                    } else {
                        assert(after[m] == before[m]);
                        lemma_entries_map_at(before, m);
                    }
                }
                assert(entries_map(after) =~= entries_map(before).insert(k0, v0));
            }
        },
        None => {
            let mut i: usize = 0;
            while i < entries.len() && text_before(entries[i].0.as_str(), key.as_str())
                invariant
                    i <= entries@.len(),
                    entries@ == before,
                decreases entries@.len() - i,
            {
                i = i + 1;
            }
            entries.insert(i, (key, value));
            proof {
                let after = entries@;
                assert(after == before.insert(i as int, (key, value)));
                assert forall|a: int| 0 <= a < after.len() implies (#[trigger] after[a]) == (if a < i {
                    before[a]
                } else if a == i {
                    (key, value)
                } else {
                    before[a - 1]
                }) by {}
                assert forall|a: int, b: int| 0 <= a < b < after.len() implies after[a].0@ != after[b].0@ by {
                    if a != i && b != i {
                        let a0 = if a < i { a } else { a - 1 };
                        let b0 = if b < i { b } else { b - 1 };
                        assert(after[a] == before[a0]);
                        assert(after[b] == before[b0]);
                    } else if a == i {
                        let b0 = b - 1;
                        assert(after[b] == before[b0]);
                    } else {
                        assert(after[a] == before[a]);
                    }
                }
                assert forall|k: Seq<char>| #[trigger] has_key(after, k) <==> has_key(before, k) || k == k0 by {
                    if has_key(after, k) {
                        let m = choose|m: int| 0 <= m < after.len() && after[m].0@ == k;
                        if m < i {
                            assert(after[m] == before[m]);
                        } else if m > i {
                            assert(after[m] == before[m - 1]);
                        }
                    }
                    if has_key(before, k) {
                        let m = choose|m: int| 0 <= m < before.len() && before[m].0@ == k;
                        if m < i {
                            assert(after[m] == before[m]);
                        } else {
                            assert(after[m + 1] == before[m]);
                        }
                    }
                    if k == k0 {
                        assert(after[i as int].0@ == k0);
                    }
                }
                assert forall|k: Seq<char>| #[trigger] entries_map(after).dom().contains(k) implies entries_map(after)[k]
                    == entries_map(before).insert(k0, v0)[k] by {
                    let m = choose|m: int| 0 <= m < after.len() && after[m].0@ == k;
                    lemma_entries_map_at(after, m);
                    if m < i {
                        assert(after[m] == before[m]);
                        lemma_entries_map_at(before, m);
                    } else if m > i {
                        assert(after[m] == before[m - 1]);
                        lemma_entries_map_at(before, m - 1);
                    }
                }
                assert(entries_map(after) =~= entries_map(before).insert(k0, v0));
            }
        },
    }
}

/// The words of the metadata's expression text for binary operators.
pub open spec fn binary_op_word(op: BinaryOp) -> Seq<char> {
    match op {
        BinaryOp::Add => "+"@,
        BinaryOp::Subtract => "-"@,
        BinaryOp::Multiply => "*"@,
        BinaryOp::Divide => "/"@,
        BinaryOp::Modulo => "%"@,
        BinaryOp::Equal => "=="@,
        BinaryOp::NotEqual => "!="@,
        BinaryOp::Less => "<"@,
        BinaryOp::LessEqual => "<="@,
        BinaryOp::Greater => ">"@,
        BinaryOp::GreaterEqual => ">="@,
        BinaryOp::And => "and"@,
        BinaryOp::Or => "or"@,
    }
}

fn render_binary_op(op: BinaryOp) -> (r: &'static str)
    ensures
        r@ == binary_op_word(op),
{
    match op {
        BinaryOp::Add => "+",
        BinaryOp::Subtract => "-",
        BinaryOp::Multiply => "*",
        BinaryOp::Divide => "/",
        BinaryOp::Modulo => "%",
        BinaryOp::Equal => "==",
        BinaryOp::NotEqual => "!=",
        BinaryOp::Less => "<",
        BinaryOp::LessEqual => "<=",
        BinaryOp::Greater => ">",
        BinaryOp::GreaterEqual => ">=",
        BinaryOp::And => "and",
        BinaryOp::Or => "or",
    }
}

/// An expression written back as source-like text: literals as written
/// (text quoted and escaped, the none literal as `none`), collections in
/// their brackets with items separated by `, `, calls with their argument
/// values, field and index access, `-` and `not ` before an operand, and
/// binary operators between single spaces (`and`, `or` as words).
pub open spec fn source_text(e: Expr) -> Seq<char>
    decreases e, 1int,
{
    match e.kind {
        ExprKind::Int(v) => crate::text::int_text(v as int),
        ExprKind::Dec(v) => v@,
        ExprKind::String(v) => seq!['"'] + crate::text::escaped(v@) + seq!['"'],
        ExprKind::Bool(b) => if b { "true"@ } else { "false"@ },
        ExprKind::NoneLiteral => "none"@,
        ExprKind::List(items) => {
            proof {
                assert(decreases_to!(e => e.kind));
                assert(decreases_to!(e.kind => items));
                assert(decreases_to!(items => items@));
            }
            "["@ + source_texts(items@) + "]"@
        },
        ExprKind::MapLiteral(entries) => {
            proof {
                assert(decreases_to!(e => e.kind));
                assert(decreases_to!(e.kind => entries));
                assert(decreases_to!(entries => entries@));
            }
            "{"@ + entry_texts(entries@) + "}"@
        },
        ExprKind::Tuple(items) => {
            proof {
                assert(decreases_to!(e => e.kind));
                assert(decreases_to!(e.kind => items));
                assert(decreases_to!(items => items@));
            }
            "("@ + source_texts(items@) + ")"@
        },
        ExprKind::Name(n) => n@,
        ExprKind::Call { callee, args } => {
            proof {
                assert(decreases_to!(e => e.kind));
                assert(decreases_to!(e.kind => args));
                assert(decreases_to!(args => args@));
            }
            source_text(*callee) + "("@ + arg_texts(args@) + ")"@
        },
        ExprKind::FieldAccess { base, field } => source_text(*base) + "."@ + field@,
        ExprKind::Index { base, index } => source_text(*base) + "["@ + source_text(*index) + "]"@,
        ExprKind::Unary { op, expr } => (match op {
            UnaryOp::Negate => "-"@,
            UnaryOp::Not => "not "@,
        }) + source_text(*expr),
        ExprKind::Binary { left, op, right } => source_text(*left) + " "@ + binary_op_word(op) + " "@ + source_text(*right),
    }
}

/// The texts of expressions separated by `, `.
pub open spec fn source_texts(xs: Seq<Expr>) -> Seq<char>
    decreases xs, 0int,
{
    if xs.len() == 0 {
        Seq::empty()
    } else {
        proof {
            assert(decreases_to!(xs => xs.drop_last()));
            assert(decreases_to!(xs => xs.last()));
        }
        if xs.len() == 1 {
            source_text(xs.last())
        } else {
            source_texts(xs.drop_last()) + ", "@ + source_text(xs.last())
        }
    }
}

/// Map entries as `key: value`, separated by `, `.
pub open spec fn entry_texts(xs: Seq<(Expr, Expr)>) -> Seq<char>
    decreases xs, 0int,
{
    if xs.len() == 0 {
        Seq::empty()
    } else {
        proof {
            assert(decreases_to!(xs => xs.drop_last()));
            assert(decreases_to!(xs => xs.last()));
        }
        let one = source_text(xs.last().0) + ": "@ + source_text(xs.last().1);
        if xs.len() == 1 {
            one
        } else {
            entry_texts(xs.drop_last()) + ", "@ + one
        }
    }
}

/// The argument values of a call, separated by `, `.
pub open spec fn arg_texts(xs: Seq<crate::ast::CallArg>) -> Seq<char>
    decreases xs, 0int,
{
    if xs.len() == 0 {
        Seq::empty()
    } else {
        proof {
            assert(decreases_to!(xs => xs.drop_last()));
            assert(decreases_to!(xs => xs.last()));
        }
        if xs.len() == 1 {
            source_text(xs.last().expr)
        } else {
            arg_texts(xs.drop_last()) + ", "@ + source_text(xs.last().expr)
        }
    }
}

/// The texts of a list of expressions, separated by `, `.
fn render_exprs(items: &Vec<Expr>, Ghost(parent): Ghost<Expr>) -> (r: String)
    requires
        forall|i: int| 0 <= i < items@.len() ==> decreases_to!(parent => #[trigger] items@[i]),
    ensures
        r@ == source_texts(items@),
    decreases parent, 0int,
{
    let mut out = String::new();
    let mut i: usize = 0;
    while i < items.len()
        invariant
            i <= items@.len(),
            out@ == source_texts(items@.subrange(0, i as int)),
            forall|k: int| 0 <= k < items@.len() ==> decreases_to!(parent => #[trigger] items@[k]),
        decreases items@.len() - i,
    {
        proof {
            assert(decreases_to!(parent => items@[i as int]));
            assert(items@.subrange(0, i + 1).drop_last() =~= items@.subrange(0, i as int));
        }
        if i != 0 {
            out.append(", ");
        }
        out.append(render_expr(&items[i]).as_str());
        i = i + 1;
    }
    proof {
        assert(items@.subrange(0, items@.len() as int) =~= items@);
    }
    out
}

/// An expression written back as source-like text.
fn render_expr(expr: &Expr) -> (r: String)
    ensures
        r@ == source_text(*expr),
    decreases *expr, 1int,
{
    match &expr.kind {
        ExprKind::Int(value) => i64_text(*value),
        ExprKind::Dec(value) => value.clone(),
        ExprKind::String(value) => debug_quoted(value.as_str()),
        ExprKind::Bool(value) => String::from_str(if *value { "true" } else { "false" }),
        ExprKind::NoneLiteral => String::from_str("none"),
        ExprKind::List(items) => {
            proof {
                assert forall|i: int| 0 <= i < items@.len() implies decreases_to!(*expr => #[trigger] items@[i]) by {
                    assert(decreases_to!(*expr => items@[i]));
                }
            }
            let inner = render_exprs(items, Ghost(*expr));
            concat3("[", inner.as_str(), "]")
        },
        ExprKind::MapLiteral(entries) => {
            proof {
                assert forall|i: int| 0 <= i < entries@.len() implies decreases_to!(*expr => #[trigger] entries@[i].0)
                    && decreases_to!(*expr => entries@[i].1) by {
                    assert(decreases_to!(*expr => entries@[i].0));
                    assert(decreases_to!(*expr => entries@[i].1));
                }
            }
            let mut inner = String::new();
            let mut i: usize = 0;
            while i < entries.len()
                invariant
                    i <= entries@.len(),
                    inner@ == entry_texts(entries@.subrange(0, i as int)),
                    forall|k: int| 0 <= k < entries@.len() ==> decreases_to!(*expr => #[trigger] entries@[k].0)
                        && decreases_to!(*expr => entries@[k].1),
                decreases entries@.len() - i,
            {
                proof {
                    assert(decreases_to!(*expr => entries@[i as int].0));
                    assert(decreases_to!(*expr => entries@[i as int].1));
                    assert(entries@.subrange(0, i + 1).drop_last() =~= entries@.subrange(0, i as int));
                }
                if i != 0 {
                    inner.append(", ");
                }
                inner.append(render_expr(&entries[i].0).as_str());
                inner.append(": ");
                inner.append(render_expr(&entries[i].1).as_str());
                i = i + 1;
            }
            proof {
                assert(entries@.subrange(0, entries@.len() as int) =~= entries@);
            }
            concat3("{", inner.as_str(), "}")
        },
        ExprKind::Tuple(items) => {
            proof {
                assert forall|i: int| 0 <= i < items@.len() implies decreases_to!(*expr => #[trigger] items@[i]) by {
                    assert(decreases_to!(*expr => items@[i]));
                }
            }
            let inner = render_exprs(items, Ghost(*expr));
            concat3("(", inner.as_str(), ")")
        },
        ExprKind::Name(name) => name.clone(),
        ExprKind::Call { callee, args } => {
            proof {
                assert(decreases_to!(*expr => **callee));
                assert forall|i: int| 0 <= i < args@.len() implies decreases_to!(*expr => #[trigger] args@[i].expr) by {
                    assert(decreases_to!(*expr => args@[i].expr));
                }
            }
            let mut inner = String::new();
            let mut i: usize = 0;
            while i < args.len()
                invariant
                    i <= args@.len(),
                    inner@ == arg_texts(args@.subrange(0, i as int)),
                    forall|k: int| 0 <= k < args@.len() ==> decreases_to!(*expr => #[trigger] args@[k].expr),
                decreases args@.len() - i,
            {
                proof {
                    assert(decreases_to!(*expr => args@[i as int].expr));
                    assert(args@.subrange(0, i + 1).drop_last() =~= args@.subrange(0, i as int));
                }
                if i != 0 {
                    inner.append(", ");
                }
                inner.append(render_expr(&args[i].expr).as_str());
                i = i + 1;
            }
            proof {
                assert(args@.subrange(0, args@.len() as int) =~= args@);
            }
            let mut text = render_expr(callee);
            text.append("(");
            text.append(inner.as_str());
            text.append(")");
            text
        },
        ExprKind::FieldAccess { base, field } => {
            proof {
                assert(decreases_to!(*expr => **base));
            }
            concat3(render_expr(base).as_str(), ".", field.as_str())
        },
        ExprKind::Index { base, index } => {
            proof {
                assert(decreases_to!(*expr => **base));
                assert(decreases_to!(*expr => **index));
            }
            let mut text = concat3(render_expr(base).as_str(), "[", render_expr(index).as_str());
            text.append("]");
            text
        },
        ExprKind::Unary { op, expr: inner } => {
            proof {
                assert(decreases_to!(*expr => **inner));
            }
            let word = match op {
                UnaryOp::Negate => "-",
                UnaryOp::Not => "not ",
            };
            concat(word, render_expr(inner).as_str())
        },
        ExprKind::Binary { left, op, right } => {
            proof {
                assert(decreases_to!(*expr => **left));
                assert(decreases_to!(*expr => **right));
            }
            let mut text = concat3(render_expr(left).as_str(), " ", render_binary_op(*op));
            text.append(" ");
            text.append(render_expr(right).as_str());
            text
        },
    }
}

/// The expression of the last binding named `key`.
pub open spec fn last_binding(bindings: Seq<(String, Expr)>, key: Seq<char>) -> Expr
    decreases bindings.len(),
{
    if bindings.len() == 0 {
        arbitrary()
    } else if bindings.last().0@ == key {
        bindings.last().1
    } else {
        last_binding(bindings.drop_last(), key)
    }
}

/// The object of an example's bindings: one entry per bound name, holding
/// the text of the expression last bound to it.
pub open spec fn is_bindings_object(v: JsonValue, bindings: Seq<(String, Expr)>) -> bool {
    &&& is_object(v)
    &&& forall|k: Seq<char>| #[trigger] fields_of(v).dom().contains(k) <==> has_key(bindings, k)
    &&& forall|k: Seq<char>| has_key(bindings, k) ==> is_text(#[trigger] fields_of(v)[k], source_text(last_binding(bindings, k)))
}

/// An object mapping each binding's name to the text of its expression.
fn render_bindings(bindings: &Vec<(String, Expr)>) -> (r: JsonValue)
    ensures
        is_bindings_object(r, bindings@),
{
    let mut entries: Vec<(String, JsonValue)> = Vec::new();
    let mut i: usize = 0;
    while i < bindings.len()
        invariant
            i <= bindings@.len(),
            keys_distinct(entries@),
            forall|k: Seq<char>| #[trigger] entries_map(entries@).dom().contains(k) <==> has_key(bindings@.take(i as int), k),
            forall|k: Seq<char>| has_key(bindings@.take(i as int), k) ==> is_text(
                #[trigger] entries_map(entries@)[k],
                source_text(last_binding(bindings@.take(i as int), k)),
            ),
        decreases bindings@.len() - i,
    {
        let ghost prev = bindings@.take(i as int);
        let ghost next = bindings@.take(i + 1);
        let text = render_expr(&bindings[i].1);
        object_insert(&mut entries, bindings[i].0.clone(), JsonValue::Text(text));
        proof {
            assert(next.drop_last() =~= prev);
            assert(next.last() == bindings@[i as int]);
            assert forall|k: Seq<char>| has_key(next, k) <==> has_key(prev, k) || k == bindings@[i as int].0@ by {
                if has_key(next, k) {
                    let m = choose|m: int| 0 <= m < next.len() && next[m].0@ == k;
                    if m < i {
                        assert(prev[m] == next[m]);
                    }
                }
                if has_key(prev, k) {
                    let m = choose|m: int| 0 <= m < prev.len() && prev[m].0@ == k;
                    assert(next[m] == prev[m]);
                }
                if k == bindings@[i as int].0@ {
                    assert(next[i as int] == bindings@[i as int]);
                }
            }
        }
        i = i + 1;
    }
    proof {
        assert(bindings@.take(bindings@.len() as int) =~= bindings@);
    }
    JsonValue::Object(entries)
}

/// Texts as a JSON array.
fn text_array(items: &Vec<String>) -> (r: JsonValue)
    ensures
        is_text_array(r, views_of(items@)),
{
    let mut values: Vec<JsonValue> = Vec::new();
    let mut i: usize = 0;
    while i < items.len()
        invariant
            i <= items@.len(),
            values@.len() == i,
            forall|k: int| 0 <= k < i ==> is_text(#[trigger] values@[k], items@[k]@),
        decreases items@.len() - i,
    {
        values.push(JsonValue::Text(items[i].clone()));
        i = i + 1;
    }
    JsonValue::Array(values)
}

/// The parts of an `intent:` block.
pub struct IntentView {
    pub goal: Option<String>,
    pub constraints: Seq<String>,
    pub assumptions: Seq<String>,
    pub properties: Seq<String>,
}

/// The parts of an `example` block.
pub struct ExampleView {
    pub name: String,
    pub inputs: Seq<(String, Expr)>,
    pub outputs: Seq<(String, Expr)>,
}

/// What the statements of an action say of it, as the metadata reports
/// it: the last intent, and in order of appearance the texts of the
/// `requires` and `ensures` conditions, the step labels, the explanation
/// lines and the examples.
pub struct MetaView {
    pub intent: Option<IntentView>,
    pub requires: Seq<Seq<char>>,
    pub ensures: Seq<Seq<char>>,
    pub steps: Seq<String>,
    pub explain: Seq<String>,
    pub examples: Seq<ExampleView>,
}

/// Nothing collected yet.
pub open spec fn empty_meta() -> MetaView {
    MetaView {
        intent: None,
        requires: Seq::empty(),
        ensures: Seq::empty(),
        steps: Seq::empty(),
        explain: Seq::empty(),
        examples: Seq::empty(),
    }
}

/// What one statement adds to `m`: an intent block replaces any earlier
/// intent; contracts, step labels, explanation lines and examples are
/// appended; the bodies of steps, conditionals and loops are searched in
/// order.
pub open spec fn stmt_meta(s: Stmt, m: MetaView) -> MetaView
    decreases s, 1int, 0int,
{
    match s.kind {
        StmtKind::IntentBlock { goal, constraints, assumptions, properties } => MetaView {
            intent: Some(IntentView { goal, constraints: constraints@, assumptions: assumptions@, properties: properties@ }),
            requires: m.requires,
            ensures: m.ensures,
            steps: m.steps,
            explain: m.explain,
            examples: m.examples,
        },
        StmtKind::ExplainBlock { lines } => MetaView {
            intent: m.intent,
            requires: m.requires,
            ensures: m.ensures,
            steps: m.steps,
            explain: m.explain + lines@,
            examples: m.examples,
        },
        StmtKind::StepBlock { label, body } => block_meta(body, body@.len() as int, MetaView {
            intent: m.intent,
            requires: m.requires,
            ensures: m.ensures,
            steps: m.steps.push(label),
            explain: m.explain,
            examples: m.examples,
        }),
        StmtKind::RequiresClause { condition } => MetaView {
            intent: m.intent,
            requires: m.requires.push(source_text(condition)),
            ensures: m.ensures,
            steps: m.steps,
            explain: m.explain,
            examples: m.examples,
        },
        StmtKind::EnsuresClause { condition } => MetaView {
            intent: m.intent,
            requires: m.requires,
            ensures: m.ensures.push(source_text(condition)),
            steps: m.steps,
            explain: m.explain,
            examples: m.examples,
        },
        StmtKind::ExampleBlock { name, inputs, outputs } => MetaView {
            intent: m.intent,
            requires: m.requires,
            ensures: m.ensures,
            steps: m.steps,
            explain: m.explain,
            examples: m.examples.push(ExampleView { name, inputs: inputs@, outputs: outputs@ }),
        },
        StmtKind::If { branches, else_branch } => block_meta(
            else_branch,
            else_branch@.len() as int,
            branches_meta(branches, branches@.len() as int, m),
        ),
        StmtKind::While { body, .. } => block_meta(body, body@.len() as int, m),
        StmtKind::ForEach { body, .. } => block_meta(body, body@.len() as int, m),
        _ => m,
    }
}

/// What the first `n` statements of a block add to `m`.
pub open spec fn block_meta(block: Vec<Stmt>, n: int, m: MetaView) -> MetaView
    decreases block, 0int, n,
{
    if n <= 0 || n > block@.len() {
        m
    } else {
        stmt_meta(block@[n - 1], block_meta(block, n - 1, m))
    }
}

/// What the bodies of the first `n` branches add to `m`.
pub open spec fn branches_meta(branches: Vec<ConditionalBranch>, n: int, m: MetaView) -> MetaView
    decreases branches, 0int, n,
{
    if n <= 0 || n > branches@.len() {
        m
    } else {
        block_meta(branches@[n - 1].body, branches@[n - 1].body@.len() as int, branches_meta(branches, n - 1, m))
    }
}

/// The intent object: `goal` when there is one, and `constraints`,
/// `assumptions` and `properties` when they are not empty.
pub open spec fn is_intent_object(v: JsonValue, i: IntentView) -> bool {
    &&& is_object(v)
    &&& forall|k: Seq<char>| #[trigger] fields_of(v).dom().contains(k) <==> (k == "goal"@ && i.goal is Some) || (k
        == "constraints"@ && i.constraints.len() > 0) || (k == "assumptions"@ && i.assumptions.len() > 0) || (k
        == "properties"@ && i.properties.len() > 0)
    &&& i.goal matches Some(g) ==> is_text(fields_of(v)["goal"@], g@)
    &&& i.constraints.len() > 0 ==> is_text_array(fields_of(v)["constraints"@], views_of(i.constraints))
    &&& i.assumptions.len() > 0 ==> is_text_array(fields_of(v)["assumptions"@], views_of(i.assumptions))
    &&& i.properties.len() > 0 ==> is_text_array(fields_of(v)["properties"@], views_of(i.properties))
}

/// An example object: its name and its input and output bindings.
pub open spec fn is_example_object(v: JsonValue, e: ExampleView) -> bool {
    &&& is_object(v)
    &&& forall|k: Seq<char>| #[trigger] fields_of(v).dom().contains(k) <==> k == "name"@ || k == "inputs"@ || k
        == "outputs"@
    &&& is_text(fields_of(v)["name"@], e.name@)
    &&& is_bindings_object(fields_of(v)["inputs"@], e.inputs)
    &&& is_bindings_object(fields_of(v)["outputs"@], e.outputs)
}

/// Collected metadata that matches `m`.
pub open spec fn meta_holds(acc: ActionMetadata, m: MetaView) -> bool {
    &&& match m.intent {
        Some(i) => acc.intent matches Some(o) && keys_distinct(o@) && is_intent_object(JsonValue::Object(o), i),
        None => acc.intent is None,
    }
    &&& views_of(acc.preconditions@) == m.requires
    &&& views_of(acc.postconditions@) == m.ensures
    &&& acc.steps@ == m.steps
    &&& acc.explain@ == m.explain
    &&& acc.examples@.len() == m.examples.len()
    &&& forall|k: int| 0 <= k < m.examples.len() ==> is_example_object(#[trigger] acc.examples@[k], m.examples[k])
}

/// What the statements of an action contribute to its metadata.
pub struct ActionMetadata {
    pub intent: Option<Vec<(String, JsonValue)>>,
    pub preconditions: Vec<String>,
    pub postconditions: Vec<String>,
    pub steps: Vec<String>,
    pub explain: Vec<String>,
    pub examples: Vec<JsonValue>,
}

/// The intent object of an `intent:` block.
fn intent_object(
    goal: &Option<String>,
    constraints: &Vec<String>,
    assumptions: &Vec<String>,
    properties: &Vec<String>,
) -> (r: Vec<(String, JsonValue)>)
    ensures
        keys_distinct(r@),
        is_intent_object(
            JsonValue::Object(r),
            IntentView { goal: *goal, constraints: constraints@, assumptions: assumptions@, properties: properties@ },
        ),
{
    let ghost i = IntentView { goal: *goal, constraints: constraints@, assumptions: assumptions@, properties: properties@ };
    proof {
        lemma_keys_differ();
    }
    let mut object: Vec<(String, JsonValue)> = Vec::new();
    assert(entries_map(object@) =~= Map::empty());
    if let Some(g) = goal {
        object_insert(&mut object, String::from_str("goal"), JsonValue::Text(g.clone()));
    }
    let ghost m1 = entries_map(object@);
    assert(i.goal matches Some(g) ==> m1.dom().contains("goal"@) && is_text(m1["goal"@], g@));
    assert(forall|k: Seq<char>| #[trigger] m1.dom().contains(k) <==> (k == "goal"@ && i.goal is Some));
    if constraints.len() > 0 {
        object_insert(&mut object, String::from_str("constraints"), text_array(constraints));
    }
    let ghost m2 = entries_map(object@);
    assert(i.goal matches Some(g) ==> is_text(m2["goal"@], g@));
    assert(i.constraints.len() > 0 ==> is_text_array(m2["constraints"@], views_of(i.constraints)));
    assert(forall|k: Seq<char>| #[trigger] m2.dom().contains(k) <==> (k == "goal"@ && i.goal is Some) || (k
        == "constraints"@ && i.constraints.len() > 0));
    if assumptions.len() > 0 {
        object_insert(&mut object, String::from_str("assumptions"), text_array(assumptions));
    }
    let ghost m3 = entries_map(object@);
    assert(i.goal matches Some(g) ==> is_text(m3["goal"@], g@));
    assert(i.constraints.len() > 0 ==> is_text_array(m3["constraints"@], views_of(i.constraints)));
    assert(i.assumptions.len() > 0 ==> is_text_array(m3["assumptions"@], views_of(i.assumptions)));
    assert(forall|k: Seq<char>| #[trigger] m3.dom().contains(k) <==> (k == "goal"@ && i.goal is Some) || (k
        == "constraints"@ && i.constraints.len() > 0) || (k == "assumptions"@ && i.assumptions.len() > 0));
    if properties.len() > 0 {
        object_insert(&mut object, String::from_str("properties"), text_array(properties));
    }
    let ghost m4 = entries_map(object@);
    assert(i.goal matches Some(g) ==> is_text(m4["goal"@], g@));
    assert(i.constraints.len() > 0 ==> is_text_array(m4["constraints"@], views_of(i.constraints)));
    assert(i.assumptions.len() > 0 ==> is_text_array(m4["assumptions"@], views_of(i.assumptions)));
    assert(i.properties.len() > 0 ==> is_text_array(m4["properties"@], views_of(i.properties)));
    object
}

/// The object of an `example` block.
fn example_object(name: &String, inputs: &Vec<(String, Expr)>, outputs: &Vec<(String, Expr)>) -> (r: JsonValue)
    ensures
        is_example_object(r, ExampleView { name: *name, inputs: inputs@, outputs: outputs@ }),
{
    proof {
        lemma_keys_differ();
    }
    let mut object: Vec<(String, JsonValue)> = Vec::new();
    assert(entries_map(object@) =~= Map::empty());
    object_insert(&mut object, String::from_str("name"), JsonValue::Text(name.clone()));
    let ghost m1 = entries_map(object@);
    assert(is_text(m1["name"@], name@));
    object_insert(&mut object, String::from_str("inputs"), render_bindings(inputs));
    let ghost m2 = entries_map(object@);
    assert(is_text(m2["name"@], name@));
    assert(is_bindings_object(m2["inputs"@], inputs@));
    object_insert(&mut object, String::from_str("outputs"), render_bindings(outputs));
    let ghost m3 = entries_map(object@);
    assert(is_text(m3["name"@], name@));
    assert(is_bindings_object(m3["inputs"@], inputs@));
    assert(is_bindings_object(m3["outputs"@], outputs@));
    assert(forall|k: Seq<char>| #[trigger] m3.dom().contains(k) <==> k == "name"@ || k == "inputs"@ || k
        == "outputs"@);
    JsonValue::Object(object)
}

/// Adds what one statement contributes: an intent block replaces any
/// earlier one; contracts, step labels, explanation lines and examples are
/// appended in order; the bodies of steps, conditionals and loops are
/// searched too.
fn collect_stmt_metadata(stmt: &Stmt, acc: &mut ActionMetadata, Ghost(m): Ghost<MetaView>)
    requires
        meta_holds(*old(acc), m),
    ensures
        meta_holds(*final(acc), stmt_meta(*stmt, m)),
    decreases *stmt, 1int,
{
    match &stmt.kind {
        StmtKind::IntentBlock { goal, constraints, assumptions, properties } => {
            acc.intent = Some(intent_object(goal, constraints, assumptions, properties));
        },
        StmtKind::ExplainBlock { lines } => {
            let mut i: usize = 0;
            while i < lines.len()
                invariant
                    i <= lines@.len(),
                    acc.intent == old(acc).intent,
                    acc.preconditions == old(acc).preconditions,
                    acc.postconditions == old(acc).postconditions,
                    acc.steps == old(acc).steps,
                    acc.examples == old(acc).examples,
                    acc.explain@ == old(acc).explain@ + lines@.take(i as int),
                decreases lines@.len() - i,
            {
                acc.explain.push(lines[i].clone());
                proof {
                    assert(lines@.take(i + 1) =~= lines@.take(i as int).push(lines@[i as int]));
                }
                i = i + 1;
            }
            proof {
                assert(lines@.take(lines@.len() as int) =~= lines@);
            }
        },
        StmtKind::StepBlock { label, body } => {
            acc.steps.push(label.clone());
            proof {
                assert(decreases_to!(*stmt => *body));
            }
            collect_block_metadata(body, acc, Ghost(MetaView {
                intent: m.intent,
                requires: m.requires,
                ensures: m.ensures,
                steps: m.steps.push(*label),
                explain: m.explain,
                examples: m.examples,
            }));
        },
        StmtKind::RequiresClause { condition } => {
            acc.preconditions.push(render_expr(condition));
            proof {
                assert(views_of(acc.preconditions@) =~= m.requires.push(source_text(*condition)));
            }
        },
        StmtKind::EnsuresClause { condition } => {
            acc.postconditions.push(render_expr(condition));
            proof {
                assert(views_of(acc.postconditions@) =~= m.ensures.push(source_text(*condition)));
            }
        },
        StmtKind::ExampleBlock { name, inputs, outputs } => {
            acc.examples.push(example_object(name, inputs, outputs));
        },
        StmtKind::If { branches, else_branch } => {
            proof {
                assert forall|k: int| 0 <= k < branches@.len() implies decreases_to!(*stmt => #[trigger] branches@[k].body) by {
                    assert(decreases_to!(*stmt => branches@[k].body));
                }
            }
            let mut i: usize = 0;
            while i < branches.len()
                invariant
                    i <= branches@.len(),
                    forall|k: int| 0 <= k < branches@.len() ==> decreases_to!(*stmt => #[trigger] branches@[k].body),
                    meta_holds(*acc, branches_meta(*branches, i as int, m)),
                decreases branches@.len() - i,
            {
                proof {
                    assert(decreases_to!(*stmt => branches@[i as int].body));
                }
                collect_block_metadata(&branches[i].body, acc, Ghost(branches_meta(*branches, i as int, m)));
                i = i + 1;
            }
            proof {
                assert(decreases_to!(*stmt => *else_branch));
            }
            collect_block_metadata(else_branch, acc, Ghost(branches_meta(*branches, branches@.len() as int, m)));
        },
        StmtKind::While { body, .. } | StmtKind::ForEach { body, .. } => {
            proof {
                assert(decreases_to!(*stmt => *body));
            }
            collect_block_metadata(body, acc, Ghost(m));
        },
        _ => {},
    }
}

/// Adds what each statement of a block contributes, in order.
fn collect_block_metadata(block: &Vec<Stmt>, acc: &mut ActionMetadata, Ghost(m): Ghost<MetaView>)
    requires
        meta_holds(*old(acc), m),
    ensures
        meta_holds(*final(acc), block_meta(*block, block@.len() as int, m)),
    decreases *block, 0int,
{
    let mut i: usize = 0;
    while i < block.len()
        invariant
            i <= block@.len(),
            meta_holds(*acc, block_meta(*block, i as int, m)),
        decreases block@.len() - i,
    {
        proof {
            assert(decreases_to!(*block => block@[i as int]));
        }
        collect_stmt_metadata(&block[i], acc, Ghost(block_meta(*block, i as int, m)));
        i = i + 1;
    }
}

/// The metadata object of an action with body metadata `m`: its name, and
/// each of `intent`, `contracts` (with `requires` and `ensures`), `steps`,
/// `explain` and `examples` only when the action has something for it.
pub open spec fn is_action_object(v: JsonValue, name: String, m: MetaView) -> bool {
    &&& is_object(v)
    &&& forall|k: Seq<char>| #[trigger] fields_of(v).dom().contains(k) <==> k == "name"@ || (k == "intent"@
        && m.intent is Some) || (k == "contracts"@ && (m.requires.len() > 0 || m.ensures.len() > 0)) || (k
        == "steps"@ && m.steps.len() > 0) || (k == "explain"@ && m.explain.len() > 0) || (k == "examples"@
        && m.examples.len() > 0)
    &&& is_text(fields_of(v)["name"@], name@)
    &&& m.intent matches Some(i) ==> is_intent_object(fields_of(v)["intent"@], i)
    &&& (m.requires.len() > 0 || m.ensures.len() > 0) ==> is_contracts_object(fields_of(v)["contracts"@], m)
    &&& m.steps.len() > 0 ==> is_text_array(fields_of(v)["steps"@], views_of(m.steps))
    &&& m.explain.len() > 0 ==> is_text_array(fields_of(v)["explain"@], views_of(m.explain))
    &&& m.examples.len() > 0 ==> (fields_of(v)["examples"@] matches JsonValue::Array(xs) && xs@.len()
        == m.examples.len() && forall|k: int| 0 <= k < m.examples.len() ==> is_example_object(
        #[trigger] xs@[k],
        m.examples[k],
    ))
}

/// The contracts object: `requires` and `ensures`, each when not empty.
pub open spec fn is_contracts_object(v: JsonValue, m: MetaView) -> bool {
    &&& is_object(v)
    &&& forall|k: Seq<char>| #[trigger] fields_of(v).dom().contains(k) <==> (k == "requires"@ && m.requires.len()
        > 0) || (k == "ensures"@ && m.ensures.len() > 0)
    &&& m.requires.len() > 0 ==> is_text_array(fields_of(v)["requires"@], m.requires)
    &&& m.ensures.len() > 0 ==> is_text_array(fields_of(v)["ensures"@], m.ensures)
}

/// The metadata object of an action.
fn emit_action(action: &ActionDecl) -> (r: JsonValue)
    ensures
        is_action_object(r, action.name, block_meta(action.body, action.body@.len() as int, empty_meta())),
{
    let mut acc = ActionMetadata {
        intent: None,
        preconditions: Vec::new(),
        postconditions: Vec::new(),
        steps: Vec::new(),
        explain: Vec::new(),
        examples: Vec::new(),
    };
    proof {
        assert(views_of(acc.preconditions@) =~= Seq::<Seq<char>>::empty());
        assert(views_of(acc.postconditions@) =~= Seq::<Seq<char>>::empty());
    }
    collect_block_metadata(&action.body, &mut acc, Ghost(empty_meta()));
    let ghost m = block_meta(action.body, action.body@.len() as int, empty_meta());
    proof {
        lemma_keys_differ();
    }
    let mut object: Vec<(String, JsonValue)> = Vec::new();
    assert(entries_map(object@) =~= Map::empty());
    object_insert(&mut object, String::from_str("name"), JsonValue::Text(action.name.clone()));
    let ActionMetadata { intent, preconditions, postconditions, steps, explain, examples } = acc;
    let ghost m1 = entries_map(object@);
    assert(is_text(m1["name"@], action.name@));
    assert(forall|k: Seq<char>| #[trigger] m1.dom().contains(k) <==> k == "name"@);
    if let Some(i) = intent {
        object_insert(&mut object, String::from_str("intent"), JsonValue::Object(i));
    }
    let ghost m2 = entries_map(object@);
    assert(is_text(m2["name"@], action.name@));
    assert(m.intent matches Some(i) ==> is_intent_object(m2["intent"@], i));
    assert(forall|k: Seq<char>| #[trigger] m2.dom().contains(k) <==> k == "name"@ || (k == "intent"@ && m.intent is Some));
    if preconditions.len() > 0 || postconditions.len() > 0 {
        let mut contracts: Vec<(String, JsonValue)> = Vec::new();
        assert(entries_map(contracts@) =~= Map::empty());
        if preconditions.len() > 0 {
            object_insert(&mut contracts, String::from_str("requires"), text_array(&preconditions));
        }
        let ghost c1 = entries_map(contracts@);
        assert(m.requires.len() > 0 ==> is_text_array(c1["requires"@], m.requires));
        assert(forall|k: Seq<char>| #[trigger] c1.dom().contains(k) <==> (k == "requires"@ && m.requires.len() > 0));
        if postconditions.len() > 0 {
            object_insert(&mut contracts, String::from_str("ensures"), text_array(&postconditions));
        }
        let ghost c2 = entries_map(contracts@);
        assert(m.requires.len() > 0 ==> is_text_array(c2["requires"@], m.requires));
        assert(m.ensures.len() > 0 ==> is_text_array(c2["ensures"@], m.ensures));
        assert(forall|k: Seq<char>| #[trigger] c2.dom().contains(k) <==> (k == "requires"@ && m.requires.len() > 0) || (k
            == "ensures"@ && m.ensures.len() > 0));
        assert(is_contracts_object(JsonValue::Object(contracts), m));
        object_insert(&mut object, String::from_str("contracts"), JsonValue::Object(contracts));
    }
    let ghost m3 = entries_map(object@);
    assert(is_text(m3["name"@], action.name@));
    assert(m.intent matches Some(i) ==> is_intent_object(m3["intent"@], i));
    assert((m.requires.len() > 0 || m.ensures.len() > 0) ==> is_contracts_object(m3["contracts"@], m));
    assert(forall|k: Seq<char>| #[trigger] m3.dom().contains(k) <==> k == "name"@ || (k == "intent"@ && m.intent is Some)
        || (k == "contracts"@ && (m.requires.len() > 0 || m.ensures.len() > 0)));
    if steps.len() > 0 {
        object_insert(&mut object, String::from_str("steps"), text_array(&steps));
    }
    let ghost m4 = entries_map(object@);
    assert(is_text(m4["name"@], action.name@));
    assert(m.intent matches Some(i) ==> is_intent_object(m4["intent"@], i));
    assert((m.requires.len() > 0 || m.ensures.len() > 0) ==> is_contracts_object(m4["contracts"@], m));
    assert(m.steps.len() > 0 ==> is_text_array(m4["steps"@], views_of(m.steps)));
    assert(forall|k: Seq<char>| #[trigger] m4.dom().contains(k) <==> k == "name"@ || (k == "intent"@ && m.intent is Some)
        || (k == "contracts"@ && (m.requires.len() > 0 || m.ensures.len() > 0)) || (k == "steps"@ && m.steps.len() > 0));
    if explain.len() > 0 {
        object_insert(&mut object, String::from_str("explain"), text_array(&explain));
    }
    let ghost m5 = entries_map(object@);
    assert(is_text(m5["name"@], action.name@));
    assert(m.intent matches Some(i) ==> is_intent_object(m5["intent"@], i));
    assert((m.requires.len() > 0 || m.ensures.len() > 0) ==> is_contracts_object(m5["contracts"@], m));
    assert(m.steps.len() > 0 ==> is_text_array(m5["steps"@], views_of(m.steps)));
    assert(m.explain.len() > 0 ==> is_text_array(m5["explain"@], views_of(m.explain)));
    assert(forall|k: Seq<char>| #[trigger] m5.dom().contains(k) <==> k == "name"@ || (k == "intent"@ && m.intent is Some)
        || (k == "contracts"@ && (m.requires.len() > 0 || m.ensures.len() > 0)) || (k == "steps"@ && m.steps.len() > 0)
        || (k == "explain"@ && m.explain.len() > 0));
    if examples.len() > 0 {
        object_insert(&mut object, String::from_str("examples"), JsonValue::Array(examples));
    }
    let ghost m6 = entries_map(object@);
    assert(is_text(m6["name"@], action.name@));
    assert(m.intent matches Some(i) ==> is_intent_object(m6["intent"@], i));
    assert((m.requires.len() > 0 || m.ensures.len() > 0) ==> is_contracts_object(m6["contracts"@], m));
    assert(m.steps.len() > 0 ==> is_text_array(m6["steps"@], views_of(m.steps)));
    assert(m.explain.len() > 0 ==> is_text_array(m6["explain"@], views_of(m.explain)));
    JsonValue::Object(object)
}

/// The action declarations of a module, in order.
pub open spec fn actions_of(decls: Seq<Decl>) -> Seq<ActionDecl>
    decreases decls.len(),
{
    if decls.len() == 0 {
        Seq::empty()
    } else {
        let rest = actions_of(decls.drop_last());
        match decls.last() {
            Decl::Action(a) => rest.push(a),
            _ => rest,
        }
    }
}

/// The number of action declarations of a module.
pub open spec fn action_count(decls: Seq<Decl>) -> nat {
    actions_of(decls).len()
}

/// The metadata of each action, in declaration order.
fn actions_metadata(decls: &Vec<Decl>) -> (r: Vec<JsonValue>)
    ensures
        r@.len() == actions_of(decls@).len(),
        forall|k: int| 0 <= k < r@.len() ==> is_action_object(
            #[trigger] r@[k],
            actions_of(decls@)[k].name,
            block_meta(actions_of(decls@)[k].body, actions_of(decls@)[k].body@.len() as int, empty_meta()),
        ),
{
    let mut actions: Vec<JsonValue> = Vec::new();
    let mut i: usize = 0;
    while i < decls.len()
        invariant
            i <= decls@.len(),
            actions@.len() == actions_of(decls@.subrange(0, i as int)).len(),
            forall|k: int| 0 <= k < actions@.len() ==> is_action_object(
                #[trigger] actions@[k],
                actions_of(decls@.subrange(0, i as int))[k].name,
                block_meta(
                    actions_of(decls@.subrange(0, i as int))[k].body,
                    actions_of(decls@.subrange(0, i as int))[k].body@.len() as int,
                    empty_meta(),
                ),
            ),
        decreases decls@.len() - i,
    {
        proof {
            assert(decls@.subrange(0, i + 1).drop_last() =~= decls@.subrange(0, i as int));
            assert(decls@.subrange(0, i + 1).last() == decls@[i as int]);
        }
        if let Decl::Action(action) = &decls[i] {
            actions.push(emit_action(action));
        }
        i = i + 1;
    }
    proof {
        assert(decls@.subrange(0, decls@.len() as int) =~= decls@);
    }
    actions
}

/// The fields of a record that document their meaning, in order.
pub open spec fn documented_fields(fields: Seq<FieldDecl>) -> Seq<FieldDecl>
    decreases fields.len(),
{
    if fields.len() == 0 {
        Seq::empty()
    } else {
        let rest = documented_fields(fields.drop_last());
        if fields.last().meaning is Some {
            rest.push(fields.last())
        } else {
            rest
        }
    }
}

/// The records of a module with at least one documented field, in order.
pub open spec fn documented_records(decls: Seq<Decl>) -> Seq<RecordDecl>
    decreases decls.len(),
{
    if decls.len() == 0 {
        Seq::empty()
    } else {
        let rest = documented_records(decls.drop_last());
        match decls.last() {
            Decl::Record(r) => if documented_fields(r.fields@).len() > 0 {
                rest.push(r)
            } else {
                rest
            },
            _ => rest,
        }
    }
}

/// The object of a documented field: its name and meaning.
pub open spec fn is_field_object(v: JsonValue, f: FieldDecl) -> bool {
    &&& is_object(v)
    &&& forall|k: Seq<char>| #[trigger] fields_of(v).dom().contains(k) <==> k == "name"@ || k == "meaning"@
    &&& is_text(fields_of(v)["name"@], f.name@)
    &&& f.meaning matches Some(text) && is_text(fields_of(v)["meaning"@], text@)
}

/// The object of a record with documented fields: its name and those
/// fields.
pub open spec fn is_record_object(v: JsonValue, r: RecordDecl) -> bool {
    &&& is_object(v)
    &&& forall|k: Seq<char>| #[trigger] fields_of(v).dom().contains(k) <==> k == "name"@ || k == "fields"@
    &&& is_text(fields_of(v)["name"@], r.name@)
    &&& fields_of(v)["fields"@] matches JsonValue::Array(xs) && xs@.len() == documented_fields(r.fields@).len()
        && forall|k: int| 0 <= k < xs@.len() ==> is_field_object(#[trigger] xs@[k], documented_fields(r.fields@)[k])
}

/// The objects of a record's documented fields.
fn documented_field_objects(record: &RecordDecl) -> (r: Vec<JsonValue>)
    ensures
        r@.len() == documented_fields(record.fields@).len(),
        forall|k: int| 0 <= k < r@.len() ==> is_field_object(#[trigger] r@[k], documented_fields(record.fields@)[k]),
{
    let mut fields: Vec<JsonValue> = Vec::new();
    let mut k: usize = 0;
    while k < record.fields.len()
        invariant
            k <= record.fields@.len(),
            fields@.len() == documented_fields(record.fields@.subrange(0, k as int)).len(),
            forall|j: int| 0 <= j < fields@.len() ==> is_field_object(
                #[trigger] fields@[j],
                documented_fields(record.fields@.subrange(0, k as int))[j],
            ),
        decreases record.fields@.len() - k,
    {
        proof {
            assert(record.fields@.subrange(0, k + 1).drop_last() =~= record.fields@.subrange(0, k as int));
            assert(record.fields@.subrange(0, k + 1).last() == record.fields@[k as int]);
        }
        let field = &record.fields[k];
        if let Some(meaning) = &field.meaning {
            let mut field_obj: Vec<(String, JsonValue)> = Vec::new();
            assert(entries_map(field_obj@) =~= Map::empty());
            object_insert(&mut field_obj, String::from_str("name"), JsonValue::Text(field.name.clone()));
            object_insert(&mut field_obj, String::from_str("meaning"), JsonValue::Text(meaning.clone()));
            let ghost f = entries_map(field_obj@);
            proof {
                lemma_keys_differ();
            }
            assert(is_text(f["name"@], field.name@));
            assert(is_text(f["meaning"@], meaning@));
            assert(forall|key: Seq<char>| #[trigger] f.dom().contains(key) <==> key == "name"@ || key == "meaning"@);
            assert(is_field_object(JsonValue::Object(field_obj), *field));
            fields.push(JsonValue::Object(field_obj));
        }
        k = k + 1;
    }
    proof {
        assert(record.fields@.subrange(0, record.fields@.len() as int) =~= record.fields@);
    }
    fields
}

/// For each record with documented fields, its name and those fields'
/// names and meanings.
fn records_metadata(decls: &Vec<Decl>) -> (r: Vec<JsonValue>)
    ensures
        r@.len() == documented_records(decls@).len(),
        forall|k: int| 0 <= k < r@.len() ==> is_record_object(#[trigger] r@[k], documented_records(decls@)[k]),
{
    let mut records: Vec<JsonValue> = Vec::new();
    let mut i: usize = 0;
    while i < decls.len()
        invariant
            i <= decls@.len(),
            records@.len() == documented_records(decls@.subrange(0, i as int)).len(),
            forall|k: int| 0 <= k < records@.len() ==> is_record_object(
                #[trigger] records@[k],
                documented_records(decls@.subrange(0, i as int))[k],
            ),
        decreases decls@.len() - i,
    {
        proof {
            assert(decls@.subrange(0, i + 1).drop_last() =~= decls@.subrange(0, i as int));
            assert(decls@.subrange(0, i + 1).last() == decls@[i as int]);
        }
        if let Decl::Record(record) = &decls[i] {
            let fields = documented_field_objects(record);
            if fields.len() > 0 {
                let mut record_obj: Vec<(String, JsonValue)> = Vec::new();
                assert(entries_map(record_obj@) =~= Map::empty());
                object_insert(&mut record_obj, String::from_str("name"), JsonValue::Text(record.name.clone()));
                let ghost documented = fields@;
                object_insert(&mut record_obj, String::from_str("fields"), JsonValue::Array(fields));
                let ghost f = entries_map(record_obj@);
                proof {
                    lemma_keys_differ();
                }
                assert(is_text(f["name"@], record.name@));
                assert(f["fields"@] == JsonValue::Array(fields));
                assert(forall|key: Seq<char>| #[trigger] f.dom().contains(key) <==> key == "name"@ || key == "fields"@);
                assert(is_record_object(JsonValue::Object(record_obj), *record));
                records.push(JsonValue::Object(record_obj));
            }
        }
        i = i + 1;
    }
    proof {
        assert(decls@.subrange(0, decls@.len() as int) =~= decls@);
    }
    records
}

/// The dotted name of the module, empty without a module declaration.
pub open spec fn module_name_text(module: AstModule) -> Seq<char> {
    match module.module_decl {
        Some(decl) => crate::text::joined(views_of(decl.name.segments@), "."@),
        None => Seq::empty(),
    }
}

/// The metadata of a module: its dotted name (empty without a module
/// declaration), one entry per action in declaration order, and, when some
/// record field documents its meaning, the records with such fields.
pub fn emit_metadata(module: &AstModule) -> (r: JsonValue)
    ensures
        is_object(r),
        forall|k: Seq<char>| #[trigger] fields_of(r).dom().contains(k) <==> k == "module"@ || k == "actions"@ || (k
            == "records"@ && documented_records(module.declarations@).len() > 0),
        is_text(fields_of(r)["module"@], module_name_text(*module)),
        fields_of(r)["actions"@] matches JsonValue::Array(xs) && xs@.len() == actions_of(module.declarations@).len()
            && forall|k: int| 0 <= k < xs@.len() ==> is_action_object(
            #[trigger] xs@[k],
            actions_of(module.declarations@)[k].name,
            block_meta(
                actions_of(module.declarations@)[k].body,
                actions_of(module.declarations@)[k].body@.len() as int,
                empty_meta(),
            ),
        ),
        documented_records(module.declarations@).len() > 0 ==> (fields_of(r)["records"@] matches JsonValue::Array(
            xs,
        ) && xs@.len() == documented_records(module.declarations@).len() && forall|k: int|
            0 <= k < xs@.len() ==> is_record_object(#[trigger] xs@[k], documented_records(module.declarations@)[k])),
{
    proof {
        lemma_keys_differ();
    }
    let name = match &module.module_decl {
        Some(decl) => decl.name.as_string(),
        None => String::new(),
    };
    let actions = actions_metadata(&module.declarations);
    let records = records_metadata(&module.declarations);
    let mut object: Vec<(String, JsonValue)> = Vec::new();
    assert(entries_map(object@) =~= Map::empty());
    object_insert(&mut object, String::from_str("actions"), JsonValue::Array(actions));
    object_insert(&mut object, String::from_str("module"), JsonValue::Text(name));
    if records.len() > 0 {
        object_insert(&mut object, String::from_str("records"), JsonValue::Array(records));
    }
    JsonValue::Object(object)
}

} // verus!
