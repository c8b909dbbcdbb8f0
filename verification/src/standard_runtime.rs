//! The built-in `console` and `file` actions every program may call.
use vstd::prelude::*;

use crate::text::str_eq;
use crate::types::{ActionType, Type};

verus! {

/// One action of the standard runtime.
#[derive(Debug, Clone, Copy, PartialEq, Eq, Hash, Structural)]
pub enum StandardRuntimeAction {
    ConsolePrint,
    ConsolePrintln,
    ConsoleEprint,
    ConsoleEprintln,
    ConsoleReadLine,
    FileReadText,
    FileWriteText,
    FileAppendText,
    FileExists,
}

/// The module name and member name of an action.
pub open spec fn action_parts(a: StandardRuntimeAction) -> (Seq<char>, Seq<char>) {
    match a {
        StandardRuntimeAction::ConsolePrint => ("console"@, "print"@),
        StandardRuntimeAction::ConsolePrintln => ("console"@, "println"@),
        StandardRuntimeAction::ConsoleEprint => ("console"@, "eprint"@),
        StandardRuntimeAction::ConsoleEprintln => ("console"@, "eprintln"@),
        StandardRuntimeAction::ConsoleReadLine => ("console"@, "read_line"@),
        StandardRuntimeAction::FileReadText => ("file"@, "read_text"@),
        StandardRuntimeAction::FileWriteText => ("file"@, "write_text"@),
        StandardRuntimeAction::FileAppendText => ("file"@, "append_text"@),
        StandardRuntimeAction::FileExists => ("file"@, "exists"@),
    }
}

/// No action of the standard runtime is called `main`: every qualified
/// name is longer.
pub(crate) proof fn lemma_no_runtime_main(a: StandardRuntimeAction)
    ensures
        qualified_text(a) != "main"@,
{
    reveal_strlit("main");
    reveal_strlit("console");
    reveal_strlit("file");
    reveal_strlit(".");
    assert(qualified_text(a).len() > 4);
}

/// `module.member` for an action.
pub open spec fn qualified_text(a: StandardRuntimeAction) -> Seq<char> {
    action_parts(a).0 + "."@ + action_parts(a).1
}

impl StandardRuntimeAction {
    /// `module.member`, as programs write it.
    pub fn qualified_name(self) -> (r: &'static str)
        ensures
            r@ == qualified_text(self),
    {
        proof {
            reveal_strlit("console");
            reveal_strlit("file");
            reveal_strlit(".");
            reveal_strlit("print");
            reveal_strlit("println");
            reveal_strlit("eprint");
            reveal_strlit("eprintln");
            reveal_strlit("read_line");
            reveal_strlit("read_text");
            reveal_strlit("write_text");
            reveal_strlit("append_text");
            reveal_strlit("exists");
            reveal_strlit("console.print");
            reveal_strlit("console.println");
            reveal_strlit("console.eprint");
            reveal_strlit("console.eprintln");
            reveal_strlit("console.read_line");
            reveal_strlit("file.read_text");
            reveal_strlit("file.write_text");
            reveal_strlit("file.append_text");
            reveal_strlit("file.exists");
        }
        let r = match self {
            StandardRuntimeAction::ConsolePrint => "console.print",
            StandardRuntimeAction::ConsolePrintln => "console.println",
            StandardRuntimeAction::ConsoleEprint => "console.eprint",
            StandardRuntimeAction::ConsoleEprintln => "console.eprintln",
            StandardRuntimeAction::ConsoleReadLine => "console.read_line",
            StandardRuntimeAction::FileReadText => "file.read_text",
            StandardRuntimeAction::FileWriteText => "file.write_text",
            StandardRuntimeAction::FileAppendText => "file.append_text",
            StandardRuntimeAction::FileExists => "file.exists",
        };
        assert(r@ =~= qualified_text(self));
        r
    }

    /// The number of `Text` parameters the action takes.
    pub open spec fn param_count(self) -> nat {
        match self {
            StandardRuntimeAction::ConsoleReadLine => 0,
            StandardRuntimeAction::FileWriteText | StandardRuntimeAction::FileAppendText => 2,
            _ => 1,
        }
    }

    /// The action's type: console output takes a `Text` and gives
    /// `Result[None, Text]`; `read_line` gives `Result[Text, Text]`;
    /// `read_text` takes a path and gives `Result[Text, Text]`; `write_text`
    /// and `append_text` take a path and a text and give `Result[None, Text]`;
    /// `exists` takes a path and gives `Bool`.
    pub open spec fn signature_holds(self, t: ActionType) -> bool {
        &&& t.params@.len() == self.param_count()
        &&& forall|i: int| 0 <= i < t.params@.len() ==> (#[trigger] t.params@[i]) is Text
        &&& match self {
            StandardRuntimeAction::FileExists => *t.result is Bool,
            StandardRuntimeAction::ConsoleReadLine | StandardRuntimeAction::FileReadText =>
                *t.result matches Type::Result(o, e) && *o is Text && *e is Text,
            _ => *t.result matches Type::Result(o, e) && *o is NoneType && *e is Text,
        }
    }

    /// The action's type.
    pub fn signature(self) -> (r: ActionType)
        ensures
            self.signature_holds(r),
    {
        let r = match self {
            StandardRuntimeAction::ConsolePrint
            | StandardRuntimeAction::ConsolePrintln
            | StandardRuntimeAction::ConsoleEprint
            | StandardRuntimeAction::ConsoleEprintln => ActionType {
                params: vec![Type::Text],
                result: Box::new(Type::Result(Box::new(Type::NoneType), Box::new(Type::Text))),
            },
            StandardRuntimeAction::ConsoleReadLine => ActionType {
                params: Vec::new(),
                result: Box::new(Type::Result(Box::new(Type::Text), Box::new(Type::Text))),
            },
            StandardRuntimeAction::FileReadText => ActionType {
                params: vec![Type::Text],
                result: Box::new(Type::Result(Box::new(Type::Text), Box::new(Type::Text))),
            },
            StandardRuntimeAction::FileWriteText | StandardRuntimeAction::FileAppendText => ActionType {
                params: vec![Type::Text, Type::Text],
                result: Box::new(Type::Result(Box::new(Type::NoneType), Box::new(Type::Text))),
            },
            StandardRuntimeAction::FileExists => ActionType {
                params: vec![Type::Text],
                result: Box::new(Type::Bool),
            },
        };
        r
    }
}

/// Whether `name` is one of the standard runtime modules, `console` and `file`.
pub fn is_standard_runtime_module(name: &str) -> (r: bool)
    ensures
        r == (name@ == "console"@ || name@ == "file"@),
{
    str_eq(name, "console") || str_eq(name, "file")
}

/// The action `module_name.member_name`, if the standard runtime has one.
pub fn lookup_standard_runtime_member(module_name: &str, member_name: &str) -> (r: Option<StandardRuntimeAction>)
    ensures
        r matches Some(a) ==> action_parts(a) == (module_name@, member_name@),
        r is None ==> forall|a: StandardRuntimeAction| action_parts(a) != (module_name@, member_name@),
{
    let candidates = [
        StandardRuntimeAction::ConsolePrint,
        StandardRuntimeAction::ConsolePrintln,
        StandardRuntimeAction::ConsoleEprint,
        StandardRuntimeAction::ConsoleEprintln,
        StandardRuntimeAction::ConsoleReadLine,
        StandardRuntimeAction::FileReadText,
        StandardRuntimeAction::FileWriteText,
        StandardRuntimeAction::FileAppendText,
        StandardRuntimeAction::FileExists,
    ];
    let mut i: usize = 0;
    while i < 9
        invariant
            0 <= i <= 9,
            candidates@.len() == 9,
            forall|k: int| 0 <= k < i ==> action_parts(#[trigger] candidates@[k]) != (module_name@, member_name@),
        decreases 9 - i,
    {
        let a = candidates[i];
        if str_eq(module_name, module_of(a)) && str_eq(member_name, member_of(a)) {
            return Some(a);
        }
        i = i + 1;
    }
    proof {
        assert forall|b: StandardRuntimeAction| action_parts(b) != (module_name@, member_name@) by {
            match b {
                StandardRuntimeAction::ConsolePrint => assert(candidates@[0] == b),
                StandardRuntimeAction::ConsolePrintln => assert(candidates@[1] == b),
                StandardRuntimeAction::ConsoleEprint => assert(candidates@[2] == b),
                StandardRuntimeAction::ConsoleEprintln => assert(candidates@[3] == b),
                StandardRuntimeAction::ConsoleReadLine => assert(candidates@[4] == b),
                StandardRuntimeAction::FileReadText => assert(candidates@[5] == b),
                StandardRuntimeAction::FileWriteText => assert(candidates@[6] == b),
                StandardRuntimeAction::FileAppendText => assert(candidates@[7] == b),
                StandardRuntimeAction::FileExists => assert(candidates@[8] == b),
            }
        }
    }
    None
}

fn module_of(a: StandardRuntimeAction) -> (r: &'static str)
    ensures
        r@ == action_parts(a).0,
{
    match a {
        StandardRuntimeAction::ConsolePrint
        | StandardRuntimeAction::ConsolePrintln
        | StandardRuntimeAction::ConsoleEprint
        | StandardRuntimeAction::ConsoleEprintln
        | StandardRuntimeAction::ConsoleReadLine => "console",
        _ => "file",
    }
}

fn member_of(a: StandardRuntimeAction) -> (r: &'static str)
    ensures
        r@ == action_parts(a).1,
{
    match a {
        StandardRuntimeAction::ConsolePrint => "print",
        StandardRuntimeAction::ConsolePrintln => "println",
        StandardRuntimeAction::ConsoleEprint => "eprint",
        StandardRuntimeAction::ConsoleEprintln => "eprintln",
        StandardRuntimeAction::ConsoleReadLine => "read_line",
        StandardRuntimeAction::FileReadText => "read_text",
        StandardRuntimeAction::FileWriteText => "write_text",
        StandardRuntimeAction::FileAppendText => "append_text",
        StandardRuntimeAction::FileExists => "exists",
    }
}

/// The action whose qualified name is `name` (`console.print`, ...), if any.
pub fn lookup_standard_runtime_name(name: &str) -> (r: Option<StandardRuntimeAction>)
    ensures
        r matches Some(a) ==> qualified_text(a) == name@,
        r is None ==> forall|a: StandardRuntimeAction| qualified_text(a) != name@,
{
    let candidates = [
        StandardRuntimeAction::ConsolePrint,
        StandardRuntimeAction::ConsolePrintln,
        StandardRuntimeAction::ConsoleEprint,
        StandardRuntimeAction::ConsoleEprintln,
        StandardRuntimeAction::ConsoleReadLine,
        StandardRuntimeAction::FileReadText,
        StandardRuntimeAction::FileWriteText,
        StandardRuntimeAction::FileAppendText,
        StandardRuntimeAction::FileExists,
    ];
    let mut i: usize = 0;
    while i < 9
        invariant
            0 <= i <= 9,
            candidates@.len() == 9,
            forall|k: int| 0 <= k < i ==> qualified_text(#[trigger] candidates@[k]) != name@,
        decreases 9 - i,
    {
        let a = candidates[i];
        if str_eq(name, a.qualified_name()) {
            return Some(a);
        }
        i = i + 1;
    }
    proof {
        assert forall|b: StandardRuntimeAction| qualified_text(b) != name@ by {
            match b {
                StandardRuntimeAction::ConsolePrint => assert(candidates@[0] == b),
                StandardRuntimeAction::ConsolePrintln => assert(candidates@[1] == b),
                StandardRuntimeAction::ConsoleEprint => assert(candidates@[2] == b),
                StandardRuntimeAction::ConsoleEprintln => assert(candidates@[3] == b),
                StandardRuntimeAction::ConsoleReadLine => assert(candidates@[4] == b),
                StandardRuntimeAction::FileReadText => assert(candidates@[5] == b),
                StandardRuntimeAction::FileWriteText => assert(candidates@[6] == b),
                StandardRuntimeAction::FileAppendText => assert(candidates@[7] == b),
                StandardRuntimeAction::FileExists => assert(candidates@[8] == b),
            }
        }
    }
    None
}

} // verus!
