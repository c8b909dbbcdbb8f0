//! The interactive session: source blocks accumulated one at a time, and the
//! commands that show, check, run and test them.
use vstd::prelude::*;

use crate::ast::{AstModule, Decl};
use crate::diagnostics::{failure_of, Diagnostic, Phase, SourceSpan};
use crate::lexer::{is_white, white};
use crate::runtime::{ExecutionMode, TestResult};
use crate::text::{chars_of, concat, concat3, debug_quoted, str_eq, text_of_range, usize_text};
use crate::{check_source_failure, front_end_failure, run_source_failure};

verus! {

/// The file name under which the session's source is checked.
pub open spec fn spec_repl_path() -> Seq<char> {
    "<repl>/session.vg"@
}

fn repl_path() -> (r: &'static str)
    ensures
        r@ == spec_repl_path(),
{
    "<repl>/session.vg"
}

/// `s` without its trailing whitespace.
pub open spec fn trim_end_spec(s: Seq<char>) -> Seq<char>
    decreases s.len(),
{
    if s.len() > 0 && is_white(s.last()) {
        trim_end_spec(s.drop_last())
    } else {
        s
    }
}

/// `s` without its leading whitespace.
pub open spec fn trim_start_spec(s: Seq<char>) -> Seq<char>
    decreases s.len(),
{
    if s.len() > 0 && is_white(s[0]) {
        trim_start_spec(s.drop_first())
    } else {
        s
    }
}

/// `s` without whitespace at either end.
pub open spec fn trim_spec(s: Seq<char>) -> Seq<char> {
    trim_end_spec(trim_start_spec(s))
}

/// Whether `s` holds only whitespace.
pub open spec fn is_blank(s: Seq<char>) -> bool {
    forall|i: int| 0 <= i < s.len() ==> is_white(#[trigger] s[i])
}

/// The session source once `block` is added to `source`: the block alone
/// when the session is blank, else the two separated by one empty line, each
/// without its trailing whitespace.
pub open spec fn extended_source(source: Seq<char>, block: Seq<char>) -> Seq<char> {
    if is_blank(source) {
        trim_end_spec(block)
    } else {
        trim_end_spec(source) + "\n\n"@ + trim_end_spec(block)
    }
}

/// The text without its trailing whitespace.
fn trim_end_text(s: &str) -> (r: String)
    ensures
        r@ == trim_end_spec(s@),
{
    let chars = chars_of(s);
    let mut end: usize = chars.len();
    proof {
        assert(chars@.subrange(0, end as int) =~= s@);
    }
    while end > 0 && white(chars[end - 1])
        invariant
            end <= chars@.len(),
            chars@ == s@,
            trim_end_spec(chars@.subrange(0, end as int)) == trim_end_spec(s@),
        decreases end,
    {
        proof {
            assert(chars@.subrange(0, end as int).drop_last() =~= chars@.subrange(0, end - 1));
        }
        end = end - 1;
    }
    proof {
        let kept = chars@.subrange(0, end as int);
        if end > 0 {
            assert(kept.last() == chars@[end - 1]);
        }
        assert(trim_end_spec(kept) == kept);
    }
    text_of_range(&chars, 0, end)
}

/// The text without whitespace at either end.
fn trim_text(s: &str) -> (r: String)
    ensures
        r@ == trim_spec(s@),
{
    let chars = chars_of(s);
    let mut start: usize = 0;
    proof {
        assert(chars@.subrange(0, chars@.len() as int) =~= s@);
    }
    while start < chars.len() && white(chars[start])
        invariant
            start <= chars@.len(),
            chars@ == s@,
            trim_start_spec(chars@.subrange(start as int, chars@.len() as int)) == trim_start_spec(s@),
        decreases chars@.len() - start,
    {
        proof {
            assert(chars@.subrange(start as int, chars@.len() as int).drop_first()
                =~= chars@.subrange(start + 1, chars@.len() as int));
        }
        start = start + 1;
    }
    proof {
        let kept = chars@.subrange(start as int, chars@.len() as int);
        if start < chars@.len() {
            assert(kept[0] == chars@[start as int]);
        }
        assert(trim_start_spec(kept) == kept);
    }
    let front = text_of_range(&chars, start, chars.len());
    trim_end_text(front.as_str())
}

/// Whether the text holds only whitespace.
fn blank(s: &str) -> (r: bool)
    ensures
        r == is_blank(s@),
{
    let chars = chars_of(s);
    let mut i: usize = 0;
    while i < chars.len()
        invariant
            i <= chars@.len(),
            chars@ == s@,
            forall|k: int| 0 <= k < i ==> is_white(#[trigger] chars@[k]),
        decreases chars@.len() - i,
    {
        if !white(chars[i]) {
            return false;
        }
        i = i + 1;
    }
    true
}

/// The list of commands the session understands.
pub open spec fn help_text_spec() -> Seq<char> {
    "Commands: :help :show :reset :parse :check :run :test :quit\nSubmit a source block with an empty line."@
}

fn help_text() -> (r: &'static str)
    ensures
        r@ == help_text_spec(),
{
    "Commands: :help :show :reset :parse :check :run :test :quit\nSubmit a source block with an empty line."
}

/// What a command asks of the interactive loop: go on or stop, after
/// printing the given lines.
#[derive(Debug)]
pub enum ReplCommand {
    Continue(Vec<String>),
    Quit(Vec<String>),
}

/// The views of a list of lines.
pub open spec fn line_views(lines: Seq<String>) -> Seq<Seq<char>> {
    lines.map_values(|l: String| l@)
}

/// The lines a command answer prints.
pub open spec fn command_lines(c: ReplCommand) -> Seq<Seq<char>> {
    match c {
        ReplCommand::Continue(lines) => line_views(lines@),
        ReplCommand::Quit(lines) => line_views(lines@),
    }
}

/// The commands of the session, by name.
#[derive(PartialEq, Eq, Structural)]
pub enum CommandName {
    Help,
    Show,
    Reset,
    Parse,
    Check,
    Run,
    Test,
    Quit,
    Unknown,
}

/// Which command the text `c` names.
pub open spec fn command_name(c: Seq<char>) -> CommandName {
    if c == ":help"@ {
        CommandName::Help
    } else if c == ":show"@ {
        CommandName::Show
    } else if c == ":reset"@ {
        CommandName::Reset
    } else if c == ":parse"@ {
        CommandName::Parse
    } else if c == ":check"@ {
        CommandName::Check
    } else if c == ":run"@ {
        CommandName::Run
    } else if c == ":test"@ {
        CommandName::Test
    } else if c == ":quit"@ {
        CommandName::Quit
    } else {
        CommandName::Unknown
    }
}

fn classify(c: &str) -> (r: CommandName)
    ensures
        r == command_name(c@),
{
    if str_eq(c, ":help") {
        CommandName::Help
    } else if str_eq(c, ":show") {
        CommandName::Show
    } else if str_eq(c, ":reset") {
        CommandName::Reset
    } else if str_eq(c, ":parse") {
        CommandName::Parse
    } else if str_eq(c, ":check") {
        CommandName::Check
    } else if str_eq(c, ":run") {
        CommandName::Run
    } else if str_eq(c, ":test") {
        CommandName::Test
    } else if str_eq(c, ":quit") {
        CommandName::Quit
    } else {
        CommandName::Unknown
    }
}

/// The message for a command the session does not know.
pub open spec fn unknown_command_message(c: Seq<char>) -> Seq<char> {
    "unknown repl command `"@ + c + "`"@
}

/// Whether a parsed module declares an extern action.
pub open spec fn declares_extern_decl(m: AstModule) -> bool {
    exists|i: int| 0 <= i < m.declarations@.len() && m.declarations@[i] is Extern
}

/// The source accumulated in an interactive session.
pub struct ReplSession {
    path: String,
    source: String,
    mode: ExecutionMode,
}

impl ReplSession {
    /// The session's source text.
    pub closed spec fn source_spec(&self) -> Seq<char> {
        self.source@
    }

    /// The file name the session's source is checked under.
    pub closed spec fn path_spec(&self) -> Seq<char> {
        self.path@
    }

    /// The mode `:run` and `:test` execute the session's source in.
    pub closed spec fn mode_spec(&self) -> ExecutionMode {
        self.mode
    }

    /// An empty session that runs its source in `checked` mode.
    pub fn new() -> (r: Self)
        ensures
            r.source_spec() == Seq::<char>::empty(),
            r.path_spec() == spec_repl_path(),
            r.mode_spec() == ExecutionMode::Checked,
    {
        ReplSession { path: String::from_str(repl_path()), source: String::new(), mode: ExecutionMode::Checked }
    }

    /// An empty session that runs its source in `mode`.
    pub fn with_mode(mode: ExecutionMode) -> (r: Self)
        ensures
            r.source_spec() == Seq::<char>::empty(),
            r.path_spec() == spec_repl_path(),
            r.mode_spec() == mode,
    {
        ReplSession { path: String::from_str(repl_path()), source: String::new(), mode }
    }

    /// The file name the session's source is checked under.
    pub fn path(&self) -> (r: &str)
        ensures
            r@ == self.path_spec(),
    {
        self.path.as_str()
    }

    /// The session's source text.
    pub fn source(&self) -> (r: &str)
        ensures
            r@ == self.source_spec(),
    {
        self.source.as_str()
    }

    /// Adds a block to the session if the extended source checks; a block
    /// that fails leaves the session as it was.
    pub fn submit_block(&mut self, block: &str) -> (r: Result<String, Vec<Diagnostic>>)
        ensures
            final(self).path_spec() == old(self).path_spec(),
            r matches Ok(m) ==> m@ == "ok: block added"@
                && final(self).source_spec() == extended_source(old(self).source_spec(), block@),
            r matches Err(ds) ==> check_source_failure(ds@)
                && final(self).source_spec() == old(self).source_spec(),
    {
        let candidate = if blank(self.source.as_str()) {
            trim_end_text(block)
        } else {
            let head = trim_end_text(self.source.as_str());
            let tail = trim_end_text(block);
            concat3(head.as_str(), "\n\n", tail.as_str())
        };
        crate::check_source(self.path.as_str(), candidate.as_str())?;
        self.source = candidate;
        Ok(String::from_str("ok: block added"))
    }

    /// Answers one command. `:reset` empties the session; no other command
    /// changes it. An unknown command is a command-line error.
    pub fn handle_command(&mut self, command: &str) -> (r: Result<ReplCommand, Vec<Diagnostic>>)
        ensures
            final(self).path_spec() == old(self).path_spec(),
            command_name(trim_spec(command@)) == CommandName::Reset ==> final(self).source_spec() == Seq::<char>::empty(),
            command_name(trim_spec(command@)) != CommandName::Reset ==> final(self).source_spec() == old(self).source_spec(),
            command_name(trim_spec(command@)) == CommandName::Help ==> (r matches Ok(ReplCommand::Continue(ls))
                && command_lines(ReplCommand::Continue(ls)) == seq![help_text_spec()]),
            command_name(trim_spec(command@)) == CommandName::Show ==> (r matches Ok(ReplCommand::Continue(ls))
                && command_lines(ReplCommand::Continue(ls)) == seq![
                    if is_blank(old(self).source_spec()) { "(empty session)"@ } else { old(self).source_spec() }]),
            command_name(trim_spec(command@)) == CommandName::Reset ==> (r matches Ok(ReplCommand::Continue(ls))
                && command_lines(ReplCommand::Continue(ls)) == seq!["session reset"@]),
            command_name(trim_spec(command@)) == CommandName::Parse ==> (r matches Ok(ReplCommand::Continue(ls)) && ls@.len() == 1)
                || (r matches Err(ds) && front_end_failure(ds@)),
            command_name(trim_spec(command@)) == CommandName::Check ==> (r matches Ok(ReplCommand::Continue(ls)) && ls@.len() == 1)
                || (r matches Err(ds) && (check_source_failure(ds@) || failure_of(ds@, Phase::Lower))),
            command_name(trim_spec(command@)) == CommandName::Run ==> (r matches Ok(ReplCommand::Continue(ls)) && ls@.len() == 1)
                || (r matches Err(ds) && (run_source_failure(ds@) || failure_of(ds@, Phase::Cli))),
            command_name(trim_spec(command@)) == CommandName::Test ==> (r matches Ok(c) ==> c is Continue),
            command_name(trim_spec(command@)) == CommandName::Test ==> (r matches Err(ds) ==> run_source_failure(ds@) || failure_of(ds@, Phase::Cli)),
            command_name(trim_spec(command@)) == CommandName::Quit ==> (r matches Ok(ReplCommand::Quit(ls)) && ls@.len() == 0),
            command_name(trim_spec(command@)) == CommandName::Unknown ==> (r matches Err(ds) && ds@.len() == 1
                && ds@[0].phase == Phase::Cli
                && ds@[0].message@ == unknown_command_message(trim_spec(command@))
                && ds@[0].span.path@ == spec_repl_path()),
    {
        let c = trim_text(command);
        let cs = c.as_str();
        let name = classify(cs);
        if name == CommandName::Help {
            let mut lines: Vec<String> = Vec::new();
            lines.push(String::from_str(help_text()));
            proof {
                assert(line_views(lines@) =~= seq![help_text_spec()]);
            }
            Ok(ReplCommand::Continue(lines))
        } else if name == CommandName::Show {
            let mut lines: Vec<String> = Vec::new();
            if blank(self.source.as_str()) {
                lines.push(String::from_str("(empty session)"));
            } else {
                lines.push(self.source.clone());
            }
            proof {
                assert(line_views(lines@) =~= seq![
                    if is_blank(old(self).source_spec()) { "(empty session)"@ } else { old(self).source_spec() }]);
            }
            Ok(ReplCommand::Continue(lines))
        } else if name == CommandName::Reset {
            self.source = String::new();
            let mut lines: Vec<String> = Vec::new();
            lines.push(String::from_str("session reset"));
            proof {
                assert(line_views(lines@) =~= seq!["session reset"@]);
            }
            Ok(ReplCommand::Continue(lines))
        } else if name == CommandName::Parse {
            let module = crate::parse_source(self.path.as_str(), self.source.as_str())?;
            let mut lines: Vec<String> = Vec::new();
            lines.push(module_debug_text(&module));
            Ok(ReplCommand::Continue(lines))
        } else if name == CommandName::Check {
            let lowered = crate::lower_source(self.path.as_str(), self.source.as_str())?;
            let mut line = String::from_str("check succeeded: module ");
            match &lowered.module_name {
                Some(name) => {
                    line.append("Some(");
                    line.append(debug_quoted(name.as_str()).as_str());
                    line.append(")");
                },
                None => {
                    line.append("None");
                },
            }
            line.append(" lowered ");
            line.append(usize_text(lowered.declarations.len()).as_str());
            line.append(" declarations");
            let mut lines: Vec<String> = Vec::new();
            lines.push(line);
            Ok(ReplCommand::Continue(lines))
        } else if name == CommandName::Run {
            self.ensure_repl_execution_supported()?;
            let result = crate::run_source_in_mode(self.path.as_str(), self.source.as_str(), self.mode)?;
            let mut lines: Vec<String> = Vec::new();
            lines.push(result.value.debug_text());
            Ok(ReplCommand::Continue(lines))
        } else if name == CommandName::Test {
            self.ensure_repl_execution_supported()?;
            let results = crate::test_source_in_mode(self.path.as_str(), self.source.as_str(), self.mode)?;
            Ok(ReplCommand::Continue(format_test_results(&results)))
        } else if name == CommandName::Quit {
            Ok(ReplCommand::Quit(Vec::new()))
        } else {
            let span = SourceSpan::new(repl_path(), 1, 1);
            let message = concat3("unknown repl command `", cs, "`");
            Err(crate::diagnostics::one(Diagnostic::new(span, Phase::Cli, message)))
        }
    }

    /// Refuses to execute a session that declares extern actions, which need
    /// a configuration file the session does not have.
    fn ensure_repl_execution_supported(&self) -> (r: Result<(), Vec<Diagnostic>>)
        ensures
            r matches Err(ds) ==> front_end_failure(ds@) || failure_of(ds@, Phase::Cli),
            crate::lexically_refused(self.source@) ==> r is Err,
            r matches Err(ds) ==> (failure_of(ds@, Phase::Cli) ==> ds@.len() == 1 && ds@[0].message@
                == "repl does not yet support extern-backed execution; remove extern declarations or use file-based commands"@),
    {
        let module = crate::parse_source(self.path.as_str(), self.source.as_str())?;
        let mut i: usize = 0;
        while i < module.declarations.len()
            invariant
                i <= module.declarations@.len(),
            decreases module.declarations@.len() - i,
        {
            if let Decl::Extern(_) = &module.declarations[i] {
                let span = SourceSpan::for_path(self.path.as_str(), 1, 1);
                let message = String::from_str(
                    "repl does not yet support extern-backed execution; remove extern declarations or use file-based commands",
                );
                let ds = crate::diagnostics::one(Diagnostic::new(span, Phase::Cli, message));
                proof {
                    assert(crate::diagnostics::all_in_phase(ds@, Phase::Cli));
                }
                return Err(ds);
            }
            i = i + 1;
        }
        Ok(())
    }
}

/// The pretty debug rendering of a parsed module (std's `{:#?}` formatting
/// of the derived `Debug`). Nothing is claimed of the text.
#[verifier::external_body]
fn module_debug_text(module: &AstModule) -> String {
    format!("{:#?}", module)
}

/// The lines that report failed expectations: two spaces, the place, a
/// space and the message.
pub open spec fn failure_lines(fs: Seq<crate::runtime::TestFailure>) -> Seq<Seq<char>> {
    fs.map_values(|f: crate::runtime::TestFailure| "  "@ + f.span.text() + " "@ + f.message@)
}

/// The lines that report one test.
pub open spec fn result_lines(t: TestResult) -> Seq<Seq<char>> {
    if t.passed {
        seq!["PASS "@ + t.name@]
    } else {
        seq!["FAIL "@ + t.name@] + failure_lines(t.failures@)
    }
}

/// The lines that report a run of tests, in order.
pub open spec fn results_lines(rs: Seq<TestResult>) -> Seq<Seq<char>>
    decreases rs.len(),
{
    if rs.len() == 0 {
        Seq::empty()
    } else {
        results_lines(rs.drop_last()) + result_lines(rs.last())
    }
}

/// The texts of some strings.
pub open spec fn texts_of(v: Seq<String>) -> Seq<Seq<char>> {
    v.map_values(|s: String| s@)
}

/// One `PASS name` line per passing test; a `FAIL name` line per failing
/// test, followed by one indented line per failed expectation.
fn format_test_results(results: &Vec<TestResult>) -> (r: Vec<String>)
    ensures
        texts_of(r@) == results_lines(results@),
{
    let mut lines: Vec<String> = Vec::new();
    let mut i: usize = 0;
    while i < results.len()
        invariant
            i <= results@.len(),
            texts_of(lines@) == results_lines(results@.subrange(0, i as int)),
        decreases results@.len() - i,
    {
        let result = &results[i];
        let ghost before = texts_of(lines@);
        proof {
            assert(results@.subrange(0, i + 1).drop_last() =~= results@.subrange(0, i as int));
            assert(results@.subrange(0, i + 1).last() == results@[i as int]);
        }
        if result.passed {
            let line = concat("PASS ", result.name.as_str());
            proof {
                assert(texts_of(lines@.push(line)) =~= texts_of(lines@).push(line@));
            }
            lines.push(line);
        } else {
            let line = concat("FAIL ", result.name.as_str());
            proof {
                assert(texts_of(lines@.push(line)) =~= texts_of(lines@).push(line@));
            }
            lines.push(line);
            let mut k: usize = 0;
            while k < result.failures.len()
                invariant
                    k <= result.failures@.len(),
                    texts_of(lines@) == before + seq!["FAIL "@ + result.name@] + failure_lines(
                        result.failures@.subrange(0, k as int),
                    ),
                decreases result.failures@.len() - k,
            {
                let failure = &result.failures[k];
                let mut line = concat("  ", failure.span.render().as_str());
                line.append(" ");
                line.append(failure.message.as_str());
                proof {
                    assert(texts_of(lines@.push(line)) =~= texts_of(lines@).push(line@));
                    assert(failure_lines(result.failures@.subrange(0, k + 1)) =~= failure_lines(
                        result.failures@.subrange(0, k as int),
                    ).push(line@));
                }
                lines.push(line);
                k = k + 1;
            }
            proof {
                assert(result.failures@.subrange(0, k as int) =~= result.failures@);
            }
        }
        i = i + 1;
    }
    proof {
        assert(results@.subrange(0, i as int) =~= results@);
    }
    lines
}

/// `line` without the line break characters at its end.
pub open spec fn strip_line_break(s: Seq<char>) -> Seq<char>
    decreases s.len(),
{
    if s.len() > 0 && (s.last() == '\n' || s.last() == '\r') {
        strip_line_break(s.drop_last())
    } else {
        s
    }
}

fn strip_line_break_text(s: &str) -> (r: String)
    ensures
        r@ == strip_line_break(s@),
{
    let chars = chars_of(s);
    let mut end: usize = chars.len();
    proof {
        assert(chars@.subrange(0, end as int) =~= s@);
    }
    while end > 0 && (chars[end - 1] == '\n' || chars[end - 1] == '\r')
        invariant
            end <= chars@.len(),
            chars@ == s@,
            strip_line_break(chars@.subrange(0, end as int)) == strip_line_break(s@),
        decreases end,
    {
        proof {
            assert(chars@.subrange(0, end as int).drop_last() =~= chars@.subrange(0, end - 1));
        }
        end = end - 1;
    }
    proof {
        let kept = chars@.subrange(0, end as int);
        if end > 0 {
            assert(kept.last() == chars@[end - 1]);
        }
    }
    text_of_range(&chars, 0, end)
}

/// The interactive loop between two lines of input: the session and the
/// lines of the block being typed.
pub struct ReplDriver {
    session: ReplSession,
    pending: Vec<String>,
}

impl ReplDriver {
    /// The lines of the block being typed.
    pub closed spec fn pending_spec(&self) -> Seq<Seq<char>> {
        line_views(self.pending@)
    }

    /// The session behind the loop.
    pub closed spec fn session_spec(&self) -> ReplSession {
        self.session
    }

    /// A loop on an empty session, with no block being typed.
    pub fn new() -> (r: Self)
        ensures
            r.pending_spec() == Seq::<Seq<char>>::empty(),
            r.session_spec().source_spec() == Seq::<char>::empty(),
            r.session_spec().path_spec() == spec_repl_path(),
    {
        let d = ReplDriver { session: ReplSession::new(), pending: Vec::new() };
        proof {
            assert(line_views(d.pending@) =~= Seq::<Seq<char>>::empty());
        }
        d
    }

    /// A loop on an empty session that runs its source in `mode`, with no
    /// block being typed.
    pub fn with_mode(mode: ExecutionMode) -> (r: Self)
        ensures
            r.pending_spec() == Seq::<Seq<char>>::empty(),
            r.session_spec().source_spec() == Seq::<char>::empty(),
            r.session_spec().path_spec() == spec_repl_path(),
            r.session_spec().mode_spec() == mode,
    {
        let d = ReplDriver { session: ReplSession::with_mode(mode), pending: Vec::new() };
        proof {
            assert(line_views(d.pending@) =~= Seq::<Seq<char>>::empty());
        }
        d
    }

    /// The prompt before the next line: `> ` between blocks, `| ` inside one.
    pub fn prompt(&self) -> (r: &'static str)
        ensures
            r@ == (if self.pending_spec().len() == 0 { "> "@ } else { "| "@ }),
    {
        if self.pending.len() == 0 {
            "> "
        } else {
            "| "
        }
    }

    /// Takes one line of input and appends what it prints to `output`. A
    /// line starting with `:` between blocks is a command; an empty line
    /// submits the block being typed; any other line joins that block. The
    /// result is `false` once a command asked to quit; a failed command ends
    /// the loop with its diagnostics.
    pub fn feed(&mut self, line: &str, output: &mut String) -> (r: Result<bool, Vec<Diagnostic>>)
        ensures
            extends(final(output)@, old(output)@),
            old(self).pending_spec().len() == 0 && strip_line_break(line@).len() > 0
                && strip_line_break(line@)[0] == ':' ==> final(self).pending_spec().len() == 0,
            !(old(self).pending_spec().len() == 0 && strip_line_break(line@).len() > 0
                && strip_line_break(line@)[0] == ':') ==> r == Ok::<bool, Vec<Diagnostic>>(true),
            strip_line_break(line@).len() == 0 ==> final(self).pending_spec().len() == 0,
            strip_line_break(line@).len() == 0 && old(self).pending_spec().len() == 0
                ==> final(output)@ == old(output)@ && final(self).session_spec() == old(self).session_spec(),
            strip_line_break(line@).len() > 0 && (old(self).pending_spec().len() > 0 || strip_line_break(line@)[0] != ':')
                ==> final(self).pending_spec() == old(self).pending_spec().push(strip_line_break(line@))
                && final(output)@ == old(output)@ && final(self).session_spec() == old(self).session_spec(),
    {
        proof {
            assert(old(output)@.subrange(0, old(output)@.len() as int) =~= old(output)@);
        }
        let trimmed = strip_line_break_text(line);
        let tc = chars_of(trimmed.as_str());
        if self.pending.len() == 0 && tc.len() > 0 && tc[0] == ':' {
            match self.session.handle_command(trimmed.as_str())? {
                ReplCommand::Continue(lines) => {
                    write_lines(&lines, output);
                    return Ok(true);
                },
                ReplCommand::Quit(lines) => {
                    write_lines(&lines, output);
                    return Ok(false);
                },
            }
        }
        if tc.len() == 0 {
            if self.pending.len() == 0 {
                proof {
                    assert(output@.subrange(0, output@.len() as int) =~= output@);
                }
                return Ok(true);
            }
            let block = crate::text::join(&self.pending, "\n");
            match self.session.submit_block(block.as_str()) {
                Ok(message) => {
                    let mut lines: Vec<String> = Vec::new();
                    lines.push(message);
                    write_lines(&lines, output);
                },
                Err(diagnostics) => {
                    let mut lines: Vec<String> = Vec::new();
                    let mut i: usize = 0;
                    while i < diagnostics.len()
                        invariant
                            i <= diagnostics@.len(),
                        decreases diagnostics@.len() - i,
                    {
                        lines.push(diagnostics[i].render());
                        i = i + 1;
                    }
                    write_lines(&lines, output);
                },
            }
            self.pending = Vec::new();
            proof {
                assert(line_views(self.pending@) =~= Seq::<Seq<char>>::empty());
            }
            return Ok(true);
        }
        self.pending.push(trimmed);
        proof {
            assert(output@.subrange(0, output@.len() as int) =~= output@);
            assert(line_views(self.pending@) =~= line_views(old(self).pending@).push(strip_line_break(line@)));
        }
        Ok(true)
    }
}

/// `new` is `old` followed by more text.
pub open spec fn extends(new: Seq<char>, old: Seq<char>) -> bool {
    new.len() >= old.len() && new.subrange(0, old.len() as int) == old
}

proof fn lemma_extends_trans(a: Seq<char>, b: Seq<char>, c: Seq<char>)
    requires
        extends(b, a),
        extends(c, b),
    ensures
        extends(c, a),
{
    assert(c.subrange(0, a.len() as int) =~= b.subrange(0, a.len() as int));
}

/// Appends `piece` to `output`, which only grows.
fn append_text(output: &mut String, piece: &str)
    ensures
        final(output)@ == old(output)@ + piece@,
        extends(final(output)@, old(output)@),
{
    output.append(piece);
    proof {
        assert(output@.subrange(0, old(output)@.len() as int) =~= old(output)@);
    }
}

/// Appends each line, with a line break, to `output`.
fn write_lines(lines: &Vec<String>, output: &mut String)
    ensures
        extends(final(output)@, old(output)@),
{
    let ghost start = output@;
    let mut i: usize = 0;
    proof {
        assert(output@.subrange(0, start.len() as int) =~= start);
    }
    while i < lines.len()
        invariant
            i <= lines@.len(),
            extends(output@, start),
        decreases lines@.len() - i,
    {
        let ghost a = output@;
        append_text(output, lines[i].as_str());
        let ghost b = output@;
        append_text(output, "\n");
        proof {
            lemma_extends_trans(a, b, output@);
            lemma_extends_trans(start, a, output@);
        }
        i = i + 1;
    }
}

/// The greeting printed when the loop starts.
pub open spec fn banner_spec() -> Seq<char> {
    "vulgata repl\ntype :help for commands\n"@
}

/// Runs the interactive loop over `input`, line by line, writing the
/// greeting, the prompts and the answers to `output`. The loop ends at the
/// end of the input, on `:quit`, or with the diagnostics of a failed command.
pub fn run_repl(input: &str, output: &mut String) -> (r: Result<(), Vec<Diagnostic>>)
    ensures
        extends(final(output)@, old(output)@ + banner_spec()),
{
    append_text(output, "vulgata repl\ntype :help for commands\n");
    let ghost start = output@;
    proof {
        assert(output@.subrange(0, start.len() as int) =~= start);
    }
    let chars = chars_of(input);
    let mut driver = ReplDriver::new();
    let mut pos: usize = 0;
    while pos <= chars.len()
        invariant
            pos <= chars@.len() + 1,
            start == old(output)@ + banner_spec(),
            extends(output@, start),
        decreases chars@.len() + 1 - pos,
    {
        let ghost before = output@;
        append_text(output, driver.prompt());
        proof {
            lemma_extends_trans(start, before, output@);
        }
        if pos == chars.len() {
            break;
        }
        let mut end: usize = pos;
        while end < chars.len() && chars[end] != '\n'
            invariant
                pos <= end <= chars@.len(),
            decreases chars@.len() - end,
        {
            end = end + 1;
        }
        let next = if end < chars.len() { end + 1 } else { end };
        let line = text_of_range(&chars, pos, next);
        let ghost mid = output@;
        let fed = driver.feed(line.as_str(), output);
        proof {
            lemma_extends_trans(start, mid, output@);
        }
        let go_on = fed?;
        if !go_on {
            break;
        }
        pos = next;
    }
    Ok(())
}

} // verus!
