//! What the shell does with one simple command once its words are expanded:
//! the ACL check, the Kids-mode `cd` boundary, the keywords (`break`,
//! `continue`, `exit`, `true`, `:`, `false`, `test`, `[`), questions to the
//! model, and the builtins. Running the command, printing and changing the
//! shell's state are the caller's part.

use vstd::prelude::*;
use crate::acl::{acl_verdict, AclEngine, Verdict};
use crate::builtins::{builtin_answer, builtin_of, dispatch, host_view, result_view, BuiltinResult, HostRequest, HostView, ResultView};
use crate::numbers::{parse_i32, parse_i32_spec};
use crate::output::{error_text, format_error};
use crate::paths::{join_path, path_has_prefix, path_join, path_parts};
use crate::profile::{mode_name, Mode};
use crate::sandbox::path_starts_with;
use crate::shell_test::bracket_args;
use crate::text::{concat2, join_strings, join_with, str_eq, views};

verus! {

broadcast use vstd::string::group_string_axioms;

/// The components of a path.
///
/// Trusted: `Path::components` yields the components that its
/// documentation describes (`path_parts`: a leading root, a leading `.`,
/// then the pieces between slashes without empty and `.` pieces), each
/// rendered by `as_os_str` (`/` for the root, `.`, `..`, or the piece).
#[verifier::external_body]
fn path_components(p: &str) -> (r: Vec<String>)
    ensures
        views(r@) == path_parts(p@),
{
    std::path::Path::new(p).components().map(|c| c.as_os_str().to_string_lossy().into_owned()).collect()
}

/// Components with `.` dropped and each `..` taking back the component
/// before it, when there is one.
pub open spec fn normalize_parts(parts: Seq<Seq<char>>) -> Seq<Seq<char>>
    decreases parts.len(),
{
    if parts.len() == 0 {
        Seq::empty()
    } else {
        let prev = normalize_parts(parts.drop_last());
        let c = parts.last();
        if c == "."@ {
            prev
        } else if c == ".."@ {
            if prev.len() > 0 { prev.drop_last() } else { prev }
        } else {
            prev.push(c)
        }
    }
}

/// A path built from components, each pushed onto the last as
/// `PathBuf::push` does.
pub open spec fn render_parts(parts: Seq<Seq<char>>) -> Seq<char>
    decreases parts.len(),
{
    if parts.len() == 0 {
        Seq::empty()
    } else {
        join_path(render_parts(parts.drop_last()), parts.last())
    }
}

/// Where `cd target` leads from `cwd`: the target itself when absolute,
/// else the target under `cwd`; with `.` and `..` resolved by text, without
/// asking the disk.
pub open spec fn cd_destination(target: Seq<char>, cwd: Seq<char>) -> Seq<char> {
    let resolved = if target.len() > 0 && target[0] == '/' { target } else { join_path(cwd, target) };
    render_parts(normalize_parts(path_parts(resolved)))
}

/// Whether Kids mode lets `cd` go to `target`: only under the home
/// directory, `/tmp` or the sandbox directory `~/.omnishell/sandbox`.
pub open spec fn cd_allowed(target: Seq<char>, cwd: Seq<char>, home: Seq<char>) -> bool {
    let dest = cd_destination(target, cwd);
    ||| path_has_prefix(dest, home)
    ||| path_has_prefix(dest, "/tmp"@)
    ||| path_has_prefix(dest, join_path(home, ".omnishell/sandbox"@))
}

/// The message of a `cd` refused in Kids mode.
pub open spec fn cd_refusal(target: Seq<char>) -> Seq<char> {
    "cd: cannot go to '"@ + target + "' — outside sandbox in Kids mode"@
}

/// The usage line of `?` and `ai` without a question.
pub open spec fn ask_usage() -> Seq<char> {
    "Usage: ? <question> or ai <question>"@
}

/// The line printed when a builtin switches the mode.
pub open spec fn switched_text(m: Mode) -> Seq<char> {
    "Switched to "@ + mode_name(m) + " mode"@
}

/// What to do with a simple command.
#[derive(Debug)]
pub enum CommandStep {
    /// Print what is set (to standard output, to standard error); the
    /// command's status is `status`.
    Done { stdout: Option<String>, stderr: Option<String>, status: i32 },
    /// Leave the innermost loop.
    Break,
    /// Go on with the next round of the innermost loop.
    Continue,
    /// Exit the shell with this status.
    Exit(i32),
    /// Run `test` on these arguments; its result is the command's status.
    Test(Vec<String>),
    /// Ask the model this question; status 0 on an answer, 1 otherwise.
    Ask(String),
    /// Switch to this mode, print the line; status 0.
    SwitchMode { mode: Mode, line: String },
    /// Carry out a builtin's request.
    Host(HostRequest),
    /// Not the shell's own: a shell builtin, a function or a program.
    Run,
}

/// The value of a step.
pub enum StepView {
    Done(Option<Seq<char>>, Option<Seq<char>>, i32),
    Break,
    Continue,
    Exit(i32),
    Test(Seq<Seq<char>>),
    Ask(Seq<char>),
    SwitchMode(Mode, Seq<char>),
    Host(HostView),
    Run,
}

pub open spec fn opt_text(o: Option<String>) -> Option<Seq<char>> {
    match o {
        Some(s) => Some(s@),
        None => None,
    }
}

pub open spec fn step_view(s: CommandStep) -> StepView {
    match s {
        CommandStep::Done { stdout, stderr, status } => StepView::Done(opt_text(stdout), opt_text(stderr), status),
        CommandStep::Break => StepView::Break,
        CommandStep::Continue => StepView::Continue,
        CommandStep::Exit(c) => StepView::Exit(c),
        CommandStep::Test(a) => StepView::Test(views(a@)),
        CommandStep::Ask(q) => StepView::Ask(q@),
        CommandStep::SwitchMode { mode, line } => StepView::SwitchMode(mode, line@),
        CommandStep::Host(h) => StepView::Host(host_view(h)),
        CommandStep::Run => StepView::Run,
    }
}

/// How a builtin's answer ends a simple command: output and status 0; the
/// error for the mode and status 1; a mode switch; exit with 0; a request.
pub open spec fn builtin_step(v: ResultView, mode: Mode) -> StepView {
    match v {
        ResultView::Success(m) => StepView::Done(Some(m), None, 0),
        ResultView::Error(m) => StepView::Done(None, Some(error_text(m, mode)), 1),
        ResultView::SwitchMode(m) => StepView::SwitchMode(m, switched_text(m)),
        ResultView::Exit => StepView::Exit(0),
        ResultView::Host(h) => StepView::Host(h),
    }
}

/// The status `exit` asks for: its first argument read as an `i32`, or 0.
pub open spec fn exit_status(args: Seq<Seq<char>>) -> i32 {
    if args.len() > 0 && parse_i32_spec(args[0]) is Some {
        parse_i32_spec(args[0])->0 as i32
    } else {
        0
    }
}

/// What the shell does with the expanded words `words` of a simple command
/// in `mode`, with the session's ACL engine, in `cwd`, for the home
/// directory `home`.
pub open spec fn command_step(words: Seq<Seq<char>>, mode: Mode, acl: crate::acl::EngineModel, cwd: Seq<char>, home: Seq<char>) -> StepView {
    if words.len() == 0 {
        StepView::Done(None, None, 0)
    } else if acl_verdict(acl, join_with(words, " "@)) is Some {
        StepView::Done(None, Some(error_text(acl_verdict(acl, join_with(words, " "@))->0, mode)), 126)
    } else {
        let name = words[0];
        let rest = words.skip(1);
        if name == "cd"@ && mode == Mode::Kids && rest.len() > 0 && !cd_allowed(rest[0], cwd, home) {
            StepView::Done(None, Some(cd_refusal(rest[0])), 1)
        } else if name == "break"@ {
            StepView::Break
        } else if name == "continue"@ {
            StepView::Continue
        } else if name == "exit"@ {
            StepView::Exit(exit_status(rest))
        } else if name == "true"@ || name == ":"@ {
            StepView::Done(None, None, 0)
        } else if name == "false"@ {
            StepView::Done(None, None, 1)
        } else if name == "test"@ {
            StepView::Test(rest)
        } else if name == "["@ {
            StepView::Test(bracket_args(rest))
        } else if name == "?"@ || name == "ai"@ {
            if join_with(rest, " "@).len() == 0 {
                StepView::Done(None, Some(ask_usage()), 1)
            } else {
                StepView::Ask(join_with(rest, " "@))
            }
        } else if builtin_of(name) is Some {
            builtin_step(builtin_answer(builtin_of(name)->0, rest, mode, acl, None, None, None), mode)
        } else {
            StepView::Run
        }
    }
}

fn normalized_components(parts: &Vec<String>) -> (r: Vec<String>)
    ensures
        views(r@) == normalize_parts(views(parts@)),
{
    let mut r: Vec<String> = Vec::new();
    let mut i: usize = 0;
    proof {
        reveal_strlit(".");
        reveal_strlit("..");
        assert(views(parts@).take(0) =~= Seq::<Seq<char>>::empty());
    }
    while i < parts.len()
        invariant
            i <= parts.len(),
            views(r@) == normalize_parts(views(parts@).take(i as int)),
        decreases parts.len() - i,
    {
        let ghost before = views(r@);
        let c = &parts[i];
        proof {
            assert(views(parts@).take(i + 1).drop_last() =~= views(parts@).take(i as int));
            assert(views(parts@).take(i + 1).last() == c@);
        }
        if str_eq(c.as_str(), ".") {
        } else if str_eq(c.as_str(), "..") {
            if r.len() > 0 {
                r.pop();
                proof {
                    assert(views(r@) =~= before.drop_last());
                }
            }
        } else {
            r.push(c.clone());
            proof {
                assert(views(r@) =~= before.push(c@));
            }
        }
        i += 1;
    }
    assert(views(parts@).take(parts.len() as int) =~= views(parts@));
    r
}

fn rendered(parts: &Vec<String>) -> (r: String)
    ensures
        r@ == render_parts(views(parts@)),
{
    let mut r = String::new();
    let mut i: usize = 0;
    proof {
        assert(views(parts@).take(0) =~= Seq::<Seq<char>>::empty());
    }
    while i < parts.len()
        invariant
            i <= parts.len(),
            r@ == render_parts(views(parts@).take(i as int)),
        decreases parts.len() - i,
    {
        proof {
            assert(views(parts@).take(i + 1).drop_last() =~= views(parts@).take(i as int));
        }
        r = path_join(r.as_str(), parts[i].as_str());
        i += 1;
    }
    assert(views(parts@).take(parts.len() as int) =~= views(parts@));
    r
}

/// Where `cd target` leads from `cwd`, resolved by text.
pub fn cd_destination_of(target: &str, cwd: &str) -> (r: String)
    ensures
        r@ == cd_destination(target@, cwd@),
{
    let resolved = if target.unicode_len() > 0 && target.get_char(0) == '/' {
        String::from_str(target)
    } else {
        path_join(cwd, target)
    };
    let parts = path_components(resolved.as_str());
    let norm = normalized_components(&parts);
    rendered(&norm)
}

/// Whether Kids mode lets `cd` go to `target` from `cwd`.
pub fn cd_target_allowed(target: &str, cwd: &str, home: &str) -> (r: bool)
    ensures
        r == cd_allowed(target@, cwd@, home@),
{
    let dest = cd_destination_of(target, cwd);
    let sandbox = path_join(home, ".omnishell/sandbox");
    path_starts_with(dest.as_str(), home) || path_starts_with(dest.as_str(), "/tmp") || path_starts_with(
        dest.as_str(),
        sandbox.as_str(),
    )
}

fn tail_of(words: &Vec<String>) -> (r: Vec<String>)
    requires
        words.len() > 0,
    ensures
        views(r@) == views(words@).skip(1),
{
    let mut r: Vec<String> = Vec::new();
    let mut i: usize = 1;
    while i < words.len()
        invariant
            1 <= i <= words.len(),
            views(r@) == views(words@).subrange(1, i as int),
        decreases words.len() - i,
    {
        let ghost before = views(r@);
        r.push(words[i].clone());
        proof {
            assert(views(r@) =~= before.push(words@[i as int]@));
            assert(views(words@).subrange(1, i + 1) =~= views(words@).subrange(1, i as int).push(words@[i as int]@));
        }
        i += 1;
    }
    assert(views(words@).subrange(1, words.len() as int) =~= views(words@).skip(1));
    r
}

fn without_closing_bracket(args: Vec<String>) -> (r: Vec<String>)
    ensures
        views(r@) == bracket_args(views(args@)),
{
    let mut args = args;
    let n = args.len();
    proof {
        reveal_strlit("]");
    }
    if n > 0 && str_eq(args[n - 1].as_str(), "]") {
        let ghost before = views(args@);
        args.pop();
        proof {
            assert(views(args@) =~= before.drop_last());
        }
    }
    args
}

/// What the shell does with the expanded words of a simple command: see
/// `command_step`. A builtin runs on a copy of the session's ACL engine,
/// without the snapshot history, the undo stack or a model's reply.
pub fn next_command_step(words: &Vec<String>, mode: Mode, acl: &AclEngine, cwd: &str, home: &str) -> (r: CommandStep)
    ensures
        step_view(r) == command_step(views(words@), mode, acl@, cwd@, home@),
{
    if words.len() == 0 {
        return CommandStep::Done { stdout: None, stderr: None, status: 0 };
    }
    let line = join_strings(words, 0, " ");
    proof {
        assert(words@.subrange(0, words@.len() as int) =~= words@);
    }
    match acl.evaluate(line.as_str()) {
        Verdict::Deny(reason) => {
            return CommandStep::Done { stdout: None, stderr: Some(format_error(reason.as_str(), mode)), status: 126 };
        },
        Verdict::Allow => {},
    }
    let name = words[0].as_str();
    let rest = tail_of(words);
    proof {
        reveal_strlit("cd");
        reveal_strlit("break");
        reveal_strlit("continue");
        reveal_strlit("exit");
        reveal_strlit("true");
        reveal_strlit(":");
        reveal_strlit("false");
        reveal_strlit("test");
        reveal_strlit("[");
        reveal_strlit("?");
        reveal_strlit("ai");
    }
    if str_eq(name, "cd") && mode == Mode::Kids && rest.len() > 0 && !cd_target_allowed(rest[0].as_str(), cwd, home) {
        let a = concat2("cd: cannot go to '", rest[0].as_str());
        return CommandStep::Done { stdout: None, stderr: Some(concat2(a.as_str(), "' — outside sandbox in Kids mode")), status: 1 };
    }
    if str_eq(name, "break") {
        CommandStep::Break
    } else if str_eq(name, "continue") {
        CommandStep::Continue
    } else if str_eq(name, "exit") {
        let code = if rest.len() > 0 {
            match parse_i32(rest[0].as_str()) {
                Some(c) => c,
                None => 0,
            }
        } else {
            0
        };
        CommandStep::Exit(code)
    } else if str_eq(name, "true") || str_eq(name, ":") {
        CommandStep::Done { stdout: None, stderr: None, status: 0 }
    } else if str_eq(name, "false") {
        CommandStep::Done { stdout: None, stderr: None, status: 1 }
    } else if str_eq(name, "test") {
        CommandStep::Test(rest)
    } else if str_eq(name, "[") {
        CommandStep::Test(without_closing_bracket(rest))
    } else if str_eq(name, "?") || str_eq(name, "ai") {
        let question = join_strings(&rest, 0, " ");
        proof {
            assert(rest@.subrange(0, rest@.len() as int) =~= rest@);
        }
        if question.unicode_len() == 0 {
            CommandStep::Done { stdout: None, stderr: Some(String::from_str("Usage: ? <question> or ai <question>")), status: 1 }
        } else {
            CommandStep::Ask(question)
        }
    } else {
        let mut engine = acl.duplicate();
        match dispatch(name, rest.as_slice(), mode, &mut engine, None, None, None) {
            Some(result) => match result {
                BuiltinResult::Success(m) => CommandStep::Done { stdout: Some(m), stderr: None, status: 0 },
                BuiltinResult::Error(m) => CommandStep::Done {
                    stdout: None,
                    stderr: Some(format_error(m.as_str(), mode)),
                    status: 1,
                },
                BuiltinResult::SwitchMode(m) => {
                    let a = concat2("Switched to ", m.as_str());
                    CommandStep::SwitchMode { mode: m, line: concat2(a.as_str(), " mode") }
                },
                BuiltinResult::Exit => CommandStep::Exit(0),
                BuiltinResult::Host(h) => CommandStep::Host(h),
            },
            None => CommandStep::Run,
        }
    }
}


/// The denial of a pipeline stage's expanded words by the session's ACL, as
/// the error printed for the mode; `None` when the stage may run (or has no
/// words).
pub open spec fn stage_denial(words: Seq<Seq<char>>, mode: Mode, acl: crate::acl::EngineModel) -> Option<Seq<char>> {
    if words.len() == 0 {
        None
    } else {
        match acl_verdict(acl, join_with(words, " "@)) {
            Some(reason) => Some(error_text(reason, mode)),
            None => None,
        }
    }
}

/// The error for a pipeline stage that the ACL denies, if it does.
pub fn pipeline_stage_denial(words: &Vec<String>, mode: Mode, acl: &AclEngine) -> (r: Option<String>)
    ensures
        opt_text(r) == stage_denial(views(words@), mode, acl@),
{
    if words.len() == 0 {
        return None;
    }
    let line = join_strings(words, 0, " ");
    proof {
        assert(words@.subrange(0, words@.len() as int) =~= words@);
    }
    match acl.evaluate(line.as_str()) {
        Verdict::Deny(reason) => Some(format_error(reason.as_str(), mode)),
        Verdict::Allow => None,
    }
}

/// The first stage, from `i`, that the ACL denies.
pub open spec fn first_denied_from(stages: Seq<Seq<Seq<char>>>, i: int, mode: Mode, acl: crate::acl::EngineModel) -> Option<int>
    decreases stages.len() - i,
{
    if i < 0 || i >= stages.len() {
        None
    } else if stage_denial(stages[i], mode, acl) is Some {
        Some(i)
    } else {
        first_denied_from(stages, i + 1, mode, acl)
    }
}

/// The position of the first stage of a pipeline (each given by its words)
/// that the ACL denies, if any; a background job runs only when none is.
pub fn first_denied_stage(stages: &Vec<Vec<String>>, mode: Mode, acl: &AclEngine) -> (r: Option<usize>)
    ensures
        match r {
            Some(k) => first_denied_from(stages@.map_values(|w: Vec<String>| views(w@)), 0, mode, acl@) == Some(k as int),
            None => first_denied_from(stages@.map_values(|w: Vec<String>| views(w@)), 0, mode, acl@) is None,
        },
{
    let ghost ws = stages@.map_values(|w: Vec<String>| views(w@));
    let mut i: usize = 0;
    while i < stages.len()
        invariant
            i <= stages.len(),
            ws == stages@.map_values(|w: Vec<String>| views(w@)),
            first_denied_from(ws, 0, mode, acl@) == first_denied_from(ws, i as int, mode, acl@),
        decreases stages.len() - i,
    {
        assert(ws[i as int] == views(stages@[i as int]@));
        if pipeline_stage_denial(&stages[i], mode, acl).is_some() {
            return Some(i);
        }
        i += 1;
    }
    None
}

} // verus!
