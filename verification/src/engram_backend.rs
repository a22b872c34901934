//! The shell as a tool for agent loops: a command goes through the ACL,
//! then the builtins, then runs as a program; every outcome comes back as a
//! structured record. Running the program, timing it, and carrying out a
//! builtin's host request are the caller's part: `OmniShellTool::execute`
//! says which step comes next.

use vstd::prelude::*;
use vstd::utf8::{decode_utf8, encode_utf8, is_char_boundary};
use vstd::string::StringSliceAdditionalSpecFns;
use crate::acl::{acl_verdict, default_engine, AclEngine, Verdict};
use crate::builtins::{builtin_answer, builtin_of, dispatch, host_view, result_view, BuiltinResult, HostRequest, ResultView};
use crate::output::byte_count;
use crate::profile::{mode_name, Mode};
use crate::text::{concat2, nat_digits, u64_to_string, views};
use crate::words::{shlex_split, shlex_words, split_ws, split_ws_spec};

verus! {

broadcast use vstd::string::group_string_axioms;

/// A request to run a command.
#[derive(Debug, Clone)]
pub struct ShellToolInput {
    /// The command.
    pub command: String,
    /// Working directory (the current one when unset).
    pub working_dir: Option<String>,
    /// Timeout in seconds (0 = none).
    pub timeout: u64,
    /// Whether standard error is captured separately.
    pub capture_stderr: bool,
}

/// The outcome of a command.
#[derive(Debug, Clone)]
pub struct ShellToolOutput {
    /// Whether the ACL allowed the command.
    pub allowed: bool,
    /// The command.
    pub command: String,
    pub stdout: String,
    pub stderr: String,
    /// Exit code; none when the ACL blocked the command or the program
    /// ended without one.
    pub exit_code: Option<i32>,
    pub duration_ms: u64,
    /// Why the ACL blocked the command.
    pub denial_reason: Option<String>,
    /// The mode's name.
    pub mode: String,
}

/// The value of a tool outcome.
pub struct OutputView {
    pub allowed: bool,
    pub command: Seq<char>,
    pub stdout: Seq<char>,
    pub stderr: Seq<char>,
    pub exit_code: Option<i32>,
    pub duration_ms: u64,
    pub denial_reason: Option<Seq<char>>,
    pub mode: Seq<char>,
}

impl View for ShellToolOutput {
    type V = OutputView;

    open spec fn view(&self) -> OutputView {
        OutputView {
            allowed: self.allowed,
            command: self.command@,
            stdout: self.stdout@,
            stderr: self.stderr@,
            exit_code: self.exit_code,
            duration_ms: self.duration_ms,
            denial_reason: match self.denial_reason {
                Some(d) => Some(d@),
                None => None,
            },
            mode: self.mode@,
        }
    }
}

/// What happens next with a tool request.
#[derive(Debug)]
pub enum ToolStep {
    /// The outcome is known.
    Done(ShellToolOutput),
    /// A builtin needs the host: carry out the request and hand its result
    /// to `OmniShellTool::builtin_output`.
    Host(HostRequest),
    /// Run the program with the arguments and hand what happened to
    /// `OmniShellTool::spawn_output`.
    Spawn { program: String, args: Vec<String> },
}

/// The standard output and exit code reported for a builtin's answer.
pub open spec fn builtin_report(v: ResultView) -> (Seq<char>, i32) {
    match v {
        ResultView::Success(m) => (m, 0i32),
        ResultView::Error(m) => (m, 1i32),
        ResultView::SwitchMode(m) => ("Switched to "@ + mode_name(m) + " mode"@, 0i32),
        ResultView::Exit => ("Shell exit requested"@, 0i32),
        ResultView::Host(_) => (Seq::empty(), 0i32),
    }
}

/// The largest output kept whole, in bytes.
pub open spec fn max_output() -> nat {
    50_000
}

/// An output as reported: whole up to the limit; beyond it, its first
/// 50 000 bytes and a note of its full size.
pub open spec fn truncated(s: Seq<char>) -> Seq<char> {
    if byte_count(s) > max_output() {
        decode_utf8(encode_utf8(s).subrange(0, 50_000)) + "...\n[truncated, "@ + nat_digits(byte_count(s))
            + " total bytes]"@
    } else {
        s
    }
}

/// Whether an output can be cut where the limit falls.
pub open spec fn cuttable(s: Seq<char>) -> bool {
    byte_count(s) > max_output() ==> is_char_boundary(encode_utf8(s), 50_000)
}

fn truncate_output(s: String) -> (r: String)
    requires
        cuttable(s@),
    ensures
        r@ == truncated(s@),
{
    let n = s.as_str().len();
    if n > 50_000 {
        let (head, _rest) = s.as_str().split_at(50_000);
        proof {
            vstd::utf8::encode_utf8_decode_utf8(head@);
            assert(head.spec_bytes() =~= encode_utf8(s@).subrange(0, 50_000));
        }
        let mut out = String::from_str(head);
        out.append("...\n[truncated, ");
        out.append(u64_to_string(n as u64).as_str());
        out.append(" total bytes]");
        out
    } else {
        s
    }
}

/// The words a program is run with: the shell-quoted words of the command,
/// or its white-space separated words when the quoting is broken.
pub open spec fn program_words(command: Seq<char>) -> Seq<Seq<char>> {
    match shlex_words(command) {
        Some(w) => w,
        None => split_ws_spec(command),
    }
}

/// The shell tool for one mode.
pub struct OmniShellTool {
    mode: Mode,
}

impl OmniShellTool {
    /// The mode the tool runs commands in.
    pub closed spec fn mode(&self) -> Mode {
        self.mode
    }

    /// A tool for a mode.
    pub fn new(mode: Mode) -> (r: Self)
        ensures
            r.mode() == mode,
    {
        OmniShellTool { mode }
    }

    /// The tool's name: `omnishell`.
    pub fn name(&self) -> (r: &'static str)
        ensures
            r@ == "omnishell"@,
    {
        "omnishell"
    }

    /// The tool's description.
    pub fn description(&self) -> (r: &'static str)
        ensures
            r@ == "Execute shell commands through OmniShell with ACL enforcement, audit logging, and structured JSON output"@,
    {
        "Execute shell commands through OmniShell with ACL enforcement, audit logging, and structured JSON output"
    }

    /// The JSON schema of the tool's input, as JSON text: an object with a
    /// required string `command`, an optional string `working_dir`, an
    /// integer `timeout` (default 0) and a boolean `capture_stderr`
    /// (default true).
    pub fn input_schema(&self) -> (r: &'static str)
        ensures
            r@ == "{\"type\":\"object\",\"properties\":{\"command\":{\"type\":\"string\",\"description\":\"The shell command to execute\"},\"working_dir\":{\"type\":\"string\",\"description\":\"Working directory (defaults to CWD)\"},\"timeout\":{\"type\":\"integer\",\"description\":\"Timeout in seconds (0 = no timeout)\",\"default\":0},\"capture_stderr\":{\"type\":\"boolean\",\"description\":\"Whether to capture stderr separately\",\"default\":true}},\"required\":[\"command\"]}"@,
    {
        "{\"type\":\"object\",\"properties\":{\"command\":{\"type\":\"string\",\"description\":\"The shell command to execute\"},\"working_dir\":{\"type\":\"string\",\"description\":\"Working directory (defaults to CWD)\"},\"timeout\":{\"type\":\"integer\",\"description\":\"Timeout in seconds (0 = no timeout)\",\"default\":0},\"capture_stderr\":{\"type\":\"boolean\",\"description\":\"Whether to capture stderr separately\",\"default\":true}},\"required\":[\"command\"]}"
    }

    fn mode_string(&self) -> (r: String)
        ensures
            r@ == mode_name(self.mode),
    {
        String::from_str(self.mode.as_str())
    }

    /// The outcome of a builtin that ran: its output with exit code 0, its
    /// error with exit code 1, a note of the mode switch, or of the exit
    /// request. A host request must have been carried out before.
    pub fn builtin_output(&self, command: &str, result: BuiltinResult, duration_ms: u64) -> (r: ShellToolOutput)
        requires
            !(result is Host),
        ensures
            r@.allowed,
            r@.command == command@,
            r@.stderr == Seq::<char>::empty(),
            r@.denial_reason is None,
            r@.duration_ms == duration_ms,
            r@.mode == mode_name(self.mode()),
            r@.stdout == builtin_report(result_view(result)).0,
            r@.exit_code == Some(builtin_report(result_view(result)).1),
    {
        let (stdout, exit_code) = match result {
            BuiltinResult::Success(msg) => (msg, 0i32),
            BuiltinResult::Error(msg) => (msg, 1i32),
            BuiltinResult::SwitchMode(m) => {
                let a = concat2("Switched to ", m.as_str());
                (concat2(a.as_str(), " mode"), 0i32)
            },
            BuiltinResult::Exit => (String::from_str("Shell exit requested"), 0i32),
            BuiltinResult::Host(_) => (String::new(), 0i32),
        };
        ShellToolOutput {
            allowed: true,
            command: String::from_str(command),
            stdout,
            stderr: String::new(),
            exit_code: Some(exit_code),
            duration_ms,
            denial_reason: None,
            mode: self.mode_string(),
        }
    }

    /// The outcome of a program run: its outputs (each cut at 50 000 bytes)
    /// and exit code, or, when it could not be started, the error with exit
    /// code 126.
    pub fn spawn_output(&self, command: &str, outcome: Result<(String, String, Option<i32>), String>, duration_ms: u64) -> (r: ShellToolOutput)
        requires
            outcome matches Ok(o) ==> cuttable(o.0@) && cuttable(o.1@),
        ensures
            r@.allowed,
            r@.command == command@,
            r@.denial_reason is None,
            r@.duration_ms == duration_ms,
            r@.mode == mode_name(self.mode()),
            match outcome {
                Ok(o) => r@.stdout == truncated(o.0@) && r@.stderr == truncated(o.1@) && r@.exit_code == o.2,
                Err(e) => r@.stdout.len() == 0 && r@.stderr == "Execution error: "@ + e@ && r@.exit_code == Some(126i32),
            },
    {
        let (stdout, stderr, exit_code) = match outcome {
            Ok((out, err, code)) => (truncate_output(out), truncate_output(err), code),
            Err(e) => (String::new(), concat2("Execution error: ", e.as_str()), Some(126i32)),
        };
        ShellToolOutput {
            allowed: true,
            command: String::from_str(command),
            stdout,
            stderr,
            exit_code,
            duration_ms,
            denial_reason: None,
            mode: self.mode_string(),
        }
    }

    /// The first step of running a command: a denial when the mode's ACL
    /// blocks it; a builtin's outcome (or its host request) when its first
    /// word is a builtin; a note when it has no words; otherwise the program
    /// to run with its arguments.
    pub fn execute(&self, input: &ShellToolInput, duration_ms: u64) -> (r: ToolStep)
        ensures
            acl_verdict(default_engine(self.mode()), input.command@) matches Some(reason) ==> r matches ToolStep::Done(o) && o@ == (OutputView {
                allowed: false,
                command: input.command@,
                stdout: Seq::empty(),
                stderr: Seq::empty(),
                exit_code: None,
                duration_ms,
                denial_reason: Some(reason),
                mode: mode_name(self.mode()),
            }),
            acl_verdict(default_engine(self.mode()), input.command@) is None && split_ws_spec(input.command@).len() > 0
                && builtin_of(split_ws_spec(input.command@)[0]) is Some ==> {
                let words = split_ws_spec(input.command@);
                let answer = builtin_answer(
                    builtin_of(words[0])->0,
                    words.skip(1),
                    self.mode(),
                    default_engine(self.mode()),
                    None,
                    None,
                    None,
                );
                match answer {
                    ResultView::Host(h) => r matches ToolStep::Host(x) && host_view(x) == h,
                    _ => r matches ToolStep::Done(o) && o@ == (OutputView {
                        allowed: true,
                        command: input.command@,
                        stdout: builtin_report(answer).0,
                        stderr: Seq::empty(),
                        exit_code: Some(builtin_report(answer).1),
                        duration_ms,
                        denial_reason: None,
                        mode: mode_name(self.mode()),
                    }),
                }
            },
            acl_verdict(default_engine(self.mode()), input.command@) is None && (split_ws_spec(input.command@).len() == 0
                || builtin_of(split_ws_spec(input.command@)[0]) is None) ==> {
                let w = program_words(input.command@);
                if w.len() == 0 {
                    r matches ToolStep::Done(o) && o@ == (OutputView {
                        allowed: true,
                        command: input.command@,
                        stdout: Seq::empty(),
                        stderr: "Empty command"@,
                        exit_code: Some(1i32),
                        duration_ms,
                        denial_reason: None,
                        mode: mode_name(self.mode()),
                    })
                } else {
                    r matches ToolStep::Spawn { program, args } && program@ == w[0] && views(args@) == w.skip(1)
                }
            },
    {
        let mut acl = AclEngine::new(self.mode);
        match acl.evaluate(input.command.as_str()) {
            Verdict::Deny(reason) => {
                return ToolStep::Done(ShellToolOutput {
                    allowed: false,
                    command: input.command.clone(),
                    stdout: String::new(),
                    stderr: String::new(),
                    exit_code: None,
                    duration_ms,
                    denial_reason: Some(reason),
                    mode: self.mode_string(),
                });
            },
            Verdict::Allow => {},
        }
        let tokens = split_ws(input.command.as_str());
        if tokens.len() > 0 {
            let args = crate::text::tail_strings(&tokens);
            let arg_slice = args.as_slice();
            assert(views(arg_slice@) == split_ws_spec(input.command@).skip(1));
            assert(tokens[0]@ == split_ws_spec(input.command@)[0]);
            let ghost acl0 = acl@;
            assert(acl0 == default_engine(self.mode));
            let outcome = dispatch(tokens[0].as_str(), arg_slice, self.mode, &mut acl, None, None, None);
            match outcome {
                Some(BuiltinResult::Host(h)) => {
                    return ToolStep::Host(h);
                },
                Some(result) => {
                    return ToolStep::Done(self.builtin_output(input.command.as_str(), result, duration_ms));
                },
                None => {},
            }
        }
        let words = match shlex_split(input.command.as_str()) {
            Some(w) => w,
            None => split_ws(input.command.as_str()),
        };
        if words.len() == 0 {
            return ToolStep::Done(ShellToolOutput {
                allowed: true,
                command: input.command.clone(),
                stdout: String::new(),
                stderr: String::from_str("Empty command"),
                exit_code: Some(1i32),
                duration_ms,
                denial_reason: None,
                mode: self.mode_string(),
            });
        }
        let program = words[0].clone();
        let args = crate::text::tail_strings(&words);
        ToolStep::Spawn { program, args }
    }
}

} // verus!
