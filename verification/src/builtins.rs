//! The shell's built-in commands, resolved before any external command:
//! `?`/`ai`, `snapshots`, `undo`, `redo`, `allow`, `block`, `export`,
//! `source`/`.`, `alias`, `unalias`, `mode`, `help`, `exit`/`quit`.
//!
//! What a builtin does to the process environment or reads from a file is
//! returned as a host request for the caller to carry out; an answer from the
//! language model is asked for by the caller and handed in.

use vstd::prelude::*;
use crate::acl::{AclEngine, AclRule, EngineModel, RuleModel};
use crate::lexer::find_char_from;
use crate::llm_integration::LlmResponse;
use crate::picker::{parse_usize, parse_usize_spec};
use crate::profile::{mode_name, Mode};
use crate::snapshot::{SnapshotEngine, SnapshotPhase, SnapshotView};
use crate::text::{concat2, i64_to_string, int_decimal, join_strings, join_with, lowercase_of, nat_digits, seq_contains, str_contains, str_eq, strings_of, to_lowercase, u64_to_string, views};
use crate::undo::{redo_spec, stack_wf, undo_spec, UndoStack, UndoView};

verus! {

broadcast use vstd::string::group_string_axioms;

/// Environment changes and file reads a builtin asks the caller for.
#[derive(Debug, Clone)]
pub enum HostRequest {
    /// Answer with every environment variable as `NAME=value`, one per line.
    ListEnv,
    /// Set each `(name, Some(value))`; for `(name, None)` set the variable to
    /// the empty string unless it is set. Then answer with an empty success.
    Export(Vec<(String, Option<String>)>),
    /// Answer with the contents of the file, or `source: <path>: <error>`.
    Source(String),
    /// Set each `(variable, value)`; then answer with the error, if any, or
    /// with an empty success.
    SetAliases(Vec<(String, String)>, Option<String>),
    /// For each `(variable, alias name)`, in order: remove the variable if it
    /// is set, else stop and answer `unalias: <name>: not found`. Answer with
    /// an empty success when all were removed.
    Unalias(Vec<(String, String)>),
}

/// Result of a built-in command.
#[derive(Debug)]
pub enum BuiltinResult {
    /// Succeeded, with output.
    Success(String),
    /// Failed, with a message.
    Error(String),
    /// Switch to another mode.
    SwitchMode(Mode),
    /// Leave the shell.
    Exit,
    /// Carry out a request, which gives the result.
    Host(HostRequest),
}

/// The value of a host request.
pub enum HostView {
    ListEnv,
    Export(Seq<(Seq<char>, Option<Seq<char>>)>),
    Source(Seq<char>),
    SetAliases(Seq<(Seq<char>, Seq<char>)>, Option<Seq<char>>),
    Unalias(Seq<(Seq<char>, Seq<char>)>),
}

/// The value of a builtin result.
pub enum ResultView {
    Success(Seq<char>),
    Error(Seq<char>),
    SwitchMode(Mode),
    Exit,
    Host(HostView),
}

/// The characters of an optional string.
pub open spec fn opt_seq(o: Option<String>) -> Option<Seq<char>> {
    match o {
        Some(s) => Some(s@),
        None => None,
    }
}

/// The value of a host request.
pub open spec fn host_view(h: HostRequest) -> HostView {
    match h {
        HostRequest::ListEnv => HostView::ListEnv,
        HostRequest::Export(v) => HostView::Export(v@.map_values(|p: (String, Option<String>)| (p.0@, opt_seq(p.1)))),
        HostRequest::Source(p) => HostView::Source(p@),
        HostRequest::SetAliases(v, e) => HostView::SetAliases(v@.map_values(|p: (String, String)| (p.0@, p.1@)), opt_seq(e)),
        HostRequest::Unalias(v) => HostView::Unalias(v@.map_values(|p: (String, String)| (p.0@, p.1@))),
    }
}

/// The value of a builtin result.
pub open spec fn result_view(r: BuiltinResult) -> ResultView {
    match r {
        BuiltinResult::Success(s) => ResultView::Success(s@),
        BuiltinResult::Error(s) => ResultView::Error(s@),
        BuiltinResult::SwitchMode(m) => ResultView::SwitchMode(m),
        BuiltinResult::Exit => ResultView::Exit,
        BuiltinResult::Host(h) => ResultView::Host(host_view(h)),
    }
}

// ---------------------------------------------------------------------------
// ? / ai
// ---------------------------------------------------------------------------

/// The answer to `?`/`ai` with prompt `prompt`: a usage error for an empty
/// prompt; with a model answer, its reply (or its message as an error);
/// without one, a canned reply for the mode.
pub open spec fn ai_spec(prompt: Seq<char>, mode: Mode, reply: Option<LlmResponse>) -> ResultView {
    if prompt.len() == 0 {
        ResultView::Error("Usage: ? <question> or ai <question>"@)
    } else {
        match reply {
            Some(LlmResponse::Success(c)) => ResultView::Success(c@),
            Some(LlmResponse::Disabled(m)) => ResultView::Error(m@),
            Some(LlmResponse::Error(m)) => ResultView::Error(m@),
            None => ResultView::Success(match mode {
                Mode::Kids => "🤖 (Kids tutor mode) You asked: \""@ + prompt + "\". LLM not configured."@,
                Mode::Agent => "{\"type\":\"llm_request\",\"prompt\":\""@ + prompt + "\",\"mode\":\"agent\"}"@,
                Mode::Admin => "[LLM] Query: "@ + prompt + " (no client configured)"@,
            }),
        }
    }
}

/// The prompt of `?`/`ai`: the arguments joined with spaces.
pub fn ai_prompt(args: &Vec<String>) -> (r: String)
    ensures
        r@ == join_with(views(args@), " "@),
{
    let r = join_strings(args, 0, " ");
    assert(args@.subrange(0, args@.len() as int) =~= args@);
    r
}

fn cmd_ai(args: &Vec<String>, mode: Mode, reply: Option<LlmResponse>) -> (r: BuiltinResult)
    ensures
        result_view(r) == ai_spec(join_with(views(args@), " "@), mode, reply),
{
    let prompt = ai_prompt(args);
    if prompt.as_str().unicode_len() == 0 {
        return BuiltinResult::Error(String::from_str("Usage: ? <question> or ai <question>"));
    }
    match reply {
        Some(LlmResponse::Success(content)) => BuiltinResult::Success(content),
        Some(LlmResponse::Disabled(msg)) => BuiltinResult::Error(msg),
        Some(LlmResponse::Error(msg)) => BuiltinResult::Error(msg),
        None => {
            let text = match mode {
                Mode::Kids => {
                    let a = concat2("🤖 (Kids tutor mode) You asked: \"", prompt.as_str());
                    concat2(a.as_str(), "\". LLM not configured.")
                },
                Mode::Agent => {
                    let a = concat2("{\"type\":\"llm_request\",\"prompt\":\"", prompt.as_str());
                    concat2(a.as_str(), "\",\"mode\":\"agent\"}")
                },
                Mode::Admin => {
                    let a = concat2("[LLM] Query: ", prompt.as_str());
                    concat2(a.as_str(), " (no client configured)")
                },
            };
            BuiltinResult::Success(text)
        },
    }
}

// ---------------------------------------------------------------------------
// allow / block
// ---------------------------------------------------------------------------

/// The reason recorded by `allow`/`block`: the further arguments joined with
/// spaces, or `<Verb> by admin in <mode> mode`.
pub open spec fn acl_reason(args: Seq<Seq<char>>, allow: bool, engine_mode: Mode) -> Seq<char> {
    if args.len() > 1 {
        join_with(args.subrange(1, args.len() as int), " "@)
    } else {
        (if allow { "Allowed by admin in "@ } else { "Blocked by admin in "@ }) + mode_name(engine_mode) + " mode"@
    }
}

/// Whether a mode may edit the rules: `allow` only in Admin mode, `block`
/// in Admin and Agent mode.
pub open spec fn may_edit_acl(mode: Mode, allow: bool) -> bool {
    mode == Mode::Admin || (!allow && mode == Mode::Agent)
}

/// What `allow` (when `allow`) or `block` does: a usage error without
/// arguments; an error outside Admin mode; otherwise a rule for the first
/// argument, without argument constraints, added to the list.
pub open spec fn acl_edit_spec(args: Seq<Seq<char>>, mode: Mode, allow: bool, old_acl: EngineModel) -> (ResultView, EngineModel) {
    if args.len() == 0 {
        (ResultView::Error(if allow { "Usage: allow <command>"@ } else { "Usage: block <command>"@ }), old_acl)
    } else if !may_edit_acl(mode, allow) {
        (
            ResultView::Error(
                if allow {
                    "'allow' command is not available in this mode"@
                } else {
                    "'block' command is not available in this mode"@
                },
            ),
            old_acl,
        )
    } else {
        let rule = RuleModel {
            pattern: args[0],
            args: Seq::empty(),
            reason: acl_reason(args, allow, old_acl.mode),
        };
        if allow {
            (
                ResultView::Success("Added '"@ + args[0] + "' to allowlist"@),
                EngineModel { allowlist: old_acl.allowlist.push(rule), ..old_acl },
            )
        } else {
            (
                ResultView::Success("Added '"@ + args[0] + "' to blocklist"@),
                EngineModel { blocklist: old_acl.blocklist.push(rule), ..old_acl },
            )
        }
    }
}

fn cmd_acl_edit(args: &Vec<String>, acl: &mut AclEngine, mode: Mode, allow: bool) -> (r: BuiltinResult)
    ensures
        (result_view(r), final(acl)@) == acl_edit_spec(views(args@), mode, allow, old(acl)@),
{
    if args.len() == 0 {
        let msg = if allow { String::from_str("Usage: allow <command>") } else { String::from_str("Usage: block <command>") };
        return BuiltinResult::Error(msg);
    }
    if !(mode == Mode::Admin || (!allow && mode == Mode::Agent)) {
        let msg = if allow {
            String::from_str("'allow' command is not available in this mode")
        } else {
            String::from_str("'block' command is not available in this mode")
        };
        return BuiltinResult::Error(msg);
    }
    let pattern = args[0].clone();
    let reason = if args.len() > 1 {
        let r = join_strings(args, 1, " ");
        proof {
            assert(views(args@.subrange(1, args@.len() as int)) =~= views(args@).subrange(1, args@.len() as int));
        }
        r
    } else {
        let verb = if allow { "Allowed by admin in " } else { "Blocked by admin in " };
        let a = concat2(verb, acl.mode.as_str());
        concat2(a.as_str(), " mode")
    };
    let ghost rule_view = RuleModel {
        pattern: views(args@)[0],
        args: Seq::empty(),
        reason: reason@,
    };
    let rule = AclRule { pattern: pattern.clone(), args: Vec::new(), reason };
    assert(rule@.args =~= Seq::<crate::acl::ConstraintModel>::empty());
    assert(rule@ == rule_view);
    let msg = if allow {
        let a = concat2("Added '", pattern.as_str());
        concat2(a.as_str(), "' to allowlist")
    } else {
        let a = concat2("Added '", pattern.as_str());
        concat2(a.as_str(), "' to blocklist")
    };
    if allow {
        acl.allowlist.push(rule);
        assert(final(acl)@.allowlist =~= old(acl)@.allowlist.push(rule_view));
    } else {
        acl.blocklist.push(rule);
        assert(final(acl)@.blocklist =~= old(acl)@.blocklist.push(rule_view));
    }
    BuiltinResult::Success(msg)
}

// ---------------------------------------------------------------------------
// mode / help
// ---------------------------------------------------------------------------

/// The mode a `mode` argument names, ignoring case.
pub open spec fn mode_named(lower: Seq<char>) -> Option<Mode> {
    if lower == "kids"@ || lower == "child"@ {
        Some(Mode::Kids)
    } else if lower == "agent"@ || lower == "ai"@ {
        Some(Mode::Agent)
    } else if lower == "admin"@ || lower == "root"@ {
        Some(Mode::Admin)
    } else {
        None
    }
}

/// What `mode` does: shows the mode without arguments; otherwise switches to
/// the named mode, says it is already active, or rejects an unknown name.
pub open spec fn mode_spec(args: Seq<Seq<char>>, current: Mode) -> ResultView {
    if args.len() == 0 {
        ResultView::Success("Current mode: "@ + mode_name(current))
    } else {
        match mode_named(lowercase_of(args[0])) {
            None => ResultView::Error("Unknown mode: '"@ + args[0] + "'. Use: kids, agent, admin"@),
            Some(m) => if m == current {
                ResultView::Success("Already in "@ + mode_name(m) + " mode"@)
            } else {
                ResultView::SwitchMode(m)
            },
        }
    }
}

fn cmd_mode(args: &Vec<String>, current: Mode) -> (r: BuiltinResult)
    ensures
        result_view(r) == mode_spec(views(args@), current),
{
    if args.len() == 0 {
        return BuiltinResult::Success(concat2("Current mode: ", current.as_str()));
    }
    let lower = to_lowercase(args[0].as_str());
    let l = lower.as_str();
    let new_mode = if str_eq(l, "kids") || str_eq(l, "child") {
        Mode::Kids
    } else if str_eq(l, "agent") || str_eq(l, "ai") {
        Mode::Agent
    } else if str_eq(l, "admin") || str_eq(l, "root") {
        Mode::Admin
    } else {
        let a = concat2("Unknown mode: '", args[0].as_str());
        return BuiltinResult::Error(concat2(a.as_str(), "'. Use: kids, agent, admin"));
    };
    if new_mode == current {
        let a = concat2("Already in ", new_mode.as_str());
        return BuiltinResult::Success(concat2(a.as_str(), " mode"));
    }
    BuiltinResult::SwitchMode(new_mode)
}

/// The help text of a mode.
pub open spec fn help_text(mode: Mode) -> Seq<char> {
    "OmniShell Built-in Commands:\n"@
        + "  ?, ai <prompt>  — Ask the AI assistant\n"@
        + "  snapshots       — List command snapshots\n"@
        + "  undo [n]        — Undo last n commands (default: 1)\n"@
        + "  redo [n]        — Redo last n undone commands (default: 1)\n"@
        + match mode {
            Mode::Admin => "  allow <cmd>     — Add command to allowlist\n"@
                + "  block <cmd>     — Add command to blocklist\n"@
                + "  mode [mode]     — Show or switch mode (kids/agent/admin)\n"@,
            Mode::Agent => "  block <cmd>     — Add command to blocklist\n"@,
            Mode::Kids => Seq::empty(),
        }
        + "  help            — Show this help\n"@
        + "  exit, quit      — Exit the shell\n"@
}

fn cmd_help(mode: Mode) -> (r: BuiltinResult)
    ensures
        result_view(r) == ResultView::Success(help_text(mode)),
{
    let mut help = String::new();
    help.append("OmniShell Built-in Commands:\n");
    help.append("  ?, ai <prompt>  — Ask the AI assistant\n");
    help.append("  snapshots       — List command snapshots\n");
    help.append("  undo [n]        — Undo last n commands (default: 1)\n");
    help.append("  redo [n]        — Redo last n undone commands (default: 1)\n");
    let ghost head = help@;
    match mode {
        Mode::Admin => {
            help.append("  allow <cmd>     — Add command to allowlist\n");
            help.append("  block <cmd>     — Add command to blocklist\n");
            help.append("  mode [mode]     — Show or switch mode (kids/agent/admin)\n");
        },
        Mode::Agent => {
            help.append("  block <cmd>     — Add command to blocklist\n");
        },
        Mode::Kids => {},
    }
    help.append("  help            — Show this help\n");
    help.append("  exit, quit      — Exit the shell\n");
    assert(help@ =~= help_text(mode));
    BuiltinResult::Success(help)
}

// ---------------------------------------------------------------------------
// snapshots
// ---------------------------------------------------------------------------

/// The options of `snapshots`, or why they do not parse.
pub enum SnapOpts {
    Parsed { limit: Option<nat>, command: Option<Seq<char>>, phase: Option<Seq<char>> },
    Help,
    Unknown(Seq<char>),
}

/// Parses `snapshots` options from `args[i..]`: `--limit`/`-n N` (a value
/// that does not parse clears the limit), `--command`/`-c PAT`,
/// `--phase`/`-p pre|post`, `--help`/`-h`; an option missing its value is
/// ignored; anything else is unknown.
pub open spec fn snap_opts(args: Seq<Seq<char>>, i: int, limit: Option<nat>, command: Option<Seq<char>>, phase: Option<Seq<char>>) -> SnapOpts
    decreases args.len() + 1 - i,
{
    if i < 0 || i >= args.len() {
        SnapOpts::Parsed { limit, command, phase }
    } else {
        let a = args[i];
        let has_value = i + 1 < args.len();
        if a == "--limit"@ || a == "-n"@ {
            snap_opts(args, i + 2, if has_value { parse_usize_spec(args[i + 1]) } else { limit }, command, phase)
        } else if a == "--command"@ || a == "-c"@ {
            snap_opts(args, i + 2, limit, if has_value { Some(args[i + 1]) } else { command }, phase)
        } else if a == "--phase"@ || a == "-p"@ {
            snap_opts(args, i + 2, limit, command, if has_value { Some(args[i + 1]) } else { phase })
        } else if a == "--help"@ || a == "-h"@ {
            SnapOpts::Help
        } else {
            SnapOpts::Unknown(a)
        }
    }
}

/// The help text of `snapshots`.
pub open spec fn snapshots_help() -> Seq<char> {
    "Usage: snapshots [--limit N] [--command <pattern>] [--phase pre|post]\n\
                     \n\
                     Options:\n\
                       --limit, -n     Show last N snapshots\n\
                       --command, -c   Filter by command pattern\n\
                       --phase, -p     Filter by phase (pre/post)\n\
                       --help, -h      Show this help"@
}

/// The filter word of a phase.
pub open spec fn phase_word(p: SnapshotPhase) -> Seq<char> {
    match p {
        SnapshotPhase::PreExecution => "pre"@,
        SnapshotPhase::PostExecution => "post"@,
    }
}

/// The label of a phase.
pub open spec fn phase_label(p: SnapshotPhase) -> Seq<char> {
    match p {
        SnapshotPhase::PreExecution => "PRE"@,
        SnapshotPhase::PostExecution => "POST"@,
    }
}

/// Whether a snapshot passes the filters.
pub open spec fn snap_keep(s: SnapshotView, command: Option<Seq<char>>, phase: Option<Seq<char>>) -> bool {
    &&& match command {
        Some(c) => seq_contains(s.trigger_command, c),
        None => true,
    }
    &&& match phase {
        Some(p) => phase_word(s.phase) == p,
        None => true,
    }
}

/// The first seven characters of a commit id, or `(none)`.
pub open spec fn commit_label(c: Option<Seq<char>>) -> Seq<char> {
    match c {
        Some(id) => if id.len() <= 7 { id } else { id.take(7) },
        None => "(none)"@,
    }
}

/// An exit code, or `-`.
pub open spec fn exit_label(e: Option<i32>) -> Seq<char> {
    match e {
        Some(c) => int_decimal(c as int),
        None => "-"@,
    }
}

/// The listing line of a snapshot.
pub open spec fn snap_line(s: SnapshotView) -> Seq<char> {
    "  ["@ + commit_label(s.commit_id) + "] "@ + phase_label(s.phase) + " "@ + s.trigger_command + " (exit="@
        + exit_label(s.exit_code) + ")\n"@
}

/// The listing lines of snapshots, in order.
pub open spec fn snap_lines(s: Seq<SnapshotView>) -> Seq<char>
    decreases s.len(),
{
    if s.len() == 0 {
        Seq::empty()
    } else {
        snap_lines(s.drop_last()) + snap_line(s.last())
    }
}

/// The snapshots listed: newest first, filtered, at most `limit` (50 by
/// default).
pub open spec fn snaps_shown(history: Seq<SnapshotView>, limit: Option<nat>, command: Option<Seq<char>>, phase: Option<Seq<char>>) -> Seq<SnapshotView> {
    let f = crate::history::reversed(history).filter(|s: SnapshotView| snap_keep(s, command, phase));
    let n = match limit {
        Some(l) => l,
        None => 50,
    };
    f.take(if n < f.len() { n as int } else { f.len() as int })
}

/// What `snapshots` answers.
pub open spec fn snapshots_spec(args: Seq<Seq<char>>, history: Option<Seq<SnapshotView>>) -> ResultView {
    match snap_opts(args, 0, None, None, None) {
        SnapOpts::Help => ResultView::Success(snapshots_help()),
        SnapOpts::Unknown(o) => ResultView::Error("snapshots: unknown option: "@ + o),
        SnapOpts::Parsed { limit, command, phase } => match history {
            None => ResultView::Success("Snapshot history: (engine not available)"@),
            Some(h) => {
                let shown = snaps_shown(h, limit, command, phase);
                ResultView::Success(if shown.len() == 0 { "No snapshots recorded.\n"@ } else { snap_lines(shown) })
            },
        },
    }
}

fn snap_line_of(s: &crate::snapshot::Snapshot) -> (r: String)
    ensures
        r@ == snap_line(s@),
{
    let mut out = String::from_str("  [");
    match &s.commit_id {
        Some(id) => {
            let n = id.as_str().unicode_len();
            if n <= 7 {
                out.append(id.as_str());
            } else {
                let v = crate::text::chars_of(id.as_str());
                let head = crate::text::string_of_range(&v, 0, 7);
                out.append(head.as_str());
            }
        },
        None => out.append("(none)"),
    }
    out.append("] ");
    match s.phase {
        SnapshotPhase::PreExecution => out.append("PRE"),
        SnapshotPhase::PostExecution => out.append("POST"),
    }
    out.append(" ");
    out.append(s.trigger_command.as_str());
    out.append(" (exit=");
    match s.exit_code {
        Some(c) => out.append(i64_to_string(c as i64).as_str()),
        None => out.append("-"),
    }
    out.append(")\n");
    out
}

fn cmd_snapshots(args: &Vec<String>, engine: Option<&SnapshotEngine>) -> (r: BuiltinResult)
    ensures
        result_view(r) == snapshots_spec(views(args@), match engine {
            Some(e) => Some(e@.history),
            None => None,
        }),
{
    let ghost a = views(args@);
    let mut limit: Option<usize> = None;
    let mut command_filter: Option<String> = None;
    let mut phase_filter: Option<String> = None;
    let mut i: usize = 0;
    while i < args.len()
        invariant
            a == views(args@),
            snap_opts(a, 0, None, None, None) == snap_opts(a, i as int, match limit {
                Some(l) => Some(l as nat),
                None => None,
            }, opt_seq(command_filter), opt_seq(phase_filter)),
        decreases args.len() - i,
    {
        let arg = args[i].as_str();
        if str_eq(arg, "--limit") || str_eq(arg, "-n") {
            if i + 1 < args.len() {
                limit = parse_usize(args[i + 1].as_str());
            }
        } else if str_eq(arg, "--command") || str_eq(arg, "-c") {
            if i + 1 < args.len() {
                command_filter = Some(args[i + 1].clone());
            }
        } else if str_eq(arg, "--phase") || str_eq(arg, "-p") {
            if i + 1 < args.len() {
                phase_filter = Some(args[i + 1].clone());
            }
        } else if str_eq(arg, "--help") || str_eq(arg, "-h") {
            return BuiltinResult::Success(String::from_str(
                "Usage: snapshots [--limit N] [--command <pattern>] [--phase pre|post]\n\
                 \n\
                 Options:\n\
                   --limit, -n     Show last N snapshots\n\
                   --command, -c   Filter by command pattern\n\
                   --phase, -p     Filter by phase (pre/post)\n\
                   --help, -h      Show this help",
            ));
        } else {
            return BuiltinResult::Error(concat2("snapshots: unknown option: ", arg));
        }
        proof {
            let lim: Option<nat> = match limit {
                Some(l) => Some(l as nat),
                None => None,
            };
            if i + 1 >= args.len() {
                assert(snap_opts(a, i + 2, lim, opt_seq(command_filter), opt_seq(phase_filter))
                    == snap_opts(a, args.len() as int, lim, opt_seq(command_filter), opt_seq(phase_filter)));
            }
        }
        if i + 1 < args.len() {
            i += 2;
        } else {
            i = args.len();
        }
    }
    let engine = match engine {
        Some(e) => e,
        None => {
            return BuiltinResult::Success(String::from_str("Snapshot history: (engine not available)"));
        },
    };
    let history = engine.history();
    let ghost h = engine@.history;
    let ghost lim: Option<nat> = match limit {
        Some(l) => Some(l as nat),
        None => None,
    };
    let ghost cmd = opt_seq(command_filter);
    let ghost ph = opt_seq(phase_filter);
    let ghost keep = |s: SnapshotView| snap_keep(s, cmd, ph);
    let ghost rev = crate::history::reversed(h);
    let cap: usize = match limit {
        Some(l) => l,
        None => 50,
    };
    let len = history.len();
    let mut msg = String::new();
    let mut shown: usize = 0;
    let mut k: usize = 0;
    while k < len
        invariant
            len == history@.len(),
            h == crate::snapshot::snapshot_views(history@),
            rev == crate::history::reversed(h),
            keep == (|s: SnapshotView| snap_keep(s, cmd, ph)),
            cmd == opt_seq(command_filter),
            ph == opt_seq(phase_filter),
            k <= len,
            shown <= cap,
            shown as int == if cap < rev.take(k as int).filter(keep).len() { cap as int } else { rev.take(k as int).filter(keep).len() as int },
            msg@ == snap_lines(rev.take(k as int).filter(keep).take(shown as int)),
        decreases len - k,
    {
        let s = &history[len - 1 - k];
        let ghost f0 = rev.take(k as int).filter(keep);
        proof {
            assert(rev[k as int] == s@);
            assert(rev.take(k + 1) =~= rev.take(k as int).push(rev[k as int]));
            reveal(Seq::filter);
            assert(rev.take(k as int).push(rev[k as int]).drop_last() =~= rev.take(k as int));
        }
        let pass_cmd = match &command_filter {
            Some(c) => str_contains(s.trigger_command.as_str(), c.as_str()),
            None => true,
        };
        let pass_phase = match &phase_filter {
            Some(p) => {
                let w = match s.phase {
                    SnapshotPhase::PreExecution => "pre",
                    SnapshotPhase::PostExecution => "post",
                };
                str_eq(w, p.as_str())
            },
            None => true,
        };
        if pass_cmd && pass_phase {
            assert(rev.take(k + 1).filter(keep) == f0.push(s@));
            if shown < cap {
                let line = snap_line_of(s);
                let ghost before = msg@;
                msg.append(line.as_str());
                proof {
                    assert(f0.push(s@).take(shown + 1).drop_last() =~= f0.take(shown as int));
                    assert(f0.push(s@).take(shown + 1).last() == s@);
                }
                shown += 1;
            } else {
                assert(f0.push(s@).take(shown as int) =~= f0.take(shown as int));
            }
        } else {
            assert(rev.take(k + 1).filter(keep) == f0);
        }
        k += 1;
    }
    proof {
        assert(rev.take(len as int) =~= rev);
    }
    if shown == 0 {
        msg = String::from_str("No snapshots recorded.\n");
    }
    BuiltinResult::Success(msg)
}

// ---------------------------------------------------------------------------
// undo / redo
// ---------------------------------------------------------------------------

/// How many steps `undo`/`redo` take: 1 without arguments or when the first
/// does not parse as a count.
pub open spec fn step_count(args: Seq<Seq<char>>) -> nat {
    if args.len() == 0 {
        1
    } else {
        match parse_usize_spec(args[0]) {
            Some(n) => n,
            None => 1,
        }
    }
}

/// The stack after `n` undos (those past the first record change nothing).
pub open spec fn undo_n(v: UndoView, n: nat) -> UndoView
    decreases n,
{
    if n == 0 {
        v
    } else {
        let w = undo_n(v, (n - 1) as nat);
        if w.position > 0 { undo_spec(w) } else { w }
    }
}

/// The stack after up to `n` redos, and how many were counted: redoing
/// stops at the last record, and after redoing a record that has no
/// post-execution snapshot (that step is not counted).
pub open spec fn redo_loop(v: UndoView, n: nat) -> (UndoView, nat)
    decreases n,
{
    if n == 0 || v.position >= v.records.len() {
        (v, 0)
    } else {
        let w = redo_spec(v);
        if v.records[v.position as int].post_snapshot is None {
            (w, 0)
        } else {
            let rest = redo_loop(w, (n - 1) as nat);
            (rest.0, rest.1 + 1)
        }
    }
}

/// The smaller of two numbers.
pub open spec fn min_nat(a: nat, b: nat) -> nat {
    if a < b { a } else { b }
}

proof fn lemma_undo_n(v: UndoView, k: nat)
    requires
        stack_wf(v),
    ensures
        stack_wf(undo_n(v, k)),
        undo_n(v, k).records.len() == v.records.len(),
        undo_n(v, k).position == if k <= v.position { (v.position - k) as nat } else { 0 },
    decreases k,
{
    if k > 0 {
        lemma_undo_n(v, (k - 1) as nat);
        let w = undo_n(v, (k - 1) as nat);
        if w.position > 0 {
            crate::undo::law_undo_redo_counts(w);
            let u = undo_spec(w);
            assert forall|i: int| 0 <= i < u.records.len() implies (#[trigger] u.records[i]).undone == (i >= u.position) by {
                if i != u.position {
                    assert(u.records[i] == w.records[i]);
                }
            }
        }
    }
}

proof fn lemma_undo_n_stable(v: UndoView, k: nat, n: nat)
    requires
        k <= n,
        undo_n(v, k).position == 0,
    ensures
        undo_n(v, n) == undo_n(v, k),
    decreases n - k,
{
    if k < n {
        lemma_undo_n_stable(v, k, (n - 1) as nat);
    }
}

/// What `undo` answers, given the stack (if any) before it.
pub open spec fn undo_answer(args: Seq<Seq<char>>, stack: Option<UndoView>) -> ResultView {
    let count = step_count(args);
    match stack {
        None => ResultView::Success("Undoing "@ + nat_digits(count) + " command(s)... (stack not available)"@),
        Some(v) => {
            let done = min_nat(count, v.position);
            if done == 0 {
                ResultView::Error("Nothing to undo"@)
            } else {
                ResultView::Success("Undone "@ + nat_digits(done) + " command(s)"@)
            }
        },
    }
}

/// What `redo` answers, given the stack (if any) before it.
pub open spec fn redo_answer(args: Seq<Seq<char>>, stack: Option<UndoView>) -> ResultView {
    let count = step_count(args);
    match stack {
        None => ResultView::Success("Redoing "@ + nat_digits(count) + " command(s)... (stack not available)"@),
        Some(v) => {
            let done = redo_loop(v, count).1;
            if done == 0 {
                ResultView::Error("Nothing to redo"@)
            } else {
                ResultView::Success("Redone "@ + nat_digits(done) + " command(s)"@)
            }
        },
    }
}

fn count_arg(args: &Vec<String>) -> (r: usize)
    ensures
        r == step_count(views(args@)),
{
    if args.len() == 0 {
        1
    } else {
        match parse_usize(args[0].as_str()) {
            Some(n) => n,
            None => 1,
        }
    }
}

fn cmd_undo(args: &Vec<String>, undo_stack: Option<&mut UndoStack>) -> (r: BuiltinResult)
    ensures
        result_view(r) == undo_answer(views(args@), match undo_stack {
            Some(s) => Some((*s)@),
            None => None,
        }),
        match undo_stack {
            Some(s) => final(s)@ == undo_n((*s)@, step_count(views(args@))),
            None => true,
        },
{
    let count = count_arg(args);
    match undo_stack {
        Some(stack) => {
            let ghost v0 = stack@;
            let _ = stack.undo_count();
            let mut undone: usize = 0;
            while undone < count
                invariant_except_break
                    undone <= count,
                    stack_wf(v0),
                    undone <= v0.position,
                    stack@ == undo_n(v0, undone as nat),
                ensures
                    undone <= count,
                    undone <= v0.position,
                    undone == count || undone == v0.position,
                    stack@ == undo_n(v0, undone as nat),
                decreases count - undone,
            {
                proof {
                    lemma_undo_n(v0, undone as nat);
                }
                let step = stack.undo();
                if step.is_none() {
                    break;
                }
                undone += 1;
            }
            proof {
                lemma_undo_n(v0, undone as nat);
                if undone < count {
                    lemma_undo_n_stable(v0, undone as nat, count as nat);
                }
            }
            if undone == 0 {
                BuiltinResult::Error(String::from_str("Nothing to undo"))
            } else {
                let a = concat2("Undone ", u64_to_string(undone as u64).as_str());
                BuiltinResult::Success(concat2(a.as_str(), " command(s)"))
            }
        },
        None => {
            let a = concat2("Undoing ", u64_to_string(count as u64).as_str());
            BuiltinResult::Success(concat2(a.as_str(), " command(s)... (stack not available)"))
        },
    }
}

fn cmd_redo(args: &Vec<String>, undo_stack: Option<&mut UndoStack>) -> (r: BuiltinResult)
    ensures
        result_view(r) == redo_answer(views(args@), match undo_stack {
            Some(s) => Some((*s)@),
            None => None,
        }),
        match undo_stack {
            Some(s) => final(s)@ == redo_loop((*s)@, step_count(views(args@))).0,
            None => true,
        },
{
    let count = count_arg(args);
    match undo_stack {
        Some(stack) => {
            let ghost v0 = stack@;
            let mut redone: usize = 0;
            while redone < count
                invariant_except_break
                    redone <= count,
                    redo_loop(v0, count as nat) == ({
                        let rest = redo_loop(stack@, (count - redone) as nat);
                        (rest.0, (rest.1 + redone) as nat)
                    }),
                ensures
                    redo_loop(v0, count as nat) == (stack@, redone as nat),
                decreases count - redone,
            {
                let ghost before = stack@;
                let step = stack.redo();
                if step.is_none() {
                    break;
                }
                proof {
                    assert(redo_loop(before, (count - redone) as nat).1 == redo_loop(stack@, (count - redone - 1) as nat).1 + 1);
                }
                redone += 1;
            }
            if redone == 0 {
                BuiltinResult::Error(String::from_str("Nothing to redo"))
            } else {
                let a = concat2("Redone ", u64_to_string(redone as u64).as_str());
                BuiltinResult::Success(concat2(a.as_str(), " command(s)"))
            }
        },
        None => {
            let a = concat2("Redoing ", u64_to_string(count as u64).as_str());
            BuiltinResult::Success(concat2(a.as_str(), " command(s)... (stack not available)"))
        },
    }
}

// ---------------------------------------------------------------------------
// export / source / alias / unalias
// ---------------------------------------------------------------------------

/// `s` split at its first `=` (`str::split_once`).
pub open spec fn eq_split(s: Seq<char>) -> Option<(Seq<char>, Seq<char>)> {
    match find_char_from(s, 0, '=') {
        Some(j) => Some((s.take(j), s.skip(j + 1))),
        None => None,
    }
}

fn split_eq(s: &str) -> (r: Option<(String, String)>)
    ensures
        match r {
            Some(p) => eq_split(s@) == Some((p.0@, p.1@)),
            None => eq_split(s@) is None,
        },
{
    let v = crate::text::chars_of(s);
    let n = v.len();
    let mut i: usize = 0;
    while i < n
        invariant
            n == v@.len(),
            v@ == s@,
            i <= n,
            find_char_from(s@, 0, '=') == find_char_from(s@, i as int, '='),
        decreases n - i,
    {
        if v[i] == '=' {
            let k = crate::text::string_of_range(&v, 0, i);
            let val = crate::text::string_of_range(&v, i + 1, n);
            proof {
                assert(s@.take(i as int) =~= v@.subrange(0, i as int));
                assert(s@.skip(i + 1) =~= v@.subrange(i + 1, n as int));
            }
            return Some((k, val));
        }
        i += 1;
    }
    None
}

/// The prefix of the environment variables that hold aliases.
pub open spec fn alias_var_prefix() -> Seq<char> {
    "_OMNISHELL_ALIAS_"@
}

/// What `export` asks: list the environment without arguments; otherwise
/// set each `NAME=value`, and make sure each bare `NAME` exists.
pub open spec fn export_spec(args: Seq<Seq<char>>) -> ResultView {
    if args.len() == 0 {
        ResultView::Host(HostView::ListEnv)
    } else {
        ResultView::Host(HostView::Export(args.map_values(|a: Seq<char>| match eq_split(a) {
            Some(p) => (p.0, Some(p.1)),
            None => (a, None),
        })))
    }
}

/// What `source` asks: the contents of the named file.
pub open spec fn source_spec(args: Seq<Seq<char>>) -> ResultView {
    if args.len() == 0 {
        ResultView::Error("Usage: source <file> [args...]"@)
    } else {
        ResultView::Host(HostView::Source(args[0]))
    }
}

/// The aliases defined by `args[i..]`, up to the first argument without `=`,
/// which gives the error.
pub open spec fn alias_scan(args: Seq<Seq<char>>, i: int) -> (Seq<(Seq<char>, Seq<char>)>, Option<Seq<char>>)
    decreases args.len() - i,
{
    if i < 0 || i >= args.len() {
        (Seq::empty(), None)
    } else {
        match eq_split(args[i]) {
            Some(p) => {
                let rest = alias_scan(args, i + 1);
                (seq![(alias_var_prefix() + p.0, p.1)] + rest.0, rest.1)
            },
            None => (Seq::empty(), Some("alias: invalid format: "@ + args[i] + " (use name=value)"@)),
        }
    }
}

/// What `alias` does: nothing in Kids mode (with arguments); a note without
/// arguments; otherwise asks to store each `name=value`.
pub open spec fn alias_spec(args: Seq<Seq<char>>, mode: Mode) -> ResultView {
    if mode == Mode::Kids && args.len() > 0 {
        ResultView::Error("alias: not available in Kids mode"@)
    } else if args.len() == 0 {
        ResultView::Success("(alias list: use profile config to define aliases)"@)
    } else {
        let scan = alias_scan(args, 0);
        ResultView::Host(HostView::SetAliases(scan.0, scan.1))
    }
}

/// What `unalias` does: nothing in Kids mode; a usage error without
/// arguments; otherwise asks to remove each alias.
pub open spec fn unalias_spec(args: Seq<Seq<char>>, mode: Mode) -> ResultView {
    if mode == Mode::Kids {
        ResultView::Error("unalias: not available in Kids mode"@)
    } else if args.len() == 0 {
        ResultView::Error("Usage: unalias <name>"@)
    } else {
        ResultView::Host(HostView::Unalias(args.map_values(|n: Seq<char>| (alias_var_prefix() + n, n))))
    }
}

fn cmd_export(args: &Vec<String>) -> (r: BuiltinResult)
    ensures
        result_view(r) == export_spec(views(args@)),
{
    if args.len() == 0 {
        return BuiltinResult::Host(HostRequest::ListEnv);
    }
    let ghost f = |a: Seq<char>| match eq_split(a) {
        Some(p) => (p.0, Some(p.1)),
        None => (a, None),
    };
    let mut out: Vec<(String, Option<String>)> = Vec::new();
    let mut i: usize = 0;
    while i < args.len()
        invariant
            i <= args.len(),
            f == (|a: Seq<char>| match eq_split(a) {
                Some(p) => (p.0, Some(p.1)),
                None => (a, None),
            }),
            out@.map_values(|p: (String, Option<String>)| (p.0@, opt_seq(p.1))) == views(args@).take(i as int).map_values(f),
        decreases args.len() - i,
    {
        let ghost before = out@;
        let item = match split_eq(args[i].as_str()) {
            Some((k, v)) => (k, Some(v)),
            None => (args[i].clone(), None),
        };
        out.push(item);
        proof {
            assert(views(args@).take(i + 1) =~= views(args@).take(i as int).push(args@[i as int]@));
            assert(out@.map_values(|p: (String, Option<String>)| (p.0@, opt_seq(p.1)))
                =~= before.map_values(|p: (String, Option<String>)| (p.0@, opt_seq(p.1))).push(f(args@[i as int]@)));
        }
        i += 1;
    }
    assert(views(args@).take(args.len() as int) =~= views(args@));
    BuiltinResult::Host(HostRequest::Export(out))
}

fn cmd_source(args: &Vec<String>) -> (r: BuiltinResult)
    ensures
        result_view(r) == source_spec(views(args@)),
{
    if args.len() == 0 {
        return BuiltinResult::Error(String::from_str("Usage: source <file> [args...]"));
    }
    BuiltinResult::Host(HostRequest::Source(args[0].clone()))
}

fn cmd_alias(args: &Vec<String>, mode: Mode) -> (r: BuiltinResult)
    ensures
        result_view(r) == alias_spec(views(args@), mode),
{
    if mode == Mode::Kids && args.len() > 0 {
        return BuiltinResult::Error(String::from_str("alias: not available in Kids mode"));
    }
    if args.len() == 0 {
        return BuiltinResult::Success(String::from_str("(alias list: use profile config to define aliases)"));
    }
    let ghost a = views(args@);
    let mut pairs: Vec<(String, String)> = Vec::new();
    let mut i: usize = 0;
    while i < args.len()
        invariant
            i <= args.len(),
            a == views(args@),
            mode != Mode::Kids,
            args.len() > 0,
            alias_scan(a, 0) == ({
                let rest = alias_scan(a, i as int);
                (pairs@.map_values(|p: (String, String)| (p.0@, p.1@)) + rest.0, rest.1)
            }),
        decreases args.len() - i,
    {
        let ghost before = pairs@.map_values(|p: (String, String)| (p.0@, p.1@));
        match split_eq(args[i].as_str()) {
            Some((name, value)) => {
                let key = concat2("_OMNISHELL_ALIAS_", name.as_str());
                let ghost entry = (key@, value@);
                pairs.push((key, value));
                proof {
                    let rest = alias_scan(a, i + 1);
                    assert(pairs@.map_values(|p: (String, String)| (p.0@, p.1@)) =~= before.push(entry));
                    assert(before + (seq![entry] + rest.0) =~= before.push(entry) + rest.0);
                }
            },
            None => {
                let b = concat2("alias: invalid format: ", args[i].as_str());
                let err = concat2(b.as_str(), " (use name=value)");
                proof {
                    assert(a[i as int] == args@[i as int]@);
                    assert(alias_scan(a, i as int) == (Seq::<(Seq<char>, Seq<char>)>::empty(), Some(err@)));
                    assert(before + Seq::<(Seq<char>, Seq<char>)>::empty() =~= before);
                    assert(alias_scan(a, 0) == (before, Some(err@)));
                }
                let r = BuiltinResult::Host(HostRequest::SetAliases(pairs, Some(err)));
                assert(result_view(r) == ResultView::Host(HostView::SetAliases(before, Some(err@))));
                return r;
            },
        }
        i += 1;
    }
    proof {
        let p = pairs@.map_values(|p: (String, String)| (p.0@, p.1@));
        assert(p + Seq::<(Seq<char>, Seq<char>)>::empty() =~= p);
    }
    BuiltinResult::Host(HostRequest::SetAliases(pairs, None))
}

fn cmd_unalias(args: &Vec<String>, mode: Mode) -> (r: BuiltinResult)
    ensures
        result_view(r) == unalias_spec(views(args@), mode),
{
    if mode == Mode::Kids {
        return BuiltinResult::Error(String::from_str("unalias: not available in Kids mode"));
    }
    if args.len() == 0 {
        return BuiltinResult::Error(String::from_str("Usage: unalias <name>"));
    }
    let ghost g = |n: Seq<char>| (alias_var_prefix() + n, n);
    let mut out: Vec<(String, String)> = Vec::new();
    let mut i: usize = 0;
    while i < args.len()
        invariant
            i <= args.len(),
            g == (|n: Seq<char>| (alias_var_prefix() + n, n)),
            out@.map_values(|p: (String, String)| (p.0@, p.1@)) == views(args@).take(i as int).map_values(g),
        decreases args.len() - i,
    {
        let ghost before = out@;
        let key = concat2("_OMNISHELL_ALIAS_", args[i].as_str());
        out.push((key, args[i].clone()));
        proof {
            assert(views(args@).take(i + 1) =~= views(args@).take(i as int).push(args@[i as int]@));
            assert(out@.map_values(|p: (String, String)| (p.0@, p.1@))
                =~= before.map_values(|p: (String, String)| (p.0@, p.1@)).push(g(args@[i as int]@)));
        }
        i += 1;
    }
    assert(views(args@).take(args.len() as int) =~= views(args@));
    BuiltinResult::Host(HostRequest::Unalias(out))
}

// ---------------------------------------------------------------------------
// dispatch
// ---------------------------------------------------------------------------

/// The builtins.
pub enum BuiltinKind {
    Ai,
    Snapshots,
    Undo,
    Redo,
    Allow,
    Block,
    Export,
    Source,
    Alias,
    Unalias,
    ModeCmd,
    Help,
    Exit,
}

/// The builtin a command word names, if any.
pub open spec fn builtin_of(c: Seq<char>) -> Option<BuiltinKind> {
    if c == "?"@ || c == "ai"@ {
        Some(BuiltinKind::Ai)
    } else if c == "snapshots"@ {
        Some(BuiltinKind::Snapshots)
    } else if c == "undo"@ {
        Some(BuiltinKind::Undo)
    } else if c == "redo"@ {
        Some(BuiltinKind::Redo)
    } else if c == "allow"@ {
        Some(BuiltinKind::Allow)
    } else if c == "block"@ {
        Some(BuiltinKind::Block)
    } else if c == "export"@ {
        Some(BuiltinKind::Export)
    } else if c == "source"@ || c == "."@ {
        Some(BuiltinKind::Source)
    } else if c == "alias"@ {
        Some(BuiltinKind::Alias)
    } else if c == "unalias"@ {
        Some(BuiltinKind::Unalias)
    } else if c == "mode"@ {
        Some(BuiltinKind::ModeCmd)
    } else if c == "help"@ {
        Some(BuiltinKind::Help)
    } else if c == "exit"@ || c == "quit"@ {
        Some(BuiltinKind::Exit)
    } else {
        None
    }
}

/// The answer of a builtin, given the ACL, snapshot history and undo stack
/// before it and the model's reply.
pub open spec fn builtin_answer(
    kind: BuiltinKind,
    args: Seq<Seq<char>>,
    mode: Mode,
    acl: EngineModel,
    history: Option<Seq<SnapshotView>>,
    stack: Option<UndoView>,
    reply: Option<LlmResponse>,
) -> ResultView {
    match kind {
        BuiltinKind::Ai => ai_spec(join_with(args, " "@), mode, reply),
        BuiltinKind::Snapshots => snapshots_spec(args, history),
        BuiltinKind::Undo => undo_answer(args, stack),
        BuiltinKind::Redo => redo_answer(args, stack),
        BuiltinKind::Allow => acl_edit_spec(args, mode, true, acl).0,
        BuiltinKind::Block => acl_edit_spec(args, mode, false, acl).0,
        BuiltinKind::Export => export_spec(args),
        BuiltinKind::Source => source_spec(args),
        BuiltinKind::Alias => alias_spec(args, mode),
        BuiltinKind::Unalias => unalias_spec(args, mode),
        BuiltinKind::ModeCmd => mode_spec(args, mode),
        BuiltinKind::Help => ResultView::Success(help_text(mode)),
        BuiltinKind::Exit => ResultView::Exit,
    }
}

/// The ACL after a builtin: only `allow` and `block` change it.
pub open spec fn acl_after(kind: Option<BuiltinKind>, args: Seq<Seq<char>>, mode: Mode, acl: EngineModel) -> EngineModel {
    match kind {
        Some(BuiltinKind::Allow) => acl_edit_spec(args, mode, true, acl).1,
        Some(BuiltinKind::Block) => acl_edit_spec(args, mode, false, acl).1,
        _ => acl,
    }
}

/// The undo stack after a builtin: only `undo` and `redo` change it.
pub open spec fn stack_after(kind: Option<BuiltinKind>, args: Seq<Seq<char>>, stack: UndoView) -> UndoView {
    match kind {
        Some(BuiltinKind::Undo) => undo_n(stack, step_count(args)),
        Some(BuiltinKind::Redo) => redo_loop(stack, step_count(args)).0,
        _ => stack,
    }
}

/// Runs a built-in command; `None` when `command` is no builtin. The model's
/// reply to `?`/`ai` is asked for by the caller (see `ai_prompt`) and handed
/// in, `None` when there is no model.
pub fn dispatch(
    command: &str,
    args: &[String],
    mode: Mode,
    acl: &mut AclEngine,
    snapshot_engine: Option<&SnapshotEngine>,
    undo_stack: Option<&mut UndoStack>,
    llm_reply: Option<LlmResponse>,
) -> (r: Option<BuiltinResult>)
    ensures
        match builtin_of(command@) {
            None => r is None,
            Some(kind) => r matches Some(res) && result_view(res) == builtin_answer(
                kind,
                views(args@),
                mode,
                old(acl)@,
                match snapshot_engine {
                    Some(e) => Some(e@.history),
                    None => None,
                },
                match undo_stack {
                    Some(s) => Some((*s)@),
                    None => None,
                },
                llm_reply,
            ),
        },
        final(acl)@ == acl_after(builtin_of(command@), views(args@), mode, old(acl)@),
        match undo_stack {
            Some(s) => final(s)@ == stack_after(builtin_of(command@), views(args@), (*s)@),
            None => true,
        },
{
    let args = strings_of(args);
    if str_eq(command, "?") || str_eq(command, "ai") {
        Some(cmd_ai(&args, mode, llm_reply))
    } else if str_eq(command, "snapshots") {
        Some(cmd_snapshots(&args, snapshot_engine))
    } else if str_eq(command, "undo") {
        Some(cmd_undo(&args, undo_stack))
    } else if str_eq(command, "redo") {
        Some(cmd_redo(&args, undo_stack))
    } else if str_eq(command, "allow") {
        Some(cmd_acl_edit(&args, acl, mode, true))
    } else if str_eq(command, "block") {
        Some(cmd_acl_edit(&args, acl, mode, false))
    } else if str_eq(command, "export") {
        Some(cmd_export(&args))
    } else if str_eq(command, "source") || str_eq(command, ".") {
        Some(cmd_source(&args))
    } else if str_eq(command, "alias") {
        Some(cmd_alias(&args, mode))
    } else if str_eq(command, "unalias") {
        Some(cmd_unalias(&args, mode))
    } else if str_eq(command, "mode") {
        Some(cmd_mode(&args, mode))
    } else if str_eq(command, "help") {
        Some(cmd_help(mode))
    } else if str_eq(command, "exit") || str_eq(command, "quit") {
        Some(BuiltinResult::Exit)
    } else {
        None
    }
}

/// Builtins change the ACL only through `allow` in Admin mode and `block`
/// in Admin or Agent mode: in Kids mode, and for any other command, the ACL
/// is left as it was.
pub proof fn law_acl_edits_need_permission(command: Seq<char>, args: Seq<Seq<char>>, mode: Mode, acl: EngineModel)
    requires
        !(builtin_of(command) matches Some(BuiltinKind::Allow) && mode == Mode::Admin),
        !(builtin_of(command) matches Some(BuiltinKind::Block) && (mode == Mode::Admin || mode == Mode::Agent)),
    ensures
        acl_after(builtin_of(command), args, mode, acl) == acl,
{
}

} // verus!
