//! Running one command without the interactive shell: ACL check, builtins,
//! snapshots around mutating commands, undo record and audit entry.
//! Evaluating the command with the shell language, printing, writing the
//! audit log and exiting are the caller's part.

use vstd::prelude::*;
use crate::acl::{acl_verdict, default_engine, AclEngine, Verdict};
use crate::audit::{AuditEntry, AuditLogger};
use crate::builtins::{builtin_answer, builtin_of, dispatch, host_view, result_view, BuiltinResult, HostRequest, ResultView};
use crate::output::{error_text, format_error};
use crate::profile::{mode_name, Mode};
use crate::snapshot::{is_mutating, snapshot_views, Snapshot, SnapshotEngine, SnapshotPhase, SnapshotView};
use crate::text::{concat2, views};
use crate::undo::{RecordView, UndoStack};
use crate::words::{shlex_split, shlex_words};

verus! {

broadcast use vstd::string::group_string_axioms;

/// The first step of a non-interactive run.
#[derive(Debug)]
pub enum SingleStart {
    /// Print `stdout` to standard output and `stderr` to standard error (each
    /// when set), then exit with the code, or simply return when none.
    Finish { stdout: Option<String>, stderr: Option<String>, exit_code: Option<i32> },
    /// Carry out a builtin's request, then report its answer as a builtin's.
    Host(HostRequest),
    /// Evaluate the command, then call `finish_single_command`; a
    /// pre-execution snapshot was taken when `pre_snapshot` holds.
    Evaluate { pre_snapshot: bool },
}

/// The value of a first step.
pub enum StartView {
    Finish(Option<Seq<char>>, Option<Seq<char>>, Option<i32>),
    Host(crate::builtins::HostView),
    Evaluate(bool),
}

/// The characters of an optional string.
pub open spec fn opt_chars(o: Option<String>) -> Option<Seq<char>> {
    match o {
        Some(s) => Some(s@),
        None => None,
    }
}

/// The value of a first step.
pub open spec fn start_view(s: SingleStart) -> StartView {
    match s {
        SingleStart::Finish { stdout, stderr, exit_code } => StartView::Finish(opt_chars(stdout), opt_chars(stderr), exit_code),
        SingleStart::Host(h) => StartView::Host(host_view(h)),
        SingleStart::Evaluate { pre_snapshot } => StartView::Evaluate(pre_snapshot),
    }
}

/// How a builtin's answer ends a non-interactive run: output printed and a
/// normal return; an error printed for the mode and exit code 1; a note that
/// mode switches are ignored; a plain return on exit.
pub open spec fn builtin_finish(v: ResultView, mode: Mode) -> StartView {
    match v {
        ResultView::Success(m) => StartView::Finish(Some(m), None, None),
        ResultView::Error(m) => StartView::Finish(None, Some(error_text(m, mode)), Some(1i32)),
        ResultView::SwitchMode(m) => StartView::Finish(
            None,
            Some("Mode switch to "@ + mode_name(m) + " ignored in non-interactive mode"@),
            None,
        ),
        ResultView::Exit => StartView::Finish(None, None, None),
        ResultView::Host(h) => StartView::Host(h),
    }
}

/// How a builtin's answer ends a non-interactive run.
pub fn report_builtin(result: BuiltinResult, mode: Mode) -> (r: SingleStart)
    ensures
        start_view(r) == builtin_finish(result_view(result), mode),
{
    match result {
        BuiltinResult::Success(msg) => SingleStart::Finish { stdout: Some(msg), stderr: None, exit_code: None },
        BuiltinResult::Error(msg) => SingleStart::Finish {
            stdout: None,
            stderr: Some(format_error(msg.as_str(), mode)),
            exit_code: Some(1i32),
        },
        BuiltinResult::SwitchMode(m) => {
            let a = concat2("Mode switch to ", m.as_str());
            SingleStart::Finish {
                stdout: None,
                stderr: Some(concat2(a.as_str(), " ignored in non-interactive mode")),
                exit_code: None,
            }
        },
        BuiltinResult::Exit => SingleStart::Finish { stdout: None, stderr: None, exit_code: None },
        BuiltinResult::Host(h) => SingleStart::Host(h),
    }
}

/// Starts a non-interactive run: a denied command prints the mode's error
/// and exits with 126; a builtin (by its shell-quoted first word) runs and
/// ends the run; otherwise a mutating command gets its pre-execution
/// snapshot (with the given commit), and the command is to be evaluated.
pub fn start_single_command(
    command: &str,
    mode: Mode,
    snapshot_engine: &mut SnapshotEngine,
    undo_stack: &mut UndoStack,
    pre_commit: Option<String>,
) -> (r: SingleStart)
    ensures
        acl_verdict(default_engine(mode), command@) matches Some(reason) ==> {
            &&& start_view(r) == StartView::Finish(None, Some(error_text(reason, mode)), Some(126i32))
            &&& final(snapshot_engine)@ == old(snapshot_engine)@
            &&& final(undo_stack)@ == old(undo_stack)@
        },
        acl_verdict(default_engine(mode), command@) is None && (shlex_words(command@) matches Some(w) && w.len() > 0
            && builtin_of(w[0]) is Some) ==> {
            let w = shlex_words(command@)->0;
            start_view(r) == builtin_finish(
                builtin_answer(
                    builtin_of(w[0])->0,
                    w.skip(1),
                    mode,
                    default_engine(mode),
                    Some(old(snapshot_engine)@.history),
                    Some(old(undo_stack)@),
                    None,
                ),
                mode,
            ) && final(snapshot_engine)@ == old(snapshot_engine)@
        },
        acl_verdict(default_engine(mode), command@) is None && !(shlex_words(command@) matches Some(w) && w.len() > 0
            && builtin_of(w[0]) is Some) ==> {
            &&& start_view(r) == StartView::Evaluate(is_mutating(command@))
            &&& final(undo_stack)@ == old(undo_stack)@
            &&& final(snapshot_engine)@.has_repo == old(snapshot_engine)@.has_repo
            &&& if is_mutating(command@) {
                final(snapshot_engine)@.history.len() == old(snapshot_engine)@.history.len() + 1
                    && final(snapshot_engine)@.history.drop_last() == old(snapshot_engine)@.history
                    && final(snapshot_engine)@.history.last().phase == SnapshotPhase::PreExecution
                    && final(snapshot_engine)@.history.last().trigger_command == command@
            } else {
                final(snapshot_engine)@ == old(snapshot_engine)@
            }
        },
{
    let mut acl = AclEngine::new(mode);
    match acl.evaluate(command) {
        Verdict::Deny(reason) => {
            return SingleStart::Finish { stdout: None, stderr: Some(format_error(reason.as_str(), mode)), exit_code: Some(126i32) };
        },
        Verdict::Allow => {},
    }
    match shlex_split(command) {
        Some(tokens) => {
            if tokens.len() > 0 {
                let args = crate::text::tail_strings(&tokens);
                let ghost w = views(tokens@);
                let arg_slice = args.as_slice();
                assert(views(arg_slice@) == w.skip(1));
                let outcome = dispatch(tokens[0].as_str(), arg_slice, mode, &mut acl, Some(&*snapshot_engine), Some(undo_stack), None);
                match outcome {
                    Some(result) => {
                        return report_builtin(result, mode);
                    },
                    None => {},
                }
            }
        },
        None => {},
    }
    if SnapshotEngine::is_mutating_command(command) {
        let ghost before = snapshot_engine@.history;
        match snapshot_engine.pre_execution_snapshot(command, pre_commit) {
            Ok(_) => {},
            Err(_) => {},
        }
        proof {
            assert(snapshot_engine@.history.drop_last() =~= before);
        }
        SingleStart::Evaluate { pre_snapshot: true }
    } else {
        SingleStart::Evaluate { pre_snapshot: false }
    }
}

/// The latest pre-execution snapshot of a history.
pub open spec fn latest_pre(h: Seq<SnapshotView>) -> Option<SnapshotView>
    decreases h.len(),
{
    if h.len() == 0 {
        None
    } else if h.last().phase == SnapshotPhase::PreExecution {
        Some(h.last())
    } else {
        latest_pre(h.drop_last())
    }
}

fn find_latest_pre(history: &[Snapshot]) -> (r: Option<Snapshot>)
    ensures
        match r {
            Some(s) => latest_pre(snapshot_views(history@)) == Some(s@),
            None => latest_pre(snapshot_views(history@)) is None,
        },
{
    let ghost h = snapshot_views(history@);
    let mut i: usize = history.len();
    assert(h.take(i as int) =~= h);
    while i > 0
        invariant
            i <= history@.len(),
            h == snapshot_views(history@),
            latest_pre(h) == latest_pre(h.take(i as int)),
        decreases i,
    {
        let s = &history[i - 1];
        proof {
            assert(h.take(i as int).last() == s@);
            assert(h.take(i as int).drop_last() =~= h.take(i - 1));
        }
        if s.phase == SnapshotPhase::PreExecution {
            return Some(s.duplicate());
        }
        i -= 1;
    }
    None
}

/// Ends a non-interactive run after the command exited with `exit_code`
/// after `duration_ms`: a mutating command gets its post-execution snapshot
/// (with the given commit) and, when a pre-execution snapshot was taken, an
/// undo record from the latest one; the returned audit entry is for the
/// caller to log.
pub fn finish_single_command(
    command: &str,
    mode: Mode,
    exit_code: i32,
    duration_ms: u64,
    snapshot_engine: &mut SnapshotEngine,
    undo_stack: &mut UndoStack,
    had_pre: bool,
    post_commit: Option<String>,
    working_dir: Option<String>,
    user: Option<String>,
) -> (r: AuditEntry)
    ensures
        r.command@ == command@,
        r.mode == mode,
        r.exit_code == exit_code,
        r.acl_verdict@ == "allowed"@,
        r.duration_ms == duration_ms,
        !r.snapshot_created,
        opt_chars(r.working_dir) == opt_chars(working_dir),
        opt_chars(r.user) == opt_chars(user),
        final(snapshot_engine)@.has_repo == old(snapshot_engine)@.has_repo,
        !is_mutating(command@) ==> final(snapshot_engine)@ == old(snapshot_engine)@ && final(undo_stack)@ == old(undo_stack)@,
        is_mutating(command@) ==> {
            let h = final(snapshot_engine)@.history;
            &&& h.len() == old(snapshot_engine)@.history.len() + 1
            &&& h.drop_last() == old(snapshot_engine)@.history
            &&& h.last().phase == SnapshotPhase::PostExecution
            &&& h.last().trigger_command == command@
            &&& h.last().exit_code == Some(exit_code)
            &&& if had_pre && latest_pre(h) is Some {
                final(undo_stack)@.records == old(undo_stack)@.records.take(old(undo_stack)@.position as int).push(RecordView {
                    pre_snapshot: latest_pre(h)->0,
                    post_snapshot: Some(h.last()),
                    command: command@,
                    undone: false,
                })
            } else {
                final(undo_stack)@ == old(undo_stack)@
            }
        },
{
    if SnapshotEngine::is_mutating_command(command) {
        let ghost before = snapshot_engine@.history;
        let post = match snapshot_engine.post_execution_snapshot(command, exit_code, post_commit) {
            Ok(s) => Some(s),
            Err(_) => None,
        };
        proof {
            assert(snapshot_engine@.history.drop_last() =~= before);
        }
        if had_pre {
            match find_latest_pre(snapshot_engine.history()) {
                Some(pre) => {
                    undo_stack.record(pre, post, String::from_str(command));
                },
                None => {},
            }
        }
    }
    AuditLogger::entry_for(command, mode, working_dir, user).exit_code(exit_code).acl_verdict("allowed").duration_ms(
        duration_ms,
    ).build()
}

} // verus!
