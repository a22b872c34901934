//! Non-interactive runs, shell arithmetic, word splitting and error messages.

use omnishell::arith::eval_arithmetic;
use omnishell::error::OmniShellError;
use omnishell::profile::Mode;
use omnishell::single_command::{finish_single_command, start_single_command, SingleStart};
use omnishell::words::split_ws;
use omnishell::{SnapshotEngine, SnapshotPhase, UndoStack};

#[test]
fn arithmetic_precedence_and_parentheses() {
    assert_eq!(eval_arithmetic("1 + 2 * 3"), 7);
    assert_eq!(eval_arithmetic("(1 + 2) * 3"), 9);
    assert_eq!(eval_arithmetic("  10 - 4 - 3 "), 3);
    assert_eq!(eval_arithmetic("-5 + 2"), -3);
}

#[test]
fn arithmetic_division_truncates_and_zero_divisor_gives_zero() {
    assert_eq!(eval_arithmetic("7 / 2"), 3);
    assert_eq!(eval_arithmetic("-7 / 2"), -3);
    assert_eq!(eval_arithmetic("-7 % 3"), -1);
    assert_eq!(eval_arithmetic("5 / 0"), 0);
    assert_eq!(eval_arithmetic("5 % 0"), 0);
}

#[test]
fn arithmetic_empty_is_zero() {
    assert_eq!(eval_arithmetic(""), 0);
    assert_eq!(eval_arithmetic("   "), 0);
}

#[test]
fn split_on_white_space() {
    assert_eq!(split_ws("  ls   -la\t/tmp "), vec!["ls", "-la", "/tmp"]);
    assert!(split_ws("   ").is_empty());
}

#[test]
fn shell_quoted_words() {
    let mut engine = SnapshotEngine::new(false);
    let mut stack = UndoStack::new();
    match start_single_command("mode 'agent'", Mode::Admin, &mut engine, &mut stack, None) {
        SingleStart::Finish { stderr, .. } => {
            assert_eq!(stderr.as_deref(), Some("Mode switch to agent ignored in non-interactive mode"));
        }
        other => panic!("unexpected {:?}", other),
    }
    match start_single_command("'mode' \"agent\"", Mode::Admin, &mut engine, &mut stack, None) {
        SingleStart::Finish { stderr, .. } => {
            assert_eq!(stderr.as_deref(), Some("Mode switch to agent ignored in non-interactive mode"));
        }
        other => panic!("unexpected {:?}", other),
    }
    // An unterminated quote is not split; the line goes to the evaluator.
    match start_single_command("mode 'agent", Mode::Admin, &mut engine, &mut stack, None) {
        SingleStart::Evaluate { .. } => {}
        other => panic!("unexpected {:?}", other),
    }
}

#[test]
fn error_messages_have_headings() {
    assert_eq!(OmniShellError::Config("bad".to_string()).message(), "Configuration error: bad");
    assert_eq!(OmniShellError::AclViolation("no".to_string()).message(), "ACL violation: no");
    assert_eq!(OmniShellError::Snapshot("x".to_string()).message(), "Snapshot error: x");
    assert_eq!(OmniShellError::Llm("x".to_string()).message(), "LLM error: x");
    assert_eq!(OmniShellError::Sandbox("x".to_string()).message(), "Sandbox error: x");
    assert_eq!(OmniShellError::Profile("x".to_string()).message(), "Profile error: x");
    let io = std::io::Error::new(std::io::ErrorKind::Other, "disk");
    assert!(OmniShellError::Io(io).message().starts_with("IO error: "));
}

#[test]
fn single_command_denied_exits_126() {
    let mut engine = SnapshotEngine::new(false);
    let mut stack = UndoStack::new();
    match start_single_command("sudo rm -rf /", Mode::Kids, &mut engine, &mut stack, None) {
        SingleStart::Finish { stdout, stderr, exit_code } => {
            assert!(stdout.is_none());
            assert!(stderr.unwrap().contains("❌"));
            assert_eq!(exit_code, Some(126));
        }
        other => panic!("unexpected {:?}", other),
    }
    assert!(engine.history().is_empty());
}

#[test]
fn single_command_builtin_ends_run() {
    let mut engine = SnapshotEngine::new(false);
    let mut stack = UndoStack::new();
    match start_single_command("mode agent", Mode::Admin, &mut engine, &mut stack, None) {
        SingleStart::Finish { stdout, stderr, exit_code } => {
            assert!(stdout.is_none());
            assert_eq!(stderr.as_deref(), Some("Mode switch to agent ignored in non-interactive mode"));
            assert!(exit_code.is_none());
        }
        other => panic!("unexpected {:?}", other),
    }
}

#[test]
fn single_command_mutating_run_records_undo() {
    let mut engine = SnapshotEngine::new(false);
    let mut stack = UndoStack::new();
    match start_single_command("touch a.txt", Mode::Admin, &mut engine, &mut stack, None) {
        SingleStart::Evaluate { pre_snapshot } => assert!(pre_snapshot),
        other => panic!("unexpected {:?}", other),
    }
    assert_eq!(engine.history().len(), 1);
    assert_eq!(engine.history()[0].phase, SnapshotPhase::PreExecution);

    let entry = finish_single_command("touch a.txt", Mode::Admin, 0, 12, &mut engine, &mut stack, true, None, None, None);
    assert_eq!(entry.command, "touch a.txt");
    assert_eq!(entry.exit_code, 0);
    assert_eq!(entry.duration_ms, 12);
    assert_eq!(entry.acl_verdict, "allowed");
    assert_eq!(engine.history().len(), 2);
    assert_eq!(engine.history()[1].phase, SnapshotPhase::PostExecution);
    assert_eq!(stack.undo_count(), 1);
}

#[test]
fn single_command_read_only_run_takes_no_snapshot() {
    let mut engine = SnapshotEngine::new(false);
    let mut stack = UndoStack::new();
    match start_single_command("ls", Mode::Admin, &mut engine, &mut stack, None) {
        SingleStart::Evaluate { pre_snapshot } => assert!(!pre_snapshot),
        other => panic!("unexpected {:?}", other),
    }
    let _ = finish_single_command("ls", Mode::Admin, 0, 1, &mut engine, &mut stack, false, None, None, None);
    assert!(engine.history().is_empty());
    assert_eq!(stack.undo_count(), 0);
}
