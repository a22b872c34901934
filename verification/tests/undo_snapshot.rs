//! Snapshots and the undo/redo stack.

use omnishell::snapshot::{SnapshotConfig, SnapshotRetention, SnapshotTarget, SnapshotTrigger};
use omnishell::{Snapshot, SnapshotEngine, SnapshotPhase, UndoStack};

fn make_snapshot(phase: SnapshotPhase, command: &str) -> Snapshot {
    let is_post = phase == SnapshotPhase::PostExecution;
    Snapshot {
        commit_id: None,
        timestamp: 0,
        trigger_command: command.to_string(),
        phase,
        exit_code: if is_post { Some(0) } else { None },
    }
}

fn no_repo() -> SnapshotEngine {
    SnapshotEngine::new(false)
}

#[test]
fn test_undo_redo_basic() {
    let mut stack = UndoStack::new();

    let pre1 = make_snapshot(SnapshotPhase::PreExecution, "rm a.txt");
    let post1 = make_snapshot(SnapshotPhase::PostExecution, "rm a.txt");
    stack.record(pre1, Some(post1), "rm a.txt".to_string());

    let pre2 = make_snapshot(SnapshotPhase::PreExecution, "rm b.txt");
    let post2 = make_snapshot(SnapshotPhase::PostExecution, "rm b.txt");
    stack.record(pre2, Some(post2), "rm b.txt".to_string());

    assert_eq!(stack.undo_count(), 2);
    assert_eq!(stack.redo_count(), 0);

    let snap = stack.undo().unwrap();
    assert_eq!(snap.trigger_command, "rm b.txt");
    assert_eq!(stack.undo_count(), 1);
    assert_eq!(stack.redo_count(), 1);

    let snap = stack.redo().unwrap();
    assert_eq!(snap.trigger_command, "rm b.txt");
    assert_eq!(stack.undo_count(), 2);
    assert_eq!(stack.redo_count(), 0);
}

#[test]
fn test_undo_truncates_redo() {
    let mut stack = UndoStack::new();

    let pre = make_snapshot(SnapshotPhase::PreExecution, "rm a.txt");
    let post = make_snapshot(SnapshotPhase::PostExecution, "rm a.txt");
    stack.record(pre, Some(post), "rm a.txt".to_string());

    stack.undo();

    let pre2 = make_snapshot(SnapshotPhase::PreExecution, "rm c.txt");
    let post2 = make_snapshot(SnapshotPhase::PostExecution, "rm c.txt");
    stack.record(pre2, Some(post2), "rm c.txt".to_string());

    assert_eq!(stack.undo_count(), 1);
    assert_eq!(stack.redo_count(), 0);
}

#[test]
fn test_undo_clear() {
    let mut stack = UndoStack::new();

    let pre = make_snapshot(SnapshotPhase::PreExecution, "rm a.txt");
    let post = make_snapshot(SnapshotPhase::PostExecution, "rm a.txt");
    stack.record(pre, Some(post), "rm a.txt".to_string());

    stack.clear();
    assert_eq!(stack.undo_count(), 0);
    assert_eq!(stack.redo_count(), 0);
    assert!(stack.history().is_empty());
}

#[test]
fn test_empty_undo() {
    let mut stack = UndoStack::new();
    assert!(stack.undo().is_none());
    assert!(stack.redo().is_none());
}

#[test]
fn test_records_for_command() {
    let mut stack = UndoStack::new();

    for _ in 0..3 {
        let pre = make_snapshot(SnapshotPhase::PreExecution, "cargo build");
        let post = make_snapshot(SnapshotPhase::PostExecution, "cargo build");
        stack.record(pre, Some(post), "cargo build".to_string());
    }

    let pre = make_snapshot(SnapshotPhase::PreExecution, "ls");
    let post = make_snapshot(SnapshotPhase::PostExecution, "ls");
    stack.record(pre, Some(post), "ls".to_string());

    assert_eq!(stack.records_for_command("cargo build").len(), 3);
    assert_eq!(stack.records_for_command("ls").len(), 1);
    assert_eq!(stack.records_for_command("rm").len(), 0);
}

#[test]
fn test_double_undo() {
    let mut stack = UndoStack::new();

    let pre1 = make_snapshot(SnapshotPhase::PreExecution, "rm a.txt");
    let post1 = make_snapshot(SnapshotPhase::PostExecution, "rm a.txt");
    stack.record(pre1, Some(post1), "rm a.txt".to_string());

    let pre2 = make_snapshot(SnapshotPhase::PreExecution, "rm b.txt");
    let post2 = make_snapshot(SnapshotPhase::PostExecution, "rm b.txt");
    stack.record(pre2, Some(post2), "rm b.txt".to_string());

    assert!(stack.undo().is_some());
    assert!(stack.undo().is_some());
    assert!(stack.undo().is_none());
    assert_eq!(stack.redo_count(), 2);
}

#[test]
fn test_is_mutating_command() {
    assert!(SnapshotEngine::is_mutating_command("rm file.txt"));
    assert!(SnapshotEngine::is_mutating_command("mv a b"));
    assert!(SnapshotEngine::is_mutating_command("cargo build"));
    assert!(SnapshotEngine::is_mutating_command("git push"));
    assert!(SnapshotEngine::is_mutating_command("pip install foo"));
    assert!(SnapshotEngine::is_mutating_command("npm install"));

    assert!(!SnapshotEngine::is_mutating_command("ls"));
    assert!(!SnapshotEngine::is_mutating_command("cat file.txt"));
    assert!(!SnapshotEngine::is_mutating_command("echo hello"));
    assert!(!SnapshotEngine::is_mutating_command("pwd"));
    assert!(!SnapshotEngine::is_mutating_command("git status"));
    assert!(!SnapshotEngine::is_mutating_command("git log"));
}

#[test]
fn test_is_mutating_command_case_insensitive() {
    assert!(SnapshotEngine::is_mutating_command("RM file.txt"));
    assert!(SnapshotEngine::is_mutating_command("Cargo Build"));
}

#[test]
fn test_is_mutating_command_trimmed() {
    assert!(SnapshotEngine::is_mutating_command("  rm file.txt  "));
    assert!(!SnapshotEngine::is_mutating_command("  ls  "));
}

#[test]
fn test_snapshot_engine_no_repo() {
    let mut engine = no_repo();
    assert!(!engine.has_repo());

    let snap = engine.pre_execution_snapshot("rm test.txt", None).unwrap();
    assert!(snap.commit_id.is_none());
    assert_eq!(snap.phase, SnapshotPhase::PreExecution);

    let snap = engine.post_execution_snapshot("rm test.txt", 0, None).unwrap();
    assert!(snap.commit_id.is_none());
    assert_eq!(snap.exit_code, Some(0));
}

#[test]
fn test_snapshot_history() {
    let mut engine = no_repo();
    engine.pre_execution_snapshot("rm test.txt", None).unwrap();
    engine.post_execution_snapshot("rm test.txt", 0, None).unwrap();

    assert_eq!(engine.history().len(), 2);
    assert_eq!(engine.last_snapshot().unwrap().phase, SnapshotPhase::PostExecution);
}

#[test]
fn undo_single_command() {
    let mut engine = no_repo();
    let mut undo = UndoStack::new();

    let pre = engine.pre_execution_snapshot("rm file.txt", None).unwrap();
    let post = engine.post_execution_snapshot("rm file.txt", 0, None).unwrap();
    undo.record(pre, Some(post), "rm file.txt".to_string());

    let undo_snap = undo.undo().unwrap();
    assert_eq!(undo_snap.trigger_command, "rm file.txt");
    assert_eq!(undo_snap.phase, SnapshotPhase::PreExecution);
}

#[test]
fn undo_multiple_commands_in_order() {
    let mut engine = no_repo();
    let mut undo = UndoStack::new();

    let commands = ["touch a", "touch b", "rm a"];
    for cmd in &commands {
        let pre = engine.pre_execution_snapshot(cmd, None).unwrap();
        let post = engine.post_execution_snapshot(cmd, 0, None).unwrap();
        undo.record(pre, Some(post), cmd.to_string());
    }

    let snap1 = undo.undo().unwrap();
    assert_eq!(snap1.trigger_command, "rm a");

    let snap2 = undo.undo().unwrap();
    assert_eq!(snap2.trigger_command, "touch b");

    let snap3 = undo.undo().unwrap();
    assert_eq!(snap3.trigger_command, "touch a");

    assert!(undo.undo().is_none());
}

#[test]
fn redo_after_undo() {
    let mut engine = no_repo();
    let mut undo = UndoStack::new();

    let pre = engine.pre_execution_snapshot("cmd1", None).unwrap();
    let post = engine.post_execution_snapshot("cmd1", 0, None).unwrap();
    undo.record(pre, Some(post), "cmd1".to_string());

    undo.undo();
    let redo_snap = undo.redo().unwrap();
    assert_eq!(redo_snap.trigger_command, "cmd1");
    assert_eq!(redo_snap.phase, SnapshotPhase::PostExecution);
}

#[test]
fn new_command_truncates_redo() {
    let mut engine = no_repo();
    let mut undo = UndoStack::new();

    let pre = engine.pre_execution_snapshot("cmd1", None).unwrap();
    let post = engine.post_execution_snapshot("cmd1", 0, None).unwrap();
    undo.record(pre, Some(post), "cmd1".to_string());

    undo.undo();
    assert_eq!(undo.redo_count(), 1);

    let pre = engine.pre_execution_snapshot("cmd2", None).unwrap();
    let post = engine.post_execution_snapshot("cmd2", 0, None).unwrap();
    undo.record(pre, Some(post), "cmd2".to_string());

    assert_eq!(undo.redo_count(), 0);
    assert_eq!(undo.undo_count(), 1);
}

#[test]
fn clear_undo_history() {
    let mut engine = no_repo();
    let mut undo = UndoStack::new();

    let pre = engine.pre_execution_snapshot("cmd", None).unwrap();
    let post = engine.post_execution_snapshot("cmd", 0, None).unwrap();
    undo.record(pre, Some(post), "cmd".to_string());

    undo.clear();
    assert!(undo.undo_count() == 0);
    assert!(undo.redo_count() == 0);
}

#[test]
fn test_snapshot_lifecycle_with_undo() {
    let mut engine = no_repo();
    let mut undo_stack = UndoStack::new();

    let pre = engine.pre_execution_snapshot("rm file.txt", None).unwrap();
    assert_eq!(pre.phase, SnapshotPhase::PreExecution);
    assert!(pre.commit_id.is_none());

    let post = engine.post_execution_snapshot("rm file.txt", 0, None).unwrap();
    assert_eq!(post.phase, SnapshotPhase::PostExecution);
    assert_eq!(post.exit_code, Some(0));

    undo_stack.record(pre, Some(post), "rm file.txt".to_string());
    assert_eq!(undo_stack.undo_count(), 1);

    let undo_snap = undo_stack.undo().unwrap();
    assert_eq!(undo_snap.trigger_command, "rm file.txt");
    assert_eq!(undo_stack.redo_count(), 1);
}

#[test]
fn test_multiple_command_undo_redo() {
    let mut engine = no_repo();
    let mut undo_stack = UndoStack::new();

    let commands = ["touch a", "touch b", "rm a"];
    for cmd in &commands {
        let pre = engine.pre_execution_snapshot(cmd, None).unwrap();
        let post = engine.post_execution_snapshot(cmd, 0, None).unwrap();
        undo_stack.record(pre, Some(post), cmd.to_string());
    }

    assert_eq!(undo_stack.undo_count(), 3);
    assert_eq!(engine.history().len(), 6);

    undo_stack.undo();
    undo_stack.undo();
    assert_eq!(undo_stack.undo_count(), 1);
    assert_eq!(undo_stack.redo_count(), 2);

    let pre = engine.pre_execution_snapshot("mkdir new", None).unwrap();
    let post = engine.post_execution_snapshot("mkdir new", 0, None).unwrap();
    undo_stack.record(pre, Some(post), "mkdir new".to_string());
    assert_eq!(undo_stack.undo_count(), 2);
    assert_eq!(undo_stack.redo_count(), 0);
}

#[test]
fn test_mutating_command_detection() {
    assert!(SnapshotEngine::is_mutating_command("rm file.txt"));
    assert!(SnapshotEngine::is_mutating_command("cargo build"));
    assert!(SnapshotEngine::is_mutating_command("git push"));
    assert!(!SnapshotEngine::is_mutating_command("ls"));
    assert!(!SnapshotEngine::is_mutating_command("git status"));
}

#[test]
fn undo_then_redo_restores_the_stack() {
    let mut stack = UndoStack::new();
    stack.record(make_snapshot(SnapshotPhase::PreExecution, "a"), None, "a".to_string());
    stack.record(
        make_snapshot(SnapshotPhase::PreExecution, "b"),
        Some(make_snapshot(SnapshotPhase::PostExecution, "b")),
        "b".to_string(),
    );
    let before: Vec<(String, bool)> = stack.history().iter().map(|r| (r.command.clone(), r.undone)).collect();
    stack.undo();
    assert!(stack.history()[1].undone);
    stack.redo();
    let after: Vec<(String, bool)> = stack.history().iter().map(|r| (r.command.clone(), r.undone)).collect();
    assert_eq!(before, after);
    assert_eq!(stack.undo_count(), 2);
    assert_eq!(stack.last_record().unwrap().command, "b");
}

#[test]
fn redo_without_post_snapshot_still_steps() {
    let mut stack = UndoStack::new();
    stack.record(make_snapshot(SnapshotPhase::PreExecution, "a"), None, "a".to_string());
    stack.undo();
    assert!(stack.redo().is_none());
    assert_eq!(stack.undo_count(), 1);
    assert_eq!(stack.redo_count(), 0);
}

#[test]
fn snapshot_repo_keeps_commit_ids() {
    let mut engine = SnapshotEngine::new(true);
    let snap = engine.pre_execution_snapshot("rm x", Some("abc123".to_string())).unwrap();
    assert_eq!(snap.commit_id, Some("abc123".to_string()));
    let mut plain = SnapshotEngine::new(false);
    let snap = plain.pre_execution_snapshot("rm x", Some("abc123".to_string())).unwrap();
    assert_eq!(snap.commit_id, None);
}

#[test]
fn snapshot_commit_messages() {
    assert_eq!(SnapshotEngine::pre_commit_message("rm a"), "omnishell: PRE | rm a");
    assert_eq!(SnapshotEngine::post_commit_message("rm a", -2), "omnishell: POST | rm a | exit=-2");
}

#[test]
fn snapshot_config_new_uses_dedicated_ref() {
    let config = SnapshotConfig::new();
    assert_eq!(config.ref_name, "refs/heads/omnishell-snapshots");
    assert_eq!(config.target, SnapshotTarget::DedicatedRef);
    assert_eq!(config.retention, SnapshotRetention::Unlimited);
    assert_eq!(config.trigger, SnapshotTrigger::Always);
}

#[test]
fn mutating_prefix_needs_word_boundary() {
    assert!(!SnapshotEngine::is_mutating_command("rmdir x"));
    assert!(SnapshotEngine::is_mutating_command("git commit -m x"));
    assert!(SnapshotEngine::is_mutating_command("dd"));
    assert!(!SnapshotEngine::is_mutating_command(""));
}
