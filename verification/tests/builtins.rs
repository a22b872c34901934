//! Built-in commands.

use omnishell::builtins::{ai_prompt, dispatch, BuiltinResult, HostRequest};
use omnishell::llm_integration::LlmResponse;
use omnishell::{AclEngine, Mode, Snapshot, SnapshotEngine, SnapshotPhase, UndoStack, Verdict};

fn args(v: &[&str]) -> Vec<String> {
    v.iter().map(|s| s.to_string()).collect()
}

#[test]
fn test_dispatch_ai_kids() {
    let mut acl = AclEngine::new(Mode::Kids);
    let result = dispatch(
        "?",
        &["what".to_string(), "is".to_string(), "ls?".to_string()],
        Mode::Kids,
        &mut acl,
        None,
        None,
        None,
    );
    let msg = result.unwrap();
    if let BuiltinResult::Success(s) = msg {
        assert!(s.contains("Kids tutor mode"));
    } else {
        panic!("Expected Success");
    }
}

#[test]
fn test_dispatch_ai_agent() {
    let mut acl = AclEngine::new(Mode::Agent);
    let result = dispatch("ai", &["build".to_string(), "project".to_string()], Mode::Agent, &mut acl, None, None, None);
    let msg = result.unwrap();
    if let BuiltinResult::Success(s) = msg {
        assert!(s.contains("\"type\":\"llm_request\""));
    } else {
        panic!("Expected Success");
    }
}

#[test]
fn test_dispatch_mode() {
    let mut acl = AclEngine::new(Mode::Admin);
    let result = dispatch("mode", &[], Mode::Admin, &mut acl, None, None, None);
    assert!(matches!(result, Some(BuiltinResult::Success(_))));

    let result = dispatch("mode", &["kids".to_string()], Mode::Admin, &mut acl, None, None, None);
    assert!(matches!(result, Some(BuiltinResult::SwitchMode(Mode::Kids))));
}

#[test]
fn test_dispatch_allow_block() {
    let mut acl = AclEngine::new(Mode::Admin);

    let result = dispatch("allow", &["neato".to_string()], Mode::Admin, &mut acl, None, None, None);
    assert!(matches!(result, Some(BuiltinResult::Success(_))));

    let result = dispatch("block", &["dangerous".to_string()], Mode::Admin, &mut acl, None, None, None);
    assert!(matches!(result, Some(BuiltinResult::Success(_))));

    assert!(acl.allowlist.iter().any(|r| r.pattern == "neato"));
    assert!(acl.blocklist.iter().any(|r| r.pattern == "dangerous"));
}

#[test]
fn test_dispatch_unknown() {
    let mut acl = AclEngine::new(Mode::Admin);
    assert!(dispatch("ls", &[], Mode::Admin, &mut acl, None, None, None).is_none());
    assert!(dispatch("cargo", &["build".to_string()], Mode::Admin, &mut acl, None, None, None).is_none());
}

#[test]
fn test_dispatch_exit() {
    let mut acl = AclEngine::new(Mode::Admin);
    assert!(matches!(dispatch("exit", &[], Mode::Admin, &mut acl, None, None, None), Some(BuiltinResult::Exit)));
    assert!(matches!(dispatch("quit", &[], Mode::Admin, &mut acl, None, None, None), Some(BuiltinResult::Exit)));
}

#[test]
fn test_help() {
    let mut acl = AclEngine::new(Mode::Admin);
    let result = dispatch("help", &[], Mode::Admin, &mut acl, None, None, None);
    if let Some(BuiltinResult::Success(s)) = result {
        assert!(s.contains("OmniShell"));
        assert!(s.contains("allow"));
        assert!(s.contains("block"));
    }
}

#[test]
fn runtime_acl_modification() {
    let mut acl = AclEngine::new(Mode::Admin);

    dispatch("block", &["danger".to_string()], Mode::Admin, &mut acl, None, None, None);

    assert!(matches!(acl.evaluate("danger"), Verdict::Deny(_)));
}

#[test]
fn test_builtin_dispatch_with_acl() {
    let mut acl = AclEngine::new(Mode::Kids);

    let result = dispatch("?", &["what is ls?".to_string()], Mode::Kids, &mut acl, None, None, None);
    assert!(matches!(result, Some(BuiltinResult::Success(_))));

    let result = dispatch("mode", &["agent".to_string()], Mode::Kids, &mut acl, None, None, None);
    assert!(matches!(result, Some(BuiltinResult::SwitchMode(Mode::Agent))));

    let mut acl = AclEngine::new(Mode::Admin);
    dispatch("allow", &["custom_cmd".to_string()], Mode::Admin, &mut acl, None, None, None);
    assert!(acl.allowlist.iter().any(|r| r.pattern == "custom_cmd"));

    dispatch("block", &["evil_cmd".to_string()], Mode::Admin, &mut acl, None, None, None);
    assert!(acl.blocklist.iter().any(|r| r.pattern == "evil_cmd"));
}

#[test]
fn test_runtime_acl_modification() {
    let mut acl = AclEngine::new(Mode::Admin);

    dispatch("block", &["danger".to_string()], Mode::Admin, &mut acl, None, None, None);
    assert!(matches!(acl.evaluate("danger"), Verdict::Deny(_)));

    dispatch("allow", &["danger".to_string()], Mode::Admin, &mut acl, None, None, None);

    // The blocklist still has it, and the blocklist overrides the allowlist.
    assert!(matches!(acl.evaluate("danger"), Verdict::Deny(_)));
}

fn success_text(r: Option<BuiltinResult>) -> String {
    match r {
        Some(BuiltinResult::Success(s)) => s,
        other => panic!("expected success, got {other:?}"),
    }
}

fn error_text(r: Option<BuiltinResult>) -> String {
    match r {
        Some(BuiltinResult::Error(s)) => s,
        other => panic!("expected error, got {other:?}"),
    }
}

#[test]
fn builtin_ai_texts() {
    let mut acl = AclEngine::new(Mode::Admin);
    assert_eq!(error_text(dispatch("ai", &[], Mode::Admin, &mut acl, None, None, None)), "Usage: ? <question> or ai <question>");
    assert_eq!(
        success_text(dispatch("?", &args(&["a", "b"]), Mode::Admin, &mut acl, None, None, None)),
        "[LLM] Query: a b (no client configured)"
    );
    assert_eq!(
        success_text(dispatch("?", &args(&["hi"]), Mode::Kids, &mut acl, None, None, None)),
        "🤖 (Kids tutor mode) You asked: \"hi\". LLM not configured."
    );
    let reply = Some(LlmResponse::Success("answer".to_string()));
    assert_eq!(success_text(dispatch("ai", &args(&["q"]), Mode::Agent, &mut acl, None, None, reply)), "answer");
    let reply = Some(LlmResponse::Disabled("off".to_string()));
    assert_eq!(error_text(dispatch("ai", &args(&["q"]), Mode::Agent, &mut acl, None, None, reply)), "off");
    assert_eq!(ai_prompt(&args(&["x", "y", "z"])), "x y z");
}

#[test]
fn builtin_acl_edits_need_permission() {
    let mut kids = AclEngine::new(Mode::Kids);
    let before = kids.blocklist.len();
    assert_eq!(
        error_text(dispatch("block", &args(&["x"]), Mode::Kids, &mut kids, None, None, None)),
        "'block' command is not available in this mode"
    );
    assert_eq!(kids.blocklist.len(), before);
    let mut acl = AclEngine::new(Mode::Agent);
    assert_eq!(
        error_text(dispatch("allow", &args(&["x"]), Mode::Agent, &mut acl, None, None, None)),
        "'allow' command is not available in this mode"
    );
    let before = acl.blocklist.len();
    assert_eq!(
        success_text(dispatch("block", &args(&["danger"]), Mode::Agent, &mut acl, None, None, None)),
        "Added 'danger' to blocklist"
    );
    assert_eq!(acl.blocklist.len(), before + 1);
    assert_eq!(acl.blocklist[before].pattern, "danger");
    assert!(acl.blocklist[before].args.is_empty());
    assert_eq!(acl.blocklist[before].reason, "Blocked by admin in agent mode");
    assert!(matches!(acl.evaluate("danger now"), Verdict::Deny(_)));
    assert_eq!(error_text(dispatch("allow", &[], Mode::Admin, &mut acl, None, None, None)), "Usage: allow <command>");
    let mut admin = AclEngine::new(Mode::Admin);
    assert_eq!(
        success_text(dispatch("allow", &args(&["tool", "needed", "daily"]), Mode::Admin, &mut admin, None, None, None)),
        "Added 'tool' to allowlist"
    );
    assert_eq!(admin.allowlist.last().unwrap().reason, "needed daily");
    dispatch("block", &args(&["evil"]), Mode::Admin, &mut admin, None, None, None);
    assert_eq!(admin.blocklist.last().unwrap().reason, "Blocked by admin in admin mode");
}

#[test]
fn builtin_mode_texts() {
    let mut acl = AclEngine::new(Mode::Admin);
    assert_eq!(success_text(dispatch("mode", &[], Mode::Kids, &mut acl, None, None, None)), "Current mode: kids");
    assert_eq!(success_text(dispatch("mode", &args(&["ROOT"]), Mode::Admin, &mut acl, None, None, None)), "Already in admin mode");
    assert_eq!(
        error_text(dispatch("mode", &args(&["wizard"]), Mode::Admin, &mut acl, None, None, None)),
        "Unknown mode: 'wizard'. Use: kids, agent, admin"
    );
    assert!(matches!(dispatch("mode", &args(&["child"]), Mode::Admin, &mut acl, None, None, None), Some(BuiltinResult::SwitchMode(Mode::Kids))));
}

#[test]
fn builtin_help_per_mode() {
    let mut acl = AclEngine::new(Mode::Admin);
    let kids = success_text(dispatch("help", &[], Mode::Kids, &mut acl, None, None, None));
    assert!(!kids.contains("allow"));
    assert!(kids.ends_with("  exit, quit      — Exit the shell\n"));
    let agent = success_text(dispatch("help", &[], Mode::Agent, &mut acl, None, None, None));
    assert!(agent.contains("block <cmd>"));
    assert!(!agent.contains("allow <cmd>"));
}

fn snap(phase: SnapshotPhase, command: &str, commit: Option<&str>) -> Snapshot {
    Snapshot {
        commit_id: commit.map(|c| c.to_string()),
        timestamp: 0,
        trigger_command: command.to_string(),
        phase,
        exit_code: if phase == SnapshotPhase::PostExecution { Some(0) } else { None },
    }
}

#[test]
fn builtin_snapshots_listing() {
    let mut acl = AclEngine::new(Mode::Admin);
    assert_eq!(
        success_text(dispatch("snapshots", &[], Mode::Admin, &mut acl, None, None, None)),
        "Snapshot history: (engine not available)"
    );
    let mut engine = SnapshotEngine::new(true);
    assert_eq!(success_text(dispatch("snapshots", &[], Mode::Admin, &mut acl, Some(&engine), None, None)), "No snapshots recorded.\n");
    engine.pre_execution_snapshot("rm a", Some("0123456789abcdef".to_string())).unwrap();
    engine.post_execution_snapshot("rm a", 3, None).unwrap();
    engine.pre_execution_snapshot("mv b c", None).unwrap();
    let all = success_text(dispatch("snapshots", &[], Mode::Admin, &mut acl, Some(&engine), None, None));
    assert_eq!(all, "  [(none)] PRE mv b c (exit=-)\n  [(none)] POST rm a (exit=3)\n  [0123456] PRE rm a (exit=-)\n");
    let limited = success_text(dispatch("snapshots", &args(&["-n", "1"]), Mode::Admin, &mut acl, Some(&engine), None, None));
    assert_eq!(limited, "  [(none)] PRE mv b c (exit=-)\n");
    let filtered = success_text(dispatch("snapshots", &args(&["--command", "rm", "--phase", "post"]), Mode::Admin, &mut acl, Some(&engine), None, None));
    assert_eq!(filtered, "  [(none)] POST rm a (exit=3)\n");
    assert_eq!(
        error_text(dispatch("snapshots", &args(&["--bogus"]), Mode::Admin, &mut acl, Some(&engine), None, None)),
        "snapshots: unknown option: --bogus"
    );
    let help = success_text(dispatch("snapshots", &args(&["-h"]), Mode::Admin, &mut acl, None, None, None));
    assert!(help.starts_with("Usage: snapshots [--limit N]"));
    assert!(help.contains("\n--limit, -n     Show last N snapshots\n"));
}

#[test]
fn builtin_undo_redo_counts() {
    let mut acl = AclEngine::new(Mode::Admin);
    let mut stack = UndoStack::new();
    assert_eq!(error_text(dispatch("undo", &[], Mode::Admin, &mut acl, None, Some(&mut stack), None)), "Nothing to undo");
    for c in ["a", "b", "c"] {
        stack.record(snap(SnapshotPhase::PreExecution, c, None), Some(snap(SnapshotPhase::PostExecution, c, None)), c.to_string());
    }
    assert_eq!(success_text(dispatch("undo", &args(&["5"]), Mode::Admin, &mut acl, None, Some(&mut stack), None)), "Undone 3 command(s)");
    assert_eq!(stack.undo_count(), 0);
    assert_eq!(success_text(dispatch("redo", &args(&["x"]), Mode::Admin, &mut acl, None, Some(&mut stack), None)), "Redone 1 command(s)");
    assert_eq!(success_text(dispatch("redo", &args(&["2"]), Mode::Admin, &mut acl, None, Some(&mut stack), None)), "Redone 2 command(s)");
    assert_eq!(error_text(dispatch("redo", &[], Mode::Admin, &mut acl, None, Some(&mut stack), None)), "Nothing to redo");
    assert_eq!(
        success_text(dispatch("undo", &args(&["2"]), Mode::Admin, &mut acl, None, None, None)),
        "Undoing 2 command(s)... (stack not available)"
    );
}

#[test]
fn builtin_host_requests() {
    let mut acl = AclEngine::new(Mode::Admin);
    assert!(matches!(dispatch("export", &[], Mode::Admin, &mut acl, None, None, None), Some(BuiltinResult::Host(HostRequest::ListEnv))));
    match dispatch("export", &args(&["A=1=2", "B"]), Mode::Admin, &mut acl, None, None, None) {
        Some(BuiltinResult::Host(HostRequest::Export(v))) => {
            assert_eq!(v, vec![("A".to_string(), Some("1=2".to_string())), ("B".to_string(), None)]);
        }
        other => panic!("unexpected {other:?}"),
    }
    match dispatch(".", &args(&["file.sh"]), Mode::Admin, &mut acl, None, None, None) {
        Some(BuiltinResult::Host(HostRequest::Source(p))) => assert_eq!(p, "file.sh"),
        other => panic!("unexpected {other:?}"),
    }
    assert_eq!(error_text(dispatch("alias", &args(&["ll=ls"]), Mode::Kids, &mut acl, None, None, None)), "alias: not available in Kids mode");
    match dispatch("alias", &args(&["ll=ls -l", "bad", "x=y"]), Mode::Admin, &mut acl, None, None, None) {
        Some(BuiltinResult::Host(HostRequest::SetAliases(v, err))) => {
            assert_eq!(v, vec![("_OMNISHELL_ALIAS_ll".to_string(), "ls -l".to_string())]);
            assert_eq!(err, Some("alias: invalid format: bad (use name=value)".to_string()));
        }
        other => panic!("unexpected {other:?}"),
    }
    match dispatch("unalias", &args(&["ll"]), Mode::Agent, &mut acl, None, None, None) {
        Some(BuiltinResult::Host(HostRequest::Unalias(v))) => {
            assert_eq!(v, vec![("_OMNISHELL_ALIAS_ll".to_string(), "ll".to_string())]);
        }
        other => panic!("unexpected {other:?}"),
    }
    assert_eq!(error_text(dispatch("unalias", &[], Mode::Agent, &mut acl, None, None, None)), "Usage: unalias <name>");
}
