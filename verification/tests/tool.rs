//! The shell tool for agent loops.

use omnishell::builtins::{BuiltinResult, HostRequest};
use omnishell::engram_backend::{OmniShellTool, ShellToolInput, ToolStep};
use omnishell::Mode;

fn input(command: &str) -> ShellToolInput {
    ShellToolInput { command: command.to_string(), working_dir: None, timeout: 0, capture_stderr: true }
}

#[test]
fn test_tool_name_and_description() {
    let tool = OmniShellTool::new(Mode::Agent);
    assert_eq!(tool.name(), "omnishell");
    assert!(!tool.description().is_empty());
}

#[test]
fn test_execute_builtin_command() {
    let tool = OmniShellTool::new(Mode::Admin);
    let result = match tool.execute(&input("help"), 0) {
        ToolStep::Done(o) => o,
        other => panic!("unexpected {other:?}"),
    };
    assert!(result.allowed);
    assert!(result.stdout.contains("OmniShell"));
    assert_eq!(result.exit_code, Some(0));
}

#[test]
fn test_execute_mode_switch() {
    let tool = OmniShellTool::new(Mode::Admin);
    let result = match tool.execute(&input("mode kids"), 0) {
        ToolStep::Done(o) => o,
        other => panic!("unexpected {other:?}"),
    };
    assert!(result.allowed);
    assert!(result.stdout.contains("Switched to kids mode"));
}

#[test]
fn tool_denial_record() {
    let tool = OmniShellTool::new(Mode::Agent);
    match tool.execute(&input("sudo rm -rf /"), 12) {
        ToolStep::Done(o) => {
            assert!(!o.allowed);
            assert_eq!(o.exit_code, None);
            assert!(o.denial_reason.is_some());
            assert_eq!(o.mode, "agent");
            assert_eq!(o.duration_ms, 12);
        }
        other => panic!("unexpected {other:?}"),
    }
}

#[test]
fn tool_spawn_words_follow_shell_quoting() {
    let tool = OmniShellTool::new(Mode::Admin);
    match tool.execute(&input("echo 'a b' c"), 0) {
        ToolStep::Spawn { program, args } => {
            assert_eq!(program, "echo");
            assert_eq!(args, vec!["a b".to_string(), "c".to_string()]);
        }
        other => panic!("unexpected {other:?}"),
    }
    // Broken quoting falls back to white-space words.
    match tool.execute(&input("echo 'open"), 0) {
        ToolStep::Spawn { program, args } => {
            assert_eq!(program, "echo");
            assert_eq!(args, vec!["'open".to_string()]);
        }
        other => panic!("unexpected {other:?}"),
    }
    match tool.execute(&input("   "), 0) {
        ToolStep::Done(o) => {
            assert_eq!(o.stderr, "Empty command");
            assert_eq!(o.exit_code, Some(1));
        }
        other => panic!("unexpected {other:?}"),
    }
}

#[test]
fn tool_host_request_and_outputs() {
    let tool = OmniShellTool::new(Mode::Admin);
    assert!(matches!(tool.execute(&input("export"), 0), ToolStep::Host(HostRequest::ListEnv)));
    let out = tool.builtin_output("x", BuiltinResult::Error("bad".to_string()), 3);
    assert_eq!(out.stdout, "bad");
    assert_eq!(out.exit_code, Some(1));
    let out = tool.builtin_output("x", BuiltinResult::Exit, 3);
    assert_eq!(out.stdout, "Shell exit requested");
    let ran = tool.spawn_output("ls", Ok(("out".to_string(), "err".to_string(), Some(2))), 5);
    assert_eq!((ran.stdout.as_str(), ran.stderr.as_str(), ran.exit_code), ("out", "err", Some(2)));
    let failed = tool.spawn_output("nope", Err("not found".to_string()), 5);
    assert_eq!(failed.stderr, "Execution error: not found");
    assert_eq!(failed.exit_code, Some(126));
}

#[test]
fn tool_truncates_long_output() {
    let tool = OmniShellTool::new(Mode::Admin);
    let long = "x".repeat(50_010);
    let ran = tool.spawn_output("yes", Ok((long, String::new(), Some(0))), 0);
    assert!(ran.stdout.starts_with(&"x".repeat(50_000)));
    assert!(ran.stdout.ends_with("...\n[truncated, 50010 total bytes]"));
    assert_eq!(ran.stdout.len(), 50_000 + "...\n[truncated, 50010 total bytes]".len());
}

#[test]
fn test_input_schema_valid_json() {
    let tool = OmniShellTool::new(Mode::Agent);
    let schema: serde_json::Value = serde_json::from_str(tool.input_schema()).unwrap();
    assert_eq!(schema["type"], "object");
    assert!(schema["properties"]["command"].is_object());
    assert_eq!(schema["required"][0], "command");
}
