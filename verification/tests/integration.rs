//! Interaction between modules: ACL, output, prompts, sandbox and history.

use omnishell::history::{History, HistoryConfig};
use omnishell::llm_integration::system_prompt;
use omnishell::output::{format_error, format_output, CommandOutput};
use omnishell::sandbox::Sandbox;
use omnishell::{AclEngine, Mode, Verdict};

fn output_of(command: &str, stdout: &str, duration_ms: u64) -> CommandOutput {
    CommandOutput {
        command: command.to_string(),
        stdout: stdout.to_string(),
        stderr: String::new(),
        exit_code: 0,
        duration_ms,
    }
}

#[test]
fn test_kids_mode_pipeline() {
    let mode = Mode::Kids;
    let acl = AclEngine::new(mode);

    assert_eq!(acl.evaluate("ls -la"), Verdict::Allow);
    let formatted = format_output(&output_of("ls -la", "file1.txt\nfile2.txt\n", 10), mode);
    assert!(formatted.contains("✅"));

    assert!(matches!(acl.evaluate("sudo bash"), Verdict::Deny(_)));
    let err = format_error("Command blocked by ACL", mode);
    assert!(err.contains("❌"));
}

#[test]
fn test_agent_mode_pipeline() {
    let mode = Mode::Agent;
    let acl = AclEngine::new(mode);

    assert_eq!(acl.evaluate("cargo build"), Verdict::Allow);
    let formatted = format_output(&output_of("cargo build", "Compiling...", 5000), mode);
    let parsed: serde_json::Value = serde_json::from_str(&formatted).unwrap();
    assert_eq!(parsed["type"], "success");
    assert_eq!(parsed["exitCode"], 0);

    assert!(matches!(acl.evaluate("sudo rm -rf /"), Verdict::Deny(_)));
    let err = format_error("sudo blocked", mode);
    let parsed_err: serde_json::Value = serde_json::from_str(&err).unwrap();
    assert_eq!(parsed_err["type"], "error");
}

#[test]
fn test_llm_prompt_matches_output_mode() {
    let kids_prompt = system_prompt(Mode::Kids);
    assert!(kids_prompt.contains("OmniTutor"));
    let kids_output = format_output(&output_of("ls", "file.txt", 10), Mode::Kids);
    assert!(kids_output.contains("✅"));

    let agent_prompt = system_prompt(Mode::Agent);
    assert!(agent_prompt.contains("JSON"));
    let agent_output = format_output(&output_of("ls", "file.txt", 10), Mode::Agent);
    let parsed: serde_json::Value = serde_json::from_str(&agent_output).unwrap();
    assert_eq!(parsed["type"], "success");
}

#[test]
fn test_sandbox_acl_interaction() {
    let acl = AclEngine::new(Mode::Kids);
    let sandbox = Sandbox::new(Sandbox::kids_default("/home/child"));

    assert!(sandbox.is_enabled());
    assert!(matches!(acl.evaluate("ls"), Verdict::Allow));
    assert!(matches!(acl.evaluate("sudo"), Verdict::Deny(_)));

    let acl = AclEngine::new(Mode::Admin);
    let sandbox = Sandbox::new(Sandbox::disabled());

    assert!(!sandbox.is_enabled());
    assert_eq!(acl.evaluate("sudo"), Verdict::Allow);
}

#[test]
fn test_history_audit_lifecycle() {
    let mut history = History::new(Mode::Agent, HistoryConfig { persistent: false, ..Default::default() });

    let commands = ["cargo build", "cargo test", "cargo clippy"];
    for cmd in &commands {
        history.push(cmd, 0, None);
    }

    assert_eq!(history.len(), 3);

    let results = history.search("cargo");
    assert_eq!(results.len(), 3);

    let results = history.search("test");
    assert_eq!(results.len(), 1);
    assert_eq!(results[0].command, "cargo test");
}

#[test]
fn test_full_mode_switch() {
    for mode in [Mode::Kids, Mode::Agent, Mode::Admin] {
        let acl = AclEngine::new(mode);
        let sandbox_config = Sandbox::config_for_mode(mode, "/home/test");
        let prompt = system_prompt(mode);

        match mode {
            Mode::Kids => {
                assert!(matches!(acl.evaluate("sudo"), Verdict::Deny(_)));
                assert!(sandbox_config.enabled);
                assert!(prompt.contains("OmniTutor"));
            }
            Mode::Agent => {
                assert!(matches!(acl.evaluate("cargo build"), Verdict::Allow));
                assert!(!sandbox_config.enabled);
                assert!(prompt.contains("JSON"));
            }
            Mode::Admin => {
                assert!(matches!(acl.evaluate("sudo"), Verdict::Allow));
                assert!(!sandbox_config.enabled);
                assert!(prompt.contains("system administrator"));
            }
        }
    }
}
