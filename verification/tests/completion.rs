//! Tab completion.

use omnishell::completion::{builtin_names, CompletionEngine};
use omnishell::{AclEngine, Mode};

/// Commands as a scan of a typical `PATH` finds them.
fn path_commands() -> Vec<String> {
    ["ls", "cat", "echo", "cargo", "git", "grep", "ls", "sudo", "unzip"].iter().map(|s| s.to_string()).collect()
}

fn engine() -> CompletionEngine {
    CompletionEngine::new(path_commands())
}

#[test]
fn test_complete_builtin_prefix() {
    let engine = engine();
    let acl = AclEngine::new(Mode::Admin);
    let results = engine.complete("un", Mode::Admin, &acl);
    assert!(results.contains(&"undo".to_string()));
}

#[test]
fn test_complete_ai_builtin() {
    let engine = engine();
    let acl = AclEngine::new(Mode::Admin);
    let results = engine.complete("a", Mode::Admin, &acl);
    assert!(results.contains(&"ai".to_string()));
    assert!(results.contains(&"allow".to_string()));
}

#[test]
fn test_complete_kids_mode_restricted() {
    let engine = engine();
    let acl = AclEngine::new(Mode::Kids);
    let results = engine.complete("", Mode::Kids, &acl);

    assert!(results.contains(&String::from("?")));
    assert!(results.contains(&String::from("ls")));
    assert!(results.contains(&String::from("echo")));
}

#[test]
fn test_complete_admin_mode_has_path() {
    let engine = engine();
    let acl = AclEngine::new(Mode::Admin);
    let results = engine.complete("ls", Mode::Admin, &acl);
    assert!(results.iter().any(|r| r == "ls"));
}

#[test]
fn test_all_commands_non_empty() {
    let engine = engine();
    let acl = AclEngine::new(Mode::Admin);
    let commands = engine.all_commands(Mode::Admin, &acl);
    assert!(!commands.is_empty());
    assert!(commands.contains(&String::from("?")));
}

#[test]
fn test_builtin_names() {
    let names = builtin_names();
    assert!(names.contains(&String::from("?")));
    assert!(names.contains(&String::from("ai")));
    assert!(names.contains(&String::from("help")));
    assert!(names.contains(&String::from("exit")));
    assert_eq!(names.len(), 11);
}

#[test]
fn completion_results_are_sorted() {
    let engine = engine();
    let acl = AclEngine::new(Mode::Admin);
    let results = engine.complete("u", Mode::Admin, &acl);
    assert_eq!(results, vec!["undo".to_string(), "unzip".to_string()]);
    let all = engine.all_commands(Mode::Agent, &acl);
    let mut sorted = all.clone();
    sorted.sort();
    assert_eq!(all, sorted);
    // `ls` appears twice on PATH but once in the engine.
    assert_eq!(all.iter().filter(|c| *c == "ls").count(), 1);
}

#[test]
fn kids_completion_excludes_path_and_globs() {
    let engine = engine();
    let acl = AclEngine::new(Mode::Kids);
    let results = engine.complete("", Mode::Kids, &acl);
    assert!(!results.contains(&"sudo".to_string()));
    assert!(!results.contains(&"cargo".to_string()));
    assert!(results.iter().all(|r| !r.contains('*')));
    let mut dedup = results.clone();
    dedup.dedup();
    assert_eq!(dedup, results);
}

#[test]
fn argument_completion_from_listing() {
    let engine = engine();
    assert_eq!(CompletionEngine::arg_target("src/ma"), ("src".to_string(), "ma".to_string()));
    assert_eq!(CompletionEngine::arg_target("ma"), (".".to_string(), "ma".to_string()));
    let listing = vec![
        ("main.rs".to_string(), false),
        ("macros".to_string(), true),
        ("lib.rs".to_string(), false),
    ];
    assert_eq!(engine.complete_args("src/ma", &listing), vec!["macros/".to_string(), "main.rs".to_string()]);
    assert!(engine.complete_args("src/zz", &listing).is_empty());
}

#[test]
fn refresh_replaces_path_commands() {
    let mut engine = engine();
    let acl = AclEngine::new(Mode::Admin);
    engine.refresh(vec!["zebra".to_string()]);
    assert_eq!(engine.complete("z", Mode::Admin, &acl), vec!["zebra".to_string()]);
    assert!(engine.complete("ca", Mode::Admin, &acl).is_empty());
}

#[test]
fn kids_completion_offers_configured_patterns_but_not_the_tutor_rule() {
    let engine = engine();
    let mut acl = AclEngine::new(Mode::Kids);
    acl.allowlist.push(omnishell::AclRule { pattern: "x[12]".to_string(), args: vec![], reason: "r".to_string() });
    acl.allowlist.push(omnishell::AclRule { pattern: "py*".to_string(), args: vec![], reason: "r".to_string() });
    let results = engine.complete("", Mode::Kids, &acl);
    assert!(results.contains(&"x[12]".to_string()));
    assert!(!results.contains(&"py*".to_string()));
    assert!(!results.contains(&"[?]".to_string()));
    assert!(results.contains(&"?".to_string()));
    assert_eq!(engine.all_commands(Mode::Kids, &acl), results);
    let admin = AclEngine::new(Mode::Admin);
    assert!(engine.all_commands(Mode::Admin, &admin).contains(&"?".to_string()));
}
