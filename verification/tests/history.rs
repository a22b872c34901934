//! Command history.

use omnishell::history::{History, HistoryConfig, HistoryEntry};
use omnishell::profile::Mode;

fn fresh(config: HistoryConfig) -> History {
    History::new(Mode::Admin, config)
}

#[test]
fn test_push_and_recent() {
    let mut history = fresh(HistoryConfig { persistent: false, ..Default::default() });

    history.push("ls", 0, None);
    history.push("cd /tmp", 0, None);
    history.push("rm file", 1, None);

    let recent: Vec<_> = history.recent(2);
    assert_eq!(recent.len(), 2);
    assert_eq!(recent[0].command, "rm file");
    assert_eq!(recent[1].command, "cd /tmp");
}

#[test]
fn test_deduplicate_consecutive() {
    let mut history = fresh(HistoryConfig { persistent: false, deduplicate: true, ..Default::default() });

    history.push("ls", 0, None);
    history.push("ls", 0, None);
    history.push("ls", 0, None);

    assert_eq!(history.len(), 1);
}

#[test]
fn test_no_deduplicate_different_commands() {
    let mut history = fresh(HistoryConfig { persistent: false, deduplicate: true, ..Default::default() });

    history.push("ls", 0, None);
    history.push("pwd", 0, None);
    history.push("ls", 0, None);

    assert_eq!(history.len(), 3);
}

#[test]
fn test_search() {
    let mut history = fresh(HistoryConfig { persistent: false, ..Default::default() });

    history.push("cargo build", 0, None);
    history.push("cargo test", 0, None);
    history.push("ls", 0, None);

    let results = history.search("cargo");
    assert_eq!(results.len(), 2);
}

#[test]
fn test_search_case_insensitive() {
    let mut history = fresh(HistoryConfig { persistent: false, ..Default::default() });

    history.push("Cargo Build", 0, None);
    let results = history.search("cargo");
    assert_eq!(results.len(), 1);
}

#[test]
fn test_clear() {
    let mut history = fresh(HistoryConfig { persistent: false, ..Default::default() });

    history.push("ls", 0, None);
    history.push("pwd", 0, None);
    assert_eq!(history.len(), 2);

    history.clear();
    assert!(history.is_empty());
}

#[test]
fn test_max_entries_enforcement() {
    let mut history = fresh(HistoryConfig { persistent: false, max_entries: 3, ..Default::default() });

    history.push("cmd1", 0, None);
    history.push("cmd2", 0, None);
    history.push("cmd3", 0, None);
    history.push("cmd4", 0, None);

    assert_eq!(history.len(), 3);
    // The first entry is cmd2 (cmd1 was evicted).
    assert_eq!(history.entries()[0].command, "cmd2");
}

#[test]
fn test_empty_command_skipped() {
    let mut history = fresh(HistoryConfig { persistent: false, ..Default::default() });

    history.push("", 0, None);
    history.push("   ", 0, None);
    assert!(history.is_empty());
}

#[test]
fn test_working_dir_recorded() {
    let mut history = fresh(HistoryConfig { persistent: false, ..Default::default() });

    history.push("ls", 0, Some("/home/user"));
    assert_eq!(history.entries()[0].working_dir, Some("/home/user".to_string()));
}

#[test]
fn history_default_config_values() {
    let config = HistoryConfig::default();
    assert_eq!(config.max_entries, 10_000);
    assert!(config.persistent);
    assert!(config.deduplicate);
}

#[test]
fn history_file_path_names_the_mode() {
    let h = History::new(Mode::Kids, HistoryConfig::default());
    assert!(h.file_path().ends_with("/omnishell/history_kids.jsonl"));
    let h = History::new(Mode::Agent, HistoryConfig::default());
    assert!(h.file_path().ends_with("/omnishell/history_agent.jsonl"));
}

#[test]
fn history_never_exceeds_capacity() {
    let mut history = fresh(HistoryConfig { persistent: false, max_entries: 2, deduplicate: false });
    for cmd in ["a", "b", "c", "d", "e"] {
        history.push(cmd, 0, None);
        assert!(history.len() <= 2);
    }
    assert_eq!(history.entries()[0].command, "d");
    assert_eq!(history.entries()[1].command, "e");
}

#[test]
fn history_zero_capacity_keeps_the_latest() {
    let mut history = fresh(HistoryConfig { persistent: false, max_entries: 0, deduplicate: false });
    history.push("a", 0, None);
    history.push("b", 0, None);
    assert_eq!(history.len(), 1);
    assert_eq!(history.entries()[0].command, "b");
}

#[test]
fn history_dedup_off_keeps_repeats() {
    let mut history = fresh(HistoryConfig { persistent: false, deduplicate: false, ..Default::default() });
    history.push("ls", 0, None);
    history.push("ls", 2, None);
    assert_eq!(history.len(), 2);
    assert_eq!(history.entries()[1].exit_code, 2);
}

#[test]
fn history_search_prev_walks_backwards() {
    let mut history = fresh(HistoryConfig { persistent: false, ..Default::default() });
    assert!(history.search_prev().is_none());
    history.push("one", 0, None);
    history.push("two", 0, None);
    history.push("three", 0, None);
    assert_eq!(history.search_prev().unwrap().command, "three");
    assert_eq!(history.search_prev().unwrap().command, "two");
    assert_eq!(history.search_prev().unwrap().command, "one");
    assert!(history.search_prev().is_none());
    history.reset_search();
    assert_eq!(history.search_prev().unwrap().command, "three");
}

#[test]
fn history_search_newest_first() {
    let mut history = fresh(HistoryConfig { persistent: false, ..Default::default() });
    history.push("cargo build", 0, None);
    history.push("ls", 0, None);
    history.push("CARGO test", 0, None);
    let results = history.search("Cargo");
    assert_eq!(results.len(), 2);
    assert_eq!(results[0].command, "CARGO test");
    assert_eq!(results[1].command, "cargo build");
}

#[test]
fn history_load_entry_keeps_repeats_and_evicts() {
    let mut history = History::with_file(
        HistoryConfig { persistent: false, max_entries: 2, deduplicate: true },
        "/tmp/h.jsonl".to_string(),
    );
    for cmd in ["x", "x", "y"] {
        history.load_entry(HistoryEntry { command: cmd.to_string(), timestamp: 1, exit_code: 0, working_dir: None });
    }
    assert_eq!(history.len(), 2);
    assert_eq!(history.entries()[0].command, "x");
    assert_eq!(history.entries()[1].command, "y");
    assert_eq!(history.file_path(), "/tmp/h.jsonl");
}

#[test]
fn search_prev_walks_back_through_every_entry_then_stops() {
    let config = HistoryConfig { max_entries: 100, persistent: false, deduplicate: false };
    for k in 0..6usize {
        let mut history = History::new(Mode::Admin, config.clone());
        for n in 0..k {
            history.push(&format!("cmd{n}"), 0, None);
        }
        let before: Vec<String> = history.entries().iter().map(|e| e.command.clone()).collect();
        assert_eq!(before.len(), k);
        for j in 0..k {
            let got = history.search_prev().map(|e| e.command.clone());
            assert_eq!(got, Some(before[k - 1 - j].clone()));
        }
        for _ in 0..3 {
            assert!(history.search_prev().is_none());
        }
        let after: Vec<String> = history.entries().iter().map(|e| e.command.clone()).collect();
        assert_eq!(after, before);
        history.reset_search();
        if k > 0 {
            assert_eq!(history.search_prev().unwrap().command, before[k - 1]);
        }
    }
}
