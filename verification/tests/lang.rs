//! The shell language: expansion, the `test` builtin, simple-command
//! decisions, redirections, line continuation and the evaluator.

use omnishell::command_step::{cd_destination_of, cd_target_allowed, next_command_step, pipeline_stage_denial, CommandStep};
use omnishell::expansion::{expand_arg, expand_words, substitute, substitution_runs, SubstRun};
use omnishell::line_check::OmniShellLang;
use omnishell::numbers::{parse_i32, parse_i64};
use omnishell::profile::Mode;
use omnishell::redirects::{action_of, redirect_plan, OpenHow, Redirect, RedirectAction, RedirectMode, Slot};
use omnishell::restore::{entry_rel_path, pass_result, should_prune, skip_entry, TargetPaths};
use omnishell::shell_ast::{Assignment, CaseArms, FunctionTable, ShellCommand};
use omnishell::shell_eval::{line_report, Outcome, ShellAction, ShellEval, ShellEvent};
use omnishell::shell_test::{builtin_bracket, builtin_test, PathFacts};
use omnishell::AclEngine;

fn words(v: &[&str]) -> Vec<String> {
    v.iter().map(|s| s.to_string()).collect()
}

fn simple(v: &[&str]) -> ShellCommand {
    ShellCommand::Simple { assigns: vec![], redirects: vec![], args: words(v) }
}

fn boxed(c: ShellCommand) -> Box<ShellCommand> {
    Box::new(c)
}

#[test]
fn test_expand_arg_literal() {
    assert_eq!(expand_arg("hello"), vec!["hello"]);
}

#[test]
fn test_expand_arg_quoted() {
    let result = expand_arg("'hello'");
    assert_eq!(result, vec!["hello"]);
}

#[test]
fn test_expand_arg_tilde() {
    let expanded = expand_arg("~/foo");
    assert!(expanded[0].ends_with("/foo"));
    assert!(!expanded[0].starts_with('~'));
}

#[test]
fn test_cmd_sub_regex() {
    let re = regex::Regex::new(r"\$\(([^)]+)\)").unwrap();
    let cap = re.captures("echo $(date)").unwrap();
    assert_eq!(&cap[1], "date");

    let cap2 = re.captures("result=$(echo hello)").unwrap();
    assert_eq!(&cap2[1], "echo hello");
}

#[test]
fn test_arithmetic_regex() {
    let re = regex::Regex::new(r#"\$\(\(([^)]+)\)\)"#).unwrap();
    let cap = re.captures("echo $((1+2))").unwrap();
    assert_eq!(&cap[1], "1+2");

    let cap2 = re.captures("$((10 * 5))").unwrap();
    assert_eq!(&cap2[1], "10 * 5");
}

#[test]
fn expand_words_quotes_and_globs() {
    assert_eq!(expand_words("\"a b\"", None), vec!["a", "b"]);
    assert_eq!(expand_words("''", None), Vec::<String>::new());
    assert_eq!(expand_words("", None), vec![""]);
    assert_eq!(expand_words("*.rs", Some(words(&["a.rs", "b.rs"]))), vec!["a.rs", "b.rs"]);
    assert_eq!(expand_words("*.rs", Some(vec![])), vec!["*.rs"]);
    assert_eq!(expand_words("plain", Some(words(&["x"]))), vec!["plain"]);
}

#[test]
fn substitute_arithmetic_variables_and_tilde() {
    let env = vec![("HOME".to_string(), "/h".to_string()), ("USER".to_string(), "kid".to_string())];
    assert_eq!(substitute("echo $((1+2))", &vec![], &env, None), "echo 3");
    assert_eq!(substitute("$HOME/x", &vec![], &env, None), "/h/x");
    assert_eq!(substitute("${USER}!", &vec![], &env, None), "kid!");
    assert_eq!(substitute("$MISSING.", &vec![], &env, None), ".");
    assert_eq!(substitute("~/a", &vec![], &env, Some("/home/me")), "/home/me/a");
    assert_eq!(substitute("now: $(date)", &vec!["Mon".to_string()], &env, None), "now: Mon");
}

#[test]
fn substitution_runs_follow_acl() {
    let runs = substitution_runs("x $(date) y", Mode::Admin);
    assert_eq!(runs.len(), 1);
    match &runs[0] {
        SubstRun::Run(w) => assert_eq!(w, &words(&["date"])),
        other => panic!("unexpected {:?}", other),
    }
    let runs = substitution_runs("$(sudo rm -rf /)", Mode::Agent);
    assert!(matches!(runs[0], SubstRun::Skip));
    assert!(substitution_runs("no substitution", Mode::Admin).is_empty());
}

#[test]
fn parse_signed_numbers() {
    assert_eq!(parse_i64("42"), Some(42));
    assert_eq!(parse_i64("-9223372036854775808"), Some(i64::MIN));
    assert_eq!(parse_i64("9223372036854775808"), None);
    assert_eq!(parse_i64("+7"), Some(7));
    assert_eq!(parse_i64("-"), None);
    assert_eq!(parse_i64("1x"), None);
    assert_eq!(parse_i32("2147483648"), None);
    assert_eq!(parse_i32("-2147483648"), Some(i32::MIN));
}

#[test]
fn test_builtin_string_and_number_tests() {
    let none: Vec<PathFacts> = vec![];
    assert_eq!(builtin_test(&words(&["-z", ""]), &none), 0);
    assert_eq!(builtin_test(&words(&["-z", "x"]), &none), 1);
    assert_eq!(builtin_test(&words(&["-n", "x"]), &none), 0);
    assert_eq!(builtin_test(&words(&["a", "=", "a"]), &none), 0);
    assert_eq!(builtin_test(&words(&["a", "!=", "a"]), &none), 1);
    assert_eq!(builtin_test(&words(&["1", "-lt", "2"]), &none), 0);
    assert_eq!(builtin_test(&words(&["3", "-le", "2"]), &none), 1);
    assert_eq!(builtin_test(&words(&["!", "-n", ""]), &none), 0);
    assert_eq!(builtin_test(&words(&["x", "-a", ""]), &none), 1);
    assert_eq!(builtin_test(&words(&["", "-o", "y"]), &none), 0);
    assert_eq!(builtin_test(&words(&[]), &none), 1);
    assert_eq!(builtin_bracket(&words(&["-n", "x", "]"]), &none), 0);
}

#[test]
fn test_builtin_file_tests_use_facts() {
    let facts = vec![PathFacts {
        path: "/etc/passwd".to_string(),
        exists: true,
        is_file: true,
        is_dir: false,
        executable: false,
        nonempty: true,
    }];
    assert_eq!(builtin_test(&words(&["-f", "/etc/passwd"]), &facts), 0);
    assert_eq!(builtin_test(&words(&["-d", "/etc/passwd"]), &facts), 1);
    assert_eq!(builtin_test(&words(&["-e", "/nowhere"]), &facts), 1);
    assert_eq!(builtin_test(&words(&["-s", "/etc/passwd"]), &facts), 0);
}

#[test]
fn command_step_keywords() {
    let acl = AclEngine::new(Mode::Admin);
    assert!(matches!(next_command_step(&words(&["exit", "3"]), Mode::Admin, &acl, "/", "/root"), CommandStep::Exit(3)));
    assert!(matches!(next_command_step(&words(&["exit"]), Mode::Admin, &acl, "/", "/root"), CommandStep::Exit(0)));
    assert!(matches!(
        next_command_step(&words(&["true"]), Mode::Admin, &acl, "/", "/root"),
        CommandStep::Done { status: 0, .. }
    ));
    assert!(matches!(
        next_command_step(&words(&["false"]), Mode::Admin, &acl, "/", "/root"),
        CommandStep::Done { status: 1, .. }
    ));
    assert!(matches!(next_command_step(&words(&["break"]), Mode::Admin, &acl, "/", "/root"), CommandStep::Break));
    assert!(matches!(next_command_step(&words(&["continue"]), Mode::Admin, &acl, "/", "/root"), CommandStep::Continue));
    match next_command_step(&words(&["[", "a", "]"]), Mode::Admin, &acl, "/", "/root") {
        CommandStep::Test(a) => assert_eq!(a, words(&["a"])),
        other => panic!("unexpected {:?}", other),
    }
    assert!(matches!(next_command_step(&words(&["ls", "-l"]), Mode::Admin, &acl, "/", "/root"), CommandStep::Run));
}

#[test]
fn command_step_acl_and_questions() {
    let kids = AclEngine::new(Mode::Kids);
    match next_command_step(&words(&["sudo", "ls"]), Mode::Kids, &kids, "/home/kid", "/home/kid") {
        CommandStep::Done { stdout, stderr, status } => {
            assert!(stdout.is_none());
            assert!(stderr.unwrap().starts_with("❌"));
            assert_eq!(status, 126);
        }
        other => panic!("unexpected {:?}", other),
    }
    let admin = AclEngine::new(Mode::Admin);
    match next_command_step(&words(&["?"]), Mode::Admin, &admin, "/", "/root") {
        CommandStep::Done { stderr, status, .. } => {
            assert_eq!(stderr.as_deref(), Some("Usage: ? <question> or ai <question>"));
            assert_eq!(status, 1);
        }
        other => panic!("unexpected {:?}", other),
    }
    match next_command_step(&words(&["ai", "what", "is"]), Mode::Admin, &admin, "/", "/root") {
        CommandStep::Ask(q) => assert_eq!(q, "what is"),
        other => panic!("unexpected {:?}", other),
    }
    match next_command_step(&words(&["mode", "agent"]), Mode::Admin, &admin, "/", "/root") {
        CommandStep::SwitchMode { mode, line } => {
            assert_eq!(mode, Mode::Agent);
            assert_eq!(line, "Switched to agent mode");
        }
        other => panic!("unexpected {:?}", other),
    }
    match next_command_step(&words(&["help"]), Mode::Admin, &admin, "/", "/root") {
        CommandStep::Done { stdout, status, .. } => {
            assert!(stdout.unwrap().contains("OmniShell"));
            assert_eq!(status, 0);
        }
        other => panic!("unexpected {:?}", other),
    }
}

#[test]
fn kids_cd_stays_in_sandbox() {
    assert_eq!(cd_destination_of("../x", "/home/kid/a"), "/home/kid/x");
    assert_eq!(cd_destination_of("/a/./b/../c", "/"), "/a/c");
    assert!(cd_target_allowed("/tmp/x", "/", "/home/kid"));
    assert!(cd_target_allowed("docs", "/home/kid", "/home/kid"));
    assert!(!cd_target_allowed("/etc", "/home/kid", "/home/kid"));
    assert!(!cd_target_allowed("../..", "/home/kid", "/home/kid"));
    let kids = AclEngine::new(Mode::Kids);
    match next_command_step(&words(&["cd", "/etc"]), Mode::Kids, &kids, "/home/kid", "/home/kid") {
        CommandStep::Done { stderr, status, .. } => {
            assert_eq!(stderr.as_deref(), Some("cd: cannot go to '/etc' — outside sandbox in Kids mode"));
            assert_eq!(status, 1);
        }
        other => panic!("unexpected {:?}", other),
    }
}

#[test]
fn pipeline_stage_denied_by_acl() {
    let agent = AclEngine::new(Mode::Agent);
    assert!(pipeline_stage_denial(&words(&["sudo", "ls"]), Mode::Agent, &agent).is_some());
    assert!(pipeline_stage_denial(&words(&["ls"]), Mode::Agent, &agent).is_none());
    assert!(pipeline_stage_denial(&vec![], Mode::Agent, &agent).is_none());
}

#[test]
fn redirections_plan() {
    let r = |n: Option<usize>, mode: RedirectMode, file: &str| Redirect { n, file: file.to_string(), mode };
    let plan = redirect_plan(&vec![
        r(None, RedirectMode::Write, "out"),
        r(Some(2), RedirectMode::Write, "err"),
        r(Some(2), RedirectMode::WriteDup, "1"),
        r(None, RedirectMode::Read, "in"),
        r(None, RedirectMode::ReadDup, "x"),
        r(None, RedirectMode::WriteAppend, "log"),
    ]);
    assert!(matches!(&plan[0], RedirectAction::Open { file, how: OpenHow::Create, slot: Slot::Stdout } if file == "out"));
    assert!(matches!(&plan[1], RedirectAction::Open { how: OpenHow::Create, slot: Slot::Stderr, .. }));
    assert!(matches!(&plan[2], RedirectAction::Descriptor { slot: Slot::Stderr, fd: 1 }));
    assert!(matches!(&plan[3], RedirectAction::Open { how: OpenHow::Read, slot: Slot::Stdin, .. }));
    assert!(matches!(&plan[4], RedirectAction::Skip));
    assert!(matches!(&plan[5], RedirectAction::Open { how: OpenHow::Append, slot: Slot::Stdout, .. }));
    assert!(matches!(action_of(&r(Some(5), RedirectMode::Read, "f")), RedirectAction::Open { slot: Slot::Nowhere, .. }));
}

#[test]
fn line_continuation() {
    let lang = OmniShellLang;
    assert_eq!(lang.name(), "omnishell");
    assert!(lang.needs_line_check("echo \\"));
    assert!(lang.needs_line_check("f() {"));
    assert!(lang.needs_line_check("echo 'hi"));
    assert!(!lang.needs_line_check("echo hi"));
    assert!(!lang.needs_line_check("echo )"));
}

/// Runs the evaluator, answering simple commands by their first word:
/// `true`/`echo` succeed, `false` fails, `break`/`continue` signal, a
/// defined function is called. Returns the outcome and the commands run.
fn run(cmd: ShellCommand, table: &mut FunctionTable, script: &mut dyn FnMut(&[String]) -> i32) -> (Outcome, Vec<String>) {
    let mut eval = ShellEval::start(cmd);
    let mut log = Vec::new();
    let mut event = ShellEvent::Ack;
    for _ in 0..10_000 {
        let action = eval.step(table, event);
        event = ShellEvent::Ack;
        match action {
            ShellAction::Next => {}
            ShellAction::Simple { args, .. } => {
                log.push(args.join(" "));
                event = match args[0].as_str() {
                    "break" => ShellEvent::Break,
                    "continue" => ShellEvent::Continue,
                    name if table.contains(name) => ShellEvent::Call(name.to_string()),
                    _ => ShellEvent::Status(script(&args)),
                };
            }
            ShellAction::ExpandWords(w) => event = ShellEvent::Words(w),
            ShellAction::ExpandWord(w) => event = ShellEvent::Words(vec![w]),
            ShellAction::SetVar { name, value } => log.push(format!("{name}={value}")),
            ShellAction::Pipeline(stages) => {
                log.push(format!("pipeline of {}", stages.len()));
                event = ShellEvent::Status(0);
            }
            ShellAction::Done(o) => return (o, log),
            _ => {}
        }
    }
    panic!("evaluation did not end");
}

fn by_name(args: &[String]) -> i32 {
    match args[0].as_str() {
        "false" => 1,
        _ => 0,
    }
}

#[test]
fn evaluator_and_or_not() {
    let mut t = FunctionTable::new();
    let c = ShellCommand::Or(
        boxed(ShellCommand::And(boxed(simple(&["false"])), boxed(simple(&["echo", "never"])))),
        boxed(simple(&["echo", "fallback"])),
    );
    let (o, log) = run(c, &mut t, &mut by_name);
    assert!(matches!(o, Outcome::Status(0)));
    assert_eq!(log, vec!["false", "echo fallback"]);

    let (o, _) = run(ShellCommand::Not(boxed(simple(&["false"]))), &mut t, &mut by_name);
    assert!(matches!(o, Outcome::Status(0)));
    let (o, _) = run(ShellCommand::Not(boxed(simple(&["true"]))), &mut t, &mut by_name);
    assert!(matches!(o, Outcome::Status(1)));
}

#[test]
fn evaluator_while_and_break() {
    let mut t = FunctionTable::new();
    let mut rounds = 0;
    let mut script = |args: &[String]| -> i32 {
        if args[0] == "cond" {
            rounds += 1;
            if rounds <= 2 { 0 } else { 1 }
        } else {
            0
        }
    };
    let c = ShellCommand::While { cond: boxed(simple(&["cond"])), body: boxed(simple(&["echo", "body"])) };
    let (o, log) = run(c, &mut t, &mut script);
    assert!(matches!(o, Outcome::Status(0)));
    assert_eq!(log, vec!["cond", "echo body", "cond", "echo body", "cond"]);

    let c = ShellCommand::Until {
        cond: boxed(simple(&["false"])),
        body: boxed(ShellCommand::Sequence(boxed(simple(&["echo", "once"])), Some(boxed(simple(&["break"]))))),
    };
    let (o, log) = run(c, &mut t, &mut by_name);
    assert!(matches!(o, Outcome::Status(0)));
    assert_eq!(log, vec!["false", "echo once", "break"]);
}

#[test]
fn evaluator_for_case_and_functions() {
    let mut t = FunctionTable::new();
    let c = ShellCommand::For {
        name: "x".to_string(),
        words: words(&["a", "b"]),
        body: boxed(simple(&["echo", "$x"])),
    };
    let (o, log) = run(c, &mut t, &mut by_name);
    assert!(matches!(o, Outcome::Status(0)));
    assert_eq!(log, vec!["x=a", "echo $x", "x=b", "echo $x"]);

    let arms = CaseArms::Arm {
        patterns: words(&["*.txt"]),
        body: boxed(simple(&["echo", "text"])),
        rest: Box::new(CaseArms::Arm {
            patterns: words(&["b", "c"]),
            body: boxed(simple(&["echo", "bee"])),
            rest: Box::new(CaseArms::End),
        }),
    };
    let c = ShellCommand::Case { word: "c".to_string(), arms: Box::new(arms) };
    let (_, log) = run(c, &mut t, &mut by_name);
    assert_eq!(log, vec!["echo bee"]);

    let def = ShellCommand::Function { name: "greet".to_string(), body: boxed(simple(&["echo", "hi"])) };
    let call = ShellCommand::Sequence(boxed(def), Some(boxed(simple(&["greet"]))));
    let (o, log) = run(call, &mut t, &mut by_name);
    assert!(matches!(o, Outcome::Status(0)));
    assert_eq!(log, vec!["greet", "echo hi"]);
    assert!(t.contains("greet"));
    assert_eq!(t.names(), vec!["greet"]);
}

#[test]
fn evaluator_pipeline_and_if() {
    let mut t = FunctionTable::new();
    let c = ShellCommand::If {
        cond: boxed(simple(&["false"])),
        then_part: boxed(simple(&["echo", "yes"])),
        else_part: Some(boxed(ShellCommand::Pipeline(boxed(simple(&["ls"])), boxed(simple(&["wc"]))))),
    };
    let (o, log) = run(c, &mut t, &mut by_name);
    assert!(matches!(o, Outcome::Status(0)));
    assert_eq!(log, vec!["false", "pipeline of 2"]);
    let (o, _) = run(
        ShellCommand::If { cond: boxed(simple(&["false"])), then_part: boxed(simple(&["x"])), else_part: None },
        &mut t,
        &mut by_name,
    );
    assert!(matches!(o, Outcome::Status(0)));
}

#[test]
fn function_table_define_replace_remove() {
    let mut t = FunctionTable::default();
    t.define("f".to_string(), simple(&["one"]));
    t.define("g".to_string(), simple(&["two"]));
    t.define("f".to_string(), simple(&["three"]));
    assert_eq!(t.names(), vec!["f", "g"]);
    match t.get("f") {
        Some(ShellCommand::Simple { args, .. }) => assert_eq!(args, &words(&["three"])),
        other => panic!("unexpected {:?}", other),
    }
    assert!(t.remove("f").is_some());
    assert!(!t.contains("f"));
    assert!(t.remove("f").is_none());
    let _ = Assignment { var: "a".to_string(), val: "b".to_string() };
}

#[test]
fn line_reports() {
    let c = simple(&["nosuchcmd"]);
    let r = line_report(&c, &Outcome::Failed("__notfound__".to_string()));
    assert_eq!(r.stderr.as_deref(), Some("omnishell: command not found: nosuchcmd"));
    assert_eq!(r.status, 127);
    assert!(!r.record);
    let r = line_report(&ShellCommand::Nothing, &Outcome::Failed("boom".to_string()));
    assert_eq!(r.stderr.as_deref(), Some("eval error: boom"));
    assert_eq!(r.status, 1);
    let r = line_report(&c, &Outcome::Status(3));
    assert_eq!((r.stderr, r.status, r.record), (None, 3, true));
    let r = line_report(&c, &Outcome::Break);
    assert_eq!((r.status, r.record), (0, false));
}

#[test]
fn restore_bookkeeping() {
    assert_eq!(entry_rel_path("", "a.txt"), "a.txt");
    assert_eq!(entry_rel_path("src", "main.rs"), "src/main.rs");
    let mut t = TargetPaths::new();
    t.insert("a.txt".to_string());
    t.insert("a.txt".to_string());
    assert!(t.contains("a.txt"));
    assert!(!should_prune(Some("a.txt"), &t));
    assert!(should_prune(Some("b.txt"), &t));
    assert!(!should_prune(None, &t));
    assert!(skip_entry(Some(".git")));
    assert!(!skip_entry(Some("src")));
    assert!(pass_result("Restore", &vec![]).is_ok());
    assert_eq!(
        pass_result("Prune", &words(&["delete a: denied", "delete b: denied"])),
        Err("Prune completed with 2 error(s): delete a: denied; delete b: denied".to_string())
    );
}

#[test]
fn cd_destination_normalises_components() {
    assert_eq!(cd_destination_of("a//b/./c/", "/home/u"), "/home/u/a/b/c");
    assert_eq!(cd_destination_of("../x", "/home/u"), "/home/x");
    assert_eq!(cd_destination_of("/tmp/./y/..", "/home/u"), "/tmp");
    assert_eq!(cd_destination_of(".", "/home/u"), "/home/u");
}
