//! Sandbox configuration and path checks.

use omnishell::profile::Mode;
use omnishell::sandbox::{setup_step_result, BindMount, PrepareStep, ResourceLimit, RlimitResource, Sandbox, SandboxConfig};

#[test]
fn test_kids_sandbox_config() {
    let config = Sandbox::kids_default("/home/test");
    assert!(config.enabled);
    assert!(config.new_pid_namespace);
    assert!(config.new_network_namespace);
    assert!(!config.bind_mounts.is_empty());
    assert!(!config.rlimits.is_empty());
}

#[test]
fn test_disabled_sandbox() {
    let config = Sandbox::disabled();
    assert!(!config.enabled);
    assert!(!config.new_pid_namespace);
    assert!(!config.new_network_namespace);
}

#[test]
fn test_config_for_mode() {
    let kids_config = Sandbox::config_for_mode(Mode::Kids, "/home/test");
    assert!(kids_config.enabled);

    let agent_config = Sandbox::config_for_mode(Mode::Agent, "/home/test");
    assert!(!agent_config.enabled);

    let admin_config = Sandbox::config_for_mode(Mode::Admin, "/home/test");
    assert!(!admin_config.enabled);
}

#[test]
fn test_path_allowed_disabled() {
    let sandbox = Sandbox::new(Sandbox::disabled());
    assert!(sandbox.is_path_allowed("/etc/passwd"));
    assert!(sandbox.is_path_allowed("/home/test/file"));
}

#[test]
fn test_path_allowed_kids() {
    let sandbox = Sandbox::new(Sandbox::kids_default("/home/test"));
    let home = dirs::home_dir().unwrap();
    assert!(sandbox.is_path_allowed(home.join("projects").to_str().unwrap()));
    assert!(sandbox.is_path_allowed("/tmp/build"));
}

#[test]
fn test_kids_sandbox_has_readonly_system_mounts() {
    let config = Sandbox::kids_default("/home/child");

    let readonly_mounts: Vec<&BindMount> = config.bind_mounts.iter().filter(|m| m.read_only).collect();

    assert!(!readonly_mounts.is_empty(), "Kids sandbox should have read-only mounts");

    let mount_dests: Vec<&str> = readonly_mounts.iter().map(|m| m.destination.as_str()).collect();

    assert!(mount_dests.contains(&"/usr"), "Should mount /usr read-only");
    assert!(mount_dests.contains(&"/bin"), "Should mount /bin read-only");
    assert!(mount_dests.contains(&"/lib"), "Should mount /lib read-only");
}

#[test]
fn test_kids_sandbox_has_resource_limits() {
    let config = Sandbox::kids_default("/home/child");

    assert!(!config.rlimits.is_empty(), "Kids sandbox should have resource limits");

    let has_process_limit = config.rlimits.iter().any(|r| matches!(r.resource, RlimitResource::Processes));
    let has_file_limit = config.rlimits.iter().any(|r| matches!(r.resource, RlimitResource::OpenFiles));
    let has_size_limit = config.rlimits.iter().any(|r| matches!(r.resource, RlimitResource::FileSize));

    assert!(has_process_limit, "Should limit processes");
    assert!(has_file_limit, "Should limit open files");
    assert!(has_size_limit, "Should limit file size");
}

#[test]
fn test_kids_sandbox_process_limit_is_reasonable() {
    let config = Sandbox::kids_default("/home/child");

    let process_limit = config.rlimits.iter().find(|r| matches!(r.resource, RlimitResource::Processes)).unwrap();

    assert!(process_limit.hard <= 200, "Hard process limit should be <= 200");
    assert!(process_limit.soft <= process_limit.hard, "Soft limit should not exceed hard");
}

#[test]
fn test_kids_sandbox_file_size_limit_is_reasonable() {
    let config = Sandbox::kids_default("/home/child");

    let file_limit = config.rlimits.iter().find(|r| matches!(r.resource, RlimitResource::FileSize)).unwrap();

    assert!(file_limit.hard <= 100 * 1024 * 1024, "Hard file size limit should be <= 100MB");
}

#[test]
fn test_kids_sandbox_has_pid_namespace() {
    let config = Sandbox::kids_default("/home/child");
    assert!(config.new_pid_namespace, "Kids sandbox should create new PID namespace");
}

#[test]
fn test_kids_sandbox_has_network_namespace() {
    let config = Sandbox::kids_default("/home/child");
    assert!(config.new_network_namespace, "Kids sandbox should create new network namespace");
}

#[test]
fn test_disabled_sandbox_has_no_namespaces() {
    let config = Sandbox::disabled();
    assert!(!config.new_pid_namespace, "Disabled sandbox should not have PID namespace");
    assert!(!config.new_network_namespace, "Disabled sandbox should not have network namespace");
}

#[test]
fn test_config_for_mode_kids() {
    let config = Sandbox::config_for_mode(Mode::Kids, "/home/test");
    assert!(config.enabled);
}

#[test]
fn test_config_for_mode_agent() {
    let config = Sandbox::config_for_mode(Mode::Agent, "/home/test");
    assert!(!config.enabled);
}

#[test]
fn test_config_for_mode_admin() {
    let config = Sandbox::config_for_mode(Mode::Admin, "/home/test");
    assert!(!config.enabled);
}

#[test]
fn test_sandbox_root_dir_in_home() {
    let config = Sandbox::kids_default("/home/child");
    assert!(config.root_dir.starts_with("/home/child"), "Sandbox root should be under home");
    assert!(config.root_dir.contains("sandbox"), "Sandbox root should contain 'sandbox'");
}

#[test]
fn sandbox_kids_root_and_limits_exact() {
    let config = Sandbox::kids_default("/home/child");
    assert_eq!(config.root_dir, "/home/child/.omnishell/sandbox");
    let with_slash = Sandbox::kids_default("/home/child/");
    assert_eq!(with_slash.root_dir, "/home/child/.omnishell/sandbox");
    let sizes: Vec<(u64, u64)> = config.rlimits.iter().map(|l| (l.soft, l.hard)).collect();
    assert_eq!(sizes, vec![(50, 100), (64, 128), (10_485_760, 52_428_800)]);
    assert_eq!(config.bind_mounts.len(), 4);
    assert_eq!(config.bind_mounts[3].source, "/lib64");
}

#[test]
fn sandbox_path_checks_against_a_given_home() {
    let sandbox = Sandbox::new(Sandbox::kids_default("/home/child"));
    assert!(sandbox.is_path_allowed_in("/home/kid/notes.txt", "/home/kid"));
    assert!(sandbox.is_path_allowed_in("/home/child/.omnishell/sandbox/x", "/home/kid"));
    assert!(sandbox.is_path_allowed_in("/tmp", "/home/kid"));
    assert!(!sandbox.is_path_allowed_in("/etc/passwd", "/home/kid"));
    assert!(!sandbox.is_path_allowed_in("/tmpfile", "/home/kid"));
}

#[test]
fn sandbox_prepare_steps_in_order() {
    let sandbox = Sandbox::new(Sandbox::kids_default("/home/child"));
    let steps = sandbox.prepare_steps();
    assert_eq!(steps.len(), 1 + 4 + 3);
    match &steps[0] {
        PrepareStep::CreateRoot(r) => assert_eq!(r, "/home/child/.omnishell/sandbox"),
        other => panic!("unexpected first step {other:?}"),
    }
    match &steps[1] {
        PrepareStep::Mount { source, target, read_only } => {
            assert_eq!(source, "/usr");
            assert_eq!(target, "/home/child/.omnishell/sandbox/usr");
            assert!(*read_only);
        }
        other => panic!("unexpected second step {other:?}"),
    }
    assert!(matches!(steps[5], PrepareStep::Limit(ResourceLimit { resource: RlimitResource::Processes, soft: 50, hard: 100 })));
    let disabled = Sandbox::new(Sandbox::disabled());
    assert!(disabled.prepare_steps().is_empty());
}

#[test]
fn sandbox_child_namespaces() {
    assert_eq!(Sandbox::new(Sandbox::kids_default("/h")).child_namespaces(), (true, true));
    assert_eq!(Sandbox::new(Sandbox::disabled()).child_namespaces(), (false, false));
    let config = SandboxConfig {
        enabled: false,
        root_dir: "/".to_string(),
        bind_mounts: vec![],
        rlimits: vec![],
        new_pid_namespace: true,
        new_network_namespace: true,
    };
    assert_eq!(Sandbox::new(config).child_namespaces(), (false, false));
}

#[test]
fn sandbox_mount_target_strips_leading_slashes() {
    let sandbox = Sandbox::new(Sandbox::kids_default("/home/child"));
    let bind = BindMount { source: "//opt/tools".to_string(), destination: "/opt/tools".to_string(), read_only: false };
    assert_eq!(sandbox.mount_target(&bind), "/home/child/.omnishell/sandbox/opt/tools");
}

#[test]
fn test_prepare_disabled() {
    let sandbox = Sandbox::new(Sandbox::disabled());
    assert!(sandbox.prepare_steps().is_empty());
}

#[test]
fn test_sandbox_prepare_disabled_is_noop() {
    let sandbox = Sandbox::new(Sandbox::disabled());
    assert!(sandbox.prepare_steps().is_empty());
    assert_eq!(sandbox.child_namespaces(), (false, false));
}

#[test]
fn setup_failure_policy() {
    let root = PrepareStep::CreateRoot("/tmp/jail".to_string());
    let mount = PrepareStep::Mount { source: "/usr".to_string(), target: "/tmp/jail/usr".to_string(), read_only: true };
    let limit = PrepareStep::Limit(ResourceLimit { resource: RlimitResource::Cpu, soft: 1, hard: 2 });
    assert_eq!(setup_step_result(&root, None), Ok(()));
    assert_eq!(
        setup_step_result(&root, Some("denied".to_string())),
        Err("Failed to create sandbox root: denied".to_string())
    );
    assert_eq!(setup_step_result(&mount, Some("EPERM".to_string())), Ok(()));
    assert_eq!(setup_step_result(&limit, Some("EPERM".to_string())), Ok(()));
}

#[test]
fn path_checks_go_by_whole_components() {
    let sandbox = Sandbox::new(Sandbox::kids_default("/home/test"));
    assert!(sandbox.is_path_allowed_in("/tmp//x/./y/", "/home/test"));
    assert!(sandbox.is_path_allowed_in("/home/test", "/home/test/"));
    assert!(!sandbox.is_path_allowed_in("/tmpfoo/x", "/home/test"));
    assert!(!sandbox.is_path_allowed_in("/home/tester", "/home/test"));
}
