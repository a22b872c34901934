//! Configuration, profiles and profile resolution.

use omnishell::config::{combine_configs, config_file_in, config_format, merge_configs, resolve_profile, ConfigFormat, ProfileMap};
use omnishell::profile::{SystemPromptMode, ThemeOverride};
use omnishell::{Mode, OmniShellConfig, OmniShellError, Profile};

#[test]
fn test_default_config() {
    let config = OmniShellConfig::default();
    assert!(config.profile.contains_key("default"));
    assert_eq!(config.default_profile, Some("default".to_string()));
}

#[test]
fn test_default_config_is_admin_mode() {
    let config = OmniShellConfig::default();
    let default = config.profile.get("default").unwrap();
    assert_eq!(default.mode, Mode::Admin);
}

#[test]
fn default_profile_is_admin() {
    let config = OmniShellConfig::default();
    let default = config.profile.get("default").unwrap();
    assert_eq!(default.mode, Mode::Admin);
}

#[test]
fn test_merge_system_overrides_user() {
    let mut user = OmniShellConfig::default();
    let mut system = OmniShellConfig::default();

    user.default_profile = Some("user-default".to_string());
    system.default_profile = Some("system-default".to_string());

    let merged = merge_configs(user, system);
    assert_eq!(merged.default_profile, Some("system-default".to_string()));
}

#[test]
fn test_merge_system_profiles_override_user() {
    let mut user = OmniShellConfig::default();
    let mut system = OmniShellConfig::default();

    user.profile.insert(
        "kids".to_string(),
        Profile {
            mode: Mode::Kids,
            username: Some("child".to_string()),
            display_name: Some("User Kids".to_string()),
            age: Some(6),
            ..Default::default()
        },
    );
    system.profile.insert(
        "kids".to_string(),
        Profile {
            mode: Mode::Kids,
            username: Some("child".to_string()),
            display_name: Some("System Kids".to_string()),
            age: Some(7),
            ..Default::default()
        },
    );

    let merged = merge_configs(user, system);
    assert_eq!(merged.profile.get("kids").unwrap().age, Some(7));
    assert_eq!(merged.profile.get("kids").unwrap().display_name, Some("System Kids".to_string()));
}

#[test]
fn test_merge_preserves_user_only_profiles() {
    let mut user = OmniShellConfig::default();
    let system = OmniShellConfig::default();

    user.profile.insert(
        "custom".to_string(),
        Profile { mode: Mode::Agent, username: None, display_name: Some("My Custom".to_string()), ..Default::default() },
    );

    let merged = merge_configs(user, system);
    assert!(merged.profile.contains_key("custom"));
}

#[test]
fn test_profile_resolution_from_config() {
    let mut config = OmniShellConfig::default();

    config.profile.insert(
        "kids".to_string(),
        Profile {
            mode: Mode::Kids,
            username: Some("child".to_string()),
            display_name: Some("Kids Mode".to_string()),
            age: Some(7),
            ..Default::default()
        },
    );

    assert_eq!(config.profile.get("default").unwrap().mode, Mode::Admin);

    config.default_profile = Some("kids".to_string());
    assert_eq!(config.profile.get(config.default_profile.as_ref().unwrap()).unwrap().mode, Mode::Kids);
}

#[test]
fn test_profile_theme_default() {
    let profile = Profile::default();
    let theme = profile.theme();
    assert_eq!(theme.name, "admin");
    assert!(theme.prompt.contains("{user}@{host}"));
}

#[test]
fn test_profile_theme_prompt_override() {
    let profile = Profile {
        theme: Some(ThemeOverride { prompt: Some("custom> ".to_string()), emoji: None }),
        ..Default::default()
    };
    let theme = profile.theme();
    assert_eq!(theme.prompt, "custom> ");
}

#[test]
fn test_profile_theme_emoji_override() {
    let mut profile = Profile { mode: Mode::Kids, ..Default::default() };
    profile.theme = Some(ThemeOverride { prompt: None, emoji: Some("🎮".to_string()) });
    let theme = profile.theme();
    assert_eq!(theme.emoji.as_deref(), Some("🎮"));
    assert!(theme.prompt.contains("🐚"));
}

#[test]
fn resolve_prefers_existing_cli_profile() {
    let mut config = OmniShellConfig::default();
    config.profile.insert("kids".to_string(), Profile { mode: Mode::Kids, ..Default::default() });
    assert_eq!(resolve_profile(&config, Some("kids"), None), "kids");
    // An unknown requested profile falls back to the default profile.
    assert_eq!(resolve_profile(&config, Some("nope"), None), "default");
}

#[test]
fn resolve_uses_user_binding_before_default() {
    let mut config = OmniShellConfig::default();
    config.profile.insert(
        "kid".to_string(),
        Profile { mode: Mode::Kids, username: Some("alice".to_string()), ..Default::default() },
    );
    assert_eq!(resolve_profile(&config, None, Some("alice")), "kid");
    assert_eq!(resolve_profile(&config, None, Some("bob")), "default");
    // A bound user keeps the bound profile whatever is requested.
    assert_eq!(resolve_profile(&config, Some("default"), Some("alice")), "kid");
    assert_eq!(resolve_profile(&config, Some("default"), Some("bob")), "default");
}

#[test]
fn resolve_falls_back_to_first_then_default_name() {
    let mut config = OmniShellConfig::default();
    config.default_profile = None;
    assert_eq!(resolve_profile(&config, None, None), "default");
    let empty = OmniShellConfig { profile: ProfileMap::new(), default_profile: None, acl: None };
    assert_eq!(resolve_profile(&empty, None, None), "default");
    let mut one = OmniShellConfig { profile: ProfileMap::new(), default_profile: None, acl: None };
    one.profile.insert("solo".to_string(), Profile::default());
    assert_eq!(resolve_profile(&one, None, None), "solo");
}

#[test]
fn profile_map_insert_replaces_in_place() {
    let mut map = ProfileMap::new();
    assert!(map.is_empty());
    assert!(map.insert("a".to_string(), Profile::default()).is_none());
    assert!(map.insert("b".to_string(), Profile::default()).is_none());
    let old = map.insert("a".to_string(), Profile { mode: Mode::Kids, ..Default::default() });
    assert_eq!(old.unwrap().mode, Mode::Admin);
    assert_eq!(map.len(), 2);
    assert_eq!(map.entries()[0].0, "a");
    assert_eq!(map.entries()[0].1.mode, Mode::Kids);
    assert!(map.get("c").is_none());
}

#[test]
fn merge_keeps_both_sides_and_system_wins() {
    let mut user = OmniShellConfig::default();
    user.profile.insert("u".to_string(), Profile { age: Some(1), ..Default::default() });
    user.profile.insert("both".to_string(), Profile { age: Some(2), ..Default::default() });
    let mut system = OmniShellConfig { profile: ProfileMap::new(), default_profile: None, acl: None };
    system.profile.insert("both".to_string(), Profile { age: Some(3), ..Default::default() });
    system.profile.insert("s".to_string(), Profile { age: Some(4), ..Default::default() });
    let merged = merge_configs(user, system);
    assert_eq!(merged.profile.get("u").unwrap().age, Some(1));
    assert_eq!(merged.profile.get("both").unwrap().age, Some(3));
    assert_eq!(merged.profile.get("s").unwrap().age, Some(4));
    assert_eq!(merged.profile.len(), 4);
    // No system default profile: the user's stays.
    assert_eq!(merged.default_profile, Some("default".to_string()));
}

#[test]
fn config_format_by_extension() {
    assert_eq!(config_format("/etc/omnishell/config.json").unwrap(), ConfigFormat::Json);
    assert_eq!(config_format("a/config.toml").unwrap(), ConfigFormat::Toml);
    match config_format("config.yaml") {
        Err(OmniShellError::Config(m)) => {
            assert_eq!(m, "Unknown config format: config.yaml (expected .toml or .json)");
        }
        other => panic!("unexpected {other:?}"),
    }
    let err = config_format("x.ini").unwrap_err();
    assert!(err.message().contains("Unknown config format"));
}

#[test]
fn config_file_json_wins() {
    assert_eq!(config_file_in("/d", true, true).unwrap(), "/d/config.json");
    assert_eq!(config_file_in("/d", false, true).unwrap(), "/d/config.toml");
    assert_eq!(config_file_in("/d", false, false).unwrap_err().message(), "Configuration error: No config file in /d");
}

#[test]
fn combine_configs_cases() {
    let none = combine_configs(None, None);
    assert!(none.profile.contains_key("default"));
    let mut user = OmniShellConfig::default();
    user.profile.insert("mine".to_string(), Profile::default());
    let only_user = combine_configs(Some(user), None);
    assert!(only_user.profile.contains_key("mine"));
}

#[test]
fn kids_profile_defaults() {
    let p = Mode::kids_profile();
    assert_eq!(p.mode, Mode::Kids);
    assert_eq!(p.age, Some(10));
    assert_eq!(p.display_name, Some("Kids".to_string()));
    assert_eq!(p.aliases.len(), 6);
    assert_eq!(p.system_prompt_mode, SystemPromptMode::Default);
    let allow = p.env_allow.clone().unwrap();
    assert!(allow.contains(&"PATH".to_string()));
}

#[test]
fn filtered_env_applies_allow_then_deny() {
    let vars = vec![
        ("PATH".to_string(), "/bin".to_string()),
        ("SECRET".to_string(), "x".to_string()),
        ("HOME".to_string(), "/home/k".to_string()),
    ];
    let kids = Mode::kids_profile();
    let kept = kids.filtered_env(&vars);
    assert_eq!(kept, vec![("PATH".to_string(), "/bin".to_string()), ("HOME".to_string(), "/home/k".to_string())]);
    let deny = Profile { env_deny: Some(vec!["SECRET".to_string()]), ..Default::default() };
    assert_eq!(deny.filtered_env(&vars).len(), 2);
    assert_eq!(Profile::default().filtered_env(&vars).len(), 3);
}

#[test]
fn test_load_config_no_files_returns_default() {
    // Neither the user's nor the system's directory holds a configuration.
    let config = combine_configs(None, None);
    assert!(config.profile.contains_key("default"));
    assert_eq!(config.profile.len(), 1);
    assert_eq!(config.default_profile.as_deref(), Some("default"));
    assert!(config.acl.is_none());
}

#[test]
fn config_format_goes_by_the_file_name_extension() {
    assert!(matches!(config_format("/etc/omnishell/config.json"), Ok(ConfigFormat::Json)));
    assert!(matches!(config_format("conf.d/a.b.toml/"), Ok(ConfigFormat::Toml)));
    assert!(matches!(config_format("x.toml/."), Ok(ConfigFormat::Toml)));
    assert!(config_format(".json").is_err());
    assert!(config_format("config.json/..").is_err());
    assert!(config_format("config").is_err());
    assert!(config_format("/").is_err());
}
