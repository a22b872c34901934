//! The profile picker and profile pictures.

use omnishell::config::ProfileMap;
use omnishell::picker::{choose_profile, generate_cards, parse_usize, render_picker};
use omnishell::picture::ProfilePicture;
use omnishell::{Mode, OmniShellConfig, Profile};

fn make_config() -> OmniShellConfig {
    let mut profile = ProfileMap::new();
    profile.insert("kids".to_string(), Profile { mode: Mode::Kids, age: Some(7), ..Default::default() });
    profile.insert("agent".to_string(), Profile { mode: Mode::Agent, ..Default::default() });
    profile.insert("admin".to_string(), Profile { mode: Mode::Admin, ..Default::default() });
    OmniShellConfig { profile, default_profile: None, acl: None }
}

#[test]
fn test_generate_cards() {
    let config = make_config();
    let cards = generate_cards(&config);
    assert_eq!(cards.len(), 3);

    assert_eq!(cards[0].mode, Mode::Kids);
    assert!(cards[0].emoji.contains("🧒"));

    assert_eq!(cards[1].mode, Mode::Agent);
    assert_eq!(cards[2].mode, Mode::Admin);
}

#[test]
fn test_render_picker() {
    let config = make_config();
    let cards = generate_cards(&config);
    let rendered = render_picker(&cards);

    assert!(rendered.contains("OmniShell"));
    assert!(rendered.contains("🧒"));
    assert!(rendered.contains("🤖"));
    assert!(rendered.contains("⚡"));
    assert!(rendered.contains("Press 1-9"));
}

#[test]
fn test_kids_card_has_age() {
    let config = make_config();
    let cards = generate_cards(&config);
    let kids_card = cards.iter().find(|c| c.mode == Mode::Kids).unwrap();
    assert!(kids_card.description.contains("Age 7"));
}

#[test]
fn test_single_profile_auto_selects() {
    let mut profile = ProfileMap::new();
    profile.insert("only".to_string(), Profile { mode: Mode::Admin, ..Default::default() });
    let config = OmniShellConfig { profile, default_profile: Some("default".to_string()), acl: None };

    let cards = generate_cards(&config);
    assert_eq!(cards.len(), 1);
}

#[test]
fn test_profile_card_ordering() {
    let config = make_config();
    let cards = generate_cards(&config);
    let modes: Vec<_> = cards.iter().map(|c| c.mode).collect();
    assert_eq!(modes, vec![Mode::Kids, Mode::Agent, Mode::Admin]);
}

#[test]
fn picker_orders_stably_by_mode() {
    let mut profile = ProfileMap::new();
    profile.insert("a1".to_string(), Profile { mode: Mode::Admin, ..Default::default() });
    profile.insert("k1".to_string(), Profile { mode: Mode::Kids, ..Default::default() });
    profile.insert("a2".to_string(), Profile { mode: Mode::Admin, ..Default::default() });
    profile.insert("k2".to_string(), Profile { mode: Mode::Kids, age: Some(9), ..Default::default() });
    let config = OmniShellConfig { profile, default_profile: None, acl: None };
    let cards = generate_cards(&config);
    let names: Vec<&str> = cards.iter().map(|c| c.name.as_str()).collect();
    assert_eq!(names, vec!["k1", "k2", "a1", "a2"]);
    assert_eq!(cards[0].description, "Kids Mode — Learn terminal!");
    assert_eq!(cards[1].description, "Kids Mode — Learn terminal! (Age 9)");
    assert_eq!(cards[2].description, "Admin Mode — Full access");
}

#[test]
fn picker_lines_are_numbered() {
    let cards = generate_cards(&make_config());
    let rendered = render_picker(&cards);
    assert!(rendered.contains("║  1 🧒 │ kids  Kids Mode — Learn terminal! (Age 7)\n"));
    assert!(rendered.contains("║  2 🤖 │ agent  Agent Mode — AI coding assistant\n"));
    assert!(rendered.ends_with("\nPress 1-9 to select: "));
}

#[test]
fn picker_choice_by_number_name_or_default() {
    let cards = generate_cards(&make_config());
    assert_eq!(choose_profile(&cards, "2\n"), Some("agent".to_string()));
    assert_eq!(choose_profile(&cards, " ADMIN \n"), Some("admin".to_string()));
    assert_eq!(choose_profile(&cards, "9"), Some("kids".to_string()));
    assert_eq!(choose_profile(&cards, "whatever"), Some("kids".to_string()));
    assert_eq!(choose_profile(&Vec::new(), "1"), None);
    let single = generate_cards(&OmniShellConfig::default());
    assert_eq!(choose_profile(&single, "3"), Some("default".to_string()));
}

#[test]
fn parse_usize_matches_std() {
    for s in ["0", "42", "+7", "007", "18446744073709551615", "18446744073709551616", "", "+", "-1", "1a", " 1"] {
        assert_eq!(parse_usize(s), s.parse::<usize>().ok(), "input {s:?}");
    }
}

#[test]
fn test_new_profile_picture() {
    let pic = ProfilePicture::new("/tmp/test.png");
    assert_eq!(pic.path, "/tmp/test.png");
    assert_eq!(pic.width, 0);
    assert_eq!(pic.height, 0);
}

#[test]
fn test_with_size() {
    let pic = ProfilePicture::with_size("/tmp/test.png", 20, 10);
    assert_eq!(pic.width, 20);
    assert_eq!(pic.height, 10);
}

#[test]
fn test_default_path_kids() {
    let path = ProfilePicture::default_path(Mode::Kids);
    assert!(path.contains("profile_kids.png"));
}

#[test]
fn test_default_path_agent() {
    let path = ProfilePicture::default_path(Mode::Agent);
    assert!(path.contains("profile_agent.png"));
}

#[test]
fn test_default_path_admin() {
    let path = ProfilePicture::default_path(Mode::Admin);
    assert!(path.contains("profile_admin.png"));
}

#[test]
fn test_exists_nonexistent() {
    let pic = ProfilePicture::new("/tmp/nonexistent_picture_12345.png");
    assert!(!pic.file_exists());
}

#[test]
fn test_fallback_emoji() {
    assert_eq!(ProfilePicture::fallback_emoji(Mode::Kids), "🧒");
    assert_eq!(ProfilePicture::fallback_emoji(Mode::Agent), "🤖");
    assert_eq!(ProfilePicture::fallback_emoji(Mode::Admin), "⚡");
}

#[test]
fn test_default_path_is_in_config_dir() {
    for mode in [Mode::Kids, Mode::Agent, Mode::Admin] {
        let path = ProfilePicture::default_path(mode);
        assert!(path.contains("omnishell"), "Default path should be in omnishell config dir");
        assert!(path.contains("pictures"), "Default path should be in pictures subdir");
    }
}

#[test]
fn picture_default_path_layout() {
    let path = ProfilePicture::default_path(Mode::Agent);
    assert!(path.ends_with("/omnishell/pictures/profile_agent.png"));
}
