//! Themes and colours.

use omnishell::profile::Mode;
use omnishell::theme::{Color, Theme};

#[test]
fn test_kids_theme() {
    let theme = Theme::kids();
    assert_eq!(theme.name, "kids");
    assert_eq!(theme.primary, Color::Cyan);
    assert!(theme.prompt.contains("🐚"));
}

#[test]
fn test_agent_theme() {
    let theme = Theme::agent();
    assert_eq!(theme.name, "agent");
    assert_eq!(theme.primary, Color::BrightBlue);
    assert!(theme.prompt.contains("{mode}"));
}

#[test]
fn test_admin_theme() {
    let theme = Theme::admin();
    assert_eq!(theme.name, "admin");
    assert_eq!(theme.primary, Color::BrightGreen);
    assert!(theme.prompt.contains("{user}@{host}"));
}

#[test]
fn test_for_mode() {
    assert_eq!(Theme::for_mode(Mode::Kids).name, "kids");
    assert_eq!(Theme::for_mode(Mode::Agent).name, "agent");
    assert_eq!(Theme::for_mode(Mode::Admin).name, "admin");
}

#[test]
fn test_render_prompt() {
    let theme = Theme::admin();
    let rendered = theme.render_prompt("user", "host", "/home/user", Some("main"));
    assert!(rendered.contains("user@host:/home/user$"));
}

#[test]
fn test_render_prompt_no_git_branch() {
    let theme = Theme::admin();
    let rendered = theme.render_prompt("user", "host", "/tmp", None);
    assert!(rendered.contains("user@host:/tmp$"));
}

#[test]
fn test_color_ansi_codes() {
    assert_eq!(Color::Red.to_ansi_fg(), "31");
    assert_eq!(Color::BrightGreen.to_ansi_fg(), "92");
    assert_eq!(Color::Default.to_ansi_fg(), "39");
    assert_eq!(Color::Rgb(255, 128, 0).to_ansi_fg(), "38;2;255;128;0");
}

#[test]
fn test_color_fg() {
    let colored = Color::Green.fg();
    assert!(colored.contains("\x1b[32m"));
}

#[test]
fn test_theme_colorize() {
    let theme = Theme::admin();
    let primary = theme.primary("hello");
    assert!(primary.contains("hello"));
    assert!(primary.contains("\x1b["));

    let error = theme.error("fail");
    assert!(error.contains("fail"));

    let success = theme.success("ok");
    assert!(success.contains("ok"));
}

#[test]
fn theme_colorize_wraps_in_escape_and_reset() {
    let theme = Theme::admin();
    assert_eq!(theme.primary("hi"), "\x1b[92mhi\x1b[0m");
    assert_eq!(Color::Rgb(1, 2, 3).fg(), "\x1b[38;2;1;2;3m");
}
