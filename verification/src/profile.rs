//! Execution modes, profiles and the top-level configuration.

use vstd::prelude::*;
use crate::text::{strings_contain, views};
use crate::theme::{mode_theme, Theme, ThemeModel};

verus! {

/// Execution mode.
#[derive(Debug, Clone, Copy, PartialEq, Eq, Structural)]
pub enum Mode {
    Admin,
    Kids,
    Agent,
}

impl Default for Mode {
    fn default() -> (r: Self)
        ensures
            r == Mode::Admin,
    {
        Mode::Admin
    }
}

/// The lower-case name of a mode (what its `Display` writes).
pub open spec fn mode_name(m: Mode) -> Seq<char> {
    match m {
        Mode::Kids => "kids"@,
        Mode::Agent => "agent"@,
        Mode::Admin => "admin"@,
    }
}

impl Mode {
    /// The lower-case name of the mode: `kids`, `agent` or `admin`.
    pub fn as_str(&self) -> (r: &'static str)
        ensures
            r@ == mode_name(*self),
    {
        match self {
            Mode::Kids => "kids",
            Mode::Agent => "agent",
            Mode::Admin => "admin",
        }
    }
}

/// ACL configuration layered on top of the mode defaults.
#[derive(Debug, Clone)]
pub struct AclConfig {
    /// Additional commands to allow.
    pub extra_allow: Vec<String>,
    /// Additional commands to block.
    pub extra_block: Vec<String>,
}

/// System prompt configuration mode.
#[derive(Debug, Clone, PartialEq, Eq, Structural)]
pub enum SystemPromptMode {
    /// Use the built-in template for the mode.
    Default,
    /// Replace the entire system prompt with custom text.
    Override,
    /// Append extra instructions to the default template.
    Append,
}

impl Default for SystemPromptMode {
    fn default() -> (r: Self)
        ensures
            r == SystemPromptMode::Default,
    {
        SystemPromptMode::Default
    }
}

/// Theme overrides for a profile; any field set replaces the mode default.
#[derive(Debug, Clone)]
pub struct ThemeOverride {
    /// Prompt template.
    pub prompt: Option<String>,
    /// Mode emoji.
    pub emoji: Option<String>,
}

/// A single execution profile.
#[derive(Debug, Clone)]
pub struct Profile {
    /// Execution mode.
    pub mode: Mode,
    /// OS username this profile binds to.
    pub username: Option<String>,
    /// Display name for the interactive picker.
    pub display_name: Option<String>,
    /// Age (Kids mode; drives the tutor tone).
    pub age: Option<u8>,
    /// Per-profile ACL overrides.
    pub acl: Option<AclConfig>,
    /// Per-profile theme overrides.
    pub theme: Option<ThemeOverride>,
    /// Environment variables passed to child processes; all when unset.
    pub env_allow: Option<Vec<String>>,
    /// Environment variables removed from child processes.
    pub env_deny: Option<Vec<String>>,
    /// Shell aliases (name, expansion).
    pub aliases: Vec<(String, String)>,
    /// System prompt configuration mode.
    pub system_prompt_mode: SystemPromptMode,
    /// Custom system prompt text.
    pub system_prompt_extra: Option<String>,
}

/// Whether `p` is the default profile: Admin mode with nothing else set.
pub open spec fn is_default_profile(p: Profile) -> bool {
    &&& p.mode == Mode::Admin
    &&& p.username is None
    &&& p.display_name is None
    &&& p.age is None
    &&& p.acl is None
    &&& p.theme is None
    &&& p.env_allow is None
    &&& p.env_deny is None
    &&& p.aliases@.len() == 0
    &&& p.system_prompt_mode == SystemPromptMode::Default
    &&& p.system_prompt_extra is None
}

impl Default for Profile {
    /// An Admin profile with nothing else set.
    fn default() -> (r: Self)
        ensures
            is_default_profile(r),
    {
        Profile {
            mode: Mode::Admin,
            username: None,
            display_name: None,
            age: None,
            acl: None,
            theme: None,
            env_allow: None,
            env_deny: None,
            aliases: Vec::new(),
            system_prompt_mode: SystemPromptMode::Default,
            system_prompt_extra: None,
        }
    }
}

pub open spec fn opt_str(o: Option<String>) -> Option<Seq<char>> {
    match o {
        Some(s) => Some(s@),
        None => None,
    }
}

/// The theme of a profile: the mode's theme with the profile's prompt and
/// emoji overrides applied.
pub open spec fn profile_theme(p: Profile) -> ThemeModel {
    let base = mode_theme(p.mode);
    match p.theme {
        Some(o) => ThemeModel {
            prompt: match o.prompt {
                Some(s) => s@,
                None => base.prompt,
            },
            emoji: match o.emoji {
                Some(e) => Some(e@),
                None => base.emoji,
            },
            ..base
        },
        None => base,
    }
}

/// The environment passed to child processes: with an allowlist, only the
/// listed variables; then every denied variable removed.
pub open spec fn env_kept(p: Profile, name: Seq<char>) -> bool {
    &&& match p.env_allow {
        Some(allow) => views(allow@).contains(name),
        None => true,
    }
    &&& match p.env_deny {
        Some(deny) => !views(deny@).contains(name),
        None => true,
    }
}

pub open spec fn env_views(v: Seq<(String, String)>) -> Seq<(Seq<char>, Seq<char>)> {
    v.map_values(|kv: (String, String)| (kv.0@, kv.1@))
}

impl Profile {
    /// The resolved theme: the mode's theme with this profile's overrides.
    pub fn theme(&self) -> (r: Theme)
        ensures
            r@ == profile_theme(*self),
    {
        let mut theme = Theme::for_mode(self.mode);
        match &self.theme {
            Some(overrides) => {
                match &overrides.prompt {
                    Some(prompt) => {
                        theme.prompt = prompt.clone();
                    },
                    None => {},
                }
                match &overrides.emoji {
                    Some(emoji) => {
                        theme.emoji = Some(emoji.clone());
                    },
                    None => {},
                }
            },
            None => {},
        }
        theme
    }

    /// Filters an environment (name, value pairs, in order) for child
    /// processes: with `env_allow` set only the listed names are kept, and
    /// every name in `env_deny` is removed.
    pub fn filtered_env(&self, vars: &Vec<(String, String)>) -> (r: Vec<(String, String)>)
        ensures
            env_views(r@) == env_views(vars@).filter(|kv: (Seq<char>, Seq<char>)| env_kept(*self, kv.0)),
    {
        let ghost keep = |kv: (Seq<char>, Seq<char>)| env_kept(*self, kv.0);
        let mut r: Vec<(String, String)> = Vec::new();
        let mut i: usize = 0;
        while i < vars.len()
            invariant
                i <= vars.len(),
                keep == (|kv: (Seq<char>, Seq<char>)| env_kept(*self, kv.0)),
                env_views(r@) == env_views(vars@).take(i as int).filter(keep),
            decreases vars.len() - i,
        {
            let name = &vars[i].0;
            let allowed = match &self.env_allow {
                Some(allow) => strings_contain(allow, name),
                None => true,
            };
            let denied = match &self.env_deny {
                Some(deny) => strings_contain(deny, name),
                None => false,
            };
            let ghost before = r@;
            proof {
                let t = env_views(vars@).take(i as int);
                assert(env_views(vars@).take(i + 1) =~= t.push(env_views(vars@)[i as int]));
                reveal(Seq::filter);
                assert(t.push(env_views(vars@)[i as int]).drop_last() =~= t);
            }
            if allowed && !denied {
                let kv = (vars[i].0.clone(), vars[i].1.clone());
                r.push(kv);
                proof {
                    assert(env_views(r@) =~= env_views(before).push(env_views(vars@)[i as int]));
                }
            }
            i += 1;
        }
        assert(env_views(vars@).take(vars.len() as int) =~= env_views(vars@));
        r
    }
}

fn pair(a: &str, b: &str) -> (r: (String, String))
    ensures
        r.0@ == a@,
        r.1@ == b@,
{
    (String::from_str(a), String::from_str(b))
}

impl Mode {
    /// The default Kids profile: age 10, a strict environment allowlist and
    /// DOS-style aliases.
    pub fn kids_profile() -> (r: Profile)
        ensures
            r.mode == Mode::Kids,
            r.username is None,
            opt_str(r.display_name) == Some("Kids"@),
            r.age == Some(10u8),
            r.acl is None,
            r.theme is None,
            r.env_allow matches Some(a) && views(a@) == seq![
                "PATH"@,
                "HOME"@,
                "USER"@,
                "TERM"@,
                "LANG"@,
                "XDG_CONFIG_HOME"@,
                "XDG_DATA_HOME"@,
            ],
            r.env_deny is None,
            env_views(r.aliases@) == seq![
                ("dir"@, "ls"@),
                ("cls"@, "clear"@),
                ("copy"@, "cp"@),
                ("move"@, "mv"@),
                ("del"@, "rm -i"@),
                ("type"@, "cat"@),
            ],
            r.system_prompt_mode == SystemPromptMode::Default,
            r.system_prompt_extra is None,
    {
        let mut allow: Vec<String> = Vec::new();
        allow.push(String::from_str("PATH"));
        allow.push(String::from_str("HOME"));
        allow.push(String::from_str("USER"));
        allow.push(String::from_str("TERM"));
        allow.push(String::from_str("LANG"));
        allow.push(String::from_str("XDG_CONFIG_HOME"));
        allow.push(String::from_str("XDG_DATA_HOME"));
        let mut aliases: Vec<(String, String)> = Vec::new();
        aliases.push(pair("dir", "ls"));
        aliases.push(pair("cls", "clear"));
        aliases.push(pair("copy", "cp"));
        aliases.push(pair("move", "mv"));
        aliases.push(pair("del", "rm -i"));
        aliases.push(pair("type", "cat"));
        assert(views(allow@) =~= seq![
            "PATH"@,
            "HOME"@,
            "USER"@,
            "TERM"@,
            "LANG"@,
            "XDG_CONFIG_HOME"@,
            "XDG_DATA_HOME"@,
        ]);
        assert(env_views(aliases@) =~= seq![
            ("dir"@, "ls"@),
            ("cls"@, "clear"@),
            ("copy"@, "cp"@),
            ("move"@, "mv"@),
            ("del"@, "rm -i"@),
            ("type"@, "cat"@),
        ]);
        Profile {
            mode: Mode::Kids,
            username: None,
            display_name: Some(String::from_str("Kids")),
            age: Some(10),
            acl: None,
            theme: None,
            env_allow: Some(allow),
            env_deny: None,
            aliases,
            system_prompt_mode: SystemPromptMode::Default,
            system_prompt_extra: None,
        }
    }
}

} // verus!
