//! Per-mode themes: prompt template, accent colors and emoji.

use vstd::prelude::*;
use crate::profile::{mode_name, Mode};
use crate::text::{nat_digits, push_char, push_decimal_u64, replace_all, replace_spec, seq_starts_with, str_eq};

verus! {

broadcast use vstd::string::group_string_axioms;

/// Color specification.
#[derive(Debug, Clone, PartialEq, Eq, Structural)]
pub enum Color {
    Black,
    Red,
    Green,
    Yellow,
    Blue,
    Magenta,
    Cyan,
    White,
    BrightBlack,
    BrightRed,
    BrightGreen,
    BrightYellow,
    BrightBlue,
    BrightMagenta,
    BrightCyan,
    BrightWhite,
    Rgb(u8, u8, u8),
    Default,
}

/// The SGR foreground parameter of a color.
pub open spec fn ansi_code(c: Color) -> Seq<char> {
    match c {
        Color::Black => "30"@,
        Color::Red => "31"@,
        Color::Green => "32"@,
        Color::Yellow => "33"@,
        Color::Blue => "34"@,
        Color::Magenta => "35"@,
        Color::Cyan => "36"@,
        Color::White => "37"@,
        Color::BrightBlack => "90"@,
        Color::BrightRed => "91"@,
        Color::BrightGreen => "92"@,
        Color::BrightYellow => "93"@,
        Color::BrightBlue => "94"@,
        Color::BrightMagenta => "95"@,
        Color::BrightCyan => "96"@,
        Color::BrightWhite => "97"@,
        Color::Rgb(r, g, b) => "38;2;"@ + nat_digits(r as nat) + ";"@ + nat_digits(g as nat) + ";"@
            + nat_digits(b as nat),
        Color::Default => "39"@,
    }
}

/// The escape sequence selecting a foreground color.
pub open spec fn fg_sequence(c: Color) -> Seq<char> {
    "\x1b["@ + ansi_code(c) + "m"@
}

impl Color {
    /// The ANSI foreground color parameter (e.g. `31`, `38;2;255;128;0`).
    pub fn to_ansi_fg(&self) -> (r: String)
        ensures
            r@ == ansi_code(*self),
    {
        match self {
            Color::Black => String::from_str("30"),
            Color::Red => String::from_str("31"),
            Color::Green => String::from_str("32"),
            Color::Yellow => String::from_str("33"),
            Color::Blue => String::from_str("34"),
            Color::Magenta => String::from_str("35"),
            Color::Cyan => String::from_str("36"),
            Color::White => String::from_str("37"),
            Color::BrightBlack => String::from_str("90"),
            Color::BrightRed => String::from_str("91"),
            Color::BrightGreen => String::from_str("92"),
            Color::BrightYellow => String::from_str("93"),
            Color::BrightBlue => String::from_str("94"),
            Color::BrightMagenta => String::from_str("95"),
            Color::BrightCyan => String::from_str("96"),
            Color::BrightWhite => String::from_str("97"),
            Color::Rgb(r, g, b) => {
                let mut s = String::from_str("38;2;");
                push_decimal_u64(&mut s, *r as u64);
                s.append(";");
                push_decimal_u64(&mut s, *g as u64);
                s.append(";");
                push_decimal_u64(&mut s, *b as u64);
                s
            },
            Color::Default => String::from_str("39"),
        }
    }

    /// The escape sequence applying this color to the foreground.
    pub fn fg(&self) -> (r: String)
        ensures
            r@ == fg_sequence(*self),
    {
        let mut s = String::from_str("\x1b[");
        let code = self.to_ansi_fg();
        s.append(code.as_str());
        s.append("m");
        s
    }
}

/// A theme definition.
#[derive(Debug, Clone)]
pub struct Theme {
    /// Theme name.
    pub name: String,
    /// Primary accent color.
    pub primary: Color,
    /// Secondary accent color.
    pub secondary: Color,
    /// Error/danger color.
    pub error: Color,
    /// Success color.
    pub success: Color,
    /// Prompt template; supports `{user}`, `{host}`, `{cwd}`, `{mode}`,
    /// `{git_branch}` and `{emoji}`.
    pub prompt: String,
    /// Mode emoji.
    pub emoji: Option<String>,
}

/// The mathematical content of a `Theme`.
pub struct ThemeModel {
    pub name: Seq<char>,
    pub primary: Color,
    pub secondary: Color,
    pub error: Color,
    pub success: Color,
    pub prompt: Seq<char>,
    pub emoji: Option<Seq<char>>,
}

impl View for Theme {
    type V = ThemeModel;

    open spec fn view(&self) -> ThemeModel {
        ThemeModel {
            name: self.name@,
            primary: self.primary,
            secondary: self.secondary,
            error: self.error,
            success: self.success,
            prompt: self.prompt@,
            emoji: match self.emoji {
                Some(e) => Some(e@),
                None => None,
            },
        }
    }
}

/// The built-in theme of each mode.
pub open spec fn mode_theme(mode: Mode) -> ThemeModel {
    match mode {
        Mode::Kids => ThemeModel {
            name: "kids"@,
            primary: Color::Cyan,
            secondary: Color::BrightYellow,
            error: Color::BrightRed,
            success: Color::BrightGreen,
            prompt: "🐚 {emoji} {cwd}> "@,
            emoji: Some("🧒"@),
        },
        Mode::Agent => ThemeModel {
            name: "agent"@,
            primary: Color::BrightBlue,
            secondary: Color::BrightCyan,
            error: Color::Red,
            success: Color::Green,
            prompt: "[{mode}] {user}:{cwd}$ "@,
            emoji: Some("🤖"@),
        },
        Mode::Admin => ThemeModel {
            name: "admin"@,
            primary: Color::BrightGreen,
            secondary: Color::BrightCyan,
            error: Color::BrightRed,
            success: Color::Green,
            prompt: "{user}@{host}:{cwd}$ "@,
            emoji: Some("⚡"@),
        },
    }
}

/// The mode word a theme name stands for in prompts.
pub open spec fn theme_mode_word(name: Seq<char>) -> Seq<char> {
    if name == "kids"@ {
        "kids"@
    } else if name == "agent"@ {
        "agent"@
    } else {
        "admin"@
    }
}

/// The rendered prompt: each placeholder replaced, in the order `{user}`,
/// `{host}`, `{cwd}`, `{mode}`, `{git_branch}`, `{emoji}`.
pub open spec fn render_spec(
    t: ThemeModel,
    user: Seq<char>,
    host: Seq<char>,
    cwd: Seq<char>,
    git_branch: Seq<char>,
) -> Seq<char> {
    let emoji = match t.emoji {
        Some(e) => e,
        None => Seq::empty(),
    };
    replace_spec(
        replace_spec(
            replace_spec(
                replace_spec(
                    replace_spec(replace_spec(t.prompt, "{user}"@, user), "{host}"@, host),
                    "{cwd}"@,
                    cwd,
                ),
                "{mode}"@,
                theme_mode_word(t.name),
            ),
            "{git_branch}"@,
            git_branch,
        ),
        "{emoji}"@,
        emoji,
    )
}

/// `text` wrapped in a color's escape sequence and a reset.
pub open spec fn colorize_spec(c: Color, text: Seq<char>) -> Seq<char> {
    fg_sequence(c) + text + "\x1b[0m"@
}

fn colorize(c: &Color, text: &str) -> (r: String)
    ensures
        r@ == colorize_spec(*c, text@),
{
    let mut s = c.fg();
    s.append(text);
    s.append("\x1b[0m");
    s
}

impl Theme {
    /// Kids theme: friendly, colorful, emoji-heavy.
    pub fn kids() -> (r: Self)
        ensures
            r@ == mode_theme(Mode::Kids),
    {
        Theme {
            name: String::from_str("kids"),
            primary: Color::Cyan,
            secondary: Color::BrightYellow,
            error: Color::BrightRed,
            success: Color::BrightGreen,
            prompt: String::from_str("🐚 {emoji} {cwd}> "),
            emoji: Some(String::from_str("🧒")),
        }
    }

    /// Agent theme: minimal, structured.
    pub fn agent() -> (r: Self)
        ensures
            r@ == mode_theme(Mode::Agent),
    {
        Theme {
            name: String::from_str("agent"),
            primary: Color::BrightBlue,
            secondary: Color::BrightCyan,
            error: Color::Red,
            success: Color::Green,
            prompt: String::from_str("[{mode}] {user}:{cwd}$ "),
            emoji: Some(String::from_str("🤖")),
        }
    }

    /// Admin theme: classic terminal.
    pub fn admin() -> (r: Self)
        ensures
            r@ == mode_theme(Mode::Admin),
    {
        Theme {
            name: String::from_str("admin"),
            primary: Color::BrightGreen,
            secondary: Color::BrightCyan,
            error: Color::BrightRed,
            success: Color::Green,
            prompt: String::from_str("{user}@{host}:{cwd}$ "),
            emoji: Some(String::from_str("⚡")),
        }
    }

    /// The theme of a mode.
    pub fn for_mode(mode: Mode) -> (r: Self)
        ensures
            r@ == mode_theme(mode),
    {
        match mode {
            Mode::Kids => Self::kids(),
            Mode::Agent => Self::agent(),
            Mode::Admin => Self::admin(),
        }
    }

    /// The prompt template with its placeholders filled in; a missing git
    /// branch or emoji renders as empty text, and `{mode}` becomes `kids` or
    /// `agent` for those theme names and `admin` otherwise.
    pub fn render_prompt(&self, user: &str, host: &str, cwd: &str, git_branch: Option<&str>) -> (r: String)
        ensures
            r@ == render_spec(
                self@,
                user@,
                host@,
                cwd@,
                match git_branch {
                    Some(b) => b@,
                    None => Seq::empty(),
                },
            ),
    {
        proof {
            reveal_strlit("{user}");
            reveal_strlit("{host}");
            reveal_strlit("{cwd}");
            reveal_strlit("{mode}");
            reveal_strlit("{git_branch}");
            reveal_strlit("{emoji}");
            reveal_strlit("");
        }
        let emoji: &str = match &self.emoji {
            Some(e) => e.as_str(),
            None => "",
        };
        let mode: &str = if str_eq(self.name.as_str(), "kids") {
            "kids"
        } else if str_eq(self.name.as_str(), "agent") {
            "agent"
        } else {
            "admin"
        };
        let branch: &str = match git_branch {
            Some(b) => b,
            None => "",
        };
        assert(mode@ == theme_mode_word(self@.name));
        assert(emoji@ == match self@.emoji {
            Some(e) => e,
            None => Seq::<char>::empty(),
        });
        assert(branch@ == match git_branch {
            Some(b) => b@,
            None => Seq::<char>::empty(),
        });
        let a = replace_all(self.prompt.as_str(), "{user}", user);
        let b = replace_all(a.as_str(), "{host}", host);
        let c = replace_all(b.as_str(), "{cwd}", cwd);
        let d = replace_all(c.as_str(), "{mode}", mode);
        let e = replace_all(d.as_str(), "{git_branch}", branch);
        replace_all(e.as_str(), "{emoji}", emoji)
    }

    /// `text` in the primary color.
    pub fn primary(&self, text: &str) -> (r: String)
        ensures
            r@ == colorize_spec(self.primary, text@),
    {
        colorize(&self.primary, text)
    }

    /// `text` in the error color.
    pub fn error(&self, text: &str) -> (r: String)
        ensures
            r@ == colorize_spec(self.error, text@),
    {
        colorize(&self.error, text)
    }

    /// `text` in the success color.
    pub fn success(&self, text: &str) -> (r: String)
        ensures
            r@ == colorize_spec(self.success, text@),
    {
        colorize(&self.success, text)
    }
}

/// The `{mode}` placeholder renders as the name of the theme's mode: for a
/// theme named after a mode (`kids`, `agent` or `admin`), the rendered
/// prompt is its template with `{user}`, `{host}` and `{cwd}` filled in,
/// then `{mode}` replaced by that mode's name, then `{git_branch}` and
/// `{emoji}`.
pub proof fn law_mode_placeholder_names_the_mode(
    t: ThemeModel,
    m: Mode,
    user: Seq<char>,
    host: Seq<char>,
    cwd: Seq<char>,
    git_branch: Seq<char>,
)
    requires
        t.name == mode_name(m),
    ensures
        render_spec(t, user, host, cwd, git_branch) == replace_spec(
            replace_spec(
                replace_spec(
                    replace_spec(
                        replace_spec(replace_spec(t.prompt, "{user}"@, user), "{host}"@, host),
                        "{cwd}"@,
                        cwd,
                    ),
                    "{mode}"@,
                    mode_name(m),
                ),
                "{git_branch}"@,
                git_branch,
            ),
            "{emoji}"@,
            match t.emoji {
                Some(e) => e,
                None => Seq::empty(),
            },
        ),
{
    reveal_strlit("kids");
    reveal_strlit("agent");
    reveal_strlit("admin");
    assert("kids"@.len() == 4 && "agent"@.len() == 5 && "admin"@.len() == 5);
    assert("agent"@[1] == 'g' && "admin"@[1] == 'd');
    assert(theme_mode_word(t.name) == mode_name(m));
}

/// Text without a `{`, so that no placeholder starts in it.
pub open spec fn brace_free(s: Seq<char>) -> bool {
    forall|i: int| 0 <= i < s.len() ==> s[i] != '{'
}

proof fn lemma_keep(s: Seq<char>, from: Seq<char>, to: Seq<char>)
    requires
        from.len() > 0,
        from[0] == '{',
        brace_free(s),
    ensures
        replace_spec(s, from, to) == s,
    decreases s.len(),
{
    if s.len() > 0 {
        assert(!seq_starts_with(s, from)) by {
            if from.len() <= s.len() {
                assert(s.subrange(0, from.len() as int)[0] == s[0]);
            }
        }
        lemma_keep(s.drop_first(), from, to);
        assert(seq![s[0]] + s.drop_first() =~= s);
    }
}

proof fn lemma_prefix(x: Seq<char>, y: Seq<char>, from: Seq<char>, to: Seq<char>)
    requires
        from.len() > 0,
        from[0] == '{',
        brace_free(x),
    ensures
        replace_spec(x + y, from, to) == x + replace_spec(y, from, to),
    decreases x.len(),
{
    if x.len() == 0 {
        assert(x + y =~= y);
        assert(x + replace_spec(y, from, to) =~= replace_spec(y, from, to));
    } else {
        let s = x + y;
        assert(s[0] == x[0]);
        assert(!seq_starts_with(s, from)) by {
            if from.len() <= s.len() {
                assert(s.subrange(0, from.len() as int)[0] == s[0]);
            }
        }
        assert(s.drop_first() =~= x.drop_first() + y);
        lemma_prefix(x.drop_first(), y, from, to);
        assert(seq![x[0]] + (x.drop_first() + replace_spec(y, from, to)) =~= x + replace_spec(y, from, to));
    }
}

proof fn lemma_hit(y: Seq<char>, from: Seq<char>, to: Seq<char>)
    requires
        from.len() > 0,
    ensures
        replace_spec(from + y, from, to) == to + replace_spec(y, from, to),
{
    let s = from + y;
    assert(s.subrange(0, from.len() as int) =~= from);
    assert(s.subrange(from.len() as int, s.len() as int) =~= y);
}

proof fn lemma_miss(p: Seq<char>, y: Seq<char>, from: Seq<char>, to: Seq<char>)
    requires
        from.len() >= 2,
        from[0] == '{',
        p.len() >= 2,
        p[1] != from[1],
        brace_free(p.drop_first()),
    ensures
        replace_spec(p + y, from, to) == p + replace_spec(y, from, to),
{
    let s = p + y;
    assert(!seq_starts_with(s, from)) by {
        if from.len() <= s.len() {
            assert(s.subrange(0, from.len() as int)[1] == p[1]);
        }
    }
    assert(s.drop_first() =~= p.drop_first() + y);
    lemma_prefix(p.drop_first(), y, from, to);
    assert(seq![p[0]] + (p.drop_first() + replace_spec(y, from, to)) =~= p + replace_spec(y, from, to));
}

proof fn lemma_join_brace_free(a: Seq<char>, b: Seq<char>)
    requires
        brace_free(a),
        brace_free(b),
    ensures
        brace_free(a + b),
{
    assert forall|i: int| 0 <= i < (a + b).len() implies (a + b)[i] != '{' by {
        if i < a.len() {
            assert((a + b)[i] == a[i]);
        } else {
            assert((a + b)[i] == b[i - a.len()]);
        }
    }
}

/// The Agent theme shows its mode: for any user and working directory
/// without a `{`, its prompt reads `[agent] <user>:<cwd>$ `, whatever the
/// host and git branch.
pub proof fn law_agent_prompt(user: Seq<char>, host: Seq<char>, cwd: Seq<char>, git_branch: Seq<char>)
    requires
        brace_free(user),
        brace_free(cwd),
    ensures
        render_spec(mode_theme(Mode::Agent), user, host, cwd, git_branch)
            == seq!['['] + mode_name(Mode::Agent) + seq![']', ' '] + user + seq![':'] + cwd + seq!['$', ' '],
{
    reveal_strlit("[{mode}] {user}:{cwd}$ ");
    reveal_strlit("{user}");
    reveal_strlit("{host}");
    reveal_strlit("{cwd}");
    reveal_strlit("{mode}");
    reveal_strlit("{git_branch}");
    reveal_strlit("{emoji}");
    reveal_strlit("agent");
    reveal_strlit("🤖");
    let lb = seq!['['];
    let md = "{mode}"@;
    let rb = seq![']', ' '];
    let us = "{user}"@;
    let hs = "{host}"@;
    let co = seq![':'];
    let cw = "{cwd}"@;
    let dl = seq!['$', ' '];
    let ag = "agent"@;
    let gb = "{git_branch}"@;
    let em = "{emoji}"@;
    let p0 = "[{mode}] {user}:{cwd}$ "@;
    assert(p0 =~= lb + (md + (rb + (us + (co + (cw + dl))))));
    assert(brace_free(lb) && brace_free(rb) && brace_free(co) && brace_free(dl) && brace_free(ag));
    assert(brace_free(md.drop_first()) && brace_free(cw.drop_first()));
    // `{user}`
    lemma_keep(dl, us, user);
    lemma_miss(cw, dl, us, user);
    lemma_prefix(co, cw + dl, us, user);
    lemma_hit(co + (cw + dl), us, user);
    lemma_prefix(rb, us + (co + (cw + dl)), us, user);
    lemma_miss(md, rb + (us + (co + (cw + dl))), us, user);
    lemma_prefix(lb, md + (rb + (us + (co + (cw + dl)))), us, user);
    let r1 = lb + (md + (rb + (user + (co + (cw + dl)))));
    assert(replace_spec(p0, us, user) == r1);
    // `{host}`
    lemma_keep(dl, hs, host);
    lemma_miss(cw, dl, hs, host);
    lemma_prefix(co, cw + dl, hs, host);
    lemma_prefix(user, co + (cw + dl), hs, host);
    lemma_prefix(rb, user + (co + (cw + dl)), hs, host);
    lemma_miss(md, rb + (user + (co + (cw + dl))), hs, host);
    lemma_prefix(lb, md + (rb + (user + (co + (cw + dl)))), hs, host);
    assert(replace_spec(r1, hs, host) == r1);
    // `{cwd}`
    lemma_keep(dl, cw, cwd);
    lemma_hit(dl, cw, cwd);
    lemma_prefix(co, cw + dl, cw, cwd);
    lemma_prefix(user, co + (cw + dl), cw, cwd);
    lemma_prefix(rb, user + (co + (cw + dl)), cw, cwd);
    lemma_miss(md, rb + (user + (co + (cw + dl))), cw, cwd);
    lemma_prefix(lb, md + (rb + (user + (co + (cw + dl)))), cw, cwd);
    let tail = rb + (user + (co + (cwd + dl)));
    let r3 = lb + (md + tail);
    assert(replace_spec(r1, cw, cwd) == r3);
    // `{mode}`
    lemma_join_brace_free(cwd, dl);
    lemma_join_brace_free(co, cwd + dl);
    lemma_join_brace_free(user, co + (cwd + dl));
    lemma_join_brace_free(rb, user + (co + (cwd + dl)));
    lemma_keep(tail, md, ag);
    lemma_hit(tail, md, ag);
    lemma_prefix(lb, md + tail, md, ag);
    assert(theme_mode_word("agent"@) == ag);
    let r4 = lb + (ag + tail);
    assert(replace_spec(r3, md, ag) == r4);
    // `{git_branch}` and `{emoji}`: nothing left to fill in.
    lemma_join_brace_free(ag, tail);
    lemma_join_brace_free(lb, ag + tail);
    lemma_keep(r4, gb, git_branch);
    lemma_keep(r4, em, "🤖"@);
    assert(r4 =~= seq!['['] + mode_name(Mode::Agent) + seq![']', ' '] + user + seq![':'] + cwd + seq!['$', ' ']);
}

} // verus!
