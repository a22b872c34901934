//! Expanding a word of the shell language: arithmetic `$((expr))`, command
//! substitution `$(cmd)`, variables `$NAME` and `${NAME}`, a leading `~`,
//! quotes and glob patterns.
//!
//! Command substitution runs programs, so it comes in two parts: which
//! substitutions may run (the ACL decides), and, once the caller ran them,
//! the substituted word.

use vstd::prelude::*;
use crate::acl::{acl_verdict, default_engine, AclEngine, Verdict};
use crate::arith::{arith_value, try_eval_arithmetic};
use crate::paths::home_dir;
use crate::profile::Mode;
use crate::text::{
    chars_occurs_at, chars_of, concat2, i64_to_string, int_decimal, occurs_at, push_char, replace_all, replace_spec,
    str_eq, string_of_range, views,
};
use crate::words::{split_ws, split_ws_spec};

verus! {

broadcast use vstd::string::group_string_axioms;

/// Whether `regex::Regex::new` accepts a pattern.
pub uninterp spec fn regex_valid(pattern: Seq<char>) -> bool;

/// What `Regex::captures_iter` finds in a text: each match, and its first
/// group (empty when the group took no part).
pub uninterp spec fn regex_caps(pattern: Seq<char>, text: Seq<char>) -> Seq<(Seq<char>, Seq<char>)>;

pub open spec fn pair_views(v: Seq<(String, String)>) -> Seq<(Seq<char>, Seq<char>)> {
    v.map_values(|p: (String, String)| (p.0@, p.1@))
}

/// The matches of a regular expression in a text, with their first groups.
///
/// Trusted: `Regex::new` fails exactly on the patterns it rejects, a function
/// of the pattern (`regex_valid`); `captures_iter` is a pure function of the
/// compiled pattern and the text, named `regex_caps`.
#[verifier::external_body]
fn regex_captures(pattern: &str, text: &str) -> (r: Option<Vec<(String, String)>>)
    ensures
        r is Some <==> regex_valid(pattern@),
        r matches Some(v) ==> pair_views(v@) == regex_caps(pattern@, text@),
{
    match regex::Regex::new(pattern) {
        Ok(re) => Some(
            re.captures_iter(text).map(|c| (c[0].to_string(), c.get(1).map_or(String::new(), |m| m.as_str().to_string()))).collect(),
        ),
        Err(_) => None,
    }
}

/// The pattern of arithmetic expansion.
pub open spec fn arith_pattern() -> Seq<char> {
    "\\$\\(\\(([^)]+)\\)\\)"@
}

/// The pattern of command substitution.
pub open spec fn command_pattern() -> Seq<char> {
    "\\$\\(([^)]+)\\)"@
}

/// The pattern of a variable.
pub open spec fn var_pattern() -> Seq<char> {
    "\\$([a-zA-Z_][a-zA-Z0-9_]*)"@
}

/// The pattern of a braced variable.
pub open spec fn brace_pattern() -> Seq<char> {
    "\\$\\{([a-zA-Z_][a-zA-Z0-9_]*)\\}"@
}

/// The matches of a pattern, none when it does not compile.
pub open spec fn caps_of(pattern: Seq<char>, text: Seq<char>) -> Seq<(Seq<char>, Seq<char>)> {
    if regex_valid(pattern) { regex_caps(pattern, text) } else { Seq::empty() }
}

fn captures(pattern: &str, text: &str) -> (r: Vec<(String, String)>)
    ensures
        pair_views(r@) == caps_of(pattern@, text@),
{
    match regex_captures(pattern, text) {
        Some(v) => v,
        None => {
            let v: Vec<(String, String)> = Vec::new();
            assert(pair_views(v@) =~= Seq::<(Seq<char>, Seq<char>)>::empty());
            v
        },
    }
}

/// What to do for one command substitution.
#[derive(Debug)]
pub enum SubstRun {
    /// Nothing runs; the substitution is empty.
    Skip,
    /// Run the program (the first word) with the other words as arguments;
    /// the substitution is its standard output without trailing white space,
    /// or empty when it cannot run.
    Run(Vec<String>),
}

pub enum RunView {
    Skip,
    Run(Seq<Seq<char>>),
}

pub open spec fn run_view(r: SubstRun) -> RunView {
    match r {
        SubstRun::Skip => RunView::Skip,
        SubstRun::Run(w) => RunView::Run(views(w@)),
    }
}

/// What one command substitution does in `mode`: nothing for a command of
/// no words or one the mode's ACL denies; else its words run.
pub open spec fn subst_run(cmd: Seq<char>, mode: Mode) -> RunView {
    let words = split_ws_spec(cmd);
    if words.len() == 0 {
        RunView::Skip
    } else if acl_verdict(default_engine(mode), cmd) is Some {
        RunView::Skip
    } else {
        RunView::Run(words)
    }
}

/// What the command substitutions of `arg` do, in order.
pub fn substitution_runs(arg: &str, mode: Mode) -> (r: Vec<SubstRun>)
    ensures
        r@.len() == caps_of(command_pattern(), arg@).len(),
        forall|i: int| 0 <= i < r@.len() ==> run_view(#[trigger] r@[i]) == subst_run(caps_of(command_pattern(), arg@)[i].1, mode),
{
    let caps = captures("\\$\\(([^)]+)\\)", arg);
    let acl = AclEngine::new(mode);
    let mut r: Vec<SubstRun> = Vec::new();
    let mut i: usize = 0;
    while i < caps.len()
        invariant
            i <= caps.len(),
            pair_views(caps@) == caps_of(command_pattern(), arg@),
            acl@ == default_engine(mode),
            r@.len() == i,
            forall|k: int| 0 <= k < i ==> run_view(#[trigger] r@[k]) == subst_run(caps_of(command_pattern(), arg@)[k].1, mode),
        decreases caps.len() - i,
    {
        let cmd = caps[i].1.as_str();
        assert(pair_views(caps@)[i as int].1 == cmd@);
        let words = split_ws(cmd);
        if words.len() == 0 {
            r.push(SubstRun::Skip);
        } else {
            match acl.evaluate(cmd) {
                Verdict::Deny(_) => r.push(SubstRun::Skip),
                Verdict::Allow => r.push(SubstRun::Run(words)),
            }
        }
        i += 1;
    }
    r
}

/// The first position where `sub` occurs in `s` at or after `i`.
pub open spec fn find_from(s: Seq<char>, sub: Seq<char>, i: int) -> Option<int>
    decreases s.len() + 1 - i,
{
    if i < 0 || i + sub.len() > s.len() {
        None
    } else if occurs_at(s, sub, i) {
        Some(i)
    } else {
        find_from(s, sub, i + 1)
    }
}

/// `s` with its first occurrence of `from` replaced by `to`.
pub open spec fn replace_first_spec(s: Seq<char>, from: Seq<char>, to: Seq<char>) -> Seq<char> {
    match find_from(s, from, 0) {
        Some(p) => s.subrange(0, p) + to + s.subrange(p + from.len(), s.len() as int),
        None => s,
    }
}

fn replace_first(s: &str, from: &str, to: &str) -> (r: String)
    ensures
        r@ == replace_first_spec(s@, from@, to@),
{
    let v = chars_of(s);
    let f = chars_of(from);
    if f.len() > v.len() {
        return String::from_str(s);
    }
    if f.len() == 0 {
        assert(s@.subrange(0, 0) =~= from@);
        assert(occurs_at(s@, from@, 0));
        assert(s@.subrange(0, 0) + to@ + s@.subrange(0, s@.len() as int) =~= to@ + s@);
        return concat2(to, s);
    }
    let last = v.len() - f.len();
    let mut i: usize = 0;
    while i <= last
        invariant
            v@ == s@,
            f@ == from@,
            last == v@.len() - f@.len(),
            f@.len() > 0,
            v@.len() == v.len(),
            i <= last + 1,
            find_from(s@, from@, 0) == find_from(s@, from@, i as int),
        decreases last + 1 - i,
    {
        if chars_occurs_at(&v, &f, i) {
            let head = string_of_range(&v, 0, i);
            let tail = string_of_range(&v, i + f.len(), v.len());
            let a = concat2(head.as_str(), to);
            return concat2(a.as_str(), tail.as_str());
        }
        i += 1;
    }
    String::from_str(s)
}

/// The value of the variable `name` among `env`: the first binding, or
/// empty.
pub open spec fn env_value(env: Seq<(Seq<char>, Seq<char>)>, name: Seq<char>) -> Seq<char>
    decreases env.len(),
{
    if env.len() == 0 {
        Seq::empty()
    } else if env[0].0 == name {
        env[0].1
    } else {
        env_value(env.drop_first(), name)
    }
}

fn lookup_env(env: &Vec<(String, String)>, name: &str) -> (r: String)
    ensures
        r@ == env_value(pair_views(env@), name@),
{
    let ghost e = pair_views(env@);
    let mut i: usize = 0;
    assert(e.skip(0) =~= e);
    while i < env.len()
        invariant
            i <= env.len(),
            e == pair_views(env@),
            env_value(e, name@) == env_value(e.skip(i as int), name@),
        decreases env.len() - i,
    {
        assert(e.skip(i as int).drop_first() =~= e.skip(i + 1));
        assert(e.skip(i as int)[0] == (env@[i as int].0@, env@[i as int].1@));
        if str_eq(env[i].0.as_str(), name) {
            return env[i].1.clone();
        }
        i += 1;
    }
    String::new()
}

/// Arithmetic expansion over the matches `caps`, in order: every
/// occurrence of a match is replaced by the value of its expression; one
/// whose evaluation overflows stays as written.
pub open spec fn arith_pass(r: Seq<char>, caps: Seq<(Seq<char>, Seq<char>)>) -> Seq<char>
    decreases caps.len(),
{
    if caps.len() == 0 {
        r
    } else {
        let prev = arith_pass(r, caps.drop_last());
        let (whole, expr) = caps.last();
        match arith_value(expr) {
            Some(v) => if whole.len() > 0 { replace_spec(prev, whole, int_decimal(v)) } else { prev },
            None => prev,
        }
    }
}

/// The output of the `i`-th substitution, empty past the end.
pub open spec fn output_at(outputs: Seq<Seq<char>>, i: int) -> Seq<char> {
    if 0 <= i < outputs.len() { outputs[i] } else { Seq::empty() }
}

/// Command substitution over the matches `caps`, in order: every
/// occurrence of a match is replaced by its command's output.
pub open spec fn command_pass(r: Seq<char>, caps: Seq<(Seq<char>, Seq<char>)>, outputs: Seq<Seq<char>>) -> Seq<char>
    decreases caps.len(),
{
    if caps.len() == 0 {
        r
    } else {
        let prev = command_pass(r, caps.drop_last(), outputs);
        let whole = caps.last().0;
        if whole.len() > 0 { replace_spec(prev, whole, output_at(outputs, caps.len() - 1)) } else { prev }
    }
}

/// Variable expansion over the matches `caps`, in order: the first
/// occurrence of each match is replaced by the variable's value.
pub open spec fn var_pass(r: Seq<char>, caps: Seq<(Seq<char>, Seq<char>)>, env: Seq<(Seq<char>, Seq<char>)>) -> Seq<char>
    decreases caps.len(),
{
    if caps.len() == 0 {
        r
    } else {
        let prev = var_pass(r, caps.drop_last(), env);
        let (whole, name) = caps.last();
        replace_first_spec(prev, whole, env_value(env, name))
    }
}

/// A leading `~` replaced by the home directory, when there is one.
pub open spec fn tilde_pass(r: Seq<char>, home: Option<Seq<char>>) -> Seq<char> {
    if r.len() > 0 && r[0] == '~' && home is Some {
        home->0 + r.drop_first()
    } else {
        r
    }
}

/// A word after substitution, with the outputs of its command
/// substitutions, the variables `env` and the home directory: arithmetic
/// first, then commands, `$NAME`, `${NAME}`, and a leading `~`. The matches
/// are found in the word as written.
pub open spec fn substituted(arg: Seq<char>, outputs: Seq<Seq<char>>, env: Seq<(Seq<char>, Seq<char>)>, home: Option<Seq<char>>) -> Seq<char> {
    let a = arith_pass(arg, caps_of(arith_pattern(), arg));
    let c = command_pass(a, caps_of(command_pattern(), arg), outputs);
    let v = var_pass(c, caps_of(var_pattern(), arg), env);
    let b = var_pass(v, caps_of(brace_pattern(), arg), env);
    tilde_pass(b, home)
}

fn apply_arith(r: String, caps: &Vec<(String, String)>) -> (out: String)
    ensures
        out@ == arith_pass(r@, pair_views(caps@)),
{
    let ghost c = pair_views(caps@);
    let ghost r0 = r@;
    let mut out = r;
    let mut i: usize = 0;
    assert(c.take(0) =~= Seq::<(Seq<char>, Seq<char>)>::empty());
    while i < caps.len()
        invariant
            i <= caps.len(),
            c == pair_views(caps@),
            out@ == arith_pass(r0, c.take(i as int)),
        decreases caps.len() - i,
    {
        assert(c.take(i + 1).drop_last() =~= c.take(i as int));
        assert(c.take(i + 1).last() == (caps@[i as int].0@, caps@[i as int].1@));
        let whole = caps[i].0.as_str();
        match try_eval_arithmetic(caps[i].1.as_str()) {
            Some(v) => {
                if whole.unicode_len() > 0 {
                    let text = i64_to_string(v);
                    out = replace_all(out.as_str(), whole, text.as_str());
                }
            },
            None => {},
        }
        i += 1;
    }
    assert(c.take(i as int) =~= c);
    out
}

fn apply_commands(r: String, caps: &Vec<(String, String)>, outputs: &Vec<String>) -> (out: String)
    ensures
        out@ == command_pass(r@, pair_views(caps@), views(outputs@)),
{
    let ghost c = pair_views(caps@);
    let ghost r0 = r@;
    let mut out = r;
    let mut i: usize = 0;
    assert(c.take(0) =~= Seq::<(Seq<char>, Seq<char>)>::empty());
    while i < caps.len()
        invariant
            i <= caps.len(),
            c == pair_views(caps@),
            out@ == command_pass(r0, c.take(i as int), views(outputs@)),
        decreases caps.len() - i,
    {
        assert(c.take(i + 1).drop_last() =~= c.take(i as int));
        assert(c.take(i + 1).last() == (caps@[i as int].0@, caps@[i as int].1@));
        let whole = caps[i].0.as_str();
        if whole.unicode_len() > 0 {
            let value = if i < outputs.len() { outputs[i].clone() } else { String::new() };
            out = replace_all(out.as_str(), whole, value.as_str());
        }
        i += 1;
    }
    assert(c.take(i as int) =~= c);
    out
}

fn apply_vars(r: String, caps: &Vec<(String, String)>, env: &Vec<(String, String)>) -> (out: String)
    ensures
        out@ == var_pass(r@, pair_views(caps@), pair_views(env@)),
{
    let ghost c = pair_views(caps@);
    let ghost r0 = r@;
    let mut out = r;
    let mut i: usize = 0;
    assert(c.take(0) =~= Seq::<(Seq<char>, Seq<char>)>::empty());
    while i < caps.len()
        invariant
            i <= caps.len(),
            c == pair_views(caps@),
            out@ == var_pass(r0, c.take(i as int), pair_views(env@)),
        decreases caps.len() - i,
    {
        assert(c.take(i + 1).drop_last() =~= c.take(i as int));
        assert(c.take(i + 1).last() == (caps@[i as int].0@, caps@[i as int].1@));
        let value = lookup_env(env, caps[i].1.as_str());
        out = replace_first(out.as_str(), caps[i].0.as_str(), value.as_str());
        i += 1;
    }
    assert(c.take(i as int) =~= c);
    out
}

fn apply_tilde(r: String, home: Option<&str>) -> (out: String)
    ensures
        out@ == tilde_pass(r@, match home { Some(h) => Some(h@), None => None }),
{
    match home {
        Some(h) => {
            if r.unicode_len() > 0 && r.get_char(0) == '~' {
                let v = chars_of(r.as_str());
                let rest = string_of_range(&v, 1, v.len());
                assert(rest@ =~= r@.drop_first());
                concat2(h, rest.as_str())
            } else {
                r
            }
        },
        None => r,
    }
}

/// A word after substitution, given the outputs of its command
/// substitutions (in order; missing ones are empty), the variables and the
/// home directory.
pub fn substitute(arg: &str, outputs: &Vec<String>, env: &Vec<(String, String)>, home: Option<&str>) -> (r: String)
    ensures
        r@ == substituted(arg@, views(outputs@), pair_views(env@), match home {
            Some(h) => Some(h@),
            None => None,
        }),
{
    let a_caps = captures("\\$\\(\\(([^)]+)\\)\\)", arg);
    let c_caps = captures("\\$\\(([^)]+)\\)", arg);
    let v_caps = captures("\\$([a-zA-Z_][a-zA-Z0-9_]*)", arg);
    let b_caps = captures("\\$\\{([a-zA-Z_][a-zA-Z0-9_]*)\\}", arg);
    let r = apply_arith(String::from_str(arg), &a_caps);
    let r = apply_commands(r, &c_caps, outputs);
    let r = apply_vars(r, &v_caps, env);
    let r = apply_vars(r, &b_caps, env);
    apply_tilde(r, home)
}

/// What `glob::Pattern::escape` gives: each of `? * [ ]` put in brackets.
pub open spec fn escape_spec(s: Seq<char>) -> Seq<char>
    decreases s.len(),
{
    if s.len() == 0 {
        Seq::empty()
    } else {
        let c = s.last();
        escape_spec(s.drop_last()) + if c == '?' || c == '*' || c == '[' || c == ']' {
            seq!['[', c, ']']
        } else {
            seq![c]
        }
    }
}

/// A glob pattern escaped.
///
/// Trusted: `glob::Pattern::escape` puts each `?`, `*`, `[` and `]` in
/// brackets and keeps every other character, as its source shows.
#[verifier::external_body]
fn glob_escape(s: &str) -> (r: String)
    ensures
        r@ == escape_spec(s@),
{
    glob::Pattern::escape(s)
}

/// The paths that a glob pattern matches on disk, in the order `glob::glob`
/// yields them (unreadable entries skipped), or `None` when the pattern does
/// not compile.
///
/// Trusted, with nothing stated: the answer depends on what is on disk.
#[verifier::external_body]
fn glob_paths(pattern: &str) -> (r: Option<Vec<String>>)
{
    match glob::glob(pattern) {
        Ok(paths) => Some(paths.filter_map(|p| p.ok()).map(|p| p.to_string_lossy().into_owned()).collect()),
        Err(_) => None,
    }
}

/// A word with a leading `~` replaced by the home directory, when there is
/// one.
pub open spec fn tilde_word(arg: Seq<char>, home: Option<Seq<char>>) -> Seq<char> {
    if arg.len() > 0 && arg[0] == '~' && home is Some { home->0 + arg.drop_first() } else { arg }
}

/// Whether a character is a quote.
pub open spec fn is_quote(c: char) -> bool {
    c == '\'' || c == '"'
}

/// The first position at or after `i` that holds no quote.
pub open spec fn first_unquoted(s: Seq<char>, i: int) -> int
    decreases s.len() - i,
{
    if i < 0 || i >= s.len() || !is_quote(s[i]) { i } else { first_unquoted(s, i + 1) }
}

/// The end of `s[..j]` without its trailing quotes.
pub open spec fn last_unquoted(s: Seq<char>, j: int) -> int
    decreases j,
{
    if j <= 0 || j > s.len() || !is_quote(s[j - 1]) { j } else { last_unquoted(s, j - 1) }
}

/// A word without its leading and trailing quotes.
pub open spec fn trim_quotes(s: Seq<char>) -> Seq<char> {
    let a = first_unquoted(s, 0);
    if a >= s.len() { Seq::empty() } else { s.subrange(a, last_unquoted(s, s.len() as int)) }
}

/// The words of an expanded word: a quoted word is split at white space
/// after its quotes are trimmed; a word with glob characters gives the paths
/// it matches, when it matches some; any other word stays as it is.
pub open spec fn expanded_words(a: Seq<char>, matches: Option<Seq<Seq<char>>>) -> Seq<Seq<char>> {
    if a.len() == 0 {
        seq![a]
    } else if is_quote(a[0]) {
        split_ws_spec(trim_quotes(a))
    } else if escape_spec(a) != a && matches is Some && matches->0.len() > 0 {
        matches->0
    } else {
        seq![a]
    }
}

fn trimmed_quotes(a: &str) -> (r: String)
    ensures
        r@ == trim_quotes(a@),
{
    let v = chars_of(a);
    let n = v.len();
    let mut i: usize = 0;
    while i < n && (v[i] == '\'' || v[i] == '"')
        invariant
            i <= n,
            n == v@.len(),
            v@ == a@,
            first_unquoted(a@, 0) == first_unquoted(a@, i as int),
        decreases n - i,
    {
        i += 1;
    }
    if i >= n {
        return String::new();
    }
    let mut j: usize = n;
    while j > 0 && (v[j - 1] == '\'' || v[j - 1] == '"')
        invariant
            i < n,
            j <= n,
            n == v@.len(),
            v@ == a@,
            i < j,
            first_unquoted(a@, 0) == i,
            last_unquoted(a@, n as int) == last_unquoted(a@, j as int),
            !is_quote(a@[i as int]),
        decreases j,
    {
        j -= 1;
    }
    string_of_range(&v, i, j)
}

/// The words of `a` once quotes and globs are expanded, given the paths its
/// glob matched (when one was tried).
pub fn expand_words(a: &str, matches: Option<Vec<String>>) -> (r: Vec<String>)
    ensures
        views(r@) == expanded_words(a@, match matches {
            Some(m) => Some(views(m@)),
            None => None,
        }),
{
    let n = a.unicode_len();
    if n == 0 {
        let r = vec![String::from_str(a)];
        assert(views(r@) =~= seq![a@]);
        return r;
    }
    let first = a.get_char(0);
    if first == '\'' || first == '"' {
        let t = trimmed_quotes(a);
        return split_ws(t.as_str());
    }
    let esc = glob_escape(a);
    if !str_eq(esc.as_str(), a) {
        match matches {
            Some(m) => {
                if m.len() > 0 {
                    return m;
                }
            },
            None => {},
        }
    }
    let r = vec![String::from_str(a)];
    assert(views(r@) =~= seq![a@]);
    r
}

/// Whether `expand_arg` looks for paths that a word matches: a word that is
/// neither empty nor quoted and holds glob characters.
pub open spec fn globs(a: Seq<char>) -> bool {
    a.len() > 0 && !is_quote(a[0]) && escape_spec(a) != a
}

/// The words of an argument: a leading `~` replaced by the home directory,
/// then quotes trimmed and split, or glob patterns expanded to the paths
/// they match. What the home directory and the disk hold comes from the
/// environment, so the contract states the result over them.
pub fn expand_arg(arg: &str) -> (r: Vec<String>)
    ensures
        exists|home: Option<Seq<char>>, found: Option<Seq<Seq<char>>>|
            views(r@) == expanded_words(tilde_word(arg@, home), found) && (!globs(tilde_word(arg@, home)) ==> found is None),
{
    let home = home_dir();
    let a = if arg.unicode_len() > 0 && arg.get_char(0) == '~' {
        match &home {
            Some(h) => {
                let v = chars_of(arg);
                let rest = string_of_range(&v, 1, v.len());
                assert(rest@ =~= arg@.drop_first());
                concat2(h.as_str(), rest.as_str())
            },
            None => String::from_str(arg),
        }
    } else {
        String::from_str(arg)
    };
    let ghost hv = match &home {
        Some(h) => Some(h@),
        None => None,
    };
    assert(a@ == tilde_word(arg@, hv));
    let n = a.unicode_len();
    let wants_glob = n > 0 && !(a.get_char(0) == '\'' || a.get_char(0) == '"') && {
        let esc = glob_escape(a.as_str());
        !str_eq(esc.as_str(), a.as_str())
    };
    let found = if wants_glob { glob_paths(a.as_str()) } else { None };
    let ghost fv = match &found {
        Some(m) => Some(views(m@)),
        None => None,
    };
    let r = expand_words(a.as_str(), found);
    assert(views(r@) == expanded_words(tilde_word(arg@, hv), fv));
    r
}

} // verus!
