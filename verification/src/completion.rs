//! Tab completion filtered by mode: Kids see the builtins and their
//! allowlisted commands only; Agent and Admin see the builtins and every
//! command found on `PATH`. Scanning `PATH` and reading directories is the
//! caller's part; it hands the names in.

use vstd::prelude::*;
use crate::acl::{AclEngine, RuleModel};
use crate::order::{lemma_sorted_unique, lex_sorted, sort_strings};
use crate::paths::path_file_name_of;
use crate::profile::Mode;
use crate::text::{seq_starts_with, str_eq, str_starts_with, strings_contain, views};

verus! {

broadcast use vstd::string::group_string_axioms;

/// The names of the builtin commands.
pub open spec fn builtin_name_list() -> Seq<Seq<char>> {
    seq!["?"@, "ai"@, "snapshots"@, "undo"@, "redo"@, "allow"@, "block"@, "mode"@, "help"@, "exit"@, "quit"@]
}

/// The names of the builtin commands.
pub fn builtin_names() -> (r: Vec<String>)
    ensures
        views(r@) == builtin_name_list(),
{
    let r: Vec<String> = vec![
        String::from_str("?"),
        String::from_str("ai"),
        String::from_str("snapshots"),
        String::from_str("undo"),
        String::from_str("redo"),
        String::from_str("allow"),
        String::from_str("block"),
        String::from_str("mode"),
        String::from_str("help"),
        String::from_str("exit"),
        String::from_str("quit"),
    ];
    assert(views(r@) =~= builtin_name_list());
    r
}

/// The names that start with `partial`, in order.
pub open spec fn prefixed(names: Seq<Seq<char>>, partial: Seq<char>) -> Seq<Seq<char>> {
    names.filter(|n: Seq<char>| seq_starts_with(n, partial))
}

/// Whether an allowlist pattern offers itself as a completion of `partial`:
/// it starts with `partial` and holds no `*`. The Kids tutor rule, written
/// `[?]` so that it matches `?` alone, is not offered: the builtin `?` is.
pub open spec fn offers(pattern: Seq<char>, partial: Seq<char>) -> bool {
    seq_starts_with(pattern, partial) && !pattern.contains('*') && pattern != "[?]"@
}

/// `acc` followed by the offered allowlist patterns, each once and only if not
/// already there.
pub open spec fn add_allowed(rules: Seq<RuleModel>, partial: Seq<char>, acc: Seq<Seq<char>>) -> Seq<Seq<char>>
    decreases rules.len(),
{
    if rules.len() == 0 {
        acc
    } else {
        let before = add_allowed(rules.drop_last(), partial, acc);
        let p = rules.last().pattern;
        if offers(p, partial) && !before.contains(p) {
            before.push(p)
        } else {
            before
        }
    }
}

/// The completion candidates, unsorted: the builtins starting with
/// `partial`, then for Kids the offered allowlist patterns not yet present,
/// for the other modes the `PATH` commands starting with `partial`.
pub open spec fn candidates(
    builtins: Seq<Seq<char>>,
    paths: Seq<Seq<char>>,
    partial: Seq<char>,
    mode: Mode,
    allowlist: Seq<RuleModel>,
) -> Seq<Seq<char>> {
    let b = prefixed(builtins, partial);
    if mode == Mode::Kids {
        add_allowed(allowlist, partial, b)
    } else {
        b + prefixed(paths, partial)
    }
}

/// Whether `r` is the completion list of `partial`: the candidates, sorted.
pub open spec fn is_completion_list(
    r: Seq<Seq<char>>,
    e: CompletionView,
    partial: Seq<char>,
    mode: Mode,
    allowlist: Seq<RuleModel>,
) -> bool {
    &&& lex_sorted(r)
    &&& r.to_multiset() == candidates(e.builtins, e.paths, partial, mode, allowlist).to_multiset()
}

/// The state of a completion engine.
pub struct CompletionView {
    pub builtins: Seq<Seq<char>>,
    pub paths: Seq<Seq<char>>,
}

/// The completion provider.
pub struct CompletionEngine {
    path_commands: Vec<String>,
    builtin_commands: Vec<String>,
}

impl CompletionEngine {
    /// The builtins are always the builtin names.
    #[verifier::type_invariant]
    spec fn builtins_fixed(&self) -> bool {
        views(self.builtin_commands@) == builtin_name_list()
    }
}

/// The accumulated names stay among the candidates.
proof fn lemma_add_allowed_keeps(rules: Seq<RuleModel>, partial: Seq<char>, acc: Seq<Seq<char>>, x: Seq<char>)
    requires
        acc.contains(x),
    ensures
        add_allowed(rules, partial, acc).contains(x),
    decreases rules.len(),
{
    if rules.len() > 0 {
        lemma_add_allowed_keeps(rules.drop_last(), partial, acc, x);
        let before = add_allowed(rules.drop_last(), partial, acc);
        let j = choose|j: int| 0 <= j < before.len() && before[j] == x;
        assert(before.push(rules.last().pattern)[j] == x);
    }
}

/// The tutor command `?` is a completion of the empty word in every mode.
proof fn lemma_tutor_offered(paths: Seq<Seq<char>>, mode: Mode, allowlist: Seq<RuleModel>)
    ensures
        candidates(builtin_name_list(), paths, Seq::empty(), mode, allowlist).contains("?"@),
{
    let b = builtin_name_list();
    let pred = |n: Seq<char>| seq_starts_with(n, Seq::<char>::empty());
    assert(b[0].subrange(0, 0) =~= Seq::<char>::empty());
    assert(pred(b[0]));
    b.lemma_filter_contains(pred, 0);
    let pb = prefixed(b, Seq::empty());
    assert(pb == b.filter(pred));
    assert(pb.contains("?"@));
    if mode == Mode::Kids {
        lemma_add_allowed_keeps(allowlist, Seq::empty(), pb, "?"@);
    } else {
        let j = choose|j: int| 0 <= j < pb.len() && pb[j] == "?"@;
        assert((pb + prefixed(paths, Seq::empty()))[j] == "?"@);
    }
}

impl View for CompletionEngine {
    type V = CompletionView;

    closed spec fn view(&self) -> CompletionView {
        CompletionView { builtins: views(self.builtin_commands@), paths: views(self.path_commands@) }
    }
}

fn has_char(s: &str, c: char) -> (r: bool)
    ensures
        r == s@.contains(c),
{
    let n = s.unicode_len();
    let mut i: usize = 0;
    while i < n
        invariant
            n == s@.len(),
            i <= n,
            forall|k: int| 0 <= k < i ==> s@[k] != c,
        decreases n - i,
    {
        if s.get_char(i) == c {
            return true;
        }
        i += 1;
    }
    false
}

/// The names, each once, in order of first appearance.
fn distinct(names: Vec<String>) -> (r: Vec<String>)
    ensures
        views(r@).no_duplicates(),
        views(r@).to_set() == views(names@).to_set(),
{
    let mut r: Vec<String> = Vec::new();
    let mut i: usize = 0;
    while i < names.len()
        invariant
            i <= names.len(),
            views(r@).no_duplicates(),
            views(r@).to_set() == views(names@).take(i as int).to_set(),
        decreases names.len() - i,
    {
        let ghost before = views(r@);
        let present = strings_contain(&r, &names[i]);
        proof {
            assert(views(names@).take(i + 1) =~= views(names@).take(i as int).push(names@[i as int]@));
        }
        if !present {
            r.push(names[i].clone());
            proof {
                broadcast use vstd::seq_lib::group_seq_properties;
                assert(views(r@) =~= before.push(names@[i as int]@));
                assert(views(r@).to_set() =~= before.to_set().insert(names@[i as int]@));
                assert(views(names@).take(i + 1).to_set() =~= views(names@).take(i as int).to_set().insert(names@[i as int]@));
            }
        } else {
            proof {
                broadcast use vstd::seq_lib::group_seq_properties;
                assert(views(names@).take(i + 1).to_set() =~= views(names@).take(i as int).to_set().insert(names@[i as int]@));
                assert(before.to_set().contains(names@[i as int]@));
                assert(before.to_set().insert(names@[i as int]@) =~= before.to_set());
            }
        }
        i += 1;
    }
    assert(views(names@).take(names.len() as int) =~= views(names@));
    r
}

/// The names starting with `partial`, appended to `out`.
fn push_prefixed(out: &mut Vec<String>, names: &Vec<String>, partial: &str)
    ensures
        views(final(out)@) == views(old(out)@) + prefixed(views(names@), partial@),
{
    let ghost keep = |n: Seq<char>| seq_starts_with(n, partial@);
    let ghost all = views(names@);
    let ghost start = views(out@);
    let mut i: usize = 0;
    while i < names.len()
        invariant
            i <= names.len(),
            all == views(names@),
            keep == (|n: Seq<char>| seq_starts_with(n, partial@)),
            views(out@) == start + all.take(i as int).filter(keep),
        decreases names.len() - i,
    {
        let ghost before = views(out@);
        proof {
            assert(all.take(i + 1) =~= all.take(i as int).push(all[i as int]));
            reveal(Seq::filter);
            assert(all.take(i as int).push(all[i as int]).drop_last() =~= all.take(i as int));
        }
        if str_starts_with(names[i].as_str(), partial) {
            out.push(names[i].clone());
            proof {
                assert(views(out@) =~= before.push(all[i as int]));
            }
        }
        i += 1;
    }
    assert(all.take(names.len() as int) =~= all);
}

impl CompletionEngine {
    /// An engine over the given `PATH` commands (kept once each) and the
    /// builtin names.
    pub fn new(path_commands: Vec<String>) -> (r: Self)
        ensures
            r@.builtins == builtin_name_list(),
            r@.paths.no_duplicates(),
            r@.paths.to_set() == views(path_commands@).to_set(),
    {
        CompletionEngine { path_commands: distinct(path_commands), builtin_commands: builtin_names() }
    }

    /// Completion candidates for a partial command, sorted.
    pub fn complete(&self, partial: &str, mode: Mode, acl: &AclEngine) -> (r: Vec<String>)
        ensures
            is_completion_list(views(r@), self@, partial@, mode, acl@.allowlist),
    {
        let mut cands: Vec<String> = Vec::new();
        push_prefixed(&mut cands, &self.builtin_commands, partial);
        assert(views(cands@) =~= prefixed(self@.builtins, partial@));
        if mode == Mode::Kids {
            let ghost rules = acl@.allowlist;
            let mut i: usize = 0;
            while i < acl.allowlist.len()
                invariant
                    i <= acl.allowlist.len(),
                    rules == acl@.allowlist,
                    views(cands@) == add_allowed(rules.take(i as int), partial@, prefixed(self@.builtins, partial@)),
                decreases acl.allowlist.len() - i,
            {
                let pattern = &acl.allowlist[i].pattern;
                proof {
                    assert(rules.take(i + 1).drop_last() =~= rules.take(i as int));
                    assert(rules.take(i + 1).last() == acl.allowlist@[i as int]@);
                }
                if str_starts_with(pattern.as_str(), partial) && !has_char(pattern.as_str(), '*') && !str_eq(pattern.as_str(), "[?]") {
                    if !strings_contain(&cands, pattern) {
                        let ghost before = views(cands@);
                        cands.push(pattern.clone());
                        assert(views(cands@) =~= before.push(pattern@));
                    }
                }
                i += 1;
            }
            assert(rules.take(acl.allowlist.len() as int) =~= rules);
        } else {
            push_prefixed(&mut cands, &self.path_commands, partial);
        }
        sort_strings(cands)
    }

    /// Every command offered in a mode: the completions of the empty word.
    pub fn all_commands(&self, mode: Mode, acl: &AclEngine) -> (r: Vec<String>)
        ensures
            is_completion_list(views(r@), self@, Seq::empty(), mode, acl@.allowlist),
            views(r@).contains("?"@),
    {
        let r = self.complete("", mode, acl);
        proof {
            use_type_invariant(self);
            lemma_tutor_offered(self@.paths, mode, acl@.allowlist);
            let c = candidates(self@.builtins, self@.paths, Seq::empty(), mode, acl@.allowlist);
            c.to_multiset_ensures();
            views(r@).to_multiset_ensures();
            assert(c.to_multiset().count("?"@) > 0);
            reveal_strlit("");
            assert(""@ =~= Seq::<char>::empty());
        }
        r
    }

    /// Replaces the `PATH` commands with a fresh scan.
    pub fn refresh(&mut self, path_commands: Vec<String>)
        ensures
            final(self)@.builtins == old(self)@.builtins,
            final(self)@.paths.no_duplicates(),
            final(self)@.paths.to_set() == views(path_commands@).to_set(),
    {
        proof {
            use_type_invariant(&*self);
        }
        self.path_commands = distinct(path_commands);
    }
}

/// The completion list of a word is determined by the engine, the word,
/// the mode and the allowlist: two results of `complete` for the same
/// inputs are equal, and `all_commands` is `complete` of the empty word.
pub proof fn law_completion_list_determined(
    e: CompletionView,
    partial: Seq<char>,
    mode: Mode,
    allowlist: Seq<RuleModel>,
    r1: Seq<Seq<char>>,
    r2: Seq<Seq<char>>,
)
    requires
        is_completion_list(r1, e, partial, mode, allowlist),
        is_completion_list(r2, e, partial, mode, allowlist),
    ensures
        r1 == r2,
{
    lemma_sorted_unique(r1, r2);
}

/// A refresh of the `PATH` commands leaves Kids completions unchanged: with
/// the same builtins, the Kids completion list of any word is the same
/// whatever the `PATH` commands are.
pub proof fn law_refresh_keeps_kids_completions(
    before: CompletionView,
    after: CompletionView,
    partial: Seq<char>,
    allowlist: Seq<RuleModel>,
    r1: Seq<Seq<char>>,
    r2: Seq<Seq<char>>,
)
    requires
        after.builtins == before.builtins,
        is_completion_list(r1, before, partial, Mode::Kids, allowlist),
        is_completion_list(r2, after, partial, Mode::Kids, allowlist),
    ensures
        r1 == r2,
{
    lemma_sorted_unique(r1, r2);
}

/// What `Path::parent` returns for a path.
pub uninterp spec fn path_parent_of(p: Seq<char>) -> Option<Seq<char>>;

/// The characters of an optional string.
pub open spec fn opt_chars(o: Option<String>) -> Option<Seq<char>> {
    match o {
        Some(s) => Some(s@),
        None => None,
    }
}

/// The parent of a path (`Path::parent`).
///
/// Trusted: `Path::parent` is a pure function of the path; its result is
/// named `path_parent_of`.
#[verifier::external_body]
fn path_parent(p: &str) -> (r: Option<String>)
    ensures
        opt_chars(r) == path_parent_of(p@),
{
    match std::path::Path::new(p).parent() {
        Some(q) => Some(q.to_string_lossy().into_owned()),
        None => None,
    }
}

/// The last component of a path (`Path::file_name`).
///
/// Trusted: `Path::file_name` gives the final component of the path when it
/// is a normal one (`path_file_name_of`), as its documentation describes.
#[verifier::external_body]
fn path_file_name(p: &str) -> (r: Option<String>)
    ensures
        opt_chars(r) == path_file_name_of(p@),
{
    match std::path::Path::new(p).file_name() {
        Some(f) => Some(f.to_string_lossy().into_owned()),
        None => None,
    }
}

/// Where argument completion looks, and for what: with a `/` in the word,
/// the word's parent directory (`.` when it has none) and its last component
/// (empty when none); otherwise the current directory and the whole word.
pub open spec fn arg_target(partial: Seq<char>) -> (Seq<char>, Seq<char>) {
    if partial.contains('/') {
        (
            match path_parent_of(partial) {
                Some(d) => d,
                None => "."@,
            },
            match path_file_name_of(partial) {
                Some(f) => f,
                None => Seq::empty(),
            },
        )
    } else {
        ("."@, partial)
    }
}

/// A directory entry as offered: its name, with `/` after directories.
pub open spec fn entry_completion(e: (Seq<char>, bool)) -> Seq<char> {
    if e.1 { e.0 + "/"@ } else { e.0 }
}

/// The offered entries whose name starts with `prefix`, in listing order.
pub open spec fn arg_candidates(entries: Seq<(Seq<char>, bool)>, prefix: Seq<char>) -> Seq<Seq<char>> {
    entries.filter(|e: (Seq<char>, bool)| seq_starts_with(e.0, prefix)).map_values(|e: (Seq<char>, bool)| entry_completion(e))
}

/// (name, is a directory) of listed entries.
pub open spec fn listing_view(v: Seq<(String, bool)>) -> Seq<(Seq<char>, bool)> {
    v.map_values(|e: (String, bool)| (e.0@, e.1))
}

impl CompletionEngine {
    /// The directory to list, and the name prefix to complete, for an
    /// argument word.
    pub fn arg_target(partial: &str) -> (r: (String, String))
        ensures
            (r.0@, r.1@) == arg_target(partial@),
    {
        if has_slash(partial) {
            let dir = match path_parent(partial) {
                Some(d) => d,
                None => String::from_str("."),
            };
            let prefix = match path_file_name(partial) {
                Some(f) => f,
                None => String::new(),
            };
            (dir, prefix)
        } else {
            (String::from_str("."), String::from_str(partial))
        }
    }

    /// Completions of an argument word, from the listing (name, is a
    /// directory) of its target directory: the entries starting with the
    /// prefix, directories with a trailing `/`, sorted.
    pub fn complete_args(&self, partial: &str, listing: &Vec<(String, bool)>) -> (r: Vec<String>)
        ensures
            lex_sorted(views(r@)),
            views(r@).to_multiset() == arg_candidates(listing_view(listing@), arg_target(partial@).1).to_multiset(),
    {
        let (_dir, prefix) = Self::arg_target(partial);
        let ghost keep = |e: (Seq<char>, bool)| seq_starts_with(e.0, prefix@);
        let ghost all = listing_view(listing@);
        let mut out: Vec<String> = Vec::new();
        let mut i: usize = 0;
        while i < listing.len()
            invariant
                i <= listing.len(),
                all == listing_view(listing@),
                keep == (|e: (Seq<char>, bool)| seq_starts_with(e.0, prefix@)),
                views(out@) == all.take(i as int).filter(keep).map_values(|e: (Seq<char>, bool)| entry_completion(e)),
            decreases listing.len() - i,
        {
            let ghost before = views(out@);
            proof {
                assert(all.take(i + 1) =~= all.take(i as int).push(all[i as int]));
                reveal(Seq::filter);
                assert(all.take(i as int).push(all[i as int]).drop_last() =~= all.take(i as int));
            }
            let (name, is_dir) = (&listing[i].0, listing[i].1);
            if str_starts_with(name.as_str(), prefix.as_str()) {
                let mut s = name.clone();
                if is_dir {
                    s.append("/");
                }
                out.push(s);
                proof {
                    let f0 = all.take(i as int).filter(keep);
                    assert(all.take(i + 1).filter(keep) == f0.push(all[i as int]));
                    assert(f0.push(all[i as int]).map_values(|e: (Seq<char>, bool)| entry_completion(e))
                        =~= f0.map_values(|e: (Seq<char>, bool)| entry_completion(e)).push(entry_completion(all[i as int])));
                    assert(views(out@) =~= before.push(entry_completion(all[i as int])));
                }
            }
            i += 1;
        }
        assert(all.take(listing.len() as int) =~= all);
        sort_strings(out)
    }
}

fn has_slash(s: &str) -> (r: bool)
    ensures
        r == s@.contains('/'),
{
    let n = s.unicode_len();
    let mut i: usize = 0;
    while i < n
        invariant
            n == s@.len(),
            i <= n,
            forall|k: int| 0 <= k < i ==> s@[k] != '/',
        decreases n - i,
    {
        if s.get_char(i) == '/' {
            return true;
        }
        i += 1;
    }
    false
}

} // verus!
