//! Command-line scanning used by the ACL: word tokenization, splitting on
//! shell separators, and detection/extraction of command substitution.
//!
//! Every scanner is specified as a character-by-character state machine over
//! the input's character sequence.

use vstd::prelude::*;
use crate::text::{chars_of, string_of, string_of_range, trim, trim_bounds, views};

verus! {

broadcast use vstd::string::group_string_axioms;

// ---------------------------------------------------------------------------
// Tokenization
// ---------------------------------------------------------------------------

/// Scanner state while splitting a command line into words.
pub struct TokState {
    pub tokens: Seq<Seq<char>>,
    pub cur: Seq<char>,
    pub in_single: bool,
    pub in_double: bool,
    pub escaped: bool,
}

pub open spec fn tok_init() -> TokState {
    TokState { tokens: Seq::empty(), cur: Seq::empty(), in_single: false, in_double: false, escaped: false }
}

/// One character of word scanning: quotes toggle quoting and are dropped, a
/// backslash outside single quotes takes the next character literally, blanks
/// outside quotes end the current word.
pub open spec fn tok_step(st: TokState, c: char) -> TokState {
    if st.escaped {
        TokState { cur: st.cur.push(c), escaped: false, ..st }
    } else if c == '\'' && !st.in_double {
        TokState { in_single: !st.in_single, ..st }
    } else if c == '"' && !st.in_single {
        TokState { in_double: !st.in_double, ..st }
    } else if c == '\\' && !st.in_single {
        TokState { escaped: true, ..st }
    } else if (c == ' ' || c == '\t') && !st.in_single && !st.in_double {
        if st.cur.len() > 0 {
            TokState { tokens: st.tokens.push(st.cur), cur: Seq::empty(), ..st }
        } else {
            st
        }
    } else {
        TokState { cur: st.cur.push(c), ..st }
    }
}

pub open spec fn tok_run(s: Seq<char>) -> TokState
    decreases s.len(),
{
    if s.len() == 0 {
        tok_init()
    } else {
        tok_step(tok_run(s.drop_last()), s.last())
    }
}

/// The words of a command line.
pub open spec fn tokenize_spec(s: Seq<char>) -> Seq<Seq<char>> {
    let st = tok_run(s);
    if st.cur.len() > 0 {
        st.tokens.push(st.cur)
    } else {
        st.tokens
    }
}

/// Splits a command line into words, honouring single and double quotes and
/// backslash escapes (POSIX-like).
pub fn tokenize(input: &str) -> (r: Vec<String>)
    ensures
        views(r@) == tokenize_spec(input@),
{
    let v = chars_of(input);
    let mut tokens: Vec<String> = Vec::new();
    let mut cur: Vec<char> = Vec::new();
    let mut in_single = false;
    let mut in_double = false;
    let mut escaped = false;
    let mut i: usize = 0;
    while i < v.len()
        invariant
            i <= v.len(),
            v@ == input@,
            ({
                let st = tok_run(v@.take(i as int));
                &&& views(tokens@) == st.tokens
                &&& cur@ == st.cur
                &&& in_single == st.in_single
                &&& in_double == st.in_double
                &&& escaped == st.escaped
            }),
        decreases v.len() - i,
    {
        let c = v[i];
        proof {
            assert(v@.take(i + 1).drop_last() =~= v@.take(i as int));
        }
        if escaped {
            cur.push(c);
            escaped = false;
        } else if c == '\'' && !in_double {
            in_single = !in_single;
        } else if c == '"' && !in_single {
            in_double = !in_double;
        } else if c == '\\' && !in_single {
            escaped = true;
        } else if (c == ' ' || c == '\t') && !in_single && !in_double {
            if cur.len() > 0 {
                let ghost old_tokens = tokens@;
                tokens.push(string_of(&cur));
                cur = Vec::new();
                proof {
                    assert(views(tokens@) =~= views(old_tokens).push(tok_run(v@.take(i as int)).cur));
                }
            }
        } else {
            cur.push(c);
        }
        i += 1;
    }
    proof {
        assert(v@.take(v@.len() as int) =~= v@);
    }
    if cur.len() > 0 {
        let ghost old_tokens = tokens@;
        tokens.push(string_of(&cur));
        proof {
            assert(views(tokens@) =~= views(old_tokens).push(cur@));
        }
    }
    tokens
}

// ---------------------------------------------------------------------------
// Splitting on separators
// ---------------------------------------------------------------------------

/// Scanner state while splitting a command line on `|`, `;`, `&` and newlines.
pub struct SplitState {
    pub parts: Seq<Seq<char>>,
    pub cur: Seq<char>,
    pub in_single: bool,
    pub in_double: bool,
    pub escaped: bool,
    pub depth: nat,
}

pub open spec fn split_init() -> SplitState {
    SplitState {
        parts: Seq::empty(),
        cur: Seq::empty(),
        in_single: false,
        in_double: false,
        escaped: false,
        depth: 0,
    }
}

/// Adds the trimmed current piece, if it is not blank, to the finished parts.
pub open spec fn flush_part(parts: Seq<Seq<char>>, cur: Seq<char>) -> Seq<Seq<char>> {
    if trim(cur).len() > 0 {
        parts.push(trim(cur))
    } else {
        parts
    }
}

pub open spec fn is_separator(c: char) -> bool {
    c == '|' || c == ';' || c == '&' || c == '\n'
}

/// One character of splitting. Quotes and backslashes are tracked only outside
/// parentheses; separators count only outside quotes and parentheses; every
/// character except a separator is kept verbatim.
pub open spec fn split_step(st: SplitState, c: char) -> SplitState {
    if st.escaped {
        SplitState { cur: st.cur.push(c), escaped: false, ..st }
    } else if c == '\'' && !st.in_double && st.depth == 0 {
        SplitState { in_single: !st.in_single, cur: st.cur.push(c), ..st }
    } else if c == '"' && !st.in_single && st.depth == 0 {
        SplitState { in_double: !st.in_double, cur: st.cur.push(c), ..st }
    } else if c == '\\' && !st.in_single && st.depth == 0 {
        SplitState { escaped: true, cur: st.cur.push(c), ..st }
    } else if c == '(' && !st.in_single && !st.in_double {
        SplitState { depth: st.depth + 1, cur: st.cur.push(c), ..st }
    } else if c == ')' && !st.in_single && !st.in_double {
        SplitState {
            depth: if st.depth > 0 { (st.depth - 1) as nat } else { 0 },
            cur: st.cur.push(c),
            ..st
        }
    } else if is_separator(c) && !st.in_single && !st.in_double && st.depth == 0 {
        SplitState { parts: flush_part(st.parts, st.cur), cur: Seq::empty(), ..st }
    } else {
        SplitState { cur: st.cur.push(c), ..st }
    }
}

pub open spec fn split_run(s: Seq<char>) -> SplitState
    decreases s.len(),
{
    if s.len() == 0 {
        split_init()
    } else {
        split_step(split_run(s.drop_last()), s.last())
    }
}

/// The sub-commands of a command line.
pub open spec fn split_spec(s: Seq<char>) -> Seq<Seq<char>> {
    let st = split_run(s);
    flush_part(st.parts, st.cur)
}

/// Whether a command line ends outside quotes, escapes and parentheses.
pub open spec fn split_closed(s: Seq<char>) -> bool {
    let st = split_run(s);
    !st.in_single && !st.in_double && !st.escaped && st.depth == 0
}

proof fn lemma_flush_prefix(x: Seq<Seq<char>>, parts: Seq<Seq<char>>, cur: Seq<char>)
    ensures
        flush_part(x + parts, cur) == x + flush_part(parts, cur),
{
    if trim(cur).len() > 0 {
        assert((x + parts).push(trim(cur)) =~= x + parts.push(trim(cur)));
    }
}

/// Splitting what follows a newline that ends a closed line: the state is
/// that of the rest alone, with the first line's parts before its parts.
proof fn lemma_split_after_newline(a: Seq<char>, b: Seq<char>)
    requires
        split_closed(a),
    ensures
        split_run(a + seq!['\n'] + b) == (SplitState {
            parts: flush_part(split_run(a).parts, split_run(a).cur) + split_run(b).parts,
            ..split_run(b)
        }),
    decreases b.len(),
{
    let x = flush_part(split_run(a).parts, split_run(a).cur);
    if b.len() == 0 {
        assert(a + seq!['\n'] + b =~= a.push('\n'));
        assert((a.push('\n')).drop_last() =~= a);
        assert(x + Seq::<Seq<char>>::empty() =~= x);
    } else {
        let b1 = b.drop_last();
        lemma_split_after_newline(a, b1);
        let whole = a + seq!['\n'] + b;
        assert(whole.drop_last() =~= a + seq!['\n'] + b1);
        assert(whole.last() == b.last());
        let st = split_run(b1);
        lemma_flush_prefix(x, st.parts, st.cur);
    }
}

/// A newline outside quotes, escapes and parentheses separates
/// sub-commands: the sub-commands of `a`, a newline, and `b` are those of
/// `a` followed by those of `b`.
pub proof fn law_newline_separates(a: Seq<char>, b: Seq<char>)
    requires
        split_closed(a),
    ensures
        split_spec(a + seq!['\n'] + b) == split_spec(a) + split_spec(b),
{
    lemma_split_after_newline(a, b);
    let sa = split_run(a);
    let sb = split_run(b);
    lemma_flush_prefix(flush_part(sa.parts, sa.cur), sb.parts, sb.cur);
}

fn flush_into(parts: &mut Vec<String>, cur: &Vec<char>)
    ensures
        views(final(parts)@) == flush_part(views(old(parts)@), cur@),
{
    let (a, b) = trim_bounds(cur);
    if a < b {
        let ghost old_parts = parts@;
        parts.push(string_of_range(cur, a, b));
        assert(views(parts@) =~= views(old_parts).push(trim(cur@)));
    }
}

/// Splits a command line on the shell separators `|`, `||`, `;`, `&`, `&&` and
/// newline (outside quotes and parentheses) into trimmed, non-blank
/// sub-commands, so that each can be checked separately.
pub fn split_into_subcommands(input: &str) -> (r: Vec<String>)
    ensures
        views(r@) == split_spec(input@),
{
    let v = chars_of(input);
    let mut parts: Vec<String> = Vec::new();
    let mut cur: Vec<char> = Vec::new();
    let mut in_single = false;
    let mut in_double = false;
    let mut escaped = false;
    let mut depth: usize = 0;
    let mut i: usize = 0;
    while i < v.len()
        invariant
            i <= v.len(),
            v@ == input@,
            depth <= i,
            ({
                let st = split_run(v@.take(i as int));
                &&& views(parts@) == st.parts
                &&& cur@ == st.cur
                &&& in_single == st.in_single
                &&& in_double == st.in_double
                &&& escaped == st.escaped
                &&& depth == st.depth
            }),
        decreases v.len() - i,
    {
        let c = v[i];
        proof {
            assert(v@.take(i + 1).drop_last() =~= v@.take(i as int));
        }
        if escaped {
            cur.push(c);
            escaped = false;
        } else if c == '\'' && !in_double && depth == 0 {
            in_single = !in_single;
            cur.push(c);
        } else if c == '"' && !in_single && depth == 0 {
            in_double = !in_double;
            cur.push(c);
        } else if c == '\\' && !in_single && depth == 0 {
            escaped = true;
            cur.push(c);
        } else if c == '(' && !in_single && !in_double {
            depth += 1;
            cur.push(c);
        } else if c == ')' && !in_single && !in_double {
            if depth > 0 {
                depth -= 1;
            }
            cur.push(c);
        } else if (c == '|' || c == ';' || c == '&' || c == '\n') && !in_single && !in_double
            && depth == 0 {
            flush_into(&mut parts, &cur);
            cur = Vec::new();
        } else {
            cur.push(c);
        }
        i += 1;
    }
    proof {
        assert(v@.take(v@.len() as int) =~= v@);
    }
    flush_into(&mut parts, &cur);
    parts
}

// ---------------------------------------------------------------------------
// Command substitution
// ---------------------------------------------------------------------------

/// Whether `s[i]` is followed by `(`.
pub open spec fn paren_follows(s: Seq<char>, i: int) -> bool {
    i + 1 < s.len() && s[i + 1] == '('
}

/// Scans `s` from `i` for `$(`, a backtick, `<(` or `>(` outside single quotes
/// (the process-substitution forms also outside double quotes); a backslash
/// outside single quotes hides the next character.
pub open spec fn subst_from(s: Seq<char>, i: int, sq: bool, dq: bool) -> bool
    decreases s.len() + 1 - i,
{
    if i < 0 || i >= s.len() {
        false
    } else {
        let c = s[i];
        if c == '\'' && !dq {
            subst_from(s, i + 1, !sq, dq)
        } else if c == '"' && !sq {
            subst_from(s, i + 1, sq, !dq)
        } else if c == '\\' && !sq {
            subst_from(s, i + 2, sq, dq)
        } else if c == '$' && !sq {
            paren_follows(s, i) || subst_from(s, i + 1, sq, dq)
        } else if c == '`' && !sq {
            true
        } else if (c == '<' || c == '>') && !sq && !dq {
            paren_follows(s, i) || subst_from(s, i + 1, sq, dq)
        } else {
            subst_from(s, i + 1, sq, dq)
        }
    }
}

/// Whether a command line contains `$(...)`, backticks, or `<(...)`/`>(...)`.
pub open spec fn has_substitution(s: Seq<char>) -> bool {
    subst_from(s, 0, false, false)
}

/// Detects command substitution that simple tokenization cannot see through.
pub fn contains_command_substitution(input: &str) -> (r: bool)
    ensures
        r == has_substitution(input@),
{
    let v = chars_of(input);
    let mut i: usize = 0;
    let mut sq = false;
    let mut dq = false;
    while i < v.len()
        invariant
            i <= v.len(),
            v@ == input@,
            has_substitution(v@) == subst_from(v@, i as int, sq, dq),
        decreases v.len() - i,
    {
        let c = v[i];
        let follows = i + 1 < v.len() && v[i + 1] == '(';
        if c == '\'' && !dq {
            sq = !sq;
        } else if c == '"' && !sq {
            dq = !dq;
        } else if c == '\\' && !sq {
            if i + 1 < v.len() {
                i += 1;
            } else {
                assert(subst_from(v@, i + 2, sq, dq) == false);
                assert(subst_from(v@, i + 1, sq, dq) == false);
            }
        } else if c == '$' && !sq {
            if follows {
                return true;
            }
        } else if c == '`' && !sq {
            return true;
        } else if (c == '<' || c == '>') && !sq && !dq {
            if follows {
                return true;
            }
        }
        i += 1;
    }
    false
}

/// First index `k >= i` with `s[k] == c`.
pub open spec fn find_char_from(s: Seq<char>, i: int, c: char) -> Option<int>
    decreases s.len() + 1 - i,
{
    if i < 0 || i >= s.len() {
        None
    } else if s[i] == c {
        Some(i)
    } else {
        find_char_from(s, i + 1, c)
    }
}

/// Scans for the `)` that closes a `$(` opened before `i`, with `depth` parens
/// still open, honouring quotes and backslash escapes.
pub open spec fn close_from(s: Seq<char>, i: int, depth: int, sq: bool, dq: bool) -> Option<int>
    decreases s.len() + 1 - i,
{
    if i < 0 || i >= s.len() {
        None
    } else {
        let c = s[i];
        if c == '\'' && !dq {
            close_from(s, i + 1, depth, !sq, dq)
        } else if c == '"' && !sq {
            close_from(s, i + 1, depth, sq, !dq)
        } else if c == '\\' && !sq {
            close_from(s, i + 2, depth, sq, dq)
        } else if c == '(' && !sq && !dq {
            close_from(s, i + 1, depth + 1, sq, dq)
        } else if c == ')' && !sq && !dq {
            if depth - 1 == 0 {
                Some(i)
            } else {
                close_from(s, i + 1, depth - 1, sq, dq)
            }
        } else {
            close_from(s, i + 1, depth, sq, dq)
        }
    }
}

/// The index of the `)` closing a `$(` whose contents start at `start`.
pub open spec fn closing_paren(s: Seq<char>, start: int) -> Option<int> {
    close_from(s, start, 1, false, false)
}

proof fn lemma_close_from_bounds(s: Seq<char>, i: int, depth: int, sq: bool, dq: bool)
    ensures
        close_from(s, i, depth, sq, dq) matches Some(k) ==> i <= k < s.len(),
    decreases s.len() + 1 - i,
{
    if i < 0 || i >= s.len() {
    } else {
        let c = s[i];
        if c == '\'' && !dq {
            lemma_close_from_bounds(s, i + 1, depth, !sq, dq);
        } else if c == '"' && !sq {
            lemma_close_from_bounds(s, i + 1, depth, sq, !dq);
        } else if c == '\\' && !sq {
            lemma_close_from_bounds(s, i + 2, depth, sq, dq);
        } else if c == '(' && !sq && !dq {
            lemma_close_from_bounds(s, i + 1, depth + 1, sq, dq);
        } else if c == ')' && !sq && !dq {
            if depth - 1 != 0 {
                lemma_close_from_bounds(s, i + 1, depth - 1, sq, dq);
            }
        } else {
            lemma_close_from_bounds(s, i + 1, depth, sq, dq);
        }
    }
}

proof fn lemma_find_char_bounds(s: Seq<char>, i: int, c: char)
    ensures
        find_char_from(s, i, c) matches Some(k) ==> i <= k < s.len() && s[k] == c,
    decreases s.len() + 1 - i,
{
    if i >= 0 && i < s.len() && s[i] != c {
        lemma_find_char_bounds(s, i + 1, c);
    }
}

/// Finds the `)` closing a `$(` whose contents start at character `start`.
pub fn find_closing_paren(v: &Vec<char>, start: usize) -> (r: Option<usize>)
    ensures
        r matches Some(k) ==> (k as int) < v.len(),
        match r {
            Some(k) => closing_paren(v@, start as int) == Some(k as int),
            None => closing_paren(v@, start as int) is None,
        },
{
    let mut depth: u128 = 1;
    let mut i = start;
    let mut sq = false;
    let mut dq = false;
    if i > v.len() {
        i = v.len();
    }
    while i < v.len()
        invariant
            i <= v.len(),
            1 <= depth <= i + 1,
            closing_paren(v@, start as int) == close_from(v@, i as int, depth as int, sq, dq),
        decreases v.len() - i,
    {
        let c = v[i];
        if c == '\'' && !dq {
            sq = !sq;
        } else if c == '"' && !sq {
            dq = !dq;
        } else if c == '\\' && !sq {
            if i + 1 < v.len() {
                i += 1;
            } else {
                assert(close_from(v@, i + 2, depth as int, sq, dq) is None);
                assert(close_from(v@, i + 1, depth as int, sq, dq) is None);
            }
        } else if c == '(' && !sq && !dq {
            depth += 1;
        } else if c == ')' && !sq && !dq {
            if depth == 1 {
                return Some(i);
            }
            depth -= 1;
        }
        i += 1;
    }
    None
}

/// Finds the first `c` at or after character `start`.
fn find_char(v: &Vec<char>, start: usize, c: char) -> (r: Option<usize>)
    ensures
        match r {
            Some(k) => find_char_from(v@, start as int, c) == Some(k as int) && (k as int) < v.len(),
            None => find_char_from(v@, start as int, c) is None,
        },
{
    let mut i = start;
    if i > v.len() {
        i = v.len();
    }
    while i < v.len()
        invariant
            i <= v.len(),
            find_char_from(v@, start as int, c) == find_char_from(v@, i as int, c),
        decreases v.len() - i,
    {
        if v[i] == c {
            return Some(i);
        }
        i += 1;
    }
    None
}

/// The commands inside `$(...)` and backticks, scanning from `i`: single
/// quotes hide them (a `'` inside double quotes is an ordinary character),
/// double quotes do not, and a backslash outside single quotes hides the
/// next character.
pub open spec fn extract_from(s: Seq<char>, i: int, sq: bool, dq: bool) -> Seq<Seq<char>>
    decreases s.len() + 1 - i,
{
    if i < 0 || i >= s.len() {
        Seq::empty()
    } else {
        let c = s[i];
        if c == '\'' && !dq {
            extract_from(s, i + 1, !sq, dq)
        } else if c == '"' && !sq {
            extract_from(s, i + 1, sq, !dq)
        } else if c == '\\' && !sq {
            extract_from(s, i + 2, sq, dq)
        } else if c == '$' && !sq && paren_follows(s, i) {
            match closing_paren(s, i + 2) {
                Some(e) => if i + 2 <= e < s.len() {
                    seq![s.subrange(i + 2, e)] + extract_from(s, e + 1, sq, dq)
                } else {
                    Seq::empty()
                },
                None => extract_from(s, i + 2, sq, dq),
            }
        } else if c == '`' && !sq {
            match find_char_from(s, i + 1, '`') {
                Some(e) => if i + 1 <= e < s.len() {
                    seq![s.subrange(i + 1, e)] + extract_from(s, e + 1, sq, dq)
                } else {
                    Seq::empty()
                },
                None => extract_from(s, i + 1, sq, dq),
            }
        } else {
            extract_from(s, i + 1, sq, dq)
        }
    }
}

/// The commands embedded in a command line through `$(...)` or backticks.
pub open spec fn substitutions(s: Seq<char>) -> Seq<Seq<char>> {
    extract_from(s, 0, false, false)
}

/// Extracts the inner command strings of `$(...)` and backtick substitutions,
/// e.g. `echo $(sudo bash)` gives `["sudo bash"]`.
pub fn extract_substitution_commands(input: &str) -> (r: Vec<String>)
    ensures
        views(r@) == substitutions(input@),
{
    let v = chars_of(input);
    let mut results: Vec<String> = Vec::new();
    let mut i: usize = 0;
    let mut sq = false;
    let mut dq = false;
    while i < v.len()
        invariant
            i <= v.len(),
            v@ == input@,
            substitutions(v@) == views(results@) + extract_from(v@, i as int, sq, dq),
        decreases v.len() - i,
    {
        let c = v[i];
        let ghost before = views(results@);
        if c == '\'' && !dq {
            sq = !sq;
            i += 1;
        } else if c == '"' && !sq {
            dq = !dq;
            i += 1;
        } else if c == '\\' && !sq {
            i += 1;
            if i < v.len() {
                i += 1;
            } else {
                assert(extract_from(v@, i + 1, sq, dq) =~= Seq::<Seq<char>>::empty());
                assert(extract_from(v@, i as int, sq, dq) =~= Seq::<Seq<char>>::empty());
            }
        } else if c == '$' && !sq && i + 1 < v.len() && v[i + 1] == '(' {
            proof {
                lemma_close_from_bounds(v@, i + 2, 1, false, false);
            }
            match find_closing_paren(&v, i + 2) {
                Some(e) => {
                    results.push(string_of_range(&v, i + 2, e));
                    proof {
                        assert(views(results@) =~= before + seq![v@.subrange(i + 2, e as int)]);
                    }
                    i = e + 1;
                }
                None => {
                    i += 2;
                }
            }
        } else if c == '`' && !sq {
            proof {
                lemma_find_char_bounds(v@, i + 1, '`');
            }
            match find_char(&v, i + 1, '`') {
                Some(e) => {
                    results.push(string_of_range(&v, i + 1, e));
                    proof {
                        assert(views(results@) =~= before + seq![v@.subrange(i + 1, e as int)]);
                    }
                    i = e + 1;
                }
                None => {
                    i += 1;
                }
            }
        } else {
            i += 1;
        }
    }
    assert(views(results@) + Seq::<Seq<char>>::empty() =~= views(results@));
    results
}

} // verus!
