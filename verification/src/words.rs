//! Splitting a command line into words: at white space
//! (`str::split_whitespace`), or with shell quoting (`shlex::split`).

use vstd::prelude::*;
use crate::text::{char_is_ws, chars_of, is_ws, push_char, views};

verus! {

broadcast use vstd::string::group_string_axioms;

/// The words of `s` so far, and whether the last character belongs to the
/// last word.
pub open spec fn ws_state(s: Seq<char>) -> (Seq<Seq<char>>, bool)
    decreases s.len(),
{
    if s.len() == 0 {
        (Seq::empty(), false)
    } else {
        let prev = ws_state(s.drop_last());
        let c = s.last();
        if is_ws(c) {
            (prev.0, false)
        } else if prev.1 {
            (prev.0.update(prev.0.len() - 1, prev.0.last().push(c)), true)
        } else {
            (prev.0.push(seq![c]), true)
        }
    }
}

/// The maximal runs of non-white-space characters of `s`, in order.
pub open spec fn split_ws_spec(s: Seq<char>) -> Seq<Seq<char>> {
    ws_state(s).0
}

proof fn lemma_ws_state_nonempty(s: Seq<char>)
    ensures
        ws_state(s).1 ==> ws_state(s).0.len() > 0,
    decreases s.len(),
{
    if s.len() > 0 {
        lemma_ws_state_nonempty(s.drop_last());
    }
}

/// The white-space separated words of a string.
pub fn split_ws(s: &str) -> (r: Vec<String>)
    ensures
        views(r@) == split_ws_spec(s@),
{
    let v = chars_of(s);
    let mut words: Vec<String> = Vec::new();
    let mut cur = String::new();
    let mut in_word = false;
    let mut i: usize = 0;
    while i < v.len()
        invariant
            i <= v.len(),
            v@ == s@,
            ws_state(v@.take(i as int)) == (if in_word { views(words@).push(cur@) } else { views(words@) }, in_word),
            !in_word ==> cur@.len() == 0,
        decreases v.len() - i,
    {
        let c = v[i];
        proof {
            assert(v@.take(i + 1).drop_last() =~= v@.take(i as int));
            assert(v@.take(i + 1).last() == c);
        }
        if char_is_ws(c) {
            if in_word {
                let w = cur;
                cur = String::new();
                let ghost before = views(words@);
                words.push(w);
                assert(views(words@) =~= before.push(w@));
            }
            in_word = false;
        } else {
            let ghost prev_cur = cur@;
            let ghost before = views(words@);
            push_char(&mut cur, c);
            if in_word {
                assert(before.push(prev_cur).update(before.len() as int, before.push(prev_cur).last().push(c)) =~= before.push(cur@));
            } else {
                assert(cur@ =~= seq![c]);
            }
            in_word = true;
        }
        i += 1;
    }
    if in_word {
        let ghost before = views(words@);
        words.push(cur);
        assert(views(words@) =~= before.push(words@.last()@));
    }
    assert(v@.take(v.len() as int) =~= v@);
    words
}

/// What `shlex::split` returns: the words of a line under POSIX shell
/// quoting, or `None` when the line ends inside a quote or escape.
pub uninterp spec fn shlex_words(s: Seq<char>) -> Option<Seq<Seq<char>>>;

/// The words of a line under shell quoting (`shlex::split`).
///
/// Trusted: `shlex::split` is a pure function of the line; its result, with
/// each word taken by its characters, is named `shlex_words`.
#[verifier::external_body]
pub(crate) fn shlex_split(s: &str) -> (r: Option<Vec<String>>)
    ensures
        match r {
            Some(v) => shlex_words(s@) == Some(views(v@)),
            None => shlex_words(s@) is None,
        },
{
    shlex::split(s)
}

} // verus!
