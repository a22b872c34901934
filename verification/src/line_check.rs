//! Whether a line typed at the prompt goes on: a trailing backslash, an
//! unclosed `(` or `{`, or a word that opens a quote it does not close.
//! The line is read with the shell language's lexer.

use vstd::prelude::*;

verus! {

broadcast use vstd::string::group_string_axioms;

/// The tokens the check looks at; all others are `Other`.
#[derive(Debug)]
pub enum LineToken {
    LBrace,
    LParen,
    RParen,
    RBrace,
    Word(String),
    Other,
}

/// The value of a token.
pub enum TokenView {
    LBrace,
    LParen,
    RParen,
    RBrace,
    Word(Seq<char>),
    Other,
}

pub open spec fn token_view(t: LineToken) -> TokenView {
    match t {
        LineToken::LBrace => TokenView::LBrace,
        LineToken::LParen => TokenView::LParen,
        LineToken::RParen => TokenView::RParen,
        LineToken::RBrace => TokenView::RBrace,
        LineToken::Word(w) => TokenView::Word(w@),
        LineToken::Other => TokenView::Other,
    }
}

pub open spec fn token_views(s: Seq<LineToken>) -> Seq<TokenView> {
    s.map_values(|t: LineToken| token_view(t))
}

/// What `shrs_lang::Lexer` yields for a line, the tokens it could read, in
/// order.
pub uninterp spec fn lexed(line: Seq<char>) -> Seq<TokenView>;

/// The tokens of a line.
///
/// Trusted: `shrs_lang::Lexer` is a pure function of the line; the tokens it
/// reads (its errors skipped), each mapped to the kinds above, are named
/// `lexed`.
#[verifier::external_body]
fn line_tokens(line: &str) -> (r: Vec<LineToken>)
    ensures
        token_views(r@) == lexed(line@),
{
    shrs_lang::Lexer::new(line).flatten().map(|t| match t.1 {
        shrs_lang::Token::LBRACE => LineToken::LBrace,
        shrs_lang::Token::LPAREN => LineToken::LParen,
        shrs_lang::Token::RPAREN => LineToken::RParen,
        shrs_lang::Token::RBRACE => LineToken::RBrace,
        shrs_lang::Token::WORD(w) => LineToken::Word(w.to_string()),
        _ => LineToken::Other,
    }).collect()
}

/// Whether a word opens a quote it does not close: it starts with `'` or
/// `"` and is that one character, or ends with another.
pub open spec fn opens_quote(w: Seq<char>) -> bool {
    w.len() > 0 && (w[0] == '\'' || w[0] == '"') && (w.len() == 1 || w[0] != w.last())
}

/// Scanning tokens with the open brackets `open` (`true` for `{`): a word
/// that opens a quote means more input; a closing bracket that closes
/// nothing open means none; at the end, more input while a bracket is open.
pub open spec fn scan_tokens(toks: Seq<TokenView>, open: Seq<bool>) -> bool
    decreases toks.len(),
{
    if toks.len() == 0 {
        open.len() > 0
    } else {
        let rest = toks.drop_first();
        match toks[0] {
            TokenView::LBrace => scan_tokens(rest, open.push(true)),
            TokenView::LParen => scan_tokens(rest, open.push(false)),
            TokenView::RParen => if open.len() > 0 && !open.last() { scan_tokens(rest, open.drop_last()) } else { false },
            TokenView::RBrace => if open.len() > 0 && open.last() { scan_tokens(rest, open.drop_last()) } else { false },
            TokenView::Word(w) => if opens_quote(w) { true } else { scan_tokens(rest, open) },
            TokenView::Other => scan_tokens(rest, open),
        }
    }
}

/// Whether the line needs another line: it ends with a backslash, or its
/// tokens leave a bracket or a quote open.
pub open spec fn line_continues(line: Seq<char>) -> bool {
    (line.len() > 0 && line.last() == '\\') || scan_tokens(lexed(line), Seq::empty())
}

fn word_opens_quote(w: &str) -> (r: bool)
    ensures
        r == opens_quote(w@),
{
    let n = w.unicode_len();
    if n == 0 {
        return false;
    }
    let first = w.get_char(0);
    (first == '\'' || first == '"') && (n == 1 || first != w.get_char(n - 1))
}

fn line_needs_more(line: &str) -> (r: bool)
    ensures
        r == line_continues(line@),
{
    let n = line.unicode_len();
    if n > 0 && line.get_char(n - 1) == '\\' {
        return true;
    }
    let toks = line_tokens(line);
    let ghost tv = token_views(toks@);
    let mut open: Vec<bool> = Vec::new();
    let mut i: usize = 0;
    assert(tv.skip(0) =~= tv);
    while i < toks.len()
        invariant
            i <= toks.len(),
            tv == token_views(toks@),
            tv == lexed(line@),
            !(line@.len() > 0 && line@.last() == '\\'),
            scan_tokens(tv, Seq::empty()) == scan_tokens(tv.skip(i as int), open@),
        decreases toks.len() - i,
    {
        let ghost before = open@;
        proof {
            assert(tv.skip(i as int).drop_first() =~= tv.skip(i + 1));
            assert(tv.skip(i as int)[0] == token_view(toks@[i as int]));
        }
        match &toks[i] {
            LineToken::LBrace => {
                open.push(true);
            },
            LineToken::LParen => {
                open.push(false);
            },
            LineToken::RParen => {
                if open.len() > 0 && !open[open.len() - 1] {
                    open.pop();
                    assert(open@ =~= before.drop_last());
                } else {
                    return false;
                }
            },
            LineToken::RBrace => {
                if open.len() > 0 && open[open.len() - 1] {
                    open.pop();
                    assert(open@ =~= before.drop_last());
                } else {
                    return false;
                }
            },
            LineToken::Word(w) => {
                if word_opens_quote(w.as_str()) {
                    return true;
                }
            },
            LineToken::Other => {},
        }
        i += 1;
    }
    open.len() > 0
}


/// The shell language of OmniShell, as the line editor sees it.
pub struct OmniShellLang;

impl OmniShellLang {
    /// The language's name.
    pub fn name(&self) -> (r: &'static str)
        ensures
            r@ == "omnishell"@,
    {
        "omnishell"
    }

    /// Whether the line typed so far needs another line: it ends with a
    /// backslash, or leaves a bracket or a quote open.
    pub fn needs_line_check(&self, line: &str) -> (r: bool)
        ensures
            r == line_continues(line@),
    {
        line_needs_more(line)
    }
}

} // verus!
