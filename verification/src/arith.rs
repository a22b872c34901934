//! Shell arithmetic (`$(( ... ))`): integer literals, `+ - * / %`, unary
//! minus and parentheses, by recursive descent. Division and remainder by
//! zero give 0; an unfinished expression stops where it can no longer be
//! read.

use vstd::prelude::*;
use crate::picker::{digits_value, is_digit};
use crate::text::{chars_of, char_is_ws, is_ws, trim, trim_end, trim_start, trim_str};

verus! {

broadcast use vstd::string::group_string_axioms;

/// The first position at or after `p` that holds no white space.
pub open spec fn skip_ws(c: Seq<char>, p: int) -> int
    decreases c.len() - p,
{
    if p < 0 || p >= c.len() {
        p
    } else if is_ws(c[p]) {
        skip_ws(c, p + 1)
    } else {
        p
    }
}

/// The end of the run of ASCII digits starting at `p`.
pub open spec fn digits_end(c: Seq<char>, p: int) -> int
    decreases c.len() - p,
{
    if p < 0 || p >= c.len() {
        p
    } else if is_digit(c[p]) {
        digits_end(c, p + 1)
    } else {
        p
    }
}

/// Whether a value fits in `i64`.
pub open spec fn fits(v: int) -> bool {
    i64::MIN <= v <= i64::MAX
}

/// `|v|`.
pub open spec fn abs(v: int) -> int {
    if v < 0 { -v } else { v }
}

/// Integer division rounding toward zero, as `i64::div` computes it.
pub open spec fn trunc_div(a: int, b: int) -> int {
    let q = abs(a) / abs(b);
    if (a < 0) != (b < 0) { -q } else { q }
}

/// The remainder of `trunc_div`, which has the sign of the dividend, as
/// `i64::rem` computes it.
pub open spec fn trunc_rem(a: int, b: int) -> int {
    let r = abs(a) % abs(b);
    if a < 0 { -r } else { r }
}

/// The value of a literal: its digits, or 0 when they overflow `i64`.
pub open spec fn literal_value(d: Seq<char>) -> int {
    if digits_value(d) <= i64::MAX { digits_value(d) as int } else { 0 }
}

/// `x op y` for `*`, `/` or `%`, or `None` where `i64` arithmetic panics;
/// division and remainder by zero give 0.
pub open spec fn apply_mul(op: char, x: int, y: int) -> Option<int> {
    if op == '*' {
        if fits(x * y) { Some(x * y) } else { None }
    } else if y == 0 {
        Some(0)
    } else if x == i64::MIN && y == -1 {
        None
    } else if op == '/' {
        Some(trunc_div(x, y))
    } else {
        Some(trunc_rem(x, y))
    }
}

/// A factor at `p`: after white space, a parenthesised expression (the `)`
/// is optional), a negated factor, or a literal (0 when there are no
/// digits). `None` when evaluating it overflows.
pub open spec fn factor(c: Seq<char>, p: int) -> Option<(int, int)>
    decreases c.len() - p, 0int,
{
    if p < 0 || p > c.len() {
        None
    } else {
        proof {
            lemma_skip_ws(c, p);
        }
        let q = skip_ws(c, p);
        if q < c.len() && c[q] == '(' {
            match expr(c, q + 1) {
                Some((v, e)) => if 0 <= e < c.len() && c[e] == ')' { Some((v, e + 1)) } else { Some((v, e)) },
                None => None,
            }
        } else if q < c.len() && c[q] == '-' {
            match factor(c, q + 1) {
                Some((v, e)) => if fits(-v) { Some((-v, e)) } else { None },
                None => None,
            }
        } else {
            let e = digits_end(c, q);
            if e == q { Some((0, q)) } else { Some((literal_value(c.subrange(q, e)), e)) }
        }
    }
}

/// The rest of a term after the value `acc` at `p`: further `* / %`
/// factors, left to right.
pub open spec fn term_rest(c: Seq<char>, acc: int, p: int) -> Option<(int, int)>
    decreases c.len() - p, 1int,
{
    if p < 0 || p > c.len() {
        None
    } else if p >= c.len() {
        Some((acc, p))
    } else {
        proof {
            lemma_skip_ws(c, p);
        }
        let q = skip_ws(c, p);
        if q < c.len() && (c[q] == '*' || c[q] == '/' || c[q] == '%') {
            match factor(c, q + 1) {
                Some((f, e)) => match apply_mul(c[q], acc, f) {
                    Some(v) => if p < e <= c.len() { term_rest(c, v, e) } else { None },
                    None => None,
                },
                None => None,
            }
        } else {
            Some((acc, q))
        }
    }
}

/// A term at `p`: factors joined by `* / %`.
pub open spec fn term(c: Seq<char>, p: int) -> Option<(int, int)>
    decreases c.len() - p, 2int,
{
    if p < 0 || p > c.len() {
        None
    } else {
        match factor(c, p) {
            Some((v, e)) => if p <= e <= c.len() { term_rest(c, v, e) } else { None },
            None => None,
        }
    }
}

/// The rest of an expression after the value `acc` at `p`: further `+ -`
/// terms, left to right.
pub open spec fn expr_rest(c: Seq<char>, acc: int, p: int) -> Option<(int, int)>
    decreases c.len() - p, 3int,
{
    if p < 0 || p > c.len() {
        None
    } else if p >= c.len() {
        Some((acc, p))
    } else {
        proof {
            lemma_skip_ws(c, p);
        }
        let q = skip_ws(c, p);
        if q < c.len() && (c[q] == '+' || c[q] == '-') {
            match term(c, q + 1) {
                Some((t, e)) => {
                    let v = if c[q] == '+' { acc + t } else { acc - t };
                    if !fits(v) { None } else if p < e <= c.len() { expr_rest(c, v, e) } else { None }
                },
                None => None,
            }
        } else {
            Some((acc, q))
        }
    }
}

/// An expression at `p`: terms joined by `+ -`. The value and the position
/// after it, or `None` when evaluating it overflows `i64`.
pub open spec fn expr(c: Seq<char>, p: int) -> Option<(int, int)>
    decreases c.len() - p, 4int,
{
    if p < 0 || p > c.len() {
        None
    } else {
        match term(c, p) {
            Some((v, e)) => if p <= e <= c.len() { expr_rest(c, v, e) } else { None },
            None => None,
        }
    }
}

/// The value of an arithmetic expression: the expression read from the
/// start of the trimmed text; `None` when evaluating it overflows `i64`.
pub open spec fn arith_value(s: Seq<char>) -> Option<int> {
    match expr(trim(s), 0) {
        Some((v, _)) => Some(v),
        None => None,
    }
}

/// A numeral: a non-empty run of decimal digits.
pub open spec fn is_numeral(d: Seq<char>) -> bool {
    d.len() > 0 && forall|i: int| 0 <= i < d.len() ==> is_digit(#[trigger] d[i])
}

/// A multiplicative operator.
pub open spec fn is_mul_op(o: char) -> bool {
    o == '*' || o == '/' || o == '%'
}

proof fn lemma_digits_run(c: Seq<char>, p: int, k: int)
    requires
        0 <= p,
        0 <= k,
        p + k <= c.len(),
        forall|i: int| p <= i < p + k ==> is_digit(#[trigger] c[i]),
        p + k == c.len() || !is_digit(c[p + k]),
    ensures
        digits_end(c, p) == p + k,
    decreases k,
{
    if k > 0 {
        lemma_digits_run(c, p + 1, k - 1);
    }
}

/// A numeral occupying `c[p..p + k]`, followed by the end or a non-digit, is
/// read as one factor.
proof fn lemma_numeral_factor(c: Seq<char>, p: int, k: int)
    requires
        0 <= p,
        1 <= k,
        p + k <= c.len(),
        forall|i: int| p <= i < p + k ==> is_digit(#[trigger] c[i]),
        p + k == c.len() || !is_digit(c[p + k]),
    ensures
        factor(c, p) == Some((literal_value(c.subrange(p, p + k)), p + k)),
{
    assert(is_digit(c[p]));
    assert(skip_ws(c, p) == p);
    lemma_digits_run(c, p, k);
}

/// A term of three numerals joined by `* / %` is evaluated left to right:
/// the value of `a op1 b op2 d` is `(a op1 b) op2 d`, or nothing where one of
/// the two steps overflows.
pub proof fn law_term_left_to_right(a: Seq<char>, o1: char, b: Seq<char>, o2: char, d: Seq<char>)
    requires
        is_numeral(a),
        is_numeral(b),
        is_numeral(d),
        is_mul_op(o1),
        is_mul_op(o2),
        digits_value(a) <= i64::MAX,
        digits_value(b) <= i64::MAX,
        digits_value(d) <= i64::MAX,
    ensures
        arith_value(a + seq![o1] + b + seq![o2] + d) == match apply_mul(o1, digits_value(a) as int, digits_value(b) as int) {
            Some(v) => apply_mul(o2, v, digits_value(d) as int),
            None => None,
        },
{
    let c = a + seq![o1] + b + seq![o2] + d;
    let la = a.len() as int;
    let lb = b.len() as int;
    let ld = d.len() as int;
    let p2 = la + 1 + lb;
    let n = p2 + 1 + ld;
    assert(c.len() == n);
    assert forall|i: int| 0 <= i < la implies c[i] == a[i] by {}
    assert(c[la] == o1);
    assert forall|j: int| 0 <= j < lb implies c[la + 1 + j] == b[j] by {}
    assert(c[p2] == o2);
    assert forall|j: int| 0 <= j < ld implies c[p2 + 1 + j] == d[j] by {}
    assert(c.subrange(0, la) =~= a);
    assert(c.subrange(la + 1, p2) =~= b);
    assert(c.subrange(p2 + 1, n) =~= d);
    assert forall|i: int| 0 <= i < la implies is_digit(#[trigger] c[i]) by {
        assert(is_digit(a[i]));
    }
    assert forall|i: int| la + 1 <= i < p2 implies is_digit(#[trigger] c[i]) by {
        assert(c[i] == b[i - la - 1]);
        assert(is_digit(b[i - la - 1]));
    }
    assert forall|i: int| p2 + 1 <= i < n implies is_digit(#[trigger] c[i]) by {
        assert(c[i] == d[i - p2 - 1]);
        assert(is_digit(d[i - p2 - 1]));
    }
    let va = digits_value(a) as int;
    let vb = digits_value(b) as int;
    let vd = digits_value(d) as int;
    // The text is its own trim: it starts and ends with a digit.
    assert(is_digit(a[0]));
    assert(is_digit(d[ld - 1]));
    assert(c[n - 1] == d[ld - 1]);
    assert(trim_start(c) == c);
    assert(trim_end(c) == c);
    assert(trim(c) == c);
    // The three factors.
    lemma_numeral_factor(c, 0, la);
    lemma_numeral_factor(c, la + 1, lb);
    lemma_numeral_factor(c, p2 + 1, ld);
    assert(factor(c, 0) == Some((va, la)));
    assert(factor(c, la + 1) == Some((vb, p2)));
    assert(factor(c, p2 + 1) == Some((vd, n)));
    assert(skip_ws(c, la) == la);
    assert(skip_ws(c, p2) == p2);
    assert(term_rest(c, va, la) == match apply_mul(o1, va, vb) {
        Some(v1) => term_rest(c, v1, p2),
        None => None,
    });
    match apply_mul(o1, va, vb) {
        Some(v1) => {
            assert(term_rest(c, v1, p2) == match apply_mul(o2, v1, vd) {
                Some(v2) => term_rest(c, v2, n),
                None => None,
            });
            match apply_mul(o2, v1, vd) {
                Some(v2) => {
                    assert(term_rest(c, v2, n) == Some((v2, n)));
                    assert(expr_rest(c, v2, n) == Some((v2, n)));
                },
                None => {},
            }
        },
        None => {},
    }
    assert(term(c, 0) == term_rest(c, va, la));
    assert(expr(c, 0) == match term(c, 0) {
        Some((v, e)) => if 0 <= e <= c.len() { expr_rest(c, v, e) } else { None },
        None => None,
    });
}

/// A product of three numerals is their product, when it fits in `i64`.
pub proof fn law_product_of_three(a: Seq<char>, b: Seq<char>, d: Seq<char>)
    requires
        is_numeral(a),
        is_numeral(b),
        is_numeral(d),
        digits_value(a) <= i64::MAX,
        digits_value(b) <= i64::MAX,
        digits_value(d) <= i64::MAX,
        digits_value(a) * digits_value(b) <= i64::MAX,
        digits_value(a) * digits_value(b) * digits_value(d) <= i64::MAX,
    ensures
        arith_value(a + seq!['*'] + b + seq!['*'] + d) == Some((digits_value(a) * digits_value(b) * digits_value(d)) as int),
{
    law_term_left_to_right(a, '*', b, '*', d);
}

pub proof fn lemma_skip_ws(c: Seq<char>, p: int)
    requires
        0 <= p <= c.len(),
    ensures
        p <= skip_ws(c, p) <= c.len(),
    decreases c.len() - p,
{
    if p < c.len() && is_ws(c[p]) {
        lemma_skip_ws(c, p + 1);
    }
}

proof fn lemma_digits_end(c: Seq<char>, p: int)
    requires
        0 <= p <= c.len(),
    ensures
        p <= digits_end(c, p) <= c.len(),
        forall|k: int| p <= k < digits_end(c, p) ==> is_digit(#[trigger] c[k]),
    decreases c.len() - p,
{
    if p < c.len() && is_digit(c[p]) {
        lemma_digits_end(c, p + 1);
    }
}

fn skip_ws_exec(c: &Vec<char>, p: usize) -> (r: usize)
    requires
        p <= c.len(),
    ensures
        r == skip_ws(c@, p as int),
        p <= r <= c.len(),
{
    let mut q = p;
    proof {
        lemma_skip_ws(c@, p as int);
    }
    while q < c.len() && char_is_ws(c[q])
        invariant
            p <= q <= c.len(),
            skip_ws(c@, p as int) == skip_ws(c@, q as int),
        decreases c.len() - q,
    {
        q += 1;
    }
    q
}

fn literal(c: &Vec<char>, from: usize, to: usize) -> (r: i64)
    requires
        from < to <= c.len(),
        forall|k: int| from <= k < to ==> is_digit(#[trigger] c@[k]),
    ensures
        r == literal_value(c@.subrange(from as int, to as int)),
{
    let ghost d = c@.subrange(from as int, to as int);
    let mut acc: u64 = 0;
    let mut big = false;
    let mut i = from;
    while i < to
        invariant
            from <= i <= to <= c.len(),
            d == c@.subrange(from as int, to as int),
            forall|k: int| from <= k < to ==> is_digit(#[trigger] c@[k]),
            !big ==> acc == digits_value(d.take(i - from)) && acc <= i64::MAX,
            big ==> digits_value(d.take(i - from)) > i64::MAX,
        decreases to - i,
    {
        let dv = (c[i] as u32 - '0' as u32) as u64;
        proof {
            assert(is_digit(c@[i as int]));
            assert(d.take(i - from + 1).drop_last() =~= d.take(i - from));
            assert(d.take(i - from + 1).last() == c@[i as int]);
        }
        if !big {
            if acc > (9223372036854775807u64 - dv) / 10 {
                big = true;
                assert(digits_value(d.take(i - from + 1)) > i64::MAX) by (nonlinear_arith)
                    requires
                        digits_value(d.take(i - from + 1)) == acc * 10 + dv,
                        acc > (9223372036854775807u64 - dv) / 10,
                        dv <= 9,
                ;
            } else {
                assert(acc * 10 + dv <= i64::MAX) by (nonlinear_arith)
                    requires
                        acc <= (9223372036854775807u64 - dv) / 10,
                        dv <= 9,
                ;
                acc = acc * 10 + dv;
            }
        } else {
            assert(digits_value(d.take(i - from + 1)) >= digits_value(d.take(i - from)));
        }
        i += 1;
    }
    assert(d.take(to - from) =~= d);
    if big { 0 } else { acc as i64 }
}

fn mul_step(op: char, x: i64, y: i64) -> (r: Option<i64>)
    requires
        op == '*' || op == '/' || op == '%',
    ensures
        match r {
            Some(v) => apply_mul(op, x as int, y as int) == Some(v as int),
            None => apply_mul(op, x as int, y as int) is None,
        },
{
    if op == '*' {
        match x.checked_mul(y) {
            Some(v) => Some(v),
            None => None,
        }
    } else if y == 0 {
        Some(0)
    } else if x == i64::MIN && y == -1 {
        None
    } else {
        let ua: u64 = if x < 0 { if x == i64::MIN { 9223372036854775808u64 } else { (-x) as u64 } } else { x as u64 };
        let ub: u64 = if y < 0 { if y == i64::MIN { 9223372036854775808u64 } else { (-y) as u64 } } else { y as u64 };
        assert(ua == abs(x as int) && ub == abs(y as int));
        if op == '/' {
            let q = ua / ub;
            if (x < 0) != (y < 0) {
                assert(q <= 9223372036854775808u64) by (nonlinear_arith)
                    requires
                        ua <= 9223372036854775808u64,
                        ub >= 1,
                        q == ua / ub,
                ;
                if q == 9223372036854775808u64 {
                    Some(i64::MIN)
                } else {
                    Some(-(q as i64))
                }
            } else {
                assert(q <= 9223372036854775807u64) by (nonlinear_arith)
                    requires
                        ua <= 9223372036854775808u64,
                        ub >= 1,
                        q == ua / ub,
                        ua == 9223372036854775808u64 ==> ub >= 2,
                ;
                Some(q as i64)
            }
        } else {
            let m = ua % ub;
            assert(m < 9223372036854775808u64) by (nonlinear_arith)
                requires
                    ub <= 9223372036854775808u64,
                    ub >= 1,
                    m == ua % ub,
            ;
            if x < 0 {
                Some(-(m as i64))
            } else {
                Some(m as i64)
            }
        }
    }
}

/// Whether a parse result ends between `p` and `len`.
pub open spec fn ends_within(o: Option<(int, int)>, p: int, len: int) -> bool {
    match o {
        Some((_, e)) => p <= e <= len,
        None => true,
    }
}

proof fn lemma_factor_ends(c: Seq<char>, p: int)
    requires
        0 <= p <= c.len(),
    ensures
        ends_within(factor(c, p), p, c.len() as int),
    decreases c.len() - p, 0int,
{
    lemma_skip_ws(c, p);
    let q = skip_ws(c, p);
    if q < c.len() && c[q] == '(' {
        lemma_expr_ends(c, q + 1);
    } else if q < c.len() && c[q] == '-' {
        lemma_factor_ends(c, q + 1);
    } else {
        lemma_digits_end(c, q);
    }
}

proof fn lemma_term_rest_ends(c: Seq<char>, acc: int, p: int)
    requires
        0 <= p <= c.len(),
    ensures
        ends_within(term_rest(c, acc, p), p, c.len() as int),
    decreases c.len() - p, 1int,
{
    if p < c.len() {
        lemma_skip_ws(c, p);
        let q = skip_ws(c, p);
        if q < c.len() && (c[q] == '*' || c[q] == '/' || c[q] == '%') {
            lemma_factor_ends(c, q + 1);
            if let Some((f, e)) = factor(c, q + 1) {
                if let Some(v) = apply_mul(c[q], acc, f) {
                    if p < e <= c.len() {
                        lemma_term_rest_ends(c, v, e);
                    }
                }
            }
        }
    }
}

proof fn lemma_term_ends(c: Seq<char>, p: int)
    requires
        0 <= p <= c.len(),
    ensures
        ends_within(term(c, p), p, c.len() as int),
    decreases c.len() - p, 2int,
{
    lemma_factor_ends(c, p);
    if let Some((v, e)) = factor(c, p) {
        if p <= e <= c.len() {
            lemma_term_rest_ends(c, v, e);
        }
    }
}

proof fn lemma_expr_rest_ends(c: Seq<char>, acc: int, p: int)
    requires
        0 <= p <= c.len(),
    ensures
        ends_within(expr_rest(c, acc, p), p, c.len() as int),
    decreases c.len() - p, 3int,
{
    if p < c.len() {
        lemma_skip_ws(c, p);
        let q = skip_ws(c, p);
        if q < c.len() && (c[q] == '+' || c[q] == '-') {
            lemma_term_ends(c, q + 1);
            if let Some((t, e)) = term(c, q + 1) {
                let v = if c[q] == '+' { acc + t } else { acc - t };
                if fits(v) && p < e <= c.len() {
                    lemma_expr_rest_ends(c, v, e);
                }
            }
        }
    }
}

proof fn lemma_expr_ends(c: Seq<char>, p: int)
    requires
        0 <= p <= c.len(),
    ensures
        ends_within(expr(c, p), p, c.len() as int),
    decreases c.len() - p, 4int,
{
    lemma_term_ends(c, p);
    if let Some((v, e)) = term(c, p) {
        if p <= e <= c.len() {
            lemma_expr_rest_ends(c, v, e);
        }
    }
}

/// A parse result as the spec gives it.
pub open spec fn as_spec(r: Option<(i64, usize)>) -> Option<(int, int)> {
    match r {
        Some((v, e)) => Some((v as int, e as int)),
        None => None,
    }
}

fn parse_factor(c: &Vec<char>, p: usize) -> (r: Option<(i64, usize)>)
    requires
        p <= c.len(),
    ensures
        as_spec(r) == factor(c@, p as int),
    decreases c.len() - p, 0int,
{
    let q = skip_ws_exec(c, p);
    if q < c.len() && c[q] == '(' {
        match parse_expr(c, q + 1) {
            Some((v, e)) => {
                if e < c.len() && c[e] == ')' {
                    Some((v, e + 1))
                } else {
                    Some((v, e))
                }
            },
            None => None,
        }
    } else if q < c.len() && c[q] == '-' {
        match parse_factor(c, q + 1) {
            Some((v, e)) => {
                if v == i64::MIN {
                    None
                } else {
                    Some((-v, e))
                }
            },
            None => None,
        }
    } else {
        proof {
            lemma_digits_end(c@, q as int);
        }
        let mut e = q;
        while e < c.len() && '0' <= c[e] && c[e] <= '9'
            invariant
                q <= e <= c.len(),
                digits_end(c@, q as int) == digits_end(c@, e as int),
            decreases c.len() - e,
        {
            e += 1;
        }
        if e == q {
            Some((0, q))
        } else {
            Some((literal(c, q, e), e))
        }
    }
}

fn parse_term_rest(c: &Vec<char>, acc: i64, p: usize) -> (r: Option<(i64, usize)>)
    requires
        p <= c.len(),
    ensures
        as_spec(r) == term_rest(c@, acc as int, p as int),
    decreases c.len() - p, 1int,
{
    if p >= c.len() {
        return Some((acc, p));
    }
    let q = skip_ws_exec(c, p);
    if q < c.len() && (c[q] == '*' || c[q] == '/' || c[q] == '%') {
        proof {
            lemma_factor_ends(c@, q + 1);
        }
        match parse_factor(c, q + 1) {
            Some((f, e)) => match mul_step(c[q], acc, f) {
                Some(v) => {
                    if p < e && e <= c.len() {
                        parse_term_rest(c, v, e)
                    } else {
                        None
                    }
                },
                None => None,
            },
            None => None,
        }
    } else {
        Some((acc, q))
    }
}

fn parse_term(c: &Vec<char>, p: usize) -> (r: Option<(i64, usize)>)
    requires
        p <= c.len(),
    ensures
        as_spec(r) == term(c@, p as int),
    decreases c.len() - p, 2int,
{
    proof {
        lemma_factor_ends(c@, p as int);
    }
    match parse_factor(c, p) {
        Some((v, e)) => {
            if p <= e && e <= c.len() {
                parse_term_rest(c, v, e)
            } else {
                None
            }
        },
        None => None,
    }
}

fn parse_expr_rest(c: &Vec<char>, acc: i64, p: usize) -> (r: Option<(i64, usize)>)
    requires
        p <= c.len(),
    ensures
        as_spec(r) == expr_rest(c@, acc as int, p as int),
    decreases c.len() - p, 3int,
{
    if p >= c.len() {
        return Some((acc, p));
    }
    let q = skip_ws_exec(c, p);
    if q < c.len() && (c[q] == '+' || c[q] == '-') {
        proof {
            lemma_term_ends(c@, q + 1);
        }
        match parse_term(c, q + 1) {
            Some((t, e)) => {
                let v = if c[q] == '+' { acc.checked_add(t) } else { acc.checked_sub(t) };
                match v {
                    Some(v) => {
                        if p < e && e <= c.len() {
                            parse_expr_rest(c, v, e)
                        } else {
                            None
                        }
                    },
                    None => None,
                }
            },
            None => None,
        }
    } else {
        Some((acc, q))
    }
}

fn parse_expr(c: &Vec<char>, p: usize) -> (r: Option<(i64, usize)>)
    requires
        p <= c.len(),
    ensures
        as_spec(r) == expr(c@, p as int),
    decreases c.len() - p, 4int,
{
    proof {
        lemma_term_ends(c@, p as int);
    }
    match parse_term(c, p) {
        Some((v, e)) => {
            if p <= e && e <= c.len() {
                parse_expr_rest(c, v, e)
            } else {
                None
            }
        },
        None => None,
    }
}

/// Evaluates an arithmetic expression (`$(( ... ))`).
pub fn eval_arithmetic(expr_text: &str) -> (r: i64)
    requires
        arith_value(expr_text@) is Some,
    ensures
        arith_value(expr_text@) == Some(r as int),
{
    let trimmed = trim_str(expr_text);
    let chars = chars_of(trimmed.as_str());
    match parse_expr(&chars, 0) {
        Some((v, _)) => v,
        None => 0,
    }
}


/// Evaluates an arithmetic expression, or `None` where evaluating it
/// overflows `i64`.
pub fn try_eval_arithmetic(expr_text: &str) -> (r: Option<i64>)
    ensures
        match r {
            Some(v) => arith_value(expr_text@) == Some(v as int),
            None => arith_value(expr_text@) is None,
        },
{
    let trimmed = trim_str(expr_text);
    let chars = chars_of(trimmed.as_str());
    match parse_expr(&chars, 0) {
        Some((v, _)) => Some(v),
        None => None,
    }
}

} // verus!
