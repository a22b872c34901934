//! The `test` / `[` builtin: string tests (`-z`, `-n`, `=`, `==`, `!=`),
//! file tests (`-e`, `-f`, `-d`, `-x`, `-s`), integer comparisons (`-eq`,
//! `-ne`, `-lt`, `-le`, `-gt`, `-ge`) and the connectives `!`, `-a`, `-o`,
//! read left to right. What the file tests ask of the disk is looked up in
//! facts gathered beforehand.

use vstd::prelude::*;
use crate::numbers::{parse_i64, parse_i64_spec};
use crate::text::{str_eq, views};

verus! {

broadcast use vstd::string::group_string_axioms;

/// What the file tests know of one path.
#[derive(Debug, Clone)]
pub struct PathFacts {
    pub path: String,
    pub exists: bool,
    pub is_file: bool,
    pub is_dir: bool,
    pub executable: bool,
    pub nonempty: bool,
}

/// The file tests.
#[derive(Debug, Clone, Copy, PartialEq, Eq, Structural)]
pub enum FileTest {
    Exists,
    IsFile,
    IsDir,
    Executable,
    Nonempty,
}

/// The answer of one file test from one entry.
pub open spec fn fact_answer(f: PathFacts, t: FileTest) -> bool {
    match t {
        FileTest::Exists => f.exists,
        FileTest::IsFile => f.is_file,
        FileTest::IsDir => f.is_dir,
        FileTest::Executable => f.executable,
        FileTest::Nonempty => f.nonempty,
    }
}

/// A file test on `path`: the first entry for the path answers; a path
/// with no entry passes none.
pub open spec fn file_fact(facts: Seq<PathFacts>, path: Seq<char>, t: FileTest) -> bool
    decreases facts.len(),
{
    if facts.len() == 0 {
        false
    } else if facts[0].path@ == path {
        fact_answer(facts[0], t)
    } else {
        file_fact(facts.drop_first(), path, t)
    }
}

/// The value of a primary: the outcome of a unary test, or a word.
pub enum TestValue {
    Flag(bool),
    Word(String),
}

/// The value of a primary, as a mathematical value.
pub enum TestVal {
    Flag(bool),
    Word(Seq<char>),
}

pub open spec fn test_val(v: TestValue) -> TestVal {
    match v {
        TestValue::Flag(b) => TestVal::Flag(b),
        TestValue::Word(w) => TestVal::Word(w@),
    }
}

/// `true` or `false` as text.
pub open spec fn bool_text(b: bool) -> Seq<char> {
    if b { "true"@ } else { "false"@ }
}

/// The text of a primary's value, which the binary operators compare.
pub open spec fn val_text(v: TestVal) -> Seq<char> {
    match v {
        TestVal::Flag(b) => bool_text(b),
        TestVal::Word(w) => w,
    }
}

/// Whether a primary holds on its own: a test's outcome, or a non-empty word.
pub open spec fn val_holds(v: TestVal) -> bool {
    match v {
        TestVal::Flag(b) => b,
        TestVal::Word(w) => w.len() > 0,
    }
}

/// The integer a text stands for in a comparison: its value, or 0.
pub open spec fn int_or_zero(s: Seq<char>) -> int {
    match parse_i64_spec(s) {
        Some(v) => v,
        None => 0,
    }
}

/// The argument at `p`, or the empty string past the end.
pub open spec fn arg_at(args: Seq<Seq<char>>, p: int) -> Seq<char> {
    if 0 <= p < args.len() { args[p] } else { ""@ }
}

/// The unary file test an operator names.
pub open spec fn file_test_of(op: Seq<char>) -> Option<FileTest> {
    if op == "-e"@ {
        Some(FileTest::Exists)
    } else if op == "-f"@ {
        Some(FileTest::IsFile)
    } else if op == "-d"@ {
        Some(FileTest::IsDir)
    } else if op == "-x"@ {
        Some(FileTest::Executable)
    } else if op == "-s"@ {
        Some(FileTest::Nonempty)
    } else {
        None
    }
}

/// The integer comparison an operator names, applied.
pub open spec fn int_compare(op: Seq<char>, a: int, b: int) -> Option<bool> {
    if op == "-eq"@ {
        Some(a == b)
    } else if op == "-ne"@ {
        Some(a != b)
    } else if op == "-lt"@ {
        Some(a < b)
    } else if op == "-le"@ {
        Some(a <= b)
    } else if op == "-gt"@ {
        Some(a > b)
    } else if op == "-ge"@ {
        Some(a >= b)
    } else {
        None
    }
}

/// A primary at `p`: `!` and an expression, a unary test and its operand,
/// or a word; and the position after it.
pub open spec fn test_primary(args: Seq<Seq<char>>, facts: Seq<PathFacts>, p: int) -> (TestVal, int)
    decreases args.len() - p, 0int,
{
    if p < 0 || p >= args.len() {
        (TestVal::Word(""@), p)
    } else {
        let a = args[p];
        if a == "!"@ {
            let (inner, q) = test_expr(args, facts, p + 1);
            (TestVal::Flag(!inner), q)
        } else if a == "-z"@ {
            (TestVal::Flag(arg_at(args, p + 1).len() == 0), p + 2)
        } else if a == "-n"@ {
            (TestVal::Flag(arg_at(args, p + 1).len() != 0), p + 2)
        } else if file_test_of(a) is Some {
            (TestVal::Flag(file_fact(facts, arg_at(args, p + 1), file_test_of(a)->0)), p + 2)
        } else {
            (TestVal::Word(a), p + 1)
        }
    }
}

/// An expression at `p`: a primary, optionally followed by a binary
/// operator and its right operand, or by `-a` / `-o` and a further
/// expression; and the position after it.
pub open spec fn test_expr(args: Seq<Seq<char>>, facts: Seq<PathFacts>, p: int) -> (bool, int)
    decreases args.len() - p, 1int,
{
    if p < 0 || p > args.len() {
        (false, p)
    } else {
        let (left, q) = test_primary(args, facts, p);
        if p <= q < args.len() {
            let op = args[q];
            let right = arg_at(args, q + 1);
            if op == "="@ || op == "=="@ {
                (val_text(left) == right, q + 2)
            } else if op == "!="@ {
                (val_text(left) != right, q + 2)
            } else if int_compare(op, 0, 0) is Some {
                (int_compare(op, int_or_zero(val_text(left)), int_or_zero(right))->0, q + 2)
            } else if op == "-a"@ {
                if val_holds(left) { test_expr(args, facts, q + 1) } else { (false, q + 1) }
            } else if op == "-o"@ {
                if val_holds(left) { (true, q + 1) } else { test_expr(args, facts, q + 1) }
            } else {
                (val_holds(left), q)
            }
        } else {
            (val_holds(left), q)
        }
    }
}

/// The exit status of `test` with these arguments: 0 when the expression
/// holds, 1 otherwise.
pub open spec fn test_status(args: Seq<Seq<char>>, facts: Seq<PathFacts>) -> i32 {
    if test_expr(args, facts, 0).0 { 0 } else { 1 }
}

/// The arguments of `[`: without a closing `]`.
pub open spec fn bracket_args(args: Seq<Seq<char>>) -> Seq<Seq<char>> {
    if args.len() > 0 && args.last() == "]"@ { args.drop_last() } else { args }
}

fn lookup_fact(facts: &Vec<PathFacts>, path: &str, t: FileTest) -> (r: bool)
    ensures
        r == file_fact(facts@, path@, t),
{
    let mut i: usize = 0;
    assert(facts@.skip(0) =~= facts@);
    while i < facts.len()
        invariant
            i <= facts.len(),
            file_fact(facts@, path@, t) == file_fact(facts@.skip(i as int), path@, t),
        decreases facts.len() - i,
    {
        assert(facts@.skip(i as int).drop_first() =~= facts@.skip(i + 1));
        if str_eq(facts[i].path.as_str(), path) {
            let f = &facts[i];
            return match t {
                FileTest::Exists => f.exists,
                FileTest::IsFile => f.is_file,
                FileTest::IsDir => f.is_dir,
                FileTest::Executable => f.executable,
                FileTest::Nonempty => f.nonempty,
            };
        }
        i += 1;
    }
    false
}

fn operand(args: &Vec<String>, p: usize) -> (r: &str)
    ensures
        r@ == arg_at(views(args@), p as int),
{
    if p < args.len() { args[p].as_str() } else { "" }
}

fn file_test_named(op: &str) -> (r: Option<FileTest>)
    ensures
        r == file_test_of(op@),
{
    proof {
        reveal_strlit("-e");
        reveal_strlit("-f");
        reveal_strlit("-d");
        reveal_strlit("-x");
        reveal_strlit("-s");
    }
    if str_eq(op, "-e") {
        Some(FileTest::Exists)
    } else if str_eq(op, "-f") {
        Some(FileTest::IsFile)
    } else if str_eq(op, "-d") {
        Some(FileTest::IsDir)
    } else if str_eq(op, "-x") {
        Some(FileTest::Executable)
    } else if str_eq(op, "-s") {
        Some(FileTest::Nonempty)
    } else {
        None
    }
}

fn compare_named(op: &str, a: i64, b: i64) -> (r: Option<bool>)
    ensures
        r == int_compare(op@, a as int, b as int),
{
    if str_eq(op, "-eq") {
        Some(a == b)
    } else if str_eq(op, "-ne") {
        Some(a != b)
    } else if str_eq(op, "-lt") {
        Some(a < b)
    } else if str_eq(op, "-le") {
        Some(a <= b)
    } else if str_eq(op, "-gt") {
        Some(a > b)
    } else if str_eq(op, "-ge") {
        Some(a >= b)
    } else {
        None
    }
}

fn text_int(s: &str) -> (r: i64)
    ensures
        r as int == int_or_zero(s@),
{
    match parse_i64(s) {
        Some(v) => v,
        None => 0,
    }
}

fn value_text(v: &TestValue) -> (r: String)
    ensures
        r@ == val_text(test_val(*v)),
{
    match v {
        TestValue::Flag(b) => {
            if *b { String::from_str("true") } else { String::from_str("false") }
        },
        TestValue::Word(w) => w.clone(),
    }
}

fn value_holds(v: &TestValue) -> (r: bool)
    ensures
        r == val_holds(test_val(*v)),
{
    match v {
        TestValue::Flag(b) => *b,
        TestValue::Word(w) => w.unicode_len() > 0,
    }
}

fn eval_primary(args: &Vec<String>, facts: &Vec<PathFacts>, p: usize) -> (r: (TestValue, usize))
    requires
        p <= args.len(),
        args.len() < usize::MAX,
    ensures
        (test_val(r.0), r.1 as int) == test_primary(views(args@), facts@, p as int),
        p < args.len() ==> p < r.1 <= args.len() + 1,
        p == args.len() ==> r.1 == p,
    decreases args.len() - p, 0int,
{
    let ghost a = views(args@);
    if p >= args.len() {
        let e = String::new();
        proof {
            reveal_strlit("");
            assert(e@ =~= ""@);
        }
        return (TestValue::Word(e), p);
    }
    let w = args[p].as_str();
    proof {
        reveal_strlit("!");
        reveal_strlit("-z");
        reveal_strlit("-n");
    }
    if str_eq(w, "!") {
        let (inner, q) = eval_expr(args, facts, p + 1);
        (TestValue::Flag(!inner), q)
    } else if str_eq(w, "-z") {
        (TestValue::Flag(operand(args, p + 1).unicode_len() == 0), p + 2)
    } else if str_eq(w, "-n") {
        (TestValue::Flag(operand(args, p + 1).unicode_len() != 0), p + 2)
    } else {
        match file_test_named(w) {
            Some(t) => (TestValue::Flag(lookup_fact(facts, operand(args, p + 1), t)), p + 2),
            None => (TestValue::Word(args[p].clone()), p + 1),
        }
    }
}

fn eval_expr(args: &Vec<String>, facts: &Vec<PathFacts>, p: usize) -> (r: (bool, usize))
    requires
        p <= args.len(),
        args.len() < usize::MAX,
    ensures
        (r.0, r.1 as int) == test_expr(views(args@), facts@, p as int),
        p <= r.1 <= args.len() + 1,
    decreases args.len() - p, 1int,
{
    let ghost a = views(args@);
    let (left, q) = eval_primary(args, facts, p);
    if q < args.len() {
        let op = args[q].as_str();
        let right = operand(args, q + 1);
        proof {
            reveal_strlit("=");
            reveal_strlit("==");
            reveal_strlit("!=");
            reveal_strlit("-a");
            reveal_strlit("-o");
            assert(a[q as int] == op@);
        }
        if str_eq(op, "=") || str_eq(op, "==") {
            let lt = value_text(&left);
            (str_eq(lt.as_str(), right), q + 2)
        } else if str_eq(op, "!=") {
            let lt = value_text(&left);
            (!str_eq(lt.as_str(), right), q + 2)
        } else if compare_named(op, 0, 0).is_some() {
            let lt = value_text(&left);
            let c = compare_named(op, text_int(lt.as_str()), text_int(right));
            match c {
                Some(b) => (b, q + 2),
                None => (false, q + 2),
            }
        } else if str_eq(op, "-a") {
            if value_holds(&left) {
                eval_expr(args, facts, q + 1)
            } else {
                (false, q + 1)
            }
        } else if str_eq(op, "-o") {
            if value_holds(&left) {
                (true, q + 1)
            } else {
                eval_expr(args, facts, q + 1)
            }
        } else {
            (value_holds(&left), q)
        }
    } else {
        (value_holds(&left), q)
    }
}

/// The `test` builtin: exit status 0 when the expression holds, 1
/// otherwise; file tests are answered from `facts`.
pub fn builtin_test(args: &Vec<String>, facts: &Vec<PathFacts>) -> (r: i32)
    requires
        args.len() < usize::MAX,
    ensures
        r == test_status(views(args@), facts@),
{
    let (b, _) = eval_expr(args, facts, 0);
    if b { 0 } else { 1 }
}

/// The `[` builtin: `test` on the arguments without a closing `]`.
pub fn builtin_bracket(args: &Vec<String>, facts: &Vec<PathFacts>) -> (r: i32)
    requires
        args.len() < usize::MAX,
    ensures
        r == test_status(bracket_args(views(args@)), facts@),
{
    let n = args.len();
    if n > 0 && str_eq(args[n - 1].as_str(), "]") {
        proof {
            reveal_strlit("]");
        }
        let mut inner: Vec<String> = Vec::new();
        let mut i: usize = 0;
        while i < n - 1
            invariant
                n == args.len(),
                n > 0,
                i <= n - 1,
                views(inner@) == views(args@).take(i as int),
            decreases n - 1 - i,
        {
            inner.push(args[i].clone());
            proof {
                assert(views(args@).take(i + 1) =~= views(args@).take(i as int).push(args@[i as int]@));
                assert(views(inner@) =~= views(args@).take(i + 1));
            }
            i += 1;
        }
        proof {
            assert(views(args@).take(n - 1) =~= bracket_args(views(args@)));
        }
        builtin_test(&inner, facts)
    } else {
        proof {
            reveal_strlit("]");
        }
        builtin_test(args, facts)
    }
}

/// A word that `test` reads as a plain operand: no `!`, `-z`, `-n` or file
/// test.
pub open spec fn plain_operand(w: Seq<char>) -> bool {
    w != "!"@ && w != "-z"@ && w != "-n"@ && file_test_of(w) is None
}

proof fn lemma_compare_status(x: Seq<char>, op: Seq<char>, y: Seq<char>, facts: Seq<PathFacts>)
    requires
        plain_operand(x),
        op == "-eq"@ || op == "-ne"@ || op == "-lt"@ || op == "-le"@ || op == "-gt"@ || op == "-ge"@,
    ensures
        test_status(seq![x, op, y], facts) == (if int_compare(op, int_or_zero(x), int_or_zero(y))->0 { 0i32 } else { 1i32 }),
{
    reveal_strlit("=");
    reveal_strlit("==");
    reveal_strlit("!=");
    reveal_strlit("-eq");
    reveal_strlit("-ne");
    reveal_strlit("-lt");
    reveal_strlit("-le");
    reveal_strlit("-gt");
    reveal_strlit("-ge");
    assert(op.len() == 3);
    assert("="@.len() == 1 && "=="@.len() == 2 && "!="@.len() == 2);
    assert("-eq"@[1] == 'e' && "-ne"@[1] == 'n' && "-lt"@[1] == 'l' && "-le"@[1] == 'l');
    assert("-gt"@[1] == 'g' && "-ge"@[1] == 'g');
    assert("-lt"@[2] == 't' && "-le"@[2] == 'e' && "-gt"@[2] == 't' && "-ge"@[2] == 'e');
    let args = seq![x, op, y];
    assert(args[0] == x);
    assert(args[1] == op);
    assert(test_primary(args, facts, 0) == (TestVal::Word(x), 1int));
    assert(op != "="@ && op != "=="@ && op != "!="@);
    assert(int_compare(op, 0, 0) is Some);
    assert(arg_at(args, 2) == y);
}

/// Integer comparisons in `test` follow the order of the integers the
/// operands stand for: `x -eq y` holds exactly when they are equal, `-ne`
/// when they differ, `-lt` / `-le` / `-gt` / `-ge` when the left one is
/// less, at most, greater, at least; status 0 when the comparison holds,
/// 1 otherwise.
pub proof fn law_integer_comparisons(x: Seq<char>, y: Seq<char>, facts: Seq<PathFacts>)
    requires
        plain_operand(x),
    ensures
        test_status(seq![x, "-eq"@, y], facts) == (if int_or_zero(x) == int_or_zero(y) { 0i32 } else { 1i32 }),
        test_status(seq![x, "-ne"@, y], facts) == (if int_or_zero(x) != int_or_zero(y) { 0i32 } else { 1i32 }),
        test_status(seq![x, "-lt"@, y], facts) == (if int_or_zero(x) < int_or_zero(y) { 0i32 } else { 1i32 }),
        test_status(seq![x, "-le"@, y], facts) == (if int_or_zero(x) <= int_or_zero(y) { 0i32 } else { 1i32 }),
        test_status(seq![x, "-gt"@, y], facts) == (if int_or_zero(x) > int_or_zero(y) { 0i32 } else { 1i32 }),
        test_status(seq![x, "-ge"@, y], facts) == (if int_or_zero(x) >= int_or_zero(y) { 0i32 } else { 1i32 }),
{
    reveal_strlit("-eq");
    reveal_strlit("-ne");
    reveal_strlit("-lt");
    reveal_strlit("-le");
    reveal_strlit("-gt");
    reveal_strlit("-ge");
    assert("-eq"@[1] == 'e' && "-ne"@[1] == 'n' && "-lt"@[1] == 'l' && "-le"@[1] == 'l');
    assert("-gt"@[1] == 'g' && "-ge"@[1] == 'g');
    assert("-lt"@[2] == 't' && "-le"@[2] == 'e' && "-gt"@[2] == 't' && "-ge"@[2] == 'e');
    lemma_compare_status(x, "-eq"@, y, facts);
    lemma_compare_status(x, "-ne"@, y, facts);
    lemma_compare_status(x, "-lt"@, y, facts);
    lemma_compare_status(x, "-le"@, y, facts);
    lemma_compare_status(x, "-gt"@, y, facts);
    lemma_compare_status(x, "-ge"@, y, facts);
}

} // verus!
