//! What evaluating a command of the shell language means, stated command
//! by command (`a && b` runs `b` only after `a` succeeded, a loop runs its
//! body while its condition holds, and so on), given the replies a caller
//! gives to the evaluator's actions; and the proof that the step-by-step
//! evaluator reaches exactly that outcome, on top of any frames, whenever
//! the replies fit the actions.

use vstd::prelude::*;
use crate::shell_ast::{define_function, first_compound, function_body, stages_of, CommandView};
use crate::shell_eval::{
    pick_arm, shell_step, unknown_function, ActionView, EvalView, EventView, FocusView, FrameView, OutcomeView, TableView,
};

verus! {

/// The reply a step reads: the next one while the evaluator waits, else
/// `Ack`; and the replies left.
pub open spec fn step_event(m: EvalView, ev: Seq<EventView>) -> (EventView, Seq<EventView>) {
    if m.focus is Await && ev.len() > 0 {
        (ev[0], ev.drop_first())
    } else {
        (EventView::Ack, ev)
    }
}

/// `n` steps of the evaluator, fed the replies `ev` in order while it
/// waits: the state, the function table and the replies left.
pub open spec fn drive(m: EvalView, t: TableView, ev: Seq<EventView>, n: nat) -> (EvalView, TableView, Seq<EventView>)
    decreases n,
{
    if n == 0 {
        (m, t, ev)
    } else {
        let (e, rest) = step_event(m, ev);
        let (m2, t2, _) = shell_step(m, t, e);
        drive(m2, t2, rest, (n - 1) as nat)
    }
}

/// The result of evaluating a command: its outcome, the function table
/// after it, and the replies left; `None` when the replies do not fit the
/// actions or run out, or the fuel does.
pub type RunResult = Option<(OutcomeView, TableView, Seq<EventView>)>;

/// The reply to a simple command: its status, `break`, `continue`, an
/// error, or a call of a user-defined function (whose body then runs).
pub open spec fn simple_reply(t: TableView, ev: Seq<EventView>, fuel: nat) -> RunResult
    decreases fuel, 3int,
{
    if ev.len() == 0 {
        None
    } else {
        let rest = ev.drop_first();
        match ev[0] {
            EventView::Status(s) => Some((OutcomeView::Status(s), t, rest)),
            EventView::Break => Some((OutcomeView::Break, t, rest)),
            EventView::Continue => Some((OutcomeView::Continue, t, rest)),
            EventView::Failed(m) => Some((OutcomeView::Failed(m), t, rest)),
            EventView::Call(name) => match function_body(t, name) {
                Some(b) => run(b, t, rest, fuel),
                None => Some((OutcomeView::Failed(unknown_function(name)), t, rest)),
            },
            _ => None,
        }
    }
}

/// The reply to a pipeline that was waited for: its status or an error.
pub open spec fn status_reply(t: TableView, ev: Seq<EventView>) -> RunResult {
    if ev.len() == 0 {
        None
    } else {
        match ev[0] {
            EventView::Status(s) => Some((OutcomeView::Status(s), t, ev.drop_first())),
            EventView::Failed(m) => Some((OutcomeView::Failed(m), t, ev.drop_first())),
            _ => None,
        }
    }
}

/// The reply to an action that reports nothing but failure.
pub open spec fn ack_reply(t: TableView, ev: Seq<EventView>) -> RunResult {
    if ev.len() == 0 {
        None
    } else {
        match ev[0] {
            EventView::Ack => Some((OutcomeView::Status(0), t, ev.drop_first())),
            EventView::Failed(m) => Some((OutcomeView::Failed(m), t, ev.drop_first())),
            _ => None,
        }
    }
}

/// The expanded words replied.
pub open spec fn words_reply(ev: Seq<EventView>) -> Option<(Seq<Seq<char>>, Seq<EventView>)> {
    if ev.len() > 0 && ev[0] is Words {
        Some((ev[0]->Words_0, ev.drop_first()))
    } else {
        None
    }
}

/// After `r`, run `next` when `r` is a status (`None`: status 0); any
/// other outcome stands.
pub open spec fn then_run(r: RunResult, next: Option<CommandView>, fuel: nat) -> RunResult
    decreases fuel, 3int,
{
    match r {
        Some((o, t1, e1)) => match o {
            OutcomeView::Status(_) => match next {
                Some(b) => run(b, t1, e1, fuel),
                None => Some((OutcomeView::Status(0), t1, e1)),
            },
            _ => Some((o, t1, e1)),
        },
        None => None,
    }
}

/// The evaluation of a command with the replies `ev`: `&&`, `||`, `!`, `;`,
/// `&`, subshells, `if`, loops, `for`, `case`, function definitions and
/// calls, pipelines with a compound stage (whose head is started and
/// whose compound stage gives the outcome).
pub open spec fn run(c: CommandView, t: TableView, ev: Seq<EventView>, fuel: nat) -> RunResult
    decreases fuel, 2int,
{
    if fuel == 0 {
        None
    } else {
        let f = (fuel - 1) as nat;
        match c {
            CommandView::Simple(_, _, _) => simple_reply(t, ev, f),
            CommandView::Pipeline(_, _) => {
                let st = stages_of(c);
                let k = first_compound(st);
                if k == st.len() {
                    status_reply(t, ev)
                } else if k == 0 {
                    run(st[0], t, ev, f)
                } else {
                    then_run(ack_reply(t, ev), Some(st[k]), f)
                }
            },
            CommandView::And(a, b) => match run(*a, t, ev, f) {
                Some((o, t1, e1)) => match o {
                    OutcomeView::Status(s) => if s == 0 { run(*b, t1, e1, f) } else { Some((o, t1, e1)) },
                    _ => Some((o, t1, e1)),
                },
                None => None,
            },
            CommandView::Or(a, b) => match run(*a, t, ev, f) {
                Some((o, t1, e1)) => match o {
                    OutcomeView::Status(s) => if s != 0 {
                        run(*b, t1, e1, f)
                    } else {
                        Some((OutcomeView::Status(0), t1, e1))
                    },
                    _ => Some((o, t1, e1)),
                },
                None => None,
            },
            CommandView::Not(a) => match run(*a, t, ev, f) {
                Some((o, t1, e1)) => match o {
                    OutcomeView::Status(s) => Some((OutcomeView::Status(if s == 0 { 1 } else { 0 }), t1, e1)),
                    _ => Some((o, t1, e1)),
                },
                None => None,
            },
            CommandView::Sequence(a, b) => then_run(
                run(*a, t, ev, f),
                match b {
                    Some(b) => Some(*b),
                    None => None,
                },
                f,
            ),
            CommandView::Background(a, b) => {
                let st = stages_of(*a);
                let first = if first_compound(st) == st.len() { ack_reply(t, ev) } else { run(*a, t, ev, f) };
                then_run(first, match b {
                    Some(b) => Some(*b),
                    None => None,
                }, f)
            },
            CommandView::Subshell(a) => then_run(ack_reply(t, ev), Some(*a), f),
            CommandView::If(cond, then_part, else_part) => match run(*cond, t, ev, f) {
                Some((o, t1, e1)) => match o {
                    OutcomeView::Status(s) => if s == 0 {
                        run(*then_part, t1, e1, f)
                    } else {
                        match else_part {
                            Some(e) => run(*e, t1, e1, f),
                            None => Some((OutcomeView::Status(0), t1, e1)),
                        }
                    },
                    _ => Some((o, t1, e1)),
                },
                None => None,
            },
            CommandView::While(cond, body) => run_loop(*cond, *body, false, t, ev, f),
            CommandView::Until(cond, body) => run_loop(*cond, *body, true, t, ev, f),
            CommandView::For(name, _, body) => match words_reply(ev) {
                Some((ws, e1)) => run_for(name, ws, 0, *body, t, e1, f),
                None => None,
            },
            CommandView::Case(_, arms) => match words_reply(ev) {
                Some((ws, e1)) => match pick_arm(*arms, if ws.len() > 0 { ws[0] } else { Seq::empty() }) {
                    Some(b) => run(b, t, e1, f),
                    None => Some((OutcomeView::Status(0), t, e1)),
                },
                None => None,
            },
            CommandView::Function(name, body) => Some((OutcomeView::Status(0), define_function(t, name, *body), ev)),
            CommandView::Nothing => Some((OutcomeView::Status(0), t, ev)),
        }
    }
}

/// A `while` (or, with `until`, an `until`) loop: the condition runs; while
/// it holds the body runs, and `continue` goes on, `break` ends the loop
/// with status 0, an error ends it; a loop ends with status 0.
pub open spec fn run_loop(cond: CommandView, body: CommandView, until: bool, t: TableView, ev: Seq<EventView>, fuel: nat) -> RunResult
    decreases fuel, 2int,
{
    if fuel == 0 {
        None
    } else {
        let f = (fuel - 1) as nat;
        match run(cond, t, ev, f) {
            Some((o, t1, e1)) => match o {
                OutcomeView::Status(s) => if (if until { s == 0 } else { s != 0 }) {
                    Some((OutcomeView::Status(0), t1, e1))
                } else {
                    match run(body, t1, e1, f) {
                        Some((ob, t2, e2)) => match ob {
                            OutcomeView::Status(_) | OutcomeView::Continue => run_loop(cond, body, until, t2, e2, f),
                            OutcomeView::Break => Some((OutcomeView::Status(0), t2, e2)),
                            OutcomeView::Failed(_) => Some((ob, t2, e2)),
                        },
                        None => None,
                    }
                },
                _ => Some((o, t1, e1)),
            },
            None => None,
        }
    }
}

/// A `for` loop from its `i`-th word: the variable is set (the reply must
/// be `Ack`), the body runs, and `continue` goes on, `break` ends the loop
/// with status 0, an error ends it; after the last word, status 0.
pub open spec fn run_for(name: Seq<char>, ws: Seq<Seq<char>>, i: int, body: CommandView, t: TableView, ev: Seq<EventView>, fuel: nat) -> RunResult
    decreases fuel, 2int,
{
    if fuel == 0 {
        None
    } else {
        let f = (fuel - 1) as nat;
        if !(0 <= i < ws.len()) {
            Some((OutcomeView::Status(0), t, ev))
        } else if ev.len() > 0 && ev[0] is Ack {
            match run(body, t, ev.drop_first(), f) {
                Some((o, t2, e2)) => match o {
                    OutcomeView::Status(_) | OutcomeView::Continue => run_for(name, ws, i + 1, body, t2, e2, f),
                    OutcomeView::Break => Some((OutcomeView::Status(0), t2, e2)),
                    OutcomeView::Failed(_) => Some((o, t2, e2)),
                },
                None => None,
            }
        } else {
            None
        }
    }
}

/// Driving the evaluator for `a + b` steps is driving it `a` steps, then `b`.
pub proof fn lemma_drive_add(m: EvalView, t: TableView, ev: Seq<EventView>, a: nat, b: nat)
    ensures
        drive(m, t, ev, a + b) == ({
            let (m1, t1, e1) = drive(m, t, ev, a);
            drive(m1, t1, e1, b)
        }),
    decreases a,
{
    if a > 0 {
        let (e, rest) = step_event(m, ev);
        let (m2, t2, _) = shell_step(m, t, e);
        lemma_drive_add(m2, t2, rest, (a - 1) as nat, b);
        assert((a + b - 1) as nat == (a - 1) as nat + b);
    }
}

/// One step.
pub proof fn lemma_drive_one(m: EvalView, t: TableView, ev: Seq<EventView>)
    ensures
        drive(m, t, ev, 1) == ({
            let (e, rest) = step_event(m, ev);
            let (m2, t2, _) = shell_step(m, t, e);
            (m2, t2, rest)
        }),
{
    let (e, rest) = step_event(m, ev);
    let (m2, t2, _) = shell_step(m, t, e);
    assert(drive(m2, t2, rest, 0) == (m2, t2, rest));
}


proof fn lemma_chain(
    m0: EvalView,
    t0: TableView,
    e0: Seq<EventView>,
    a: nat,
    mid: (EvalView, TableView, Seq<EventView>),
    b: nat,
    end: (EvalView, TableView, Seq<EventView>),
)
    requires
        drive(m0, t0, e0, a) == mid,
        drive(mid.0, mid.1, mid.2, b) == end,
    ensures
        drive(m0, t0, e0, a + b) == end,
{
    lemma_drive_add(m0, t0, e0, a, b);
}

/// Evaluating a command takes one step to its first transition.
proof fn lemma_eval_step(c: CommandView, s: Seq<FrameView>, t: TableView, ev: Seq<EventView>)
    ensures
        ({
            let (push, focus, t2, _) = crate::shell_eval::eval_transition(c, t);
            drive(EvalView { stack: s, focus: FocusView::Eval(c) }, t, ev, 1) == (EvalView { stack: s + push, focus }, t2, ev)
        }),
{
    lemma_drive_one(EvalView { stack: s, focus: FocusView::Eval(c) }, t, ev);
}

/// An outcome reaching the frame `f` takes one step.
proof fn lemma_return_step(f: FrameView, o: OutcomeView, s: Seq<FrameView>, t: TableView, ev: Seq<EventView>)
    ensures
        ({
            let (push, focus, _) = crate::shell_eval::return_transition(f, o);
            drive(EvalView { stack: s.push(f), focus: FocusView::Return(o) }, t, ev, 1) == (EvalView { stack: s + push, focus }, t, ev)
        }),
{
    assert(s.push(f).drop_last() =~= s);
    lemma_drive_one(EvalView { stack: s.push(f), focus: FocusView::Return(o) }, t, ev);
}

/// A reply to a waiting evaluator takes one step.
proof fn lemma_await_step(s: Seq<FrameView>, t: TableView, ev: Seq<EventView>)
    requires
        ev.len() > 0,
    ensures
        ({
            let top = if s.len() > 0 { Some(s.last()) } else { None };
            let (pop, push, focus, _) = crate::shell_eval::await_transition(top, ev[0], t);
            let base = if pop { s.drop_last() } else { s };
            drive(EvalView { stack: s, focus: FocusView::Await }, t, ev, 1) == (EvalView { stack: base + push, focus }, t, ev.drop_first())
        }),
{
    lemma_drive_one(EvalView { stack: s, focus: FocusView::Await }, t, ev);
}

proof fn lemma_simple_reply(s: Seq<FrameView>, t: TableView, ev: Seq<EventView>, fuel: nat) -> (n: nat)
    requires
        simple_reply(t, ev, fuel) is Some,
    ensures
        ({
            let (o, t2, e2) = simple_reply(t, ev, fuel)->0;
            drive(EvalView { stack: s, focus: FocusView::Await }, t, ev, n) == (EvalView { stack: s, focus: FocusView::Return(o) }, t2, e2)
        }),
    decreases fuel, 3int,
{
    let m0 = EvalView { stack: s, focus: FocusView::Await };
    lemma_await_step(s, t, ev);
    assert(s + Seq::<FrameView>::empty() =~= s);
    match ev[0] {
        EventView::Call(name) => {
            match function_body(t, name) {
                Some(b) => {
                    let mid = (EvalView { stack: s, focus: FocusView::Eval(b) }, t, ev.drop_first());
                    let k = lemma_run(b, s, t, ev.drop_first(), fuel);
                    lemma_chain(m0, t, ev, 1, mid, k, drive(mid.0, mid.1, mid.2, k));
                    1 + k
                },
                None => 1,
            }
        },
        _ => 1,
    }
}

/// `n` steps take the evaluator, started on `c` on top of the frames `s`,
/// to the outcome that `run` gives, with its function table and the
/// replies it leaves, and the frames `s` as they were.
pub open spec fn reaches_run(c: CommandView, s: Seq<FrameView>, t: TableView, ev: Seq<EventView>, fuel: nat, n: nat) -> bool {
    let (o, t2, e2) = run(c, t, ev, fuel)->0;
    drive(EvalView { stack: s, focus: FocusView::Eval(c) }, t, ev, n) == (EvalView { stack: s, focus: FocusView::Return(o) }, t2, e2)
}

/// The evaluator, started on `c` on top of any frames `s`, reaches the
/// outcome that `run` gives, with the same function table and the same
/// replies left, and leaves the frames as they were.
pub proof fn lemma_run(c: CommandView, s: Seq<FrameView>, t: TableView, ev: Seq<EventView>, fuel: nat) -> (n: nat)
    requires
        run(c, t, ev, fuel) is Some,
    ensures
        reaches_run(c, s, t, ev, fuel, n),
    decreases fuel, 2int,
{
    let f = (fuel - 1) as nat;
    let m0 = EvalView { stack: s, focus: FocusView::Eval(c) };
    match c {
        CommandView::Simple(_, _, _) => {
            lemma_eval_step(c, s, t, ev);
            assert(s + Seq::<FrameView>::empty() =~= s);
            let mid = (EvalView { stack: s, focus: FocusView::Await }, t, ev);
            let k = lemma_simple_reply(s, t, ev, f);
            lemma_chain(m0, t, ev, 1, mid, k, drive(mid.0, mid.1, mid.2, k));
            1 + k
        },
        CommandView::Function(_, _) | CommandView::Nothing => {
            lemma_eval_step(c, s, t, ev);
            assert(s + Seq::<FrameView>::empty() =~= s);
            1
        },
        CommandView::And(_, _) | CommandView::Or(_, _) | CommandView::Not(_) => lemma_run_logic(c, s, t, ev, fuel),
        CommandView::Sequence(_, _) | CommandView::Background(_, _) => lemma_run_sequence(c, s, t, ev, fuel),
        CommandView::Subshell(_) => lemma_run_subshell(c, s, t, ev, fuel),
        CommandView::If(_, _, _) => lemma_run_if(c, s, t, ev, fuel),
        CommandView::While(cond, body) => {
            lemma_eval_step(c, s, t, ev);
            let s1 = s.push(FrameView::LoopCond(*cond, *body, false));
            assert(s + seq![FrameView::LoopCond(*cond, *body, false)] =~= s1);
            let mid = (EvalView { stack: s1, focus: FocusView::Eval(*cond) }, t, ev);
            let k = lemma_loop(*cond, *body, false, s, t, ev, f);
            lemma_chain(m0, t, ev, 1, mid, k, drive(mid.0, mid.1, mid.2, k));
            1 + k
        },
        CommandView::Until(cond, body) => {
            lemma_eval_step(c, s, t, ev);
            let s1 = s.push(FrameView::LoopCond(*cond, *body, true));
            assert(s + seq![FrameView::LoopCond(*cond, *body, true)] =~= s1);
            let mid = (EvalView { stack: s1, focus: FocusView::Eval(*cond) }, t, ev);
            let k = lemma_loop(*cond, *body, true, s, t, ev, f);
            lemma_chain(m0, t, ev, 1, mid, k, drive(mid.0, mid.1, mid.2, k));
            1 + k
        },
        CommandView::For(_, _, _) | CommandView::Case(_, _) => lemma_run_words(c, s, t, ev, fuel),
        CommandView::Pipeline(_, _) => lemma_run_pipeline(c, s, t, ev, fuel),
    }
}

/// `&&`, `||` and `!`.
proof fn lemma_run_logic(c: CommandView, s: Seq<FrameView>, t: TableView, ev: Seq<EventView>, fuel: nat) -> (n: nat)
    requires
        c is And || c is Or || c is Not,
        run(c, t, ev, fuel) is Some,
    ensures
        reaches_run(c, s, t, ev, fuel, n),
    decreases fuel, 1int,
{
    let f = (fuel - 1) as nat;
    let m0 = EvalView { stack: s, focus: FocusView::Eval(c) };
    lemma_eval_step(c, s, t, ev);
    let (a, fr) = match c {
        CommandView::And(a, b) => (*a, FrameView::AndThen(*b)),
        CommandView::Or(a, b) => (*a, FrameView::OrElse(*b)),
        CommandView::Not(a) => (*a, FrameView::Negate),
        _ => (c, FrameView::Negate),
    };
    let s1 = s.push(fr);
    assert(s + seq![fr] =~= s1);
    assert(s + Seq::<FrameView>::empty() =~= s);
    let (o, t1, e1) = run(a, t, ev, f)->0;
    let k1 = lemma_run(a, s1, t, ev, f);
    let mid = (EvalView { stack: s1, focus: FocusView::Eval(a) }, t, ev);
    let after_a = (EvalView { stack: s1, focus: FocusView::Return(o) }, t1, e1);
    lemma_chain(m0, t, ev, 1, mid, k1, after_a);
    lemma_return_step(fr, o, s, t1, e1);
    let after = drive(after_a.0, after_a.1, after_a.2, 1);
    lemma_chain(m0, t, ev, 1 + k1, after_a, 1, after);
    match c {
        CommandView::And(_, b) => {
            if o matches OutcomeView::Status(st) && st == 0 {
                let k3 = lemma_run(*b, s, t1, e1, f);
                lemma_chain(m0, t, ev, 2 + k1, after, k3, drive(after.0, after.1, after.2, k3));
                2 + k1 + k3
            } else {
                2 + k1
            }
        },
        CommandView::Or(_, b) => {
            if o matches OutcomeView::Status(st) && st != 0 {
                let k3 = lemma_run(*b, s, t1, e1, f);
                lemma_chain(m0, t, ev, 2 + k1, after, k3, drive(after.0, after.1, after.2, k3));
                2 + k1 + k3
            } else {
                2 + k1
            }
        },
        _ => 2 + k1,
    }
}

/// `a; b` and `a & b`.
proof fn lemma_run_sequence(c: CommandView, s: Seq<FrameView>, t: TableView, ev: Seq<EventView>, fuel: nat) -> (n: nat)
    requires
        c is Sequence || c is Background,
        run(c, t, ev, fuel) is Some,
    ensures
        reaches_run(c, s, t, ev, fuel, n),
    decreases fuel, 1int,
{
    let f = (fuel - 1) as nat;
    let m0 = EvalView { stack: s, focus: FocusView::Eval(c) };
    lemma_eval_step(c, s, t, ev);
    let (a, next, background) = match c {
        CommandView::Sequence(a, b) => (*a, match b {
            Some(b) => Some(*b),
            None => None,
        }, false),
        CommandView::Background(a, b) => (*a, match b {
            Some(b) => Some(*b),
            None => None,
        }, true),
        _ => (c, None, false),
    };
    let s1 = s.push(FrameView::Then(next));
    assert(s + seq![FrameView::Then(next)] =~= s1);
    let st = stages_of(a);
    if background && first_compound(st) == st.len() {
        assert(run(c, t, ev, fuel) == then_run(ack_reply(t, ev), next, f));
        assert(ack_reply(t, ev) is Some);
        let mid = (EvalView { stack: s1, focus: FocusView::Await }, t, ev);
        lemma_await_step(s1, t, ev);
        assert(s1 + Seq::<FrameView>::empty() =~= s1);
        let (o, t1, e1) = ack_reply(t, ev)->0;
        let after_a = (EvalView { stack: s1, focus: FocusView::Return(o) }, t1, e1);
        lemma_chain(m0, t, ev, 1, mid, 1, after_a);
        let k2 = lemma_then(o, next, s, t1, e1, f);
        lemma_chain(m0, t, ev, 2, after_a, k2, drive(after_a.0, after_a.1, after_a.2, k2));
        2 + k2
    } else {
        assert(run(c, t, ev, fuel) == then_run(run(a, t, ev, f), next, f));
        assert(run(a, t, ev, f) is Some);
        let k1 = lemma_run(a, s1, t, ev, f);
        let (o, t1, e1) = run(a, t, ev, f)->0;
        let mid = (EvalView { stack: s1, focus: FocusView::Eval(a) }, t, ev);
        let after_a = (EvalView { stack: s1, focus: FocusView::Return(o) }, t1, e1);
        lemma_chain(m0, t, ev, 1, mid, k1, after_a);
        let k2 = lemma_then(o, next, s, t1, e1, f);
        lemma_chain(m0, t, ev, 1 + k1, after_a, k2, drive(after_a.0, after_a.1, after_a.2, k2));
        1 + k1 + k2
    }
}

/// A subshell: entered (the reply must be `Ack` or an error), its body,
/// and left again.
proof fn lemma_run_subshell(c: CommandView, s: Seq<FrameView>, t: TableView, ev: Seq<EventView>, fuel: nat) -> (n: nat)
    requires
        c is Subshell,
        run(c, t, ev, fuel) is Some,
    ensures
        reaches_run(c, s, t, ev, fuel, n),
    decreases fuel, 1int,
{
    let f = (fuel - 1) as nat;
    let m0 = EvalView { stack: s, focus: FocusView::Eval(c) };
    lemma_eval_step(c, s, t, ev);
    let a = c->Subshell_0;
    assert(run(c, t, ev, fuel) == then_run(ack_reply(t, ev), Some(*a), f));
    assert(ack_reply(t, ev) is Some);
    let s1 = s.push(FrameView::LeaveSubshell);
    let s2 = s1.push(FrameView::Run(*a));
    assert(s + seq![FrameView::LeaveSubshell, FrameView::Run(*a)] =~= s2);
    let mid = (EvalView { stack: s2, focus: FocusView::Await }, t, ev);
    lemma_await_step(s2, t, ev);
    assert(s2 + Seq::<FrameView>::empty() =~= s2);
    let (o, t1, e1) = ack_reply(t, ev)->0;
    let after_reply = (EvalView { stack: s2, focus: FocusView::Return(o) }, t1, e1);
    lemma_chain(m0, t, ev, 1, mid, 1, after_reply);
    lemma_return_step(FrameView::Run(*a), o, s1, t1, e1);
    assert(s1 + Seq::<FrameView>::empty() =~= s1);
    assert(s + Seq::<FrameView>::empty() =~= s);
    let after_run = drive(after_reply.0, after_reply.1, after_reply.2, 1);
    lemma_chain(m0, t, ev, 2, after_reply, 1, after_run);
    if o is Status {
        let k = lemma_run(*a, s1, t1, e1, f);
        let (o2, t2, e2) = run(*a, t1, e1, f)->0;
        let after_body = (EvalView { stack: s1, focus: FocusView::Return(o2) }, t2, e2);
        lemma_chain(m0, t, ev, 3, after_run, k, after_body);
        lemma_return_step(FrameView::LeaveSubshell, o2, s, t2, e2);
        lemma_chain(m0, t, ev, 3 + k, after_body, 1, drive(after_body.0, after_body.1, after_body.2, 1));
        4 + k
    } else {
        lemma_return_step(FrameView::LeaveSubshell, o, s, t1, e1);
        lemma_chain(m0, t, ev, 3, after_run, 1, drive(after_run.0, after_run.1, after_run.2, 1));
        4
    }
}

/// `if cond; then ..; else ..; fi`.
proof fn lemma_run_if(c: CommandView, s: Seq<FrameView>, t: TableView, ev: Seq<EventView>, fuel: nat) -> (n: nat)
    requires
        c is If,
        run(c, t, ev, fuel) is Some,
    ensures
        reaches_run(c, s, t, ev, fuel, n),
    decreases fuel, 1int,
{
    let f = (fuel - 1) as nat;
    let m0 = EvalView { stack: s, focus: FocusView::Eval(c) };
    lemma_eval_step(c, s, t, ev);
    let cond = *c->If_0;
    let then_part = *c->If_1;
    let other = match c->If_2 {
        Some(e) => Some(*e),
        None => None,
    };
    let s1 = s.push(FrameView::IfThen(then_part, other));
    assert(s + seq![FrameView::IfThen(then_part, other)] =~= s1);
    assert(s + Seq::<FrameView>::empty() =~= s);
    let k1 = lemma_run(cond, s1, t, ev, f);
    let (o, t1, e1) = run(cond, t, ev, f)->0;
    let mid = (EvalView { stack: s1, focus: FocusView::Eval(cond) }, t, ev);
    let after_a = (EvalView { stack: s1, focus: FocusView::Return(o) }, t1, e1);
    lemma_chain(m0, t, ev, 1, mid, k1, after_a);
    lemma_return_step(FrameView::IfThen(then_part, other), o, s, t1, e1);
    let after = drive(after_a.0, after_a.1, after_a.2, 1);
    lemma_chain(m0, t, ev, 1 + k1, after_a, 1, after);
    if o matches OutcomeView::Status(st) && st == 0 {
        let k3 = lemma_run(then_part, s, t1, e1, f);
        lemma_chain(m0, t, ev, 2 + k1, after, k3, drive(after.0, after.1, after.2, k3));
        2 + k1 + k3
    } else if o is Status && other is Some {
        let k3 = lemma_run(other->0, s, t1, e1, f);
        lemma_chain(m0, t, ev, 2 + k1, after, k3, drive(after.0, after.1, after.2, k3));
        2 + k1 + k3
    } else {
        2 + k1
    }
}

/// `for` and `case`, which first have their words expanded.
proof fn lemma_run_words(c: CommandView, s: Seq<FrameView>, t: TableView, ev: Seq<EventView>, fuel: nat) -> (n: nat)
    requires
        c is For || c is Case,
        run(c, t, ev, fuel) is Some,
    ensures
        reaches_run(c, s, t, ev, fuel, n),
    decreases fuel, 1int,
{
    let f = (fuel - 1) as nat;
    let m0 = EvalView { stack: s, focus: FocusView::Eval(c) };
    lemma_eval_step(c, s, t, ev);
    assert(words_reply(ev) is Some);
    match c {
        CommandView::For(name, _, body) => {
            let s1 = s.push(FrameView::ForWords(name, *body));
            assert(s + seq![FrameView::ForWords(name, *body)] =~= s1);
            let mid = (EvalView { stack: s1, focus: FocusView::Await }, t, ev);
            lemma_await_step(s1, t, ev);
            assert(s1.drop_last() =~= s);
            let ws = ev[0]->Words_0;
            let s2 = s.push(FrameView::ForValues(name, ws, 0, *body));
            assert(s + seq![FrameView::ForValues(name, ws, 0, *body)] =~= s2);
            let after = (EvalView { stack: s2, focus: FocusView::Return(OutcomeView::Status(0)) }, t, ev.drop_first());
            lemma_chain(m0, t, ev, 1, mid, 1, after);
            let k = lemma_for(name, ws, 0, *body, OutcomeView::Status(0), s, t, ev.drop_first(), f);
            lemma_chain(m0, t, ev, 2, after, k, drive(after.0, after.1, after.2, k));
            2 + k
        },
        CommandView::Case(_, arms) => {
            let s1 = s.push(FrameView::CaseWord(*arms));
            assert(s + seq![FrameView::CaseWord(*arms)] =~= s1);
            let mid = (EvalView { stack: s1, focus: FocusView::Await }, t, ev);
            lemma_await_step(s1, t, ev);
            assert(s1.drop_last() =~= s);
            assert(s + Seq::<FrameView>::empty() =~= s);
            let ws = ev[0]->Words_0;
            let word = if ws.len() > 0 { ws[0] } else { Seq::empty() };
            let after = drive(mid.0, mid.1, mid.2, 1);
            lemma_chain(m0, t, ev, 1, mid, 1, after);
            match pick_arm(*arms, word) {
                Some(b) => {
                    let k = lemma_run(b, s, t, ev.drop_first(), f);
                    lemma_chain(m0, t, ev, 2, after, k, drive(after.0, after.1, after.2, k));
                    2 + k
                },
                None => 2,
            }
        },
        _ => 0,
    }
}

/// A pipeline: waited for when all its stages are simple; otherwise its
/// simple head is started and its first compound stage runs here.
proof fn lemma_run_pipeline(c: CommandView, s: Seq<FrameView>, t: TableView, ev: Seq<EventView>, fuel: nat) -> (n: nat)
    requires
        c is Pipeline,
        run(c, t, ev, fuel) is Some,
    ensures
        reaches_run(c, s, t, ev, fuel, n),
    decreases fuel, 1int,
{
    let f = (fuel - 1) as nat;
    let m0 = EvalView { stack: s, focus: FocusView::Eval(c) };
    lemma_eval_step(c, s, t, ev);
    assert(s + Seq::<FrameView>::empty() =~= s);
    let st = stages_of(c);
    let k = first_compound(st);
    if k == st.len() {
        let mid = (EvalView { stack: s, focus: FocusView::Await }, t, ev);
        lemma_await_step(s, t, ev);
        lemma_chain(m0, t, ev, 1, mid, 1, drive(mid.0, mid.1, mid.2, 1));
        2
    } else if k == 0 {
        let mid = (EvalView { stack: s, focus: FocusView::Eval(st[0]) }, t, ev);
        let k1 = lemma_run(st[0], s, t, ev, f);
        lemma_chain(m0, t, ev, 1, mid, k1, drive(mid.0, mid.1, mid.2, k1));
        1 + k1
    } else {
        assert(run(c, t, ev, fuel) == then_run(ack_reply(t, ev), Some(st[k]), f));
        assert(ack_reply(t, ev) is Some);
        let s1 = s.push(FrameView::Run(st[k]));
        assert(s + seq![FrameView::Run(st[k])] =~= s1);
        let mid = (EvalView { stack: s1, focus: FocusView::Await }, t, ev);
        lemma_await_step(s1, t, ev);
        assert(s1 + Seq::<FrameView>::empty() =~= s1);
        let (o, t1, e1) = ack_reply(t, ev)->0;
        let after_reply = (EvalView { stack: s1, focus: FocusView::Return(o) }, t1, e1);
        lemma_chain(m0, t, ev, 1, mid, 1, after_reply);
        lemma_return_step(FrameView::Run(st[k]), o, s, t1, e1);
        let after = drive(after_reply.0, after_reply.1, after_reply.2, 1);
        lemma_chain(m0, t, ev, 2, after_reply, 1, after);
        if o is Status {
            let k3 = lemma_run(st[k], s, t1, e1, f);
            lemma_chain(m0, t, ev, 3, after, k3, drive(after.0, after.1, after.2, k3));
            3 + k3
        } else {
            3
        }
    }
}

/// After an outcome reaches a `Then` frame.
proof fn lemma_then(o: OutcomeView, next: Option<CommandView>, s: Seq<FrameView>, t: TableView, ev: Seq<EventView>, fuel: nat) -> (n: nat)
    requires
        then_run(Some((o, t, ev)), next, fuel) is Some,
    ensures
        ({
            let (o2, t2, e2) = then_run(Some((o, t, ev)), next, fuel)->0;
            drive(EvalView { stack: s.push(FrameView::Then(next)), focus: FocusView::Return(o) }, t, ev, n)
                == (EvalView { stack: s, focus: FocusView::Return(o2) }, t2, e2)
        }),
    decreases fuel, 3int,
{
    let m0 = EvalView { stack: s.push(FrameView::Then(next)), focus: FocusView::Return(o) };
    lemma_return_step(FrameView::Then(next), o, s, t, ev);
    assert(s + Seq::<FrameView>::empty() =~= s);
    let after = drive(m0, t, ev, 1);
    match o {
        OutcomeView::Status(_) => match next {
            Some(b) => {
                let k = lemma_run(b, s, t, ev, fuel);
                lemma_chain(m0, t, ev, 1, after, k, drive(after.0, after.1, after.2, k));
                1 + k
            },
            None => 1,
        },
        _ => 1,
    }
}

/// A loop, from its condition's evaluation on top of `s`.
proof fn lemma_loop(cond: CommandView, body: CommandView, until: bool, s: Seq<FrameView>, t: TableView, ev: Seq<EventView>, fuel: nat) -> (n: nat)
    requires
        run_loop(cond, body, until, t, ev, fuel) is Some,
    ensures
        ({
            let (o, t2, e2) = run_loop(cond, body, until, t, ev, fuel)->0;
            drive(EvalView { stack: s.push(FrameView::LoopCond(cond, body, until)), focus: FocusView::Eval(cond) }, t, ev, n)
                == (EvalView { stack: s, focus: FocusView::Return(o) }, t2, e2)
        }),
    decreases fuel, 2int,
{
    let f = (fuel - 1) as nat;
    let s1 = s.push(FrameView::LoopCond(cond, body, until));
    let m0 = EvalView { stack: s1, focus: FocusView::Eval(cond) };
    let k1 = lemma_run(cond, s1, t, ev, f);
    let (o, t1, e1) = run(cond, t, ev, f)->0;
    let after_c = (EvalView { stack: s1, focus: FocusView::Return(o) }, t1, e1);
    lemma_return_step(FrameView::LoopCond(cond, body, until), o, s, t1, e1);
    assert(s + Seq::<FrameView>::empty() =~= s);
    let after = drive(after_c.0, after_c.1, after_c.2, 1);
    lemma_chain(m0, t, ev, k1, after_c, 1, after);
    match o {
        OutcomeView::Status(st) => {
            if (if until { st == 0 } else { st != 0 }) {
                k1 + 1
            } else {
                let s2 = s.push(FrameView::LoopBody(cond, body, until));
                assert(s + seq![FrameView::LoopBody(cond, body, until)] =~= s2);
                let k2 = lemma_run(body, s2, t1, e1, f);
                let (ob, t2, e2) = run(body, t1, e1, f)->0;
                let after_b = (EvalView { stack: s2, focus: FocusView::Return(ob) }, t2, e2);
                lemma_chain(m0, t, ev, k1 + 1, after, k2, after_b);
                lemma_return_step(FrameView::LoopBody(cond, body, until), ob, s, t2, e2);
                let after2 = drive(after_b.0, after_b.1, after_b.2, 1);
                lemma_chain(m0, t, ev, k1 + 1 + k2, after_b, 1, after2);
                match ob {
                    OutcomeView::Status(_) | OutcomeView::Continue => {
                        assert(s + seq![FrameView::LoopCond(cond, body, until)] =~= s1);
                        let k3 = lemma_loop(cond, body, until, s, t2, e2, f);
                        lemma_chain(m0, t, ev, k1 + 2 + k2, after2, k3, drive(after2.0, after2.1, after2.2, k3));
                        k1 + 2 + k2 + k3
                    },
                    _ => k1 + 2 + k2,
                }
            }
        },
        _ => k1 + 1,
    }
}

/// A `for` loop, from an outcome reaching its frame at word `i`.
proof fn lemma_for(
    name: Seq<char>,
    ws: Seq<Seq<char>>,
    i: int,
    body: CommandView,
    o0: OutcomeView,
    s: Seq<FrameView>,
    t: TableView,
    ev: Seq<EventView>,
    fuel: nat,
) -> (n: nat)
    requires
        o0 is Status || o0 is Continue,
        run_for(name, ws, i, body, t, ev, fuel) is Some,
    ensures
        ({
            let (o, t2, e2) = run_for(name, ws, i, body, t, ev, fuel)->0;
            drive(EvalView { stack: s.push(FrameView::ForValues(name, ws, i, body)), focus: FocusView::Return(o0) }, t, ev, n)
                == (EvalView { stack: s, focus: FocusView::Return(o) }, t2, e2)
        }),
    decreases fuel, 2int,
{
    let f = (fuel - 1) as nat;
    let fr = FrameView::ForValues(name, ws, i, body);
    let m0 = EvalView { stack: s.push(fr), focus: FocusView::Return(o0) };
    lemma_return_step(fr, o0, s, t, ev);
    assert(s + Seq::<FrameView>::empty() =~= s);
    let after = drive(m0, t, ev, 1);
    if !(0 <= i < ws.len()) {
        1
    } else {
        let s1 = s.push(FrameView::ForValues(name, ws, i + 1, body));
        let s2 = s1.push(FrameView::Run(body));
        assert(s + seq![FrameView::ForValues(name, ws, i + 1, body), FrameView::Run(body)] =~= s2);
        lemma_await_step(s2, t, ev);
        assert(s2 + Seq::<FrameView>::empty() =~= s2);
        let after_ack = drive(after.0, after.1, after.2, 1);
        lemma_chain(m0, t, ev, 1, after, 1, after_ack);
        lemma_return_step(FrameView::Run(body), OutcomeView::Status(0), s1, t, ev.drop_first());
        assert(s1 + Seq::<FrameView>::empty() =~= s1);
        let after_run = drive(after_ack.0, after_ack.1, after_ack.2, 1);
        lemma_chain(m0, t, ev, 2, after_ack, 1, after_run);
        let k = lemma_run(body, s1, t, ev.drop_first(), f);
        let (ob, t2, e2) = run(body, t, ev.drop_first(), f)->0;
        let after_b = (EvalView { stack: s1, focus: FocusView::Return(ob) }, t2, e2);
        lemma_chain(m0, t, ev, 3, after_run, k, after_b);
        match ob {
            OutcomeView::Status(_) | OutcomeView::Continue => {
                let k2 = lemma_for(name, ws, i + 1, body, ob, s, t2, e2, f);
                lemma_chain(m0, t, ev, 3 + k, after_b, k2, drive(after_b.0, after_b.1, after_b.2, k2));
                3 + k + k2
            },
            _ => {
                lemma_return_step(FrameView::ForValues(name, ws, i + 1, body), ob, s, t2, e2);
                lemma_chain(m0, t, ev, 3 + k, after_b, 1, drive(after_b.0, after_b.1, after_b.2, 1));
                4 + k
            },
        }
    }
}

/// Evaluating a whole command: started on `c` and fed the replies `ev`
/// while it waits, the evaluator comes, after some number of steps, to
/// report `Done` with the outcome that `run` gives, holding the function
/// table that `run` gives and having read exactly the replies `run` reads,
/// whenever those replies fit the actions it asks for.
pub proof fn law_evaluation_follows_semantics(c: CommandView, t: TableView, ev: Seq<EventView>, fuel: nat) -> (n: nat)
    requires
        run(c, t, ev, fuel) is Some,
    ensures
        ({
            let (o, t2, e2) = run(c, t, ev, fuel)->0;
            let (m, t3, e3) = drive(EvalView { stack: Seq::empty(), focus: FocusView::Eval(c) }, t, ev, n);
            &&& m == EvalView { stack: Seq::empty(), focus: FocusView::Return(o) }
            &&& t3 == t2
            &&& e3 == e2
            &&& shell_step(m, t3, EventView::Ack).2 == ActionView::Done(o)
        }),
{
    lemma_run(c, Seq::empty(), t, ev, fuel)
}
} // verus!
