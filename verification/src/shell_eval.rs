//! Evaluating a command of the shell language, one transition at a time.
//!
//! The evaluator keeps what is left to do as a stack of frames and a focus:
//! a command to evaluate, an outcome travelling back to the frames, or a
//! wait for the caller. Each step either needs nothing from the caller, or
//! hands it one action (run a simple command or a pipeline, expand words,
//! set a variable, enter or leave a subshell) and waits for its reply.
//! `&&`, `||`, `!`, `;`, `&`, `if`, `while`, `until`, `for`, `case`, function
//! definitions and calls, and `break` / `continue` are decided here.

use vstd::prelude::*;
use crate::glob_match::{glob_hit, glob_hits};
use crate::shell_ast::{
    assign_views, command_view, command_views, define_function, first_compound, first_compound_stage, function_body,
    pipeline_stages, redirect_views, stages_of, arms_view, ArmsView, Assignment, CaseArms, CommandView, FunctionTable,
    ShellCommand,
};
use crate::redirects::{Redirect, RedirectView};
use crate::text::{concat2, str_eq, views};

verus! {

broadcast use vstd::string::group_string_axioms;

/// How a command ended.
#[derive(Debug)]
pub enum Outcome {
    /// With this exit status.
    Status(i32),
    /// By `break`, not yet caught by a loop.
    Break,
    /// By `continue`, not yet caught by a loop.
    Continue,
    /// With an error.
    Failed(String),
}

pub enum OutcomeView {
    Status(i32),
    Break,
    Continue,
    Failed(Seq<char>),
}

pub open spec fn outcome_view(o: Outcome) -> OutcomeView {
    match o {
        Outcome::Status(s) => OutcomeView::Status(s),
        Outcome::Break => OutcomeView::Break,
        Outcome::Continue => OutcomeView::Continue,
        Outcome::Failed(m) => OutcomeView::Failed(m@),
    }
}

/// What is left to do once the command above has ended.
#[derive(Debug)]
pub enum Frame {
    /// `&& b`: run `b` after success.
    AndThen(ShellCommand),
    /// `|| b`: run `b` after failure.
    OrElse(ShellCommand),
    /// `!`: invert the status.
    Negate,
    /// `; b` or `& b`: run `b` next, if any.
    Then(Option<ShellCommand>),
    /// Run this command once the caller's reply came.
    Run(ShellCommand),
    /// Leave the subshell.
    LeaveSubshell,
    /// The branches of an `if` whose condition runs.
    IfThen { then_part: ShellCommand, else_part: Option<ShellCommand> },
    /// A loop whose condition runs.
    LoopCond { cond: ShellCommand, body: ShellCommand, until: bool },
    /// A loop whose body runs.
    LoopBody { cond: ShellCommand, body: ShellCommand, until: bool },
    /// A `for` loop waiting for its words.
    ForWords { name: String, body: ShellCommand },
    /// A `for` loop over its words, the next one at `next`.
    ForValues { name: String, values: Vec<String>, next: usize, body: ShellCommand },
    /// A `case` waiting for its word.
    CaseWord(CaseArms),
}

pub enum FrameView {
    AndThen(CommandView),
    OrElse(CommandView),
    Negate,
    Then(Option<CommandView>),
    Run(CommandView),
    LeaveSubshell,
    IfThen(CommandView, Option<CommandView>),
    LoopCond(CommandView, CommandView, bool),
    LoopBody(CommandView, CommandView, bool),
    ForWords(Seq<char>, CommandView),
    ForValues(Seq<char>, Seq<Seq<char>>, int, CommandView),
    CaseWord(ArmsView),
}

pub open spec fn opt_command_view(o: Option<ShellCommand>) -> Option<CommandView> {
    match o {
        Some(c) => Some(command_view(c)),
        None => None,
    }
}

pub open spec fn frame_view(f: Frame) -> FrameView {
    match f {
        Frame::AndThen(b) => FrameView::AndThen(command_view(b)),
        Frame::OrElse(b) => FrameView::OrElse(command_view(b)),
        Frame::Negate => FrameView::Negate,
        Frame::Then(b) => FrameView::Then(opt_command_view(b)),
        Frame::Run(c) => FrameView::Run(command_view(c)),
        Frame::LeaveSubshell => FrameView::LeaveSubshell,
        Frame::IfThen { then_part, else_part } => FrameView::IfThen(command_view(then_part), opt_command_view(else_part)),
        Frame::LoopCond { cond, body, until } => FrameView::LoopCond(command_view(cond), command_view(body), until),
        Frame::LoopBody { cond, body, until } => FrameView::LoopBody(command_view(cond), command_view(body), until),
        Frame::ForWords { name, body } => FrameView::ForWords(name@, command_view(body)),
        Frame::ForValues { name, values, next, body } => FrameView::ForValues(
            name@,
            views(values@),
            next as int,
            command_view(body),
        ),
        Frame::CaseWord(arms) => FrameView::CaseWord(arms_view(arms)),
    }
}

pub open spec fn frame_views(s: Seq<Frame>) -> Seq<FrameView> {
    s.map_values(|f: Frame| frame_view(f))
}

/// Where the evaluation stands.
#[derive(Debug)]
pub enum Focus {
    /// This command is to be evaluated.
    Eval(ShellCommand),
    /// A command ended so; the frames take it up.
    Return(Outcome),
    /// The caller's reply is awaited.
    Await,
}

pub enum FocusView {
    Eval(CommandView),
    Return(OutcomeView),
    Await,
}

pub open spec fn focus_view(f: Focus) -> FocusView {
    match f {
        Focus::Eval(c) => FocusView::Eval(command_view(c)),
        Focus::Return(o) => FocusView::Return(outcome_view(o)),
        Focus::Await => FocusView::Await,
    }
}

/// The caller's reply to the last action.
#[derive(Debug)]
pub enum ShellEvent {
    /// Done; nothing to report (or no action was asked for).
    Ack,
    /// The command ran with this status.
    Status(i32),
    /// The command was `break`.
    Break,
    /// The command was `continue`.
    Continue,
    /// The command failed.
    Failed(String),
    /// The command names this user-defined function.
    Call(String),
    /// The expanded words.
    Words(Vec<String>),
}

pub enum EventView {
    Ack,
    Status(i32),
    Break,
    Continue,
    Failed(Seq<char>),
    Call(Seq<char>),
    Words(Seq<Seq<char>>),
}

pub open spec fn event_view(e: ShellEvent) -> EventView {
    match e {
        ShellEvent::Ack => EventView::Ack,
        ShellEvent::Status(s) => EventView::Status(s),
        ShellEvent::Break => EventView::Break,
        ShellEvent::Continue => EventView::Continue,
        ShellEvent::Failed(m) => EventView::Failed(m@),
        ShellEvent::Call(n) => EventView::Call(n@),
        ShellEvent::Words(w) => EventView::Words(views(w@)),
    }
}

/// What the caller is to do.
#[derive(Debug)]
pub enum ShellAction {
    /// Nothing: step again.
    Next,
    /// Expand and run a simple command; reply with its status, `Break`,
    /// `Continue`, `Failed`, or `Call` when it names a user-defined function.
    Simple { assigns: Vec<Assignment>, redirects: Vec<Redirect>, args: Vec<String> },
    /// Run these simple commands as a pipeline and wait for them; reply with
    /// the status of the last one, or `Failed`.
    Pipeline(Vec<ShellCommand>),
    /// Start these simple commands as the head of a pipeline without waiting;
    /// reply `Ack` or `Failed`.
    Spawn(Vec<ShellCommand>),
    /// Start these simple commands, piped, in the background; reply `Ack` or
    /// `Failed`.
    Background(Vec<ShellCommand>),
    /// Expand these words; reply with all the resulting words.
    ExpandWords(Vec<String>),
    /// Expand this word; reply with it.
    ExpandWord(String),
    /// Set a shell variable; reply `Ack`.
    SetVar { name: String, value: String },
    /// Save the shell's variables; reply `Ack`.
    EnterSubshell,
    /// Restore the variables saved last; reply `Ack`.
    LeaveSubshell,
    /// The evaluation ended so.
    Done(Outcome),
}

pub enum ActionView {
    Next,
    Simple(Seq<(Seq<char>, Seq<char>)>, Seq<RedirectView>, Seq<Seq<char>>),
    Pipeline(Seq<CommandView>),
    Spawn(Seq<CommandView>),
    Background(Seq<CommandView>),
    ExpandWords(Seq<Seq<char>>),
    ExpandWord(Seq<char>),
    SetVar(Seq<char>, Seq<char>),
    EnterSubshell,
    LeaveSubshell,
    Done(OutcomeView),
}

pub open spec fn action_view(a: ShellAction) -> ActionView {
    match a {
        ShellAction::Next => ActionView::Next,
        ShellAction::Simple { assigns, redirects, args } => ActionView::Simple(
            assign_views(assigns@),
            redirect_views(redirects@),
            views(args@),
        ),
        ShellAction::Pipeline(s) => ActionView::Pipeline(command_views(s@)),
        ShellAction::Spawn(s) => ActionView::Spawn(command_views(s@)),
        ShellAction::Background(s) => ActionView::Background(command_views(s@)),
        ShellAction::ExpandWords(w) => ActionView::ExpandWords(views(w@)),
        ShellAction::ExpandWord(w) => ActionView::ExpandWord(w@),
        ShellAction::SetVar { name, value } => ActionView::SetVar(name@, value@),
        ShellAction::EnterSubshell => ActionView::EnterSubshell,
        ShellAction::LeaveSubshell => ActionView::LeaveSubshell,
        ShellAction::Done(o) => ActionView::Done(outcome_view(o)),
    }
}

/// The table of functions, as a value.
pub type TableView = Seq<(Seq<char>, CommandView)>;

/// Whether a `case` pattern holds wildcards.
pub open spec fn has_wildcard(p: Seq<char>) -> bool {
    p.contains('*') || p.contains('?') || p.contains('[')
}

/// Whether a `case` pattern matches a word: as a glob when it holds
/// wildcards, else as text.
pub open spec fn case_pattern_matches(p: Seq<char>, w: Seq<char>) -> bool {
    if has_wildcard(p) { glob_hit(p, w) } else { p == w }
}

/// Whether one of the patterns matches the word.
pub open spec fn any_pattern_matches(ps: Seq<Seq<char>>, w: Seq<char>) -> bool
    decreases ps.len(),
{
    if ps.len() == 0 {
        false
    } else {
        any_pattern_matches(ps.drop_last(), w) || case_pattern_matches(ps.last(), w)
    }
}

/// The body of the first arm with a pattern that matches the word.
pub open spec fn pick_arm(a: ArmsView, w: Seq<char>) -> Option<CommandView>
    decreases a,
{
    match a {
        ArmsView::End => None,
        ArmsView::Arm(ps, body, rest) => {
            if any_pattern_matches(ps, w) {
                Some(*body)
            } else {
                pick_arm(*rest, w)
            }
        },
    }
}

/// Evaluating a command: the frames pushed (bottom first), the new focus,
/// the function table and the action.
pub open spec fn eval_transition(c: CommandView, t: TableView) -> (Seq<FrameView>, FocusView, TableView, ActionView) {
    match c {
        CommandView::Simple(a, r, w) => (seq![], FocusView::Await, t, ActionView::Simple(a, r, w)),
        CommandView::Pipeline(_, _) => {
            let st = stages_of(c);
            let k = first_compound(st);
            if k == st.len() {
                (seq![], FocusView::Await, t, ActionView::Pipeline(st))
            } else if k == 0 {
                (seq![], FocusView::Eval(st[0]), t, ActionView::Next)
            } else {
                (seq![FrameView::Run(st[k])], FocusView::Await, t, ActionView::Spawn(st.take(k)))
            }
        },
        CommandView::And(a, b) => (seq![FrameView::AndThen(*b)], FocusView::Eval(*a), t, ActionView::Next),
        CommandView::Or(a, b) => (seq![FrameView::OrElse(*b)], FocusView::Eval(*a), t, ActionView::Next),
        CommandView::Not(a) => (seq![FrameView::Negate], FocusView::Eval(*a), t, ActionView::Next),
        CommandView::Sequence(a, b) => (
            seq![FrameView::Then(match b { Some(b) => Some(*b), None => None })],
            FocusView::Eval(*a),
            t,
            ActionView::Next,
        ),
        CommandView::Background(a, b) => {
            let st = stages_of(*a);
            let then = FrameView::Then(match b { Some(b) => Some(*b), None => None });
            if first_compound(st) == st.len() {
                (seq![then], FocusView::Await, t, ActionView::Background(st))
            } else {
                (seq![then], FocusView::Eval(*a), t, ActionView::Next)
            }
        },
        CommandView::Subshell(a) => (
            seq![FrameView::LeaveSubshell, FrameView::Run(*a)],
            FocusView::Await,
            t,
            ActionView::EnterSubshell,
        ),
        CommandView::If(cond, then_part, else_part) => (
            seq![FrameView::IfThen(*then_part, match else_part { Some(e) => Some(*e), None => None })],
            FocusView::Eval(*cond),
            t,
            ActionView::Next,
        ),
        CommandView::While(cond, body) => (
            seq![FrameView::LoopCond(*cond, *body, false)],
            FocusView::Eval(*cond),
            t,
            ActionView::Next,
        ),
        CommandView::Until(cond, body) => (
            seq![FrameView::LoopCond(*cond, *body, true)],
            FocusView::Eval(*cond),
            t,
            ActionView::Next,
        ),
        CommandView::For(name, words, body) => (
            seq![FrameView::ForWords(name, *body)],
            FocusView::Await,
            t,
            ActionView::ExpandWords(words),
        ),
        CommandView::Case(word, arms) => (seq![FrameView::CaseWord(*arms)], FocusView::Await, t, ActionView::ExpandWord(word)),
        CommandView::Function(name, body) => (
            seq![],
            FocusView::Return(OutcomeView::Status(0)),
            define_function(t, name, *body),
            ActionView::Next,
        ),
        CommandView::Nothing => (seq![], FocusView::Return(OutcomeView::Status(0)), t, ActionView::Next),
    }
}

/// An outcome reaching a frame: the frames pushed in its place, the new
/// focus and the action. `break` and `continue` pass through everything but
/// a loop's body; errors pass through everything.
pub open spec fn return_transition(f: FrameView, r: OutcomeView) -> (Seq<FrameView>, FocusView, ActionView) {
    let pass = (seq![], FocusView::Return(r), ActionView::Next);
    match f {
        FrameView::AndThen(b) => match r {
            OutcomeView::Status(s) => if s == 0 {
                (seq![], FocusView::Eval(b), ActionView::Next)
            } else {
                (seq![], FocusView::Return(OutcomeView::Status(s)), ActionView::Next)
            },
            _ => pass,
        },
        FrameView::OrElse(b) => match r {
            OutcomeView::Status(s) => if s != 0 {
                (seq![], FocusView::Eval(b), ActionView::Next)
            } else {
                (seq![], FocusView::Return(OutcomeView::Status(0)), ActionView::Next)
            },
            _ => pass,
        },
        FrameView::Negate => match r {
            OutcomeView::Status(s) => (
                seq![],
                FocusView::Return(OutcomeView::Status(if s == 0 { 1 } else { 0 })),
                ActionView::Next,
            ),
            _ => pass,
        },
        FrameView::Then(b) => match r {
            OutcomeView::Status(_) => match b {
                Some(b) => (seq![], FocusView::Eval(b), ActionView::Next),
                None => (seq![], FocusView::Return(OutcomeView::Status(0)), ActionView::Next),
            },
            _ => pass,
        },
        FrameView::Run(c) => match r {
            OutcomeView::Status(_) => (seq![], FocusView::Eval(c), ActionView::Next),
            _ => pass,
        },
        FrameView::LeaveSubshell => (seq![], FocusView::Return(r), ActionView::LeaveSubshell),
        FrameView::IfThen(then_part, else_part) => match r {
            OutcomeView::Status(s) => if s == 0 {
                (seq![], FocusView::Eval(then_part), ActionView::Next)
            } else {
                match else_part {
                    Some(e) => (seq![], FocusView::Eval(e), ActionView::Next),
                    None => (seq![], FocusView::Return(OutcomeView::Status(0)), ActionView::Next),
                }
            },
            _ => pass,
        },
        FrameView::LoopCond(cond, body, until) => match r {
            OutcomeView::Status(s) => if (if until { s == 0 } else { s != 0 }) {
                (seq![], FocusView::Return(OutcomeView::Status(0)), ActionView::Next)
            } else {
                (seq![FrameView::LoopBody(cond, body, until)], FocusView::Eval(body), ActionView::Next)
            },
            _ => pass,
        },
        FrameView::LoopBody(cond, body, until) => match r {
            OutcomeView::Status(_) | OutcomeView::Continue => (
                seq![FrameView::LoopCond(cond, body, until)],
                FocusView::Eval(cond),
                ActionView::Next,
            ),
            OutcomeView::Break => (seq![], FocusView::Return(OutcomeView::Status(0)), ActionView::Next),
            _ => pass,
        },
        FrameView::ForValues(name, values, next, body) => match r {
            OutcomeView::Status(_) | OutcomeView::Continue => if 0 <= next < values.len() {
                (
                    seq![FrameView::ForValues(name, values, next + 1, body), FrameView::Run(body)],
                    FocusView::Await,
                    ActionView::SetVar(name, values[next]),
                )
            } else {
                (seq![], FocusView::Return(OutcomeView::Status(0)), ActionView::Next)
            },
            OutcomeView::Break => (seq![], FocusView::Return(OutcomeView::Status(0)), ActionView::Next),
            _ => pass,
        },
        _ => pass,
    }
}

/// A reply reaching the evaluator while it waits: whether the top frame is
/// taken, the frames pushed, the new focus and the action.
pub open spec fn await_transition(top: Option<FrameView>, e: EventView, t: TableView) -> (bool, Seq<FrameView>, FocusView, ActionView) {
    match e {
        EventView::Ack => (false, seq![], FocusView::Return(OutcomeView::Status(0)), ActionView::Next),
        EventView::Status(s) => (false, seq![], FocusView::Return(OutcomeView::Status(s)), ActionView::Next),
        EventView::Break => (false, seq![], FocusView::Return(OutcomeView::Break), ActionView::Next),
        EventView::Continue => (false, seq![], FocusView::Return(OutcomeView::Continue), ActionView::Next),
        EventView::Failed(m) => (false, seq![], FocusView::Return(OutcomeView::Failed(m)), ActionView::Next),
        EventView::Call(name) => match function_body(t, name) {
            Some(b) => (false, seq![], FocusView::Eval(b), ActionView::Next),
            None => (false, seq![], FocusView::Return(OutcomeView::Failed(unknown_function(name))), ActionView::Next),
        },
        EventView::Words(ws) => match top {
            Some(FrameView::ForWords(name, body)) => (
                true,
                seq![FrameView::ForValues(name, ws, 0, body)],
                FocusView::Return(OutcomeView::Status(0)),
                ActionView::Next,
            ),
            Some(FrameView::CaseWord(arms)) => match pick_arm(arms, if ws.len() > 0 { ws[0] } else { Seq::empty() }) {
                Some(b) => (true, seq![], FocusView::Eval(b), ActionView::Next),
                None => (true, seq![], FocusView::Return(OutcomeView::Status(0)), ActionView::Next),
            },
            _ => (false, seq![], FocusView::Return(OutcomeView::Failed(unexpected_words())), ActionView::Next),
        },
    }
}

/// The error of a call of a function that is not defined.
pub open spec fn unknown_function(name: Seq<char>) -> Seq<char> {
    "no such function: "@ + name
}

/// The error of words that nothing waited for.
pub open spec fn unexpected_words() -> Seq<char> {
    "unexpected words"@
}

/// The evaluator's state, as a value.
pub struct EvalView {
    pub stack: Seq<FrameView>,
    pub focus: FocusView,
}

/// One transition of the evaluator on the caller's reply `e` (which only
/// counts while it waits): the new state, the function table and the action.
pub open spec fn shell_step(m: EvalView, t: TableView, e: EventView) -> (EvalView, TableView, ActionView) {
    match m.focus {
        FocusView::Eval(c) => {
            let (push, focus, t2, act) = eval_transition(c, t);
            (EvalView { stack: m.stack + push, focus }, t2, act)
        },
        FocusView::Return(r) => if m.stack.len() == 0 {
            (m, t, ActionView::Done(r))
        } else {
            let (push, focus, act) = return_transition(m.stack.last(), r);
            (EvalView { stack: m.stack.drop_last() + push, focus }, t, act)
        },
        FocusView::Await => {
            let top = if m.stack.len() > 0 { Some(m.stack.last()) } else { None };
            let (pop, push, focus, act) = await_transition(top, e, t);
            let base = if pop { m.stack.drop_last() } else { m.stack };
            (EvalView { stack: base + push, focus }, t, act)
        },
    }
}


/// Only a waiting evaluator reads the caller's reply: otherwise the step is
/// the same whatever the reply.
pub proof fn law_reply_counts_only_when_waiting(m: EvalView, t: TableView, e1: EventView, e2: EventView)
    requires
        !(m.focus is Await),
    ensures
        shell_step(m, t, e1) == shell_step(m, t, e2),
{
}

/// Once the outcome has reached the bottom, the evaluation is over: every
/// further step reports the same outcome and changes nothing.
pub proof fn law_done_is_final(r: OutcomeView, t: TableView, e: EventView)
    ensures
        ({
            let m = EvalView { stack: Seq::empty(), focus: FocusView::Return(r) };
            shell_step(m, t, e) == (m, t, ActionView::Done(r))
        }),
{
}

/// Only a function definition changes the function table.
pub proof fn law_table_changes_only_by_definition(m: EvalView, t: TableView, e: EventView)
    requires
        !(m.focus matches FocusView::Eval(CommandView::Function(_, _))),
    ensures
        shell_step(m, t, e).1 == t,
{
}

/// `a && b`: when `a` fails, its status is the outcome and `b` is dropped.
pub proof fn law_and_skips_after_failure(stack: Seq<FrameView>, b: CommandView, s: i32, t: TableView, e: EventView)
    requires
        s != 0,
    ensures
        shell_step(
            EvalView { stack: stack.push(FrameView::AndThen(b)), focus: FocusView::Return(OutcomeView::Status(s)) },
            t,
            e,
        ) == (EvalView { stack, focus: FocusView::Return(OutcomeView::Status(s)) }, t, ActionView::Next),
{
    assert(stack.push(FrameView::AndThen(b)).drop_last() =~= stack);
    assert(stack + Seq::<FrameView>::empty() =~= stack);
}

/// `a || b`: when `a` succeeds, the outcome is status 0 and `b` is dropped.
pub proof fn law_or_skips_after_success(stack: Seq<FrameView>, b: CommandView, t: TableView, e: EventView)
    ensures
        shell_step(
            EvalView { stack: stack.push(FrameView::OrElse(b)), focus: FocusView::Return(OutcomeView::Status(0)) },
            t,
            e,
        ) == (EvalView { stack, focus: FocusView::Return(OutcomeView::Status(0)) }, t, ActionView::Next),
{
    assert(stack.push(FrameView::OrElse(b)).drop_last() =~= stack);
    assert(stack + Seq::<FrameView>::empty() =~= stack);
}

/// `break` in a loop's body ends the loop with status 0.
pub proof fn law_break_ends_loop(stack: Seq<FrameView>, cond: CommandView, body: CommandView, until: bool, t: TableView, e: EventView)
    ensures
        shell_step(
            EvalView { stack: stack.push(FrameView::LoopBody(cond, body, until)), focus: FocusView::Return(OutcomeView::Break) },
            t,
            e,
        ) == (EvalView { stack, focus: FocusView::Return(OutcomeView::Status(0)) }, t, ActionView::Next),
{
    assert(stack.push(FrameView::LoopBody(cond, body, until)).drop_last() =~= stack);
    assert(stack + Seq::<FrameView>::empty() =~= stack);
}

/// `break`, `continue` and errors pass unchanged through every frame but a
/// loop's body and a subshell's end (which restores the variables first).
pub proof fn law_control_passes_other_frames(stack: Seq<FrameView>, f: FrameView, r: OutcomeView, t: TableView, e: EventView)
    requires
        !(r is Status),
        !(f is LoopBody),
        !(f is ForValues),
        !(f is LeaveSubshell),
    ensures
        shell_step(EvalView { stack: stack.push(f), focus: FocusView::Return(r) }, t, e) == (
            EvalView { stack, focus: FocusView::Return(r) },
            t,
            ActionView::Next,
        ),
{
    assert(stack.push(f).drop_last() =~= stack);
    assert(stack + Seq::<FrameView>::empty() =~= stack);
}

/// An error ends every loop and reaches the bottom unchanged.
pub proof fn law_errors_are_not_caught(stack: Seq<FrameView>, f: FrameView, m: Seq<char>, t: TableView, e: EventView)
    requires
        !(f is LeaveSubshell),
    ensures
        shell_step(EvalView { stack: stack.push(f), focus: FocusView::Return(OutcomeView::Failed(m)) }, t, e) == (
            EvalView { stack, focus: FocusView::Return(OutcomeView::Failed(m)) },
            t,
            ActionView::Next,
        ),
{
    assert(stack.push(f).drop_last() =~= stack);
    assert(stack + Seq::<FrameView>::empty() =~= stack);
}

/// `! a` inverts the status of `a`: 0 becomes 1 and any other status 0.
pub proof fn law_not_inverts(stack: Seq<FrameView>, s: i32, t: TableView, e: EventView)
    ensures
        shell_step(EvalView { stack: stack.push(FrameView::Negate), focus: FocusView::Return(OutcomeView::Status(s)) }, t, e)
            == (
            EvalView { stack, focus: FocusView::Return(OutcomeView::Status(if s == 0 { 1 } else { 0 })) },
            t,
            ActionView::Next,
        ),
{
    assert(stack.push(FrameView::Negate).drop_last() =~= stack);
    assert(stack + Seq::<FrameView>::empty() =~= stack);
}

/// The evaluation of one command of the shell language.
pub struct ShellEval {
    stack: Vec<Frame>,
    focus: Focus,
}

impl View for ShellEval {
    type V = EvalView;

    closed spec fn view(&self) -> EvalView {
        EvalView { stack: frame_views(self.stack@), focus: focus_view(self.focus) }
    }
}

fn opt_unbox(o: Option<Box<ShellCommand>>) -> (r: Option<ShellCommand>)
    ensures
        opt_command_view(r) == match o {
            Some(b) => Some(command_view(*b)),
            None => None,
        },
{
    match o {
        Some(b) => Some(*b),
        None => None,
    }
}

fn has_char(s: &str, c: char) -> (r: bool)
    ensures
        r == s@.contains(c),
{
    let n = s.unicode_len();
    let mut i: usize = 0;
    while i < n
        invariant
            i <= n,
            n == s@.len(),
            forall|k: int| 0 <= k < i ==> s@[k] != c,
        decreases n - i,
    {
        if s.get_char(i) == c {
            return true;
        }
        i += 1;
    }
    false
}

fn pattern_matches(p: &str, w: &str) -> (r: bool)
    ensures
        r == case_pattern_matches(p@, w@),
{
    if has_char(p, '*') || has_char(p, '?') || has_char(p, '[') {
        glob_hits(p, w)
    } else {
        str_eq(p, w)
    }
}

fn chosen_arm(arms: CaseArms, w: &str) -> (r: Option<ShellCommand>)
    ensures
        opt_command_view(r) == pick_arm(arms_view(arms), w@),
    decreases arms,
{
    let ghost av = arms_view(arms);
    match arms {
        CaseArms::End => None,
        CaseArms::Arm { patterns, body, rest } => {
            let ghost ps = views(patterns@);
            assert(av == ArmsView::Arm(ps, Box::new(command_view(*body)), Box::new(arms_view(*rest))));
            let mut i: usize = 0;
            let mut hit = false;
            assert(ps.take(0) =~= Seq::<Seq<char>>::empty());
            while i < patterns.len()
                invariant
                    i <= patterns.len(),
                    ps == views(patterns@),
                    hit == any_pattern_matches(ps.take(i as int), w@),
                decreases patterns.len() - i,
            {
                assert(ps[i as int] == patterns@[i as int]@);
                assert(ps.take(i + 1).drop_last() =~= ps.take(i as int));
                if pattern_matches(patterns[i].as_str(), w) {
                    hit = true;
                }
                i += 1;
            }
            assert(ps.take(i as int) =~= ps);
            assert(ps.len() == patterns.len());
            if hit {
                Some(*body)
            } else {
                chosen_arm(*rest, w)
            }
        },
    }
}

impl ShellEval {
    /// The evaluation of `command`, before its first step.
    pub fn start(command: ShellCommand) -> (r: Self)
        ensures
            r@ == (EvalView { stack: Seq::empty(), focus: FocusView::Eval(command_view(command)) }),
    {
        let r = ShellEval { stack: Vec::new(), focus: Focus::Eval(command) };
        assert(r@.stack =~= Seq::<FrameView>::empty());
        r
    }

    fn push_frames(&mut self, frames: Vec<Frame>)
        ensures
            final(self)@.stack == old(self)@.stack + frame_views(frames@),
            final(self)@.focus == old(self)@.focus,
    {
        let ghost before = frame_views(self.stack@);
        let mut frames = frames;
        let ghost added = frame_views(frames@);
        self.stack.append(&mut frames);
        assert(frame_views(self.stack@) =~= before + added);
    }

    fn eval_command(&mut self, c: ShellCommand, table: &mut FunctionTable) -> (r: ShellAction)
        requires
            old(self)@.focus is Await,
        ensures
            ({
                let (push, focus, t2, act) = eval_transition(command_view(c), old(table)@);
                &&& final(self)@.stack == old(self)@.stack + push
                &&& final(self)@.focus == focus
                &&& final(table)@ == t2
                &&& action_view(r) == act
            }),
    {
        let ghost cv = command_view(c);
        match c {
            ShellCommand::Simple { assigns, redirects, args } => {
                self.focus = Focus::Await;
                assert(self@.stack =~= old(self)@.stack + seq![]);
                ShellAction::Simple { assigns, redirects, args }
            },
            ShellCommand::Pipeline(a, b) => {
                let mut stages = pipeline_stages(ShellCommand::Pipeline(a, b));
                let k = first_compound_stage(&stages);
                let ghost st = command_views(stages@);
                if k == stages.len() {
                    self.focus = Focus::Await;
                    assert(self@.stack =~= old(self)@.stack + seq![]);
                    ShellAction::Pipeline(stages)
                } else if k == 0 {
                    let first = stages.remove(0);
                    self.focus = Focus::Eval(first);
                    assert(self@.stack =~= old(self)@.stack + seq![]);
                    ShellAction::Next
                } else {
                    let stage = stages.remove(k);
                    stages.truncate(k);
                    proof {
                        assert(command_views(stages@) =~= st.take(k as int));
                    }
                    self.push_frames(vec![Frame::Run(stage)]);
                    self.focus = Focus::Await;
                    ShellAction::Spawn(stages)
                }
            },
            ShellCommand::And(a, b) => {
                self.push_frames(vec![Frame::AndThen(*b)]);
                self.focus = Focus::Eval(*a);
                ShellAction::Next
            },
            ShellCommand::Or(a, b) => {
                self.push_frames(vec![Frame::OrElse(*b)]);
                self.focus = Focus::Eval(*a);
                ShellAction::Next
            },
            ShellCommand::Not(a) => {
                self.push_frames(vec![Frame::Negate]);
                self.focus = Focus::Eval(*a);
                ShellAction::Next
            },
            ShellCommand::Sequence(a, b) => {
                self.push_frames(vec![Frame::Then(opt_unbox(b))]);
                self.focus = Focus::Eval(*a);
                ShellAction::Next
            },
            ShellCommand::Background(a, b) => {
                let stages = pipeline_stages(a.duplicate());
                let k = first_compound_stage(&stages);
                self.push_frames(vec![Frame::Then(opt_unbox(b))]);
                if k == stages.len() {
                    self.focus = Focus::Await;
                    ShellAction::Background(stages)
                } else {
                    self.focus = Focus::Eval(*a);
                    ShellAction::Next
                }
            },
            ShellCommand::Subshell(a) => {
                self.push_frames(vec![Frame::LeaveSubshell, Frame::Run(*a)]);
                self.focus = Focus::Await;
                ShellAction::EnterSubshell
            },
            ShellCommand::If { cond, then_part, else_part } => {
                self.push_frames(vec![Frame::IfThen { then_part: *then_part, else_part: opt_unbox(else_part) }]);
                self.focus = Focus::Eval(*cond);
                ShellAction::Next
            },
            ShellCommand::While { cond, body } => {
                let c2 = cond.duplicate();
                self.push_frames(vec![Frame::LoopCond { cond: *cond, body: *body, until: false }]);
                self.focus = Focus::Eval(c2);
                ShellAction::Next
            },
            ShellCommand::Until { cond, body } => {
                let c2 = cond.duplicate();
                self.push_frames(vec![Frame::LoopCond { cond: *cond, body: *body, until: true }]);
                self.focus = Focus::Eval(c2);
                ShellAction::Next
            },
            ShellCommand::For { name, words, body } => {
                self.push_frames(vec![Frame::ForWords { name, body: *body }]);
                self.focus = Focus::Await;
                ShellAction::ExpandWords(words)
            },
            ShellCommand::Case { word, arms } => {
                self.push_frames(vec![Frame::CaseWord(*arms)]);
                self.focus = Focus::Await;
                ShellAction::ExpandWord(word)
            },
            ShellCommand::Function { name, body } => {
                table.define(name, *body);
                self.focus = Focus::Return(Outcome::Status(0));
                assert(self@.stack =~= old(self)@.stack + seq![]);
                ShellAction::Next
            },
            ShellCommand::Nothing => {
                self.focus = Focus::Return(Outcome::Status(0));
                assert(self@.stack =~= old(self)@.stack + seq![]);
                ShellAction::Next
            },
        }
    }

    fn take_outcome(&mut self, f: Frame, r: Outcome) -> (a: ShellAction)
        requires
            old(self)@.focus is Await,
        ensures
            ({
                let (push, focus, act) = return_transition(frame_view(f), outcome_view(r));
                &&& final(self)@.stack == old(self)@.stack + push
                &&& final(self)@.focus == focus
                &&& action_view(a) == act
            }),
    {
        let ghost rv = outcome_view(r);
        match f {
            Frame::AndThen(b) => match r {
                Outcome::Status(s) => {
                    if s == 0 {
                        self.focus = Focus::Eval(b);
                    } else {
                        self.focus = Focus::Return(Outcome::Status(s));
                    }
                    assert(self@.stack =~= old(self)@.stack + seq![]);
                    ShellAction::Next
                },
                other => self.pass(other),
            },
            Frame::OrElse(b) => match r {
                Outcome::Status(s) => {
                    if s != 0 {
                        self.focus = Focus::Eval(b);
                    } else {
                        self.focus = Focus::Return(Outcome::Status(0));
                    }
                    assert(self@.stack =~= old(self)@.stack + seq![]);
                    ShellAction::Next
                },
                other => self.pass(other),
            },
            Frame::Negate => match r {
                Outcome::Status(s) => {
                    self.focus = Focus::Return(Outcome::Status(if s == 0 { 1 } else { 0 }));
                    assert(self@.stack =~= old(self)@.stack + seq![]);
                    ShellAction::Next
                },
                other => self.pass(other),
            },
            Frame::Then(b) => match r {
                Outcome::Status(_) => {
                    match b {
                        Some(b) => {
                            self.focus = Focus::Eval(b);
                        },
                        None => {
                            self.focus = Focus::Return(Outcome::Status(0));
                        },
                    }
                    assert(self@.stack =~= old(self)@.stack + seq![]);
                    ShellAction::Next
                },
                other => self.pass(other),
            },
            Frame::Run(c) => match r {
                Outcome::Status(_) => {
                    self.focus = Focus::Eval(c);
                    assert(self@.stack =~= old(self)@.stack + seq![]);
                    ShellAction::Next
                },
                other => self.pass(other),
            },
            Frame::LeaveSubshell => {
                self.focus = Focus::Return(r);
                assert(self@.stack =~= old(self)@.stack + seq![]);
                ShellAction::LeaveSubshell
            },
            Frame::IfThen { then_part, else_part } => match r {
                Outcome::Status(s) => {
                    if s == 0 {
                        self.focus = Focus::Eval(then_part);
                    } else {
                        match else_part {
                            Some(e) => {
                                self.focus = Focus::Eval(e);
                            },
                            None => {
                                self.focus = Focus::Return(Outcome::Status(0));
                            },
                        }
                    }
                    assert(self@.stack =~= old(self)@.stack + seq![]);
                    ShellAction::Next
                },
                other => self.pass(other),
            },
            Frame::LoopCond { cond, body, until } => match r {
                Outcome::Status(s) => {
                    let stop = if until { s == 0 } else { s != 0 };
                    if stop {
                        self.focus = Focus::Return(Outcome::Status(0));
                        assert(self@.stack =~= old(self)@.stack + seq![]);
                    } else {
                        let b2 = body.duplicate();
                        self.push_frames(vec![Frame::LoopBody { cond, body, until }]);
                        self.focus = Focus::Eval(b2);
                    }
                    ShellAction::Next
                },
                other => self.pass(other),
            },
            Frame::LoopBody { cond, body, until } => match r {
                Outcome::Break => {
                    self.focus = Focus::Return(Outcome::Status(0));
                    assert(self@.stack =~= old(self)@.stack + seq![]);
                    ShellAction::Next
                },
                Outcome::Failed(m) => self.pass(Outcome::Failed(m)),
                _ => {
                    let c2 = cond.duplicate();
                    self.push_frames(vec![Frame::LoopCond { cond, body, until }]);
                    self.focus = Focus::Eval(c2);
                    ShellAction::Next
                },
            },
            Frame::ForValues { name, values, next, body } => match r {
                Outcome::Break => {
                    self.focus = Focus::Return(Outcome::Status(0));
                    assert(self@.stack =~= old(self)@.stack + seq![]);
                    ShellAction::Next
                },
                Outcome::Failed(m) => self.pass(Outcome::Failed(m)),
                _ => {
                    if next < values.len() {
                        let value = values[next].clone();
                        let n2 = name.clone();
                        let b2 = body.duplicate();
                        self.push_frames(vec![Frame::ForValues { name, values, next: next + 1, body }, Frame::Run(b2)]);
                        self.focus = Focus::Await;
                        ShellAction::SetVar { name: n2, value }
                    } else {
                        self.focus = Focus::Return(Outcome::Status(0));
                        assert(self@.stack =~= old(self)@.stack + seq![]);
                        ShellAction::Next
                    }
                },
            },
            Frame::ForWords { .. } => self.pass(r),
            Frame::CaseWord(_) => self.pass(r),
        }
    }

    fn pass(&mut self, r: Outcome) -> (a: ShellAction)
        ensures
            final(self)@.stack == old(self)@.stack + Seq::<FrameView>::empty(),
            final(self)@.focus == FocusView::Return(outcome_view(r)),
            action_view(a) == ActionView::Next,
    {
        self.focus = Focus::Return(r);
        assert(self@.stack =~= old(self)@.stack + Seq::<FrameView>::empty());
        ShellAction::Next
    }

    /// One transition on the caller's reply `event`, which only counts while
    /// the evaluator waits; returns what the caller is to do next.
    pub fn step(&mut self, table: &mut FunctionTable, event: ShellEvent) -> (a: ShellAction)
        ensures
            ({
                let (m2, t2, act) = shell_step(old(self)@, old(table)@, event_view(event));
                &&& final(self)@ == m2
                &&& final(table)@ == t2
                &&& action_view(a) == act
            }),
    {
        let mut focus = Focus::Await;
        std::mem::swap(&mut focus, &mut self.focus);
        match focus {
            Focus::Eval(c) => self.eval_command(c, table),
            Focus::Return(r) => {
                if self.stack.len() == 0 {
                    let r2 = copy_outcome(&r);
                    self.focus = Focus::Return(r);
                    ShellAction::Done(r2)
                } else {
                    let f = self.stack.pop().unwrap();
                    proof {
                        assert(frame_views(self.stack@) =~= frame_views(old(self).stack@).drop_last());
                    }
                    self.take_outcome(f, r)
                }
            },
            Focus::Await => {
                match event {
                    ShellEvent::Ack => self.pass(Outcome::Status(0)),
                    ShellEvent::Status(s) => self.pass(Outcome::Status(s)),
                    ShellEvent::Break => self.pass(Outcome::Break),
                    ShellEvent::Continue => self.pass(Outcome::Continue),
                    ShellEvent::Failed(m) => self.pass(Outcome::Failed(m)),
                    ShellEvent::Call(name) => match table.get(name.as_str()) {
                        Some(b) => {
                            self.focus = Focus::Eval(b.duplicate());
                            assert(self@.stack =~= old(self)@.stack + Seq::<FrameView>::empty());
                            ShellAction::Next
                        },
                        None => self.pass(Outcome::Failed(concat2("no such function: ", name.as_str()))),
                    },
                    ShellEvent::Words(ws) => self.take_words(ws),
                }
            },
        }
    }

    fn take_words(&mut self, ws: Vec<String>) -> (a: ShellAction)
        requires
            old(self)@.focus is Await,
        ensures
            ({
                let top = if old(self)@.stack.len() > 0 { Some(old(self)@.stack.last()) } else { None };
                let (pop, push, focus, act) = await_transition(top, EventView::Words(views(ws@)), Seq::empty());
                let base = if pop { old(self)@.stack.drop_last() } else { old(self)@.stack };
                &&& final(self)@.stack == base + push
                &&& final(self)@.focus == focus
                &&& action_view(a) == act
            }),
    {
        let n = self.stack.len();
        if n == 0 {
            return self.pass(Outcome::Failed(String::from_str("unexpected words")));
        }
        let top = self.stack.pop().unwrap();
        proof {
            assert(frame_views(self.stack@) =~= frame_views(old(self).stack@).drop_last());
            assert(frame_view(top) == frame_views(old(self).stack@).last());
        }
        let ghost topv = frame_view(top);
        let ghost wv = views(ws@);
        match top {
            Frame::ForWords { name, body } => {
                self.push_frames(vec![Frame::ForValues { name, values: ws, next: 0, body }]);
                self.focus = Focus::Return(Outcome::Status(0));
                ShellAction::Next
            },
            Frame::CaseWord(arms) => {
                proof {
                    reveal_strlit("");
                    assert(topv == FrameView::CaseWord(arms_view(arms)));
                    if ws.len() > 0 {
                        assert(wv[0] == ws@[0]@);
                    }
                    assert(""@ =~= Seq::<char>::empty());
                }
                let chosen = if ws.len() > 0 { chosen_arm(arms, ws[0].as_str()) } else { chosen_arm(arms, "") };
                match chosen {
                    Some(b) => {
                        self.focus = Focus::Eval(b);
                    },
                    None => {
                        self.focus = Focus::Return(Outcome::Status(0));
                    },
                }
                assert(self@.stack =~= frame_views(old(self).stack@).drop_last() + Seq::<FrameView>::empty());
                ShellAction::Next
            },
            other => {
                self.stack.push(other);
                proof {
                    assert(frame_views(self.stack@) =~= frame_views(old(self).stack@));
                }
                self.pass(Outcome::Failed(String::from_str("unexpected words")))
            },
        }
    }
}


/// How a line typed at the prompt ends: what to print on standard error,
/// its status, and whether it goes into the history.
#[derive(Debug)]
pub struct LineReport {
    pub stderr: Option<String>,
    pub status: i32,
    pub record: bool,
}

/// How a line ends, by the outcome of its command: a status is the line's
/// and is recorded; a stray `break` or `continue` ends it with 0; an error
/// of a simple command reports the command as not found (127), any other
/// error is reported as such (1).
pub open spec fn line_report_spec(c: CommandView, o: OutcomeView) -> (Option<Seq<char>>, i32, bool) {
    match o {
        OutcomeView::Status(s) => (None, s, true),
        OutcomeView::Break | OutcomeView::Continue => (None, 0, false),
        OutcomeView::Failed(m) => match c {
            CommandView::Simple(_, _, args) => if args.len() > 0 {
                (Some("omnishell: command not found: "@ + args[0]), 127, false)
            } else {
                (Some("eval error: "@ + m), 1, false)
            },
            _ => (Some("eval error: "@ + m), 1, false),
        },
    }
}

/// How a line ends, by the outcome of its command.
pub fn line_report(c: &ShellCommand, o: &Outcome) -> (r: LineReport)
    ensures
        (match r.stderr {
            Some(e) => Some(e@),
            None => None,
        }, r.status, r.record) == line_report_spec(command_view(*c), outcome_view(*o)),
{
    match o {
        Outcome::Status(s) => LineReport { stderr: None, status: *s, record: true },
        Outcome::Break | Outcome::Continue => LineReport { stderr: None, status: 0, record: false },
        Outcome::Failed(m) => {
            match c {
                ShellCommand::Simple { args, .. } => {
                    if args.len() > 0 {
                        return LineReport {
                            stderr: Some(concat2("omnishell: command not found: ", args[0].as_str())),
                            status: 127,
                            record: false,
                        };
                    }
                },
                _ => {},
            }
            LineReport { stderr: Some(concat2("eval error: ", m.as_str())), status: 1, record: false }
        },
    }
}

fn copy_outcome(o: &Outcome) -> (r: Outcome)
    ensures
        outcome_view(r) == outcome_view(*o),
{
    match o {
        Outcome::Status(s) => Outcome::Status(*s),
        Outcome::Break => Outcome::Break,
        Outcome::Continue => Outcome::Continue,
        Outcome::Failed(m) => Outcome::Failed(m.clone()),
    }
}

} // verus!
