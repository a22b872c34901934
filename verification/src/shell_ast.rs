//! The shell language's commands as the evaluator reads them, with their
//! mathematical values, copies, the stages of a pipeline and the table of
//! user-defined functions.

use vstd::prelude::*;
use crate::redirects::{redirect_view, Redirect, RedirectMode, RedirectView};
use crate::text::{str_eq, strings_of, views};

verus! {

broadcast use vstd::string::group_string_axioms;

/// `var=value` before a command.
#[derive(Debug)]
pub struct Assignment {
    pub var: String,
    pub val: String,
}

/// A command of the shell language.
#[derive(Debug)]
pub enum ShellCommand {
    /// Words, with assignments and redirections: `a=1 ls -l > out`.
    Simple { assigns: Vec<Assignment>, redirects: Vec<Redirect>, args: Vec<String> },
    /// `a | b`
    Pipeline(Box<ShellCommand>, Box<ShellCommand>),
    /// `a && b`
    And(Box<ShellCommand>, Box<ShellCommand>),
    /// `a || b`
    Or(Box<ShellCommand>, Box<ShellCommand>),
    /// `! a`
    Not(Box<ShellCommand>),
    /// `a ; b`, `b` optional.
    Sequence(Box<ShellCommand>, Option<Box<ShellCommand>>),
    /// `a & b`, `b` optional.
    Background(Box<ShellCommand>, Option<Box<ShellCommand>>),
    /// `( a )`
    Subshell(Box<ShellCommand>),
    /// `if cond; then a; else b; fi`; an `elif` is an `if` in the else part.
    If { cond: Box<ShellCommand>, then_part: Box<ShellCommand>, else_part: Option<Box<ShellCommand>> },
    /// `while cond; do body; done`
    While { cond: Box<ShellCommand>, body: Box<ShellCommand> },
    /// `until cond; do body; done`
    Until { cond: Box<ShellCommand>, body: Box<ShellCommand> },
    /// `for name in words; do body; done`
    For { name: String, words: Vec<String>, body: Box<ShellCommand> },
    /// `case word in arms esac`
    Case { word: String, arms: Box<CaseArms> },
    /// `name() { body }`
    Function { name: String, body: Box<ShellCommand> },
    /// The empty command.
    Nothing,
}

/// The arms of a `case`, in order.
#[derive(Debug)]
pub enum CaseArms {
    End,
    Arm { patterns: Vec<String>, body: Box<ShellCommand>, rest: Box<CaseArms> },
}

/// The value of a command.
pub enum CommandView {
    Simple(Seq<(Seq<char>, Seq<char>)>, Seq<RedirectView>, Seq<Seq<char>>),
    Pipeline(Box<CommandView>, Box<CommandView>),
    And(Box<CommandView>, Box<CommandView>),
    Or(Box<CommandView>, Box<CommandView>),
    Not(Box<CommandView>),
    Sequence(Box<CommandView>, Option<Box<CommandView>>),
    Background(Box<CommandView>, Option<Box<CommandView>>),
    Subshell(Box<CommandView>),
    If(Box<CommandView>, Box<CommandView>, Option<Box<CommandView>>),
    While(Box<CommandView>, Box<CommandView>),
    Until(Box<CommandView>, Box<CommandView>),
    For(Seq<char>, Seq<Seq<char>>, Box<CommandView>),
    Case(Seq<char>, Box<ArmsView>),
    Function(Seq<char>, Box<CommandView>),
    Nothing,
}

/// The value of the arms of a `case`.
pub enum ArmsView {
    End,
    Arm(Seq<Seq<char>>, Box<CommandView>, Box<ArmsView>),
}

pub open spec fn assign_views(a: Seq<Assignment>) -> Seq<(Seq<char>, Seq<char>)> {
    a.map_values(|x: Assignment| (x.var@, x.val@))
}

pub open spec fn redirect_views(r: Seq<Redirect>) -> Seq<RedirectView> {
    r.map_values(|x: Redirect| redirect_view(x))
}

pub open spec fn command_view(c: ShellCommand) -> CommandView
    decreases c,
{
    match c {
        ShellCommand::Simple { assigns, redirects, args } => CommandView::Simple(
            assign_views(assigns@),
            redirect_views(redirects@),
            views(args@),
        ),
        ShellCommand::Pipeline(a, b) => CommandView::Pipeline(Box::new(command_view(*a)), Box::new(command_view(*b))),
        ShellCommand::And(a, b) => CommandView::And(Box::new(command_view(*a)), Box::new(command_view(*b))),
        ShellCommand::Or(a, b) => CommandView::Or(Box::new(command_view(*a)), Box::new(command_view(*b))),
        ShellCommand::Not(a) => CommandView::Not(Box::new(command_view(*a))),
        ShellCommand::Sequence(a, b) => CommandView::Sequence(
            Box::new(command_view(*a)),
            match b {
                Some(b) => Some(Box::new(command_view(*b))),
                None => None,
            },
        ),
        ShellCommand::Background(a, b) => CommandView::Background(
            Box::new(command_view(*a)),
            match b {
                Some(b) => Some(Box::new(command_view(*b))),
                None => None,
            },
        ),
        ShellCommand::Subshell(a) => CommandView::Subshell(Box::new(command_view(*a))),
        ShellCommand::If { cond, then_part, else_part } => CommandView::If(
            Box::new(command_view(*cond)),
            Box::new(command_view(*then_part)),
            match else_part {
                Some(e) => Some(Box::new(command_view(*e))),
                None => None,
            },
        ),
        ShellCommand::While { cond, body } => CommandView::While(Box::new(command_view(*cond)), Box::new(command_view(*body))),
        ShellCommand::Until { cond, body } => CommandView::Until(Box::new(command_view(*cond)), Box::new(command_view(*body))),
        ShellCommand::For { name, words, body } => CommandView::For(name@, views(words@), Box::new(command_view(*body))),
        ShellCommand::Case { word, arms } => CommandView::Case(word@, Box::new(arms_view(*arms))),
        ShellCommand::Function { name, body } => CommandView::Function(name@, Box::new(command_view(*body))),
        ShellCommand::Nothing => CommandView::Nothing,
    }
}

pub open spec fn arms_view(a: CaseArms) -> ArmsView
    decreases a,
{
    match a {
        CaseArms::End => ArmsView::End,
        CaseArms::Arm { patterns, body, rest } => ArmsView::Arm(
            views(patterns@),
            Box::new(command_view(*body)),
            Box::new(arms_view(*rest)),
        ),
    }
}

pub open spec fn command_views(s: Seq<ShellCommand>) -> Seq<CommandView> {
    s.map_values(|c: ShellCommand| command_view(c))
}

/// The stages of a pipeline, left to right; any other command is one stage.
pub open spec fn stages_of(c: CommandView) -> Seq<CommandView>
    decreases c,
{
    match c {
        CommandView::Pipeline(a, b) => stages_of(*a) + stages_of(*b),
        _ => seq![c],
    }
}

/// Whether a command is a simple command.
pub open spec fn is_simple(c: CommandView) -> bool {
    c is Simple
}

/// The index of the first stage that is no simple command, or the number of
/// stages.
pub open spec fn first_compound(st: Seq<CommandView>) -> int
    decreases st.len(),
{
    if st.len() == 0 {
        0
    } else if !is_simple(st[0]) {
        0
    } else {
        1 + first_compound(st.drop_first())
    }
}

fn copy_assignments(a: &Vec<Assignment>) -> (r: Vec<Assignment>)
    ensures
        assign_views(r@) == assign_views(a@),
{
    let mut r: Vec<Assignment> = Vec::new();
    let mut i: usize = 0;
    while i < a.len()
        invariant
            i <= a.len(),
            assign_views(r@) == assign_views(a@).take(i as int),
        decreases a.len() - i,
    {
        let ghost before = assign_views(r@);
        r.push(Assignment { var: a[i].var.clone(), val: a[i].val.clone() });
        proof {
            assert(assign_views(r@) =~= before.push((a@[i as int].var@, a@[i as int].val@)));
            assert(assign_views(a@).take(i + 1) =~= assign_views(a@).take(i as int).push((a@[i as int].var@, a@[i as int].val@)));
        }
        i += 1;
    }
    assert(assign_views(a@).take(a.len() as int) =~= assign_views(a@));
    r
}

fn copy_redirects(a: &Vec<Redirect>) -> (r: Vec<Redirect>)
    ensures
        redirect_views(r@) == redirect_views(a@),
{
    let mut r: Vec<Redirect> = Vec::new();
    let mut i: usize = 0;
    while i < a.len()
        invariant
            i <= a.len(),
            redirect_views(r@) == redirect_views(a@).take(i as int),
        decreases a.len() - i,
    {
        let ghost before = redirect_views(r@);
        let x = &a[i];
        r.push(Redirect { n: x.n, file: x.file.clone(), mode: x.mode });
        proof {
            assert(redirect_views(r@) =~= before.push(redirect_view(a@[i as int])));
            assert(redirect_views(a@).take(i + 1) =~= redirect_views(a@).take(i as int).push(redirect_view(a@[i as int])));
        }
        i += 1;
    }
    assert(redirect_views(a@).take(a.len() as int) =~= redirect_views(a@));
    r
}

fn copy_optional(c: &Option<Box<ShellCommand>>) -> (r: Option<Box<ShellCommand>>)
    ensures
        match (r, *c) {
            (Some(x), Some(y)) => command_view(*x) == command_view(*y),
            (None, None) => true,
            _ => false,
        },
    decreases c,
{
    match c {
        Some(b) => Some(Box::new(b.duplicate())),
        None => None,
    }
}

impl ShellCommand {
    /// A copy of the command.
    pub fn duplicate(&self) -> (r: ShellCommand)
        ensures
            command_view(r) == command_view(*self),
        decreases self,
    {
        match self {
            ShellCommand::Simple { assigns, redirects, args } => ShellCommand::Simple {
                assigns: copy_assignments(assigns),
                redirects: copy_redirects(redirects),
                args: strings_of(args.as_slice()),
            },
            ShellCommand::Pipeline(a, b) => ShellCommand::Pipeline(Box::new(a.duplicate()), Box::new(b.duplicate())),
            ShellCommand::And(a, b) => ShellCommand::And(Box::new(a.duplicate()), Box::new(b.duplicate())),
            ShellCommand::Or(a, b) => ShellCommand::Or(Box::new(a.duplicate()), Box::new(b.duplicate())),
            ShellCommand::Not(a) => ShellCommand::Not(Box::new(a.duplicate())),
            ShellCommand::Sequence(a, b) => ShellCommand::Sequence(Box::new(a.duplicate()), copy_optional(b)),
            ShellCommand::Background(a, b) => ShellCommand::Background(Box::new(a.duplicate()), copy_optional(b)),
            ShellCommand::Subshell(a) => ShellCommand::Subshell(Box::new(a.duplicate())),
            ShellCommand::If { cond, then_part, else_part } => ShellCommand::If {
                cond: Box::new(cond.duplicate()),
                then_part: Box::new(then_part.duplicate()),
                else_part: copy_optional(else_part),
            },
            ShellCommand::While { cond, body } => ShellCommand::While {
                cond: Box::new(cond.duplicate()),
                body: Box::new(body.duplicate()),
            },
            ShellCommand::Until { cond, body } => ShellCommand::Until {
                cond: Box::new(cond.duplicate()),
                body: Box::new(body.duplicate()),
            },
            ShellCommand::For { name, words, body } => ShellCommand::For {
                name: name.clone(),
                words: strings_of(words.as_slice()),
                body: Box::new(body.duplicate()),
            },
            ShellCommand::Case { word, arms } => ShellCommand::Case { word: word.clone(), arms: Box::new(arms.duplicate()) },
            ShellCommand::Function { name, body } => ShellCommand::Function {
                name: name.clone(),
                body: Box::new(body.duplicate()),
            },
            ShellCommand::Nothing => ShellCommand::Nothing,
        }
    }

    /// Whether this is a simple command.
    pub fn is_simple_command(&self) -> (r: bool)
        ensures
            r == is_simple(command_view(*self)),
    {
        match self {
            ShellCommand::Simple { .. } => true,
            _ => false,
        }
    }
}

impl CaseArms {
    /// A copy of the arms.
    pub fn duplicate(&self) -> (r: CaseArms)
        ensures
            arms_view(r) == arms_view(*self),
        decreases self,
    {
        match self {
            CaseArms::End => CaseArms::End,
            CaseArms::Arm { patterns, body, rest } => CaseArms::Arm {
                patterns: strings_of(patterns.as_slice()),
                body: Box::new(body.duplicate()),
                rest: Box::new(rest.duplicate()),
            },
        }
    }
}

/// The stages of a pipeline, left to right.
pub fn pipeline_stages(c: ShellCommand) -> (r: Vec<ShellCommand>)
    ensures
        command_views(r@) == stages_of(command_view(c)),
    decreases c,
{
    match c {
        ShellCommand::Pipeline(a, b) => {
            let mut left = pipeline_stages(*a);
            let mut right = pipeline_stages(*b);
            let ghost l = command_views(left@);
            let ghost rr = command_views(right@);
            left.append(&mut right);
            proof {
                assert(command_views(left@) =~= l + rr);
            }
            left
        },
        other => {
            let ghost v = command_view(other);
            let r = vec![other];
            proof {
                assert(command_views(r@) =~= seq![v]);
            }
            r
        },
    }
}

/// The index of the first stage that is no simple command, or the number of
/// stages.
pub fn first_compound_stage(st: &Vec<ShellCommand>) -> (r: usize)
    ensures
        r as int == first_compound(command_views(st@)),
        r <= st.len(),
{
    let ghost s = command_views(st@);
    let mut i: usize = 0;
    assert(s.skip(0) =~= s);
    while i < st.len()
        invariant
            i <= st.len(),
            s == command_views(st@),
            first_compound(s) == i + first_compound(s.skip(i as int)),
        decreases st.len() - i,
    {
        proof {
            assert(s.skip(i as int).drop_first() =~= s.skip(i + 1));
            assert(s.skip(i as int)[0] == command_view(st@[i as int]));
        }
        if !st[i].is_simple_command() {
            return i;
        }
        i += 1;
    }
    proof {
        assert(s.skip(i as int).len() == 0);
    }
    i
}

/// The user-defined functions of a session, by name.
pub struct FunctionTable {
    functions: Vec<(String, ShellCommand)>,
}

impl View for FunctionTable {
    type V = Seq<(Seq<char>, CommandView)>;

    closed spec fn view(&self) -> Seq<(Seq<char>, CommandView)> {
        self.functions@.map_values(|e: (String, ShellCommand)| (e.0@, command_view(e.1)))
    }
}

/// The position of the first function named `name`.
pub open spec fn function_index(t: Seq<(Seq<char>, CommandView)>, name: Seq<char>) -> Option<int>
    decreases t.len(),
{
    if t.len() == 0 {
        None
    } else if t.last().0 == name && function_index(t.drop_last(), name) is None {
        Some(t.len() - 1)
    } else {
        function_index(t.drop_last(), name)
    }
}

/// The body of the function named `name`.
pub open spec fn function_body(t: Seq<(Seq<char>, CommandView)>, name: Seq<char>) -> Option<CommandView> {
    match function_index(t, name) {
        Some(i) => Some(t[i].1),
        None => None,
    }
}

/// The table after defining `name`: an existing definition is replaced in
/// place, a new one goes last.
pub open spec fn define_function(t: Seq<(Seq<char>, CommandView)>, name: Seq<char>, body: CommandView) -> Seq<(Seq<char>, CommandView)> {
    match function_index(t, name) {
        Some(i) => t.update(i, (name, body)),
        None => t.push((name, body)),
    }
}

/// The table without the definition of `name`.
pub open spec fn remove_function(t: Seq<(Seq<char>, CommandView)>, name: Seq<char>) -> Seq<(Seq<char>, CommandView)> {
    match function_index(t, name) {
        Some(i) => t.remove(i),
        None => t,
    }
}

proof fn lemma_none_before(t: Seq<(Seq<char>, CommandView)>, name: Seq<char>)
    requires
        forall|k: int| 0 <= k < t.len() ==> t[k].0 != name,
    ensures
        function_index(t, name) is None,
    decreases t.len(),
{
    if t.len() > 0 {
        lemma_none_before(t.drop_last(), name);
    }
}

proof fn lemma_found_at(t: Seq<(Seq<char>, CommandView)>, name: Seq<char>, i: int)
    requires
        0 <= i < t.len(),
        t[i].0 == name,
        forall|k: int| 0 <= k < i ==> t[k].0 != name,
    ensures
        function_index(t, name) == Some(i),
    decreases t.len(),
{
    if i == t.len() - 1 {
        lemma_none_before(t.drop_last(), name);
    } else {
        lemma_found_at(t.drop_last(), name, i);
    }
}

impl FunctionTable {
    /// An empty table.
    pub fn new() -> (r: Self)
        ensures
            r@ == Seq::<(Seq<char>, CommandView)>::empty(),
    {
        let r = FunctionTable { functions: Vec::new() };
        assert(r@ =~= Seq::<(Seq<char>, CommandView)>::empty());
        r
    }

    fn position(&self, name: &str) -> (r: Option<usize>)
        ensures
            match r {
                Some(i) => function_index(self@, name@) == Some(i as int) && i < self.functions.len(),
                None => function_index(self@, name@) is None,
            },
            self@.len() == self.functions.len(),
    {
        let mut i: usize = 0;
        while i < self.functions.len()
            invariant
                i <= self.functions.len(),
                forall|k: int| 0 <= k < i ==> self@[k].0 != name@,
            decreases self.functions.len() - i,
        {
            assert(self@[i as int].0 == self.functions@[i as int].0@);
            if str_eq(self.functions[i].0.as_str(), name) {
                proof {
                    lemma_found_at(self@, name@, i as int);
                }
                return Some(i);
            }
            i += 1;
        }
        proof {
            lemma_none_before(self@, name@);
        }
        None
    }

    /// Defines or replaces the function `name`.
    pub fn define(&mut self, name: String, body: ShellCommand)
        ensures
            final(self)@ == define_function(old(self)@, name@, command_view(body)),
    {
        let ghost before = self@;
        let ghost entry = (name@, command_view(body));
        match self.position(name.as_str()) {
            Some(i) => {
                self.functions.set(i, (name, body));
                proof {
                    assert(self@ =~= before.update(i as int, entry));
                }
            },
            None => {
                self.functions.push((name, body));
                proof {
                    assert(self@ =~= before.push(entry));
                }
            },
        }
    }

    /// The body of the function `name`.
    pub fn get(&self, name: &str) -> (r: Option<&ShellCommand>)
        ensures
            match r {
                Some(b) => function_body(self@, name@) == Some(command_view(*b)),
                None => function_body(self@, name@) is None,
            },
    {
        match self.position(name) {
            Some(i) => Some(&self.functions[i].1),
            None => None,
        }
    }

    /// Removes the function `name`, returning its body.
    pub fn remove(&mut self, name: &str) -> (r: Option<ShellCommand>)
        ensures
            final(self)@ == remove_function(old(self)@, name@),
            match r {
                Some(b) => function_body(old(self)@, name@) == Some(command_view(b)),
                None => function_body(old(self)@, name@) is None,
            },
    {
        let ghost before = self@;
        match self.position(name) {
            Some(i) => {
                let e = self.functions.remove(i);
                proof {
                    assert(self@ =~= before.remove(i as int));
                }
                Some(e.1)
            },
            None => None,
        }
    }

    /// The names of the functions, in the order they were first defined.
    pub fn names(&self) -> (r: Vec<&str>)
        ensures
            r@.len() == self@.len(),
            forall|i: int| 0 <= i < r@.len() ==> r@[i]@ == self@[i].0,
    {
        let mut r: Vec<&str> = Vec::new();
        let mut i: usize = 0;
        while i < self.functions.len()
            invariant
                i <= self.functions.len(),
                r@.len() == i,
                forall|k: int| 0 <= k < i ==> r@[k]@ == self@[k].0,
            decreases self.functions.len() - i,
        {
            r.push(self.functions[i].0.as_str());
            i += 1;
        }
        r
    }

    /// Whether a function `name` is defined.
    pub fn contains(&self, name: &str) -> (r: bool)
        ensures
            r == (function_body(self@, name@) is Some),
    {
        self.position(name).is_some()
    }
}

impl Default for FunctionTable {
    fn default() -> (r: Self)
        ensures
            r@ == Seq::<(Seq<char>, CommandView)>::empty(),
    {
        FunctionTable::new()
    }
}

} // verus!
