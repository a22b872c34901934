//! Redirections of a command (`<`, `>`, `>>`, `<>`, `<&`, `>&`): what each
//! one opens or duplicates and which standard stream it replaces. They are
//! carried out in order; a later one replaces what an earlier one set, and
//! the first file that cannot be opened stops the command.

use vstd::prelude::*;
use crate::numbers::{parse_i32, parse_i32_spec};

verus! {

broadcast use vstd::string::group_string_axioms;

/// How a redirection uses its word.
#[derive(Debug, Clone, Copy, PartialEq, Eq, Structural)]
pub enum RedirectMode {
    /// `< file`
    Read,
    /// `> file`
    Write,
    /// `<< file` as the parser reads it: opened for reading and appending.
    ReadAppend,
    /// `>> file`
    WriteAppend,
    /// `<& n`
    ReadDup,
    /// `>& n`
    WriteDup,
    /// `<> file`
    ReadWrite,
}

/// One redirection: the descriptor it names (if any), how, and its word
/// after expansion.
#[derive(Debug, Clone)]
pub struct Redirect {
    pub n: Option<usize>,
    pub file: String,
    pub mode: RedirectMode,
}

/// How a file is opened.
#[derive(Debug, Clone, Copy, PartialEq, Eq, Structural)]
pub enum OpenHow {
    /// Read only; the file must exist.
    Read,
    /// Created or truncated, for writing.
    Create,
    /// Created if missing, for appending.
    Append,
    /// Read and append; the file must exist.
    ReadAppend,
    /// Read and write, created or truncated.
    ReadWrite,
}

/// A standard stream, or none.
#[derive(Debug, Clone, Copy, PartialEq, Eq, Structural)]
pub enum Slot {
    Stdin,
    Stdout,
    Stderr,
    Nowhere,
}

/// What one redirection does.
#[derive(Debug, Clone)]
pub enum RedirectAction {
    /// Open the file as said (failing stops the command) and put it in the slot.
    Open { file: String, how: OpenHow, slot: Slot },
    /// Standard input from a duplicate of this descriptor.
    DupInput(i32),
    /// The slot writes to this descriptor.
    Descriptor { slot: Slot, fd: i32 },
    /// Nothing: the descriptor word is no number.
    Skip,
}

/// The value of a redirection.
pub struct RedirectView {
    pub n: Option<usize>,
    pub file: Seq<char>,
    pub mode: RedirectMode,
}

/// The value of an action.
pub enum ActionView {
    Open(Seq<char>, OpenHow, Slot),
    DupInput(i32),
    Descriptor(Slot, i32),
    Skip,
}

pub open spec fn redirect_view(r: Redirect) -> RedirectView {
    RedirectView { n: r.n, file: r.file@, mode: r.mode }
}

pub open spec fn action_view(a: RedirectAction) -> ActionView {
    match a {
        RedirectAction::Open { file, how, slot } => ActionView::Open(file@, how, slot),
        RedirectAction::DupInput(fd) => ActionView::DupInput(fd),
        RedirectAction::Descriptor { slot, fd } => ActionView::Descriptor(slot, fd),
        RedirectAction::Skip => ActionView::Skip,
    }
}

/// The descriptor a redirection acts on: the one it names, else 0 for the
/// reading modes and 1 for the others.
pub open spec fn target_fd(r: RedirectView) -> int {
    match r.n {
        Some(n) => n as int,
        None => match r.mode {
            RedirectMode::Read | RedirectMode::ReadAppend | RedirectMode::ReadDup => 0,
            _ => 1,
        },
    }
}

/// The output stream a descriptor names: 1 standard output, 2 standard error.
pub open spec fn out_slot(fd: int) -> Slot {
    if fd == 1 { Slot::Stdout } else if fd == 2 { Slot::Stderr } else { Slot::Nowhere }
}

/// What a redirection does: the reading modes feed standard input only
/// from descriptor 0; the writing modes feed standard output or error from
/// descriptor 1 or 2; `<>` feeds input from 0 and output from 1; `<&`
/// always duplicates into standard input; `>&` points output or error at
/// the named descriptor.
pub open spec fn redirect_action(r: RedirectView) -> ActionView {
    let fd = target_fd(r);
    match r.mode {
        RedirectMode::Read => ActionView::Open(r.file, OpenHow::Read, if fd == 0 { Slot::Stdin } else { Slot::Nowhere }),
        RedirectMode::Write => ActionView::Open(r.file, OpenHow::Create, out_slot(fd)),
        RedirectMode::WriteAppend => ActionView::Open(r.file, OpenHow::Append, out_slot(fd)),
        RedirectMode::ReadAppend => ActionView::Open(
            r.file,
            OpenHow::ReadAppend,
            if fd == 0 { Slot::Stdin } else { Slot::Nowhere },
        ),
        RedirectMode::ReadWrite => ActionView::Open(
            r.file,
            OpenHow::ReadWrite,
            if fd == 0 { Slot::Stdin } else if fd == 1 { Slot::Stdout } else { Slot::Nowhere },
        ),
        RedirectMode::ReadDup => match parse_i32_spec(r.file) {
            Some(v) => ActionView::DupInput(v as i32),
            None => ActionView::Skip,
        },
        RedirectMode::WriteDup => match parse_i32_spec(r.file) {
            Some(v) => if fd == 1 || fd == 2 { ActionView::Descriptor(out_slot(fd), v as i32) } else { ActionView::Skip },
            None => ActionView::Skip,
        },
    }
}

fn out_slot_of(fd: usize) -> (r: Slot)
    ensures
        r == out_slot(fd as int),
{
    if fd == 1 { Slot::Stdout } else if fd == 2 { Slot::Stderr } else { Slot::Nowhere }
}

/// What one redirection does.
pub fn action_of(r: &Redirect) -> (a: RedirectAction)
    ensures
        action_view(a) == redirect_action(redirect_view(*r)),
{
    let fd: usize = match r.n {
        Some(n) => n,
        None => match r.mode {
            RedirectMode::Read | RedirectMode::ReadAppend | RedirectMode::ReadDup => 0,
            _ => 1,
        },
    };
    match r.mode {
        RedirectMode::Read => RedirectAction::Open {
            file: r.file.clone(),
            how: OpenHow::Read,
            slot: if fd == 0 { Slot::Stdin } else { Slot::Nowhere },
        },
        RedirectMode::Write => RedirectAction::Open { file: r.file.clone(), how: OpenHow::Create, slot: out_slot_of(fd) },
        RedirectMode::WriteAppend => RedirectAction::Open { file: r.file.clone(), how: OpenHow::Append, slot: out_slot_of(fd) },
        RedirectMode::ReadAppend => RedirectAction::Open {
            file: r.file.clone(),
            how: OpenHow::ReadAppend,
            slot: if fd == 0 { Slot::Stdin } else { Slot::Nowhere },
        },
        RedirectMode::ReadWrite => RedirectAction::Open {
            file: r.file.clone(),
            how: OpenHow::ReadWrite,
            slot: if fd == 0 { Slot::Stdin } else if fd == 1 { Slot::Stdout } else { Slot::Nowhere },
        },
        RedirectMode::ReadDup => match parse_i32(r.file.as_str()) {
            Some(v) => RedirectAction::DupInput(v),
            None => RedirectAction::Skip,
        },
        RedirectMode::WriteDup => match parse_i32(r.file.as_str()) {
            Some(v) => {
                if fd == 1 || fd == 2 {
                    RedirectAction::Descriptor { slot: out_slot_of(fd), fd: v }
                } else {
                    RedirectAction::Skip
                }
            },
            None => RedirectAction::Skip,
        },
    }
}

/// What the redirections of a command do, in order.
pub fn redirect_plan(redirects: &Vec<Redirect>) -> (r: Vec<RedirectAction>)
    ensures
        r@.len() == redirects@.len(),
        forall|i: int| 0 <= i < r@.len() ==> action_view(#[trigger] r@[i]) == redirect_action(redirect_view(redirects@[i])),
{
    let mut r: Vec<RedirectAction> = Vec::new();
    let mut i: usize = 0;
    while i < redirects.len()
        invariant
            i <= redirects.len(),
            r@.len() == i,
            forall|k: int| 0 <= k < i ==> action_view(#[trigger] r@[k]) == redirect_action(redirect_view(redirects@[k])),
        decreases redirects.len() - i,
    {
        r.push(action_of(&redirects[i]));
        i += 1;
    }
    r
}

} // verus!
