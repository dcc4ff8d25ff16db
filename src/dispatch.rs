//! Turning one command line into the action to perform.
//!
//! The dispatcher decides; the caller performs. Where an action needs the
//! file system or the operating system (the working directory, the search
//! for an executable, starting a process), the caller does that work and
//! hands the outcome to one of the functions below, which decides what is
//! reported.
use vstd::prelude::*;
use vstd::string::*;
use crate::builtins::{builtin_named, register_builtins, Builtin, Builtins};
use crate::number::{i32_of, parse_i32};
use crate::words::{join_from, joined, parse_command, views, words_of};

verus! {

/// What one command line asks for.
#[derive(Debug)]
pub enum Action {
    /// Nothing to do: the line was blank.
    Nothing,
    /// Write this text to standard output; it ends in a newline.
    Print(String),
    /// End the interpreter with this exit status.
    Terminate(i32),
    /// Print the current working directory.
    PrintWorkingDir,
    /// Change the working directory to this path.
    ChangeDir(String),
    /// Report what this name resolves to along the search path.
    Describe(String),
    /// Resolve the first word along the search path and run it with the
    /// rest as its arguments.
    Launch(Vec<String>),
}

/// The mathematical value of an [`Action`].
pub enum ActionView {
    Nothing,
    Print(Seq<char>),
    Terminate(i32),
    PrintWorkingDir,
    ChangeDir(Seq<char>),
    Describe(Seq<char>),
    Launch(Seq<Seq<char>>),
}

impl View for Action {
    type V = ActionView;

    open spec fn view(&self) -> ActionView {
        match self {
            Action::Nothing => ActionView::Nothing,
            Action::Print(t) => ActionView::Print(t@),
            Action::Terminate(c) => ActionView::Terminate(*c),
            Action::PrintWorkingDir => ActionView::PrintWorkingDir,
            Action::ChangeDir(p) => ActionView::ChangeDir(p@),
            Action::Describe(n) => ActionView::Describe(n@),
            Action::Launch(ws) => ActionView::Launch(views(ws@)),
        }
    }
}

/// The status that `exit` ends with: 0 without an argument, the argument's
/// value where it is an `i32`, and 1 otherwise.
pub open spec fn exit_status(words: Seq<Seq<char>>) -> i32 {
    if words.len() > 1 {
        match i32_of(words[1]) {
            Some(v) => v,
            None => 1,
        }
    } else {
        0
    }
}

/// What `echo` writes: its arguments joined by single spaces, then a newline.
pub open spec fn echo_text(words: Seq<Seq<char>>) -> Seq<char> {
    joined(words.skip(1)) + seq!['\n']
}

/// The action for a command line split into `words`.
pub open spec fn action_for(words: Seq<Seq<char>>) -> ActionView {
    if words.len() == 0 {
        ActionView::Nothing
    } else {
        match builtin_named(words[0]) {
            Some(Builtin::Echo) => ActionView::Print(echo_text(words)),
            Some(Builtin::Exit) => ActionView::Terminate(exit_status(words)),
            Some(Builtin::Type) => if words.len() < 2 {
                ActionView::Print("type: missing operand\n"@)
            } else if builtin_named(words[1]) is Some {
                ActionView::Print(words[1] + " is a shell builtin\n"@)
            } else {
                ActionView::Describe(words[1])
            },
            Some(Builtin::Pwd) => ActionView::PrintWorkingDir,
            Some(Builtin::Cd) => if words.len() < 2 {
                ActionView::Print("cd: missing operand\n"@)
            } else {
                ActionView::ChangeDir(words[1])
            },
            None => ActionView::Launch(words),
        }
    }
}

/// The action for the next input: `None` is the end of input, which ends
/// the interpreter with status 0.
pub open spec fn step_for(input: Option<Seq<char>>) -> ActionView {
    match input {
        None => ActionView::Terminate(0),
        Some(line) => action_for(words_of(line)),
    }
}

impl Action {
    /// Whether this action ends the interpreter.
    pub fn ends_session(&self) -> (r: bool)
        ensures
            r == (self@ is Terminate),
    {
        match self {
            Action::Terminate(_) => true,
            _ => false,
        }
    }
}

/// The status that `exit` ends with, for the command line `parts`.
pub fn exit_code(parts: &Vec<String>) -> (r: i32)
    ensures
        r == exit_status(views(parts@)),
{
    if parts.len() > 1 {
        match parse_i32(parts[1].as_str()) {
            Some(v) => v,
            None => 1,
        }
    } else {
        0
    }
}

/// Decides what the command line `parts` asks for: a builtin named by the
/// first word is carried out here or handed back as an action; any other
/// first word is to be resolved and launched.
pub fn execute_command(builtins: &Builtins, parts: &Vec<String>) -> (r: Action)
    requires
        builtins.wf(),
    ensures
        r@ == action_for(views(parts@)),
{
    if parts.len() == 0 {
        return Action::Nothing;
    }
    match builtins.lookup(&parts[0]) {
        Some(Builtin::Echo) => {
            let mut text = join_from(parts, 1);
            proof {
                reveal_strlit("\n");
                assert("\n"@ =~= seq!['\n']);
            }
            text.append("\n");
            Action::Print(text)
        },
        Some(Builtin::Exit) => Action::Terminate(exit_code(parts)),
        Some(Builtin::Type) => {
            if parts.len() < 2 {
                Action::Print(String::from_str("type: missing operand\n"))
            } else if builtins.lookup(&parts[1]).is_some() {
                let mut text = parts[1].clone();
                text.append(" is a shell builtin\n");
                Action::Print(text)
            } else {
                Action::Describe(parts[1].clone())
            }
        },
        Some(Builtin::Pwd) => Action::PrintWorkingDir,
        Some(Builtin::Cd) => {
            if parts.len() < 2 {
                Action::Print(String::from_str("cd: missing operand\n"))
            } else {
                Action::ChangeDir(parts[1].clone())
            }
        },
        None => {
            let mut all: Vec<String> = Vec::new();
            let mut i: usize = 0;
            while i < parts.len()
                invariant
                    i <= parts@.len(),
                    views(all@) == views(parts@).take(i as int),
                decreases parts@.len() - i,
            {
                let ghost before = all@;
                all.push(parts[i].clone());
                assert(views(all@) =~= views(parts@).take(i as int + 1)) by {
                    assert(views(all@) =~= views(before).push(parts@[i as int]@));
                };
                i = i + 1;
            }
            assert(views(parts@).take(parts@.len() as int) =~= views(parts@));
            Action::Launch(all)
        },
    }
}

/// Decides what to do with the next input line, or with the end of input
/// (`None`).
pub fn run_shell(input: Option<&str>) -> (r: Action)
    ensures
        r@ == step_for(
            match input {
                Some(l) => Some(l@),
                None => None,
            },
        ),
{
    match input {
        None => Action::Terminate(0),
        Some(line) => {
            let builtins = register_builtins();
            let parts = parse_command(line);
            execute_command(&builtins, &parts)
        },
    }
}

} // verus!
