//! What is reported once the outside work for an action is done.
use vstd::prelude::*;
use vstd::string::*;
use crate::words::{opt_view, views};

verus! {

/// The report of `type name` for a name that is not a builtin, given what
/// it resolved to.
pub open spec fn describe_text(name: Seq<char>, found: Option<Seq<char>>) -> Seq<char> {
    match found {
        Some(p) => name + " is "@ + p + "\n"@,
        None => name + ": not found\n"@,
    }
}

/// The report of `type name` for a name that is not a builtin.
pub fn describe_result(name: &String, found: Option<String>) -> (r: String)
    ensures
        r@ == describe_text(name@, opt_view(found)),
{
    let mut text = name.clone();
    match found {
        Some(p) => {
            text.append(" is ");
            text.append(p.as_str());
            text.append("\n");
        },
        None => {
            text.append(": not found\n");
        },
    }
    text
}

/// A program to start: the file to run, the name it is to see as its own
/// (the word that was typed) and the arguments that follow.
#[derive(Debug)]
pub struct Launch {
    pub program: String,
    pub argv0: String,
    pub args: Vec<String>,
}

/// How a command line that names no builtin goes on, given what its first
/// word resolved to: the program to start, or the report that none was found.
pub fn prepare_launch(parts: &Vec<String>, found: Option<String>) -> (r: Result<Launch, String>)
    requires
        parts@.len() > 0,
    ensures
        found is None <==> r is Err,
        r matches Err(msg) ==> msg@ == parts@[0]@ + ": command not found\n"@,
        r matches Ok(l) ==> {
            &&& opt_view(found) == Some(l.program@)
            &&& l.argv0@ == parts@[0]@
            &&& views(l.args@) == views(parts@).skip(1)
        },
{
    match found {
        None => {
            let mut msg = parts[0].clone();
            msg.append(": command not found\n");
            Err(msg)
        },
        Some(program) => {
            let mut args: Vec<String> = Vec::new();
            let mut i: usize = 1;
            while i < parts.len()
                invariant
                    1 <= i <= parts@.len(),
                    views(args@) == views(parts@).subrange(1, i as int),
                decreases parts@.len() - i,
            {
                let ghost before = args@;
                args.push(parts[i].clone());
                assert(views(args@) =~= views(parts@).subrange(1, i as int + 1)) by {
                    assert(views(args@) =~= views(before).push(parts@[i as int]@));
                };
                i = i + 1;
            }
            assert(views(parts@).subrange(1, parts@.len() as int) =~= views(parts@).skip(1));
            Ok(Launch { program, argv0: parts[0].clone(), args })
        },
    }
}

/// The report when `name` was resolved but could not be started; `error`
/// is the operating system's description of the failure.
pub fn spawn_failure_message(name: &String, error: &String) -> (r: String)
    ensures
        r@ == "Error executing "@ + name@ + ": "@ + error@ + "\n"@,
{
    let mut text = String::from_str("Error executing ");
    text.append(name.as_str());
    text.append(": ");
    text.append(error.as_str());
    text.append("\n");
    text
}

/// The report when the working directory cannot be changed to `path`.
pub fn cd_failure_message(path: &String) -> (r: String)
    ensures
        r@ == "cd: "@ + path@ + ": No such file or directory\n"@,
{
    let mut text = String::from_str("cd: ");
    text.append(path.as_str());
    text.append(": No such file or directory\n");
    text
}

/// The report of `pwd`, given what asking for the working directory gave:
/// its path where that is valid text, `Ok(None)` where it is not, or the
/// operating system's description of the failure.
pub open spec fn pwd_text(outcome: Result<Option<Seq<char>>, Seq<char>>) -> Seq<char> {
    match outcome {
        Ok(Some(p)) => p + "\n"@,
        Ok(None) => "Error: current directory path is not valid UTF-8\n"@,
        Err(e) => "pwd: error retrieving current directory: "@ + e + "\n"@,
    }
}

/// The report of `pwd`.
pub fn pwd_report(outcome: Result<Option<String>, String>) -> (r: String)
    ensures
        r@ == pwd_text(
            match outcome {
                Ok(o) => Ok(opt_view(o)),
                Err(e) => Err(e@),
            },
        ),
{
    match outcome {
        Ok(Some(p)) => {
            let mut text = p;
            text.append("\n");
            text
        },
        Ok(None) => String::from_str("Error: current directory path is not valid UTF-8\n"),
        Err(e) => {
            let mut text = String::from_str("pwd: error retrieving current directory: ");
            text.append(e.as_str());
            text.append("\n");
            text
        },
    }
}

} // verus!
