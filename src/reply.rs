use vstd::prelude::*;
use vstd::string::StringExecFns;

use crate::command::is_builtin_name;
use crate::number::{decimal, decimal_string};
use crate::text::opt_view;

verus! {

/// `name is a shell builtin`
pub open spec fn builtin_text(name: Seq<char>) -> Seq<char> {
    name + " is a shell builtin"@
}

/// The answer to `type name`, given where a search found it (if anywhere).
pub open spec fn type_text(name: Seq<char>, found: Option<Seq<char>>) -> Seq<char> {
    if is_builtin_name(name) {
        builtin_text(name)
    } else {
        match found {
            Some(p) => name + " is "@ + p,
            None => name + ": not found"@,
        }
    }
}

/// How a child process ended, as the caller observed it.
#[derive(Debug, Clone, Copy, PartialEq, Eq)]
pub enum ChildStatus {
    /// It exited with this status.
    Exited(i32),
    /// It was ended by a signal and has no exit status.
    Signaled,
    /// It could not be started.
    LaunchFailed,
}

/// What is printed after a child process ends; nothing after a success.
pub open spec fn status_text(s: ChildStatus) -> Option<Seq<char>> {
    match s {
        ChildStatus::Exited(0) => None,
        ChildStatus::Exited(n) => Some("Command failed with status: "@ + decimal(n as int)),
        ChildStatus::Signaled => Some("Command terminated by a signal"@),
        ChildStatus::LaunchFailed => Some("Failed to execute command"@),
    }
}

/// The directory that `cd arg` goes to: the home directory for `~` (none when
/// it is unknown), and the argument as it is otherwise.
pub open spec fn cd_target(arg: Seq<char>, home: Option<Seq<char>>) -> Option<Seq<char>> {
    if arg == "~"@ {
        home
    } else {
        Some(arg)
    }
}

fn append(out: &mut String, s: &str)
    ensures
        final(out)@ == old(out)@ + s@,
{
    out.append(s);
}

fn copy(s: &str) -> (r: String)
    ensures
        r@ == s@,
{
    String::from_str(s)
}

/// `name is a shell builtin`
pub fn builtin_message(name: &str) -> (r: String)
    ensures
        r@ == builtin_text(name@),
{
    let mut r = copy(name);
    append(&mut r, " is a shell builtin");
    r
}

/// The answer to `type name`: a builtin is reported as such whatever the
/// search found; otherwise the path found, or that there is none.
pub fn type_message(name: &str, found: Option<&str>) -> (r: String)
    ensures
        r@ == type_text(name@, opt_view(found)),
{
    if crate::command::is_builtin(name) {
        return builtin_message(name);
    }
    let mut r = copy(name);
    match found {
        Some(p) => {
            append(&mut r, " is ");
            append(&mut r, p);
        },
        None => {
            append(&mut r, ": not found");
        },
    }
    r
}

/// `command: command not found`, for a program that no search found.
pub fn command_not_found_message(command: &str) -> (r: String)
    ensures
        r@ == command@ + ": command not found"@,
{
    let mut r = copy(command);
    append(&mut r, ": command not found");
    r
}

/// `Invalid verb command format`, for a builtin given the wrong arguments.
pub fn format_error_message(verb: &str) -> (r: String)
    ensures
        r@ == "Invalid "@ + verb@ + " command format"@,
{
    let mut r = copy("Invalid ");
    append(&mut r, verb);
    append(&mut r, " command format");
    r
}

/// `cd: path: No such file or directory`, for a directory change that failed.
pub fn cd_failure_message(path: &str) -> (r: String)
    ensures
        r@ == "cd: "@ + path@ + ": No such file or directory"@,
{
    let mut r = copy("cd: ");
    append(&mut r, path);
    append(&mut r, ": No such file or directory");
    r
}

/// The directory that `cd arg` goes to, given the home directory if known.
pub fn cd_destination(arg: &str, home: Option<&str>) -> (r: Option<String>)
    ensures
        match r {
            Some(d) => cd_target(arg@, opt_view(home)) == Some(d@),
            None => cd_target(arg@, opt_view(home)) is None,
        },
{
    let a = crate::text::chars_of(arg);
    proof {
        reveal_strlit("~");
    }
    if a.len() == 1 && a[0] == '~' {
        assert(a@ =~= "~"@);
        match home {
            Some(h) => Some(copy(h)),
            None => None,
        }
    } else {
        assert(arg@ != "~"@);
        Some(copy(arg))
    }
}

/// What is printed after a child process ends, if anything.
pub fn status_message(s: &ChildStatus) -> (r: Option<String>)
    ensures
        match r {
            Some(m) => status_text(*s) == Some(m@),
            None => status_text(*s) is None,
        },
{
    match s {
        ChildStatus::Exited(n) => {
            if *n == 0 {
                None
            } else {
                let mut m = copy("Command failed with status: ");
                let d = decimal_string(*n);
                append(&mut m, d.as_str());
                Some(m)
            }
        },
        ChildStatus::Signaled => Some(copy("Command terminated by a signal")),
        ChildStatus::LaunchFailed => Some(copy("Failed to execute command")),
    }
}

} // verus!
