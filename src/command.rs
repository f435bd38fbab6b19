use vstd::prelude::*;

use crate::number::{parse_i32, parse_int};
use crate::text::{chars_of, string_of};
use crate::words::{after_first_word, rest_after_first_word, views, word_chars, words};

verus! {

pub open spec fn echo_word() -> Seq<char> {
    seq!['e', 'c', 'h', 'o']
}

pub open spec fn exit_word() -> Seq<char> {
    seq!['e', 'x', 'i', 't']
}

pub open spec fn type_word() -> Seq<char> {
    seq!['t', 'y', 'p', 'e']
}

pub open spec fn pwd_word() -> Seq<char> {
    seq!['p', 'w', 'd']
}

pub open spec fn cd_word() -> Seq<char> {
    seq!['c', 'd']
}

/// The fixed set of names that the interpreter handles itself; membership is
/// exact equality.
pub open spec fn is_builtin_name(w: Seq<char>) -> bool {
    w == echo_word() || w == exit_word() || w == type_word() || w == pwd_word() || w == cd_word()
}

/// What a line asks for, over plain sequences.
pub enum Request {
    Blank,
    Exit(int),
    Echo(Seq<char>),
    Type(Seq<char>),
    Pwd,
    Cd(Seq<char>),
    FormatError(Seq<char>),
    Builtin(Seq<char>),
    External(Seq<char>, Seq<Seq<char>>),
}

/// What a line asks the interpreter to do.
#[derive(Debug, Clone, PartialEq, Eq)]
pub enum Command {
    /// Nothing: the line holds no word.
    Blank,
    /// End the process with this status.
    Exit(i32),
    /// Print this text and a newline.
    Echo(String),
    /// Say what this name would run.
    Type(String),
    /// Print the working directory.
    Pwd,
    /// Change the working directory to this argument (`~` is the home directory).
    Cd(String),
    /// The named builtin was given arguments that it does not take.
    FormatError(String),
    /// A builtin named with an arity that no handler takes.
    Builtin(String),
    /// Run the named program with these arguments.
    External(String, Vec<String>),
}

impl View for Command {
    type V = Request;

    open spec fn view(&self) -> Request {
        match self {
            Command::Blank => Request::Blank,
            Command::Exit(c) => Request::Exit(*c as int),
            Command::Echo(t) => Request::Echo(t@),
            Command::Type(n) => Request::Type(n@),
            Command::Pwd => Request::Pwd,
            Command::Cd(p) => Request::Cd(p@),
            Command::FormatError(v) => Request::FormatError(v@),
            Command::Builtin(n) => Request::Builtin(n@),
            Command::External(p, a) => Request::External(p@, views(a@)),
        }
    }
}

/// The request that line `s` makes. The first word decides; builtins are
/// matched before anything is looked up, so a builtin name never runs a
/// program.
pub open spec fn request_of(s: Seq<char>) -> Request {
    let w = words(s);
    if w.len() == 0 {
        Request::Blank
    } else if w[0] == exit_word() {
        if w.len() == 2 && parse_int(w[1]) is Some {
            Request::Exit(parse_int(w[1])->0)
        } else {
            Request::FormatError(exit_word())
        }
    } else if w[0] == echo_word() {
        Request::Echo(after_first_word(s))
    } else if w[0] == type_word() {
        if w.len() == 2 {
            Request::Type(w[1])
        } else {
            Request::FormatError(type_word())
        }
    } else if w[0] == pwd_word() {
        if w.len() == 1 {
            Request::Pwd
        } else {
            Request::Builtin(pwd_word())
        }
    } else if w[0] == cd_word() {
        if w.len() == 2 {
            Request::Cd(w[1])
        } else {
            Request::FormatError(cd_word())
        }
    } else {
        Request::External(w[0], w.drop_first())
    }
}

/// Whether `a` and `b` hold the same characters.
fn same_chars(a: &Vec<char>, b: &Vec<char>) -> (r: bool)
    ensures
        r == (a@ == b@),
{
    if a.len() != b.len() {
        return false;
    }
    let mut i: usize = 0;
    while i < a.len()
        invariant
            a.len() == b.len(),
            i <= a.len(),
            forall|j: int| 0 <= j < i ==> a@[j] == b@[j],
        decreases a.len() - i,
    {
        if a[i] != b[i] {
            return false;
        }
        i += 1;
    }
    assert(a@ =~= b@);
    true
}

/// Whether `name` is one of the builtins: echo, exit, type, pwd, cd.
pub fn is_builtin(name: &str) -> (r: bool)
    ensures
        r == is_builtin_name(name@),
{
    let n = chars_of(name);
    same_chars(&n, &vec!['e', 'c', 'h', 'o']) || same_chars(&n, &vec!['e', 'x', 'i', 't'])
        || same_chars(&n, &vec!['t', 'y', 'p', 'e']) || same_chars(&n, &vec!['p', 'w', 'd'])
        || same_chars(&n, &vec!['c', 'd'])
}

/// Decides what `line` asks for.
pub fn parse_command(line: &str) -> (r: Command)
    ensures
        r@ == request_of(line@),
{
    let cs = chars_of(line);
    let ws = word_chars(&cs);
    let ghost w = ws@.map_values(|v: Vec<char>| v@);
    assert(w.len() == ws.len());
    if ws.len() == 0 {
        return Command::Blank;
    }
    assert(w[0] == ws@[0]@);
    let exit_w = vec!['e', 'x', 'i', 't'];
    let echo_w = vec!['e', 'c', 'h', 'o'];
    let type_w = vec!['t', 'y', 'p', 'e'];
    let pwd_w = vec!['p', 'w', 'd'];
    let cd_w = vec!['c', 'd'];
    if same_chars(&ws[0], &exit_w) {
        if ws.len() == 2 {
            assert(w[1] == ws@[1]@);
            if let Some(code) = parse_i32(&ws[1]) {
                return Command::Exit(code);
            }
        }
        Command::FormatError(string_of(&exit_w))
    } else if same_chars(&ws[0], &echo_w) {
        Command::Echo(string_of(&rest_after_first_word(&cs)))
    } else if same_chars(&ws[0], &type_w) {
        if ws.len() == 2 {
            assert(w[1] == ws@[1]@);
            Command::Type(string_of(&ws[1]))
        } else {
            Command::FormatError(string_of(&type_w))
        }
    } else if same_chars(&ws[0], &pwd_w) {
        if ws.len() == 1 {
            Command::Pwd
        } else {
            Command::Builtin(string_of(&pwd_w))
        }
    } else if same_chars(&ws[0], &cd_w) {
        if ws.len() == 2 {
            assert(w[1] == ws@[1]@);
            Command::Cd(string_of(&ws[1]))
        } else {
            Command::FormatError(string_of(&cd_w))
        }
    } else {
        let program = string_of(&ws[0]);
        let mut args: Vec<String> = Vec::new();
        let mut k: usize = 1;
        while k < ws.len()
            invariant
                1 <= k <= ws.len(),
                w == ws@.map_values(|v: Vec<char>| v@),
                views(args@) == w.subrange(1, k as int),
            decreases ws.len() - k,
        {
            let ghost before = args@;
            let t = string_of(&ws[k]);
            args.push(t);
            assert(views(args@) =~= views(before).push(ws@[k as int]@));
            assert(views(args@) =~= w.subrange(1, k + 1));
            k += 1;
        }
        assert(w.subrange(1, ws.len() as int) =~= w.drop_first());
        Command::External(program, args)
    }
}

} // verus!
