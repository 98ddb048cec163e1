//! The dispatcher's decisions: which command a name selects, and the exact
//! text each builtin answers with.  Everything the outside world must
//! contribute — the search-path probe, the working directory, the home
//! directory, a child process's captured streams — comes in as a plain
//! value, and the decision on it is verified for every value it may take.

use vstd::prelude::*;

use crate::textops::{
    contains_char,
    is_white,
    lemma_trim_end_take,
    join_strings,
    join_words,
    push_char,
    replace_char,
    str_contains_char,
    str_eq,
    str_replace_char,
    trim_end,
    white_char,
};
use vstd::string::StringExecFns;

verus! {

/// What the dispatcher did with a line: the text owed to the standard
/// output stream and the text owed to the error stream.  Produced per line
/// and consumed at once by the output sink.
#[derive(Debug)]
pub struct ExecutionResult {
    pub stdout_text: String,
    pub stderr_text: String,
}

/// The commands the interpreter implements itself, and the catch-all for
/// everything that must be looked up on the search path.
#[derive(Debug, PartialEq, Eq, Structural, Copy, Clone)]
pub enum CommandKind {
    Exit,
    Echo,
    Type,
    Pwd,
    Cd,
    External,
}

/// The command a name selects.
pub open spec fn spec_classify(name: Seq<char>) -> CommandKind {
    if name == "exit"@ {
        CommandKind::Exit
    } else if name == "echo"@ {
        CommandKind::Echo
    } else if name == "type"@ {
        CommandKind::Type
    } else if name == "pwd"@ {
        CommandKind::Pwd
    } else if name == "cd"@ {
        CommandKind::Cd
    } else {
        CommandKind::External
    }
}

/// Resolves a command name to the builtin it selects, or to an external
/// command.
pub fn classify(name: &str) -> (k: CommandKind)
    ensures
        k == spec_classify(name@),
{
    if str_eq(name, "exit") {
        CommandKind::Exit
    } else if str_eq(name, "echo") {
        CommandKind::Echo
    } else if str_eq(name, "type") {
        CommandKind::Type
    } else if str_eq(name, "pwd") {
        CommandKind::Pwd
    } else if str_eq(name, "cd") {
        CommandKind::Cd
    } else {
        CommandKind::External
    }
}

/// The fixed set of names that `type` reports as builtins.
pub open spec fn is_builtin_name(name: Seq<char>) -> bool {
    name == "exit"@ || name == "echo"@ || name == "type"@ || name == "pwd"@
}

/// `echo`: the arguments joined with single spaces, owed to stdout.
pub fn run_echo(args: &Vec<String>) -> (r: ExecutionResult)
    ensures
        r.stdout_text@ == join_words(args.deep_view()),
        r.stderr_text@ == Seq::<char>::empty(),
{
    ExecutionResult { stdout_text: join_strings(args), stderr_text: String::new() }
}

/// `type`: what it owes to stdout for a name in the fixed builtin set, or
/// for one that the search path resolved.
pub open spec fn type_found_text(arg: Seq<char>, located: Option<Seq<char>>) -> Seq<char> {
    if is_builtin_name(arg) {
        arg + " is a shell builtin"@
    } else {
        arg + " is "@ + located->0
    }
}

/// `type`: reports the fixed builtin set first, then what the search path
/// found; a name found nowhere is owed to stderr as `<name>: not found`.
/// `located` is the search path's answer for `arg`; it is only consulted
/// when `arg` is not in the builtin set.
pub fn run_type(arg: &str, located: &Option<String>) -> (r: ExecutionResult)
    ensures
        (is_builtin_name(arg@) || located is Some) ==> {
            &&& r.stdout_text@ == type_found_text(arg@, opt_view(*located))
            &&& r.stderr_text@ == Seq::<char>::empty()
        },
        !is_builtin_name(arg@) && located is None ==> {
            &&& r.stdout_text@ == Seq::<char>::empty()
            &&& r.stderr_text@ == arg@ + ": not found"@
        },
{
    let builtin = str_eq(arg, "exit") || str_eq(arg, "echo") || str_eq(arg, "type") || str_eq(
        arg,
        "pwd",
    );
    if builtin {
        ExecutionResult {
            stdout_text: String::from_str(arg).concat(" is a shell builtin"),
            stderr_text: String::new(),
        }
    } else {
        match located {
            Some(path) => ExecutionResult {
                stdout_text: String::from_str(arg).concat(" is ").concat(path.as_str()),
                stderr_text: String::new(),
            },
            None => ExecutionResult {
                stdout_text: String::new(),
                stderr_text: String::from_str(arg).concat(": not found"),
            },
        }
    }
}

/// The text of an optional string.
pub open spec fn opt_view(o: Option<String>) -> Option<Seq<char>> {
    match o {
        Some(s) => Some(s@),
        None => None,
    }
}

/// `pwd`: the working directory, as the environment reported it, owed to
/// stdout; on failure a diagnostic around the environment's error text is
/// owed to stderr and nothing to stdout.
pub fn run_pwd(cwd: &Result<String, String>) -> (r: ExecutionResult)
    ensures
        cwd is Ok ==> {
            &&& r.stdout_text@ == cwd->Ok_0@
            &&& r.stderr_text@ == Seq::<char>::empty()
        },
        cwd is Err ==> {
            &&& r.stdout_text@ == Seq::<char>::empty()
            &&& r.stderr_text@ == "Error: "@ + cwd->Err_0@
        },
{
    match cwd {
        Ok(path) => ExecutionResult { stdout_text: path.clone(), stderr_text: String::new() },
        Err(e) => ExecutionResult {
            stdout_text: String::new(),
            stderr_text: String::from_str("Error: ").concat(e.as_str()),
        },
    }
}

/// `cd`: the directory to change to.  An argument holding `~` needs the
/// home directory, and every `~` in it is replaced by that value; without
/// a home value there is nothing to change to.  Any other argument is
/// taken verbatim.
pub fn cd_target(arg: &str, home: &Option<String>) -> (r: Option<String>)
    ensures
        !contains_char(arg@, '~') ==> opt_view(r) == Some(arg@),
        contains_char(arg@, '~') && home is Some ==> opt_view(r) == Some(
            replace_char(arg@, '~', home->0@),
        ),
        contains_char(arg@, '~') && home is None ==> r is None,
{
    if str_contains_char(arg, '~') {
        match home {
            Some(h) => Some(str_replace_char(arg, '~', h.as_str())),
            None => None,
        }
    } else {
        Some(String::from_str(arg))
    }
}

/// `cd`: what a failed change of directory owes to stderr — the same text
/// whether the home directory was missing or the target did not exist.
pub fn cd_failure(arg: &str) -> (r: ExecutionResult)
    ensures
        r.stdout_text@ == Seq::<char>::empty(),
        r.stderr_text@ == "cd: "@ + arg@ + ": No such file or directory"@,
{
    ExecutionResult {
        stdout_text: String::new(),
        stderr_text: String::from_str("cd: ").concat(arg).concat(": No such file or directory"),
    }
}

/// A name that neither the builtin set nor the search path knows is owed
/// to stderr as `<name>: command not found`.
pub fn command_not_found(name: &str) -> (r: ExecutionResult)
    ensures
        r.stdout_text@ == Seq::<char>::empty(),
        r.stderr_text@ == name@ + ": command not found"@,
{
    ExecutionResult {
        stdout_text: String::new(),
        stderr_text: String::from_str(name).concat(": command not found"),
    }
}

/// The characters of a raw byte stream, each byte read as the character of
/// its code point.
pub open spec fn bytes_as_chars(bs: Seq<u8>) -> Seq<char> {
    Seq::new(bs.len(), |i: int| bs[i] as char)
}

/// An external command's captured streams: each byte becomes the character
/// of its code point, and trailing whitespace is trimmed from both texts.
pub fn external_result(stdout_bytes: &Vec<u8>, stderr_bytes: &Vec<u8>) -> (r: ExecutionResult)
    ensures
        r.stdout_text@ == trim_end(bytes_as_chars(stdout_bytes@)),
        r.stderr_text@ == trim_end(bytes_as_chars(stderr_bytes@)),
{
    ExecutionResult {
        stdout_text: captured_text(stdout_bytes),
        stderr_text: captured_text(stderr_bytes),
    }
}

/// One captured stream as text with its trailing whitespace trimmed.
fn captured_text(bytes: &Vec<u8>) -> (r: String)
    ensures
        r@ == trim_end(bytes_as_chars(bytes@)),
{
    let ghost cs = bytes_as_chars(bytes@);
    let mut end: usize = bytes.len();
    while end > 0 && white_char(bytes[end - 1] as char)
        invariant
            end <= bytes@.len(),
            cs == bytes_as_chars(bytes@),
            cs.len() == bytes@.len(),
            forall|j: int| end <= j < cs.len() ==> is_white(cs[j]),
        decreases end,
    {
        end -= 1;
    }
    proof {
        lemma_trim_end_take(cs, end as int);
    }
    let mut r = String::new();
    let mut i: usize = 0;
    while i < end
        invariant
            i <= end <= bytes@.len(),
            cs == bytes_as_chars(bytes@),
            cs.len() == bytes@.len(),
            r@ == cs.take(i as int),
        decreases end - i,
    {
        push_char(&mut r, bytes[i] as char);
        proof {
            assert(cs.take(i as int).push(cs[i as int]) =~= cs.take(i + 1 as int));
        }
        i += 1;
    }
    r
}

} // verus!
