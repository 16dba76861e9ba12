//! Classifying a tokenized line into a command, and the shell's error kinds.
//!
//! The first word of a non-empty line either names one of the five built-ins
//! (`echo`, `exit`, `type`, `pwd`, `cd`) or an external command. `type` and
//! `cd` demand an argument; a line that omits it yields a missing-argument
//! error rather than a command. An empty line yields nothing at all.

use vstd::prelude::*;

verus! {

/// A classified command: one of the built-ins with its payload, or an
/// external command with its name and arguments.
pub enum Command {
    Exit(u8),
    Echo(Vec<String>),
    Type(String),
    Pwd,
    Cd(String),
    External(String, Vec<String>),
}

/// The recoverable failures a command can end in. Each carries the words its
/// report is built from; `SpawnFailure` carries the launcher's error text.
pub enum ShellError {
    CommandNotFound(String),
    TargetNotFound(String),
    DirectoryChangeFailure(String, String),
    MissingArgument(String),
    SpawnFailure(String, String),
}

/// Whether `s` names one of the five built-ins.
pub open spec fn is_builtin_name(s: Seq<char>) -> bool {
    s == "echo"@ || s == "exit"@ || s == "type"@ || s == "pwd"@ || s == "cd"@
}

/// A decimal digit, by code point (48 is `0`, 57 is `9`).
pub open spec fn is_dec_digit(c: char) -> bool {
    48 <= c as int <= 57
}

pub open spec fn all_dec_digits(s: Seq<char>) -> bool {
    forall|i: int| 0 <= i < s.len() ==> is_dec_digit(#[trigger] s[i])
}

/// The value of a sequence of decimal digits.
pub open spec fn dec_val(s: Seq<char>) -> int
    decreases s.len(),
{
    if s.len() == 0 {
        0
    } else {
        dec_val(s.drop_last()) * 10 + (s.last() as int - 48)
    }
}

/// An argument accepted as an exit code: a decimal numeral of one to three
/// digits whose value fits in eight bits.
pub open spec fn valid_exit_arg(s: Seq<char>) -> bool {
    1 <= s.len() <= 3 && all_dec_digits(s) && dec_val(s) <= 255
}

/// The exit code an `exit` argument denotes: its decimal value when it is a
/// valid exit argument, and zero otherwise.
pub open spec fn exit_arg_code(s: Seq<char>) -> int {
    if valid_exit_arg(s) {
        dec_val(s)
    } else {
        0
    }
}

/// The exit code of a whole `exit` command line: the code of its first
/// argument, or zero when no argument was given.
pub open spec fn exit_code_of(ws: Seq<Seq<char>>) -> int {
    if ws.len() >= 2 {
        exit_arg_code(ws[1])
    } else {
        0
    }
}

/// A line of exactly one word, `type` or `cd`: the argument both demand is
/// missing.
pub open spec fn missing_arg(ws: Seq<Seq<char>>) -> bool {
    ws.len() == 1 && (ws[0] == "type"@ || ws[0] == "cd"@)
}

/// What it means for `c` to be the command the words `ws` denote (`ws` is
/// non-empty and not a missing-argument line).
pub open spec fn command_matches(c: Command, ws: Seq<Seq<char>>) -> bool {
    match c {
        Command::Exit(code) => ws[0] == "exit"@ && code as int == exit_code_of(ws),
        Command::Echo(args) => ws[0] == "echo"@ && args.deep_view() == ws.skip(1),
        Command::Type(t) => ws[0] == "type"@ && ws.len() >= 2 && t@ == ws[1],
        Command::Pwd => ws[0] == "pwd"@,
        Command::Cd(t) => ws[0] == "cd"@ && ws.len() >= 2 && t@ == ws[1],
        Command::External(name, args) => !is_builtin_name(ws[0]) && name@ == ws[0]
            && args.deep_view() == ws.skip(1),
    }
}

/// Tests whether `s` names a built-in.
pub fn is_builtin(s: &String) -> (r: bool)
    ensures
        r == is_builtin_name(s@),
{
    *s == String::from_str("echo") || *s == String::from_str("exit") || *s == String::from_str(
        "type",
    ) || *s == String::from_str("pwd") || *s == String::from_str("cd")
}

/// Reads an `exit` argument as an exit code; anything but a short decimal
/// numeral that fits in eight bits counts as zero.
#[verifier::loop_isolation(false)]
pub fn parse_exit_code(arg: &String) -> (r: u8)
    ensures
        r as int == exit_arg_code(arg@),
{
    let n = arg.as_str().unicode_len();
    if n == 0 || n > 3 {
        return 0;
    }
    let mut v: u16 = 0;
    let mut i: usize = 0;
    proof {
        assert(arg@.take(0) =~= Seq::<char>::empty());
    }
    while i < n
        invariant
            i <= n,
            all_dec_digits(arg@.take(i as int)),
            v as int == dec_val(arg@.take(i as int)),
            i == 0 ==> v == 0,
            i == 1 ==> v <= 9,
            i == 2 ==> v <= 99,
        decreases n - i,
    {
        let c = arg.as_str().get_char(i);
        let d = c as u32;
        if d < 48 || d > 57 {
            proof {
                assert(!is_dec_digit(arg@[i as int]));
            }
            return 0;
        }
        proof {
            assert(arg@.take(i as int + 1).drop_last() =~= arg@.take(i as int));
            assert(arg@.take(i as int + 1).last() == arg@[i as int]);
        }
        v = v * 10 + ((d - 48) as u16);
        i = i + 1;
    }
    proof {
        assert(arg@.take(n as int) =~= arg@);
    }
    if v > 255 {
        0
    } else {
        v as u8
    }
}

/// The words after the first: a command's arguments.
#[verifier::loop_isolation(false)]
fn tail_words(words: &Vec<String>) -> (r: Vec<String>)
    requires
        words@.len() >= 1,
    ensures
        r.deep_view() == words.deep_view().skip(1),
{
    let mut r: Vec<String> = Vec::new();
    let mut i: usize = 1;
    proof {
        assert(r.deep_view() =~= words.deep_view().subrange(1, 1));
    }
    while i < words.len()
        invariant
            1 <= i <= words@.len(),
            r.deep_view() == words.deep_view().subrange(1, i as int),
        decreases words@.len() - i,
    {
        let ghost r0 = r.deep_view();
        r.push(words[i].clone());
        proof {
            assert(r.deep_view() =~= r0.push(words.deep_view()[i as int]));
            assert(r0.push(words.deep_view()[i as int]) =~= words.deep_view().subrange(
                1,
                i as int + 1,
            ));
        }
        i = i + 1;
    }
    proof {
        assert(words.deep_view().subrange(1, words@.len() as int) =~= words.deep_view().skip(1));
    }
    r
}

/// Classifies a tokenized line: `None` for an empty line, a missing-argument
/// error for `type` or `cd` alone, and otherwise the command the words denote.
pub fn classify(words: &Vec<String>) -> (r: Option<Result<Command, ShellError>>)
    ensures
        ({
            let ws = words.deep_view();
            match r {
                None => ws.len() == 0,
                Some(Ok(cmd)) => ws.len() > 0 && !missing_arg(ws) && command_matches(cmd, ws),
                Some(Err(e)) => missing_arg(ws) && (e matches ShellError::MissingArgument(n)
                    && n@ == ws[0]),
            }
        }),
{
    proof {
        reveal_strlit("echo");
        reveal_strlit("exit");
        reveal_strlit("type");
        reveal_strlit("pwd");
        reveal_strlit("cd");
        assert("exit"@[0] == 'e' && "type"@[0] == 't' && "exit"@ != "type"@);
        assert("echo"@[1] == 'c' && "type"@[1] == 'y' && "echo"@ != "type"@);
        assert("exit"@.len() != "cd"@.len() && "exit"@ != "cd"@);
        assert("echo"@.len() != "cd"@.len() && "echo"@ != "cd"@);
        assert("pwd"@.len() != "type"@.len() && "pwd"@ != "type"@);
        assert("pwd"@.len() != "cd"@.len() && "pwd"@ != "cd"@);
    }
    if words.len() == 0 {
        return None;
    }
    proof {
        assert(words.deep_view().len() == words@.len());
        assert(words.deep_view()[0] == words@[0]@);
    }
    let first = &words[0];
    if *first == String::from_str("exit") {
        let code = if words.len() >= 2 {
            proof {
                assert(words.deep_view()[1] == words@[1]@);
            }
            parse_exit_code(&words[1])
        } else {
            0
        };
        Some(Ok(Command::Exit(code)))
    } else if *first == String::from_str("echo") {
        Some(Ok(Command::Echo(tail_words(words))))
    } else if *first == String::from_str("type") {
        if words.len() < 2 {
            Some(Err(ShellError::MissingArgument(first.clone())))
        } else {
            proof {
                assert(words.deep_view()[1] == words@[1]@);
            }
            Some(Ok(Command::Type(words[1].clone())))
        }
    } else if *first == String::from_str("pwd") {
        Some(Ok(Command::Pwd))
    } else if *first == String::from_str("cd") {
        if words.len() < 2 {
            Some(Err(ShellError::MissingArgument(first.clone())))
        } else {
            proof {
                assert(words.deep_view()[1] == words@[1]@);
            }
            Some(Ok(Command::Cd(words[1].clone())))
        }
    } else {
        Some(Ok(Command::External(first.clone(), tail_words(words))))
    }
}

/// The report each failure is printed as.
pub open spec fn error_message(e: ShellError) -> Seq<char> {
    match e {
        ShellError::CommandNotFound(n) => n@ + ": command not found"@,
        ShellError::TargetNotFound(t) => t@ + ": not found"@,
        ShellError::DirectoryChangeFailure(name, target) => name@ + ": "@ + target@
            + ": No such file or directory"@,
        ShellError::MissingArgument(n) => n@ + ": missing argument"@,
        ShellError::SpawnFailure(n, detail) => n@ + ": "@ + detail@,
    }
}

impl ShellError {
    /// Renders the failure's report, one line without the newline.
    pub fn message(&self) -> (r: String)
        ensures
            r@ == error_message(*self),
    {
        match self {
            ShellError::CommandNotFound(n) => n.clone().concat(": command not found"),
            ShellError::TargetNotFound(t) => t.clone().concat(": not found"),
            ShellError::DirectoryChangeFailure(name, target) => name.clone().concat(": ").concat(
                target.as_str(),
            ).concat(": No such file or directory"),
            ShellError::MissingArgument(n) => n.clone().concat(": missing argument"),
            ShellError::SpawnFailure(n, detail) => n.clone().concat(": ").concat(detail.as_str()),
        }
    }
}

} // verus!
