//! The decision step of the read–evaluate–print loop.
//!
//! A classified command, together with the ambient values the driver gathered
//! for this iteration (search-path listings, current working directory, home
//! directory), determines one action: terminate with a code, print a line,
//! change directory, spawn a resolved executable, report a failure, or do
//! nothing. The driver performs the action; every choice is made here.

use crate::command::{
    classify,
    command_matches,
    is_builtin,
    is_builtin_name,
    missing_arg,
    Command,
    ShellError,
};
use crate::resolve::{resolve, resolve_spec, DirListing};
use crate::tokenize::{join_spaces, join_words, tokenize, tokenize_spec};
use vstd::prelude::*;

verus! {

/// The ambient values one iteration's decisions read: the search path as
/// directory listings in search order, the current working directory, and
/// the invoking user's home directory.
pub struct Context {
    pub dirs: Vec<DirListing>,
    pub cwd: String,
    pub home: String,
}

/// The one action an iteration asks of the driver.
pub enum Step {
    /// End the loop; the process's final exit status is the code.
    Terminate(u8),
    /// Write this line to the output stream.
    Print(String),
    /// Change the working directory to this path; on failure, report a
    /// directory-change failure for it.
    ChangeDir(String),
    /// Spawn the executable at this resolved path with these arguments and
    /// wait for it.
    Spawn(String, Vec<String>),
    /// Report this failure and continue.
    Reject(ShellError),
    /// Do nothing this iteration.
    Skip,
}

/// The report `type` gives for a built-in name.
pub open spec fn builtin_report(t: Seq<char>) -> Seq<char> {
    t + " is a shell builtin"@
}

/// The report `type` gives for a resolved executable.
pub open spec fn located_report(t: Seq<char>, p: Seq<char>) -> Seq<char> {
    t + " is "@ + p
}

/// The path `cd` moves to: the home directory for a bare `~`, else the
/// target itself.
pub open spec fn cd_target(t: Seq<char>, home: Seq<char>) -> Seq<char> {
    if t == "~"@ {
        home
    } else {
        t
    }
}

/// What it means for `r` to be the action command `c` asks for under `ctx`.
pub open spec fn step_for(c: Command, ctx: Context, r: Step) -> bool {
    match c {
        Command::Exit(code) => r matches Step::Terminate(x) && x == code,
        Command::Echo(args) => r matches Step::Print(s) && s@ == join_spaces(args.deep_view()),
        Command::Pwd => r matches Step::Print(s) && s@ == ctx.cwd@,
        Command::Type(t) => if is_builtin_name(t@) {
            r matches Step::Print(s) && s@ == builtin_report(t@)
        } else {
            match resolve_spec(ctx.dirs@, t@) {
                Some(p) => r matches Step::Print(s) && s@ == located_report(t@, p),
                None => r matches Step::Reject(e) && (e matches ShellError::TargetNotFound(t2)
                    && t2@ == t@),
            }
        },
        Command::Cd(t) => r matches Step::ChangeDir(p) && p@ == cd_target(t@, ctx.home@),
        Command::External(name, args) => match resolve_spec(ctx.dirs@, name@) {
            Some(p) => r matches Step::Spawn(prog, a) && prog@ == p && a.deep_view()
                == args.deep_view(),
            None => r matches Step::Reject(e) && (e matches ShellError::CommandNotFound(n2)
                && n2@ == name@),
        },
    }
}

/// Decides the action `cmd` asks for under `ctx`.
pub fn evaluate(cmd: Command, ctx: &Context) -> (r: Step)
    ensures
        step_for(cmd, *ctx, r),
{
    match cmd {
        Command::Exit(code) => Step::Terminate(code),
        Command::Echo(args) => Step::Print(join_words(&args)),
        Command::Pwd => Step::Print(ctx.cwd.clone()),
        Command::Type(t) => if is_builtin(&t) {
            Step::Print(t.concat(" is a shell builtin"))
        } else {
            match resolve(&t, &ctx.dirs) {
                Some(p) => Step::Print(t.concat(" is ").concat(p.as_str())),
                None => Step::Reject(ShellError::TargetNotFound(t)),
            }
        },
        Command::Cd(t) => if t == String::from_str("~") {
            Step::ChangeDir(ctx.home.clone())
        } else {
            Step::ChangeDir(t)
        },
        Command::External(name, args) => match resolve(&name, &ctx.dirs) {
            Some(p) => Step::Spawn(p, args),
            None => Step::Reject(ShellError::CommandNotFound(name)),
        },
    }
}

/// What it means for `r` to be the action a whole input line asks for: a
/// line with unterminated quoting or no words at all asks for nothing, a
/// lone `type` or `cd` asks for a missing-argument report, and any other
/// line asks for the action of the one command its words denote.
pub open spec fn line_step_for(l: Seq<char>, ctx: Context, r: Step) -> bool {
    match tokenize_spec(l) {
        None => r is Skip,
        Some(ws) => if ws.len() == 0 {
            r is Skip
        } else if missing_arg(ws) {
            r matches Step::Reject(e) && (e matches ShellError::MissingArgument(n) && n@ == ws[0])
        } else {
            exists|c: Command| #[trigger] command_matches(c, ws) && step_for(c, ctx, r)
        },
    }
}

/// Runs one line through the whole pipeline — tokenize, classify, decide —
/// and returns the action the driver is to perform.
pub fn eval_line(line: &str, ctx: &Context) -> (r: Step)
    ensures
        line_step_for(line@, *ctx, r),
{
    match tokenize(line) {
        None => Step::Skip,
        Some(words) => match classify(&words) {
            None => Step::Skip,
            Some(Err(e)) => Step::Reject(e),
            Some(Ok(cmd)) => {
                let ghost c0 = cmd;
                let ghost ws = words.deep_view();
                let r = evaluate(cmd, ctx);
                proof {
                    assert(command_matches(c0, ws) && step_for(c0, *ctx, r));
                }
                r
            },
        },
    }
}

/// The report a failed directory change is printed as; the driver calls this
/// after the change the `ChangeDir` action asked for did not succeed.
pub fn cd_failure_message(target: &String) -> (r: String)
    ensures
        r@ == "cd"@ + ": "@ + target@ + ": No such file or directory"@,
{
    ShellError::DirectoryChangeFailure(String::from_str("cd"), target.clone()).message()
}

} // verus!
