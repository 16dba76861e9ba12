use minishell::command::{classify, parse_exit_code, Command, ShellError};
use minishell::eval::{cd_failure_message, eval_line, evaluate, Context, Step};
use minishell::resolve::{DirListing, FileEntry};

fn strings(words: &[&str]) -> Vec<String> {
    words.iter().map(|w| w.to_string()).collect()
}

fn command(words: &[&str]) -> Command {
    match classify(&strings(words)) {
        Some(Ok(cmd)) => cmd,
        _ => panic!("expected a command"),
    }
}

fn context() -> Context {
    let bin = DirListing {
        path: "/usr/bin".to_string(),
        entries: Some(vec![
            FileEntry { name: "true".to_string(), is_regular: true, mode: 0o755 },
            FileEntry { name: "ls".to_string(), is_regular: true, mode: 0o755 },
        ]),
    };
    Context { dirs: vec![bin], cwd: "/work".to_string(), home: "/home/me".to_string() }
}

#[test]
fn exit_with_code() {
    match command(&["exit", "7"]) {
        Command::Exit(code) => assert_eq!(code, 7),
        _ => panic!("expected exit"),
    }
    match evaluate(command(&["exit", "7"]), &context()) {
        Step::Terminate(code) => assert_eq!(code, 7),
        _ => panic!("expected termination"),
    }
}

#[test]
fn exit_codes_out_of_range_or_malformed_count_as_zero() {
    assert_eq!(parse_exit_code(&"7".to_string()), 7);
    assert_eq!(parse_exit_code(&"255".to_string()), 255);
    assert_eq!(parse_exit_code(&"256".to_string()), 0);
    assert_eq!(parse_exit_code(&"0070".to_string()), 0);
    assert_eq!(parse_exit_code(&"abc".to_string()), 0);
    assert_eq!(parse_exit_code(&"".to_string()), 0);
}

#[test]
fn echo_joins_words_with_single_spaces() {
    match command(&["echo", "hello", "world"]) {
        Command::Echo(args) => assert_eq!(args, strings(&["hello", "world"])),
        _ => panic!("expected echo"),
    }
    match evaluate(command(&["echo", "hello", "world"]), &context()) {
        Step::Print(s) => assert_eq!(s, "hello world"),
        _ => panic!("expected output"),
    }
}

#[test]
fn type_reports_a_builtin() {
    match evaluate(command(&["type", "echo"]), &context()) {
        Step::Print(s) => assert_eq!(s, "echo is a shell builtin"),
        _ => panic!("expected output"),
    }
}

#[test]
fn type_reports_a_resolved_executable() {
    match evaluate(command(&["type", "ls"]), &context()) {
        Step::Print(s) => assert_eq!(s, "ls is /usr/bin/ls"),
        _ => panic!("expected output"),
    }
}

#[test]
fn type_reports_an_unresolvable_target() {
    match evaluate(command(&["type", "doesnotexist"]), &context()) {
        Step::Reject(ShellError::TargetNotFound(t)) => {
            assert_eq!(t, "doesnotexist");
            assert_eq!(
                ShellError::TargetNotFound(t).message(),
                "doesnotexist: not found"
            );
        },
        _ => panic!("expected a target-not-found failure"),
    }
}

#[test]
fn cd_tilde_goes_home_and_pwd_prints_it() {
    match evaluate(command(&["cd", "~"]), &context()) {
        Step::ChangeDir(p) => assert_eq!(p, "/home/me"),
        _ => panic!("expected a directory change"),
    }
    let after = Context { cwd: "/home/me".to_string(), ..context() };
    match evaluate(command(&["pwd"]), &after) {
        Step::Print(s) => assert_eq!(s, "/home/me"),
        _ => panic!("expected output"),
    }
}

#[test]
fn cd_failure_names_the_target() {
    let target = "/definitely/not/a/real/path".to_string();
    match evaluate(command(&["cd", &target]), &context()) {
        Step::ChangeDir(p) => assert_eq!(p, target),
        _ => panic!("expected a directory change"),
    }
    let message = cd_failure_message(&target);
    assert_eq!(message, "cd: /definitely/not/a/real/path: No such file or directory");
    assert_eq!(
        ShellError::DirectoryChangeFailure("cd".to_string(), target).message(),
        message
    );
}

#[test]
fn external_command_spawns_the_resolved_path() {
    match evaluate(command(&["true", "x", "y"]), &context()) {
        Step::Spawn(path, args) => {
            assert_eq!(path, "/usr/bin/true");
            assert_eq!(args, strings(&["x", "y"]));
        },
        _ => panic!("expected a spawn"),
    }
}

#[test]
fn unresolvable_external_command_is_not_found() {
    match evaluate(command(&["doesnotexist"]), &context()) {
        Step::Reject(ShellError::CommandNotFound(n)) => {
            assert_eq!(
                ShellError::CommandNotFound(n).message(),
                "doesnotexist: command not found"
            );
        },
        _ => panic!("expected a command-not-found failure"),
    }
}

#[test]
fn type_and_cd_without_argument_are_failures() {
    for name in ["type", "cd"] {
        match classify(&strings(&[name])) {
            Some(Err(ShellError::MissingArgument(n))) => {
                assert_eq!(n, name);
                assert_eq!(
                    ShellError::MissingArgument(n).message(),
                    format!("{name}: missing argument")
                );
            },
            _ => panic!("expected a missing-argument failure"),
        }
    }
}

#[test]
fn empty_line_classifies_to_nothing() {
    assert!(classify(&Vec::new()).is_none());
}

#[test]
fn spawn_failure_carries_the_os_error_text() {
    let e = ShellError::SpawnFailure("prog".to_string(), "Permission denied".to_string());
    assert_eq!(e.message(), "prog: Permission denied");
}

#[test]
fn eval_line_runs_the_whole_pipeline() {
    match eval_line("echo 'a b' c", &context()) {
        Step::Print(s) => assert_eq!(s, "a b c"),
        _ => panic!("expected output"),
    }
    assert!(matches!(eval_line("", &context()), Step::Skip));
    assert!(matches!(eval_line("   ", &context()), Step::Skip));
    assert!(matches!(eval_line("echo 'open", &context()), Step::Skip));
    match eval_line("exit 7", &context()) {
        Step::Terminate(code) => assert_eq!(code, 7),
        _ => panic!("expected termination"),
    }
}
