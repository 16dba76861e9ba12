use minishell::tokenize::{join_words, tokenize};

fn words(r: Option<Vec<String>>) -> Vec<String> {
    match r {
        Some(ws) => ws,
        None => panic!("expected a word sequence"),
    }
}

#[test]
fn single_quotes_keep_spaces() {
    let ws = words(tokenize("echo 'a b' c"));
    assert_eq!(ws, vec!["echo".to_string(), "a b".to_string(), "c".to_string()]);
}

#[test]
fn backslash_in_double_quotes_unescapes_quote() {
    let ws = words(tokenize("echo \"a\\\"b\""));
    assert_eq!(ws, vec!["echo".to_string(), "a\"b".to_string()]);
}

#[test]
fn unterminated_quote_is_a_parse_failure() {
    assert!(tokenize("echo 'unterminated").is_none());
}

#[test]
fn unterminated_double_quote_is_a_parse_failure() {
    assert!(tokenize("echo \"open").is_none());
}

#[test]
fn trailing_backslash_is_a_parse_failure() {
    assert!(tokenize("echo a\\").is_none());
}

#[test]
fn empty_and_blank_lines_yield_no_words() {
    assert_eq!(words(tokenize("")), Vec::<String>::new());
    assert_eq!(words(tokenize("   \t  ")), Vec::<String>::new());
}

#[test]
fn adjacent_segments_concatenate() {
    let ws = words(tokenize("a\"b\"c"));
    assert_eq!(ws, vec!["abc".to_string()]);
    let ws = words(tokenize("a'b'c"));
    assert_eq!(ws, vec!["abc".to_string()]);
}

#[test]
fn interior_whitespace_runs_collapse() {
    let ws = words(tokenize("echo   hello \t  world"));
    assert_eq!(ws, vec!["echo".to_string(), "hello".to_string(), "world".to_string()]);
}

#[test]
fn backslash_outside_quotes_escapes_anything() {
    let ws = words(tokenize("echo a\\ b \\'x"));
    assert_eq!(ws, vec!["echo".to_string(), "a b".to_string(), "'x".to_string()]);
}

#[test]
fn backslash_in_double_quotes_is_literal_before_other_chars() {
    let ws = words(tokenize("echo \"a\\b\" \"\\$d\" \"x\\\\y\""));
    assert_eq!(
        ws,
        vec!["echo".to_string(), "a\\b".to_string(), "$d".to_string(), "x\\y".to_string()]
    );
}

#[test]
fn empty_quotes_give_an_empty_word() {
    let ws = words(tokenize("''"));
    assert_eq!(ws, vec!["".to_string()]);
}

#[test]
fn join_then_tokenize_gives_words_back() {
    let ws = words(tokenize("echo   hello    world"));
    let joined = join_words(&ws);
    assert_eq!(joined, "echo hello world");
    assert_eq!(words(tokenize(&joined)), ws);
}

#[test]
fn join_words_empty_and_single() {
    assert_eq!(join_words(&Vec::new()), "");
    assert_eq!(join_words(&vec!["only".to_string()]), "only");
}
