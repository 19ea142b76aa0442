use shell::{process_string, tokenize, unescape_string, LexError};

#[test]
fn test_single_quotes() {
    assert_eq!(process_string("'hello\\'world'").unwrap(), "hello\\'world");
    assert_eq!(process_string("'hello\"world'").unwrap(), "hello\"world");
    assert_eq!(process_string("'hello\\world'").unwrap(), "hello\\world");
}

#[test]
fn test_double_quotes() {
    assert_eq!(
        process_string("\"hello\\\"world\"").unwrap(),
        "hello\"world"
    );
    assert_eq!(
        process_string("\"hello\\'world\"").unwrap(),
        "hello\\'world"
    );
    assert_eq!(process_string("\"hello\\world\"").unwrap(), "hello\\world");
}

#[test]
fn test_mixed_quotes() {
    assert_eq!(process_string("'hello'\"world\"").unwrap(), "helloworld");
    assert_eq!(process_string("\"hello\"'world'").unwrap(), "helloworld");
}

#[test]
fn test_unclosed_quotes() {
    assert!(process_string("'hello").is_err());
    assert!(process_string("\"hello").is_err());
}

#[test]
fn test_backslash_escaping() {
    assert_eq!(process_string("hello\\ world").unwrap(), "hello world");
    assert_eq!(process_string("hello\\\\world").unwrap(), "hello\\world");
    assert_eq!(process_string("hello\\nworld").unwrap(), "hellonworld");
}

#[test]
fn test_complex_quotes() {
    assert_eq!(
        process_string("'script\\\"worldtest\\\"shell'").unwrap(),
        "script\\\"worldtest\\\"shell"
    );
    assert_eq!(
        process_string("\"script\\\"worldtest\\\"shell\"").unwrap(),
        "script\"worldtest\"shell"
    );
}

#[test]
fn test_double_quoted_backslash_n_stays_literal() {
    // "hello\nworld" keeps the backslash and the `n`: no newline appears.
    let word = process_string("\"hello\\nworld\"").unwrap();
    assert_eq!(word, "hello\\nworld");
    assert!(!word.contains('\n'));
}

#[test]
fn test_single_quote_backslash_apostrophe_does_not_close() {
    // Inside single quotes a backslash is literal, and the escaped
    // apostrophe does not end the quoted region.
    let words = tokenize("echo 'hello\\'world'").unwrap();
    assert_eq!(words, vec!["echo", "hello\\'world"]);
}

#[test]
fn test_tokenize_empty_line_gives_no_words() {
    assert_eq!(tokenize("").unwrap(), Vec::<String>::new());
}

#[test]
fn test_tokenize_whitespace_only_gives_no_words() {
    assert_eq!(tokenize("   \t  \t").unwrap(), Vec::<String>::new());
}

#[test]
fn test_tokenize_collapses_whitespace() {
    assert_eq!(tokenize("a   b\t\tc").unwrap(), vec!["a", "b", "c"]);
}

#[test]
fn test_tokenize_plain_word_roundtrip() {
    assert_eq!(tokenize("ls-files_1").unwrap(), vec!["ls-files_1"]);
}

#[test]
fn test_tokenize_trailing_escape() {
    assert_eq!(tokenize("echo hi\\"), Err(LexError::TrailingEscape));
}

#[test]
fn test_tokenize_unclosed_quote() {
    assert_eq!(tokenize("echo 'hi"), Err(LexError::UnclosedQuote));
    assert_eq!(tokenize("echo \"hi"), Err(LexError::UnclosedQuote));
    // A backslash at the end of a still-open quote is an unclosed quote,
    // not a trailing escape: that error is for backslashes outside quotes.
    assert_eq!(tokenize("echo 'hi\\"), Err(LexError::UnclosedQuote));
}

#[test]
fn test_tokenize_quoted_spaces_stay_in_word() {
    assert_eq!(tokenize("echo 'a  b' c").unwrap(), vec!["echo", "a  b", "c"]);
    assert_eq!(tokenize("echo \"a  b\" c").unwrap(), vec!["echo", "a  b", "c"]);
}

#[test]
fn test_tokenize_escaped_space_joins_words() {
    assert_eq!(tokenize("echo hello\\ world").unwrap(), vec!["echo", "hello world"]);
}

#[test]
fn test_unescape_string_rules() {
    // \" becomes ", \\ becomes \, any other backslash is preserved.
    assert_eq!(unescape_string("a\\\"b"), "a\"b");
    assert_eq!(unescape_string("a\\\\b"), "a\\b");
    assert_eq!(unescape_string("a\\nb"), "a\\nb");
    assert_eq!(unescape_string("tail\\"), "tail\\");
}
