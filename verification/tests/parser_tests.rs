use shell::{parse_i32, tokenize, Arguments, ParseError, Redirection, RedirectionType};

fn words(line: &str) -> Vec<String> {
    tokenize(line).unwrap()
}

#[test]
fn test_parse_plain_words_single_stage() {
    let p = shell::parse(&words("echo hello world")).unwrap();
    assert_eq!(p.stages.len(), 1);
    assert_eq!(p.stages[0].name, "echo");
    assert_eq!(p.stages[0].args, vec!["hello", "world"]);
    assert!(p.stages[0].redirs.is_empty());
}

#[test]
fn test_parse_empty_words_empty_pipeline() {
    let p = shell::parse(&words("")).unwrap();
    assert_eq!(p.stages.len(), 0);
}

#[test]
fn test_parse_pipe_two_stages() {
    let p = shell::parse(&words("echo one | cat")).unwrap();
    assert_eq!(p.stages.len(), 2);
    assert_eq!(p.stages[0].name, "echo");
    assert_eq!(p.stages[0].args, vec!["one"]);
    assert_eq!(p.stages[1].name, "cat");
    assert!(p.stages[1].args.is_empty());
}

#[test]
fn test_parse_trailing_pipe_is_error() {
    assert_eq!(shell::parse(&words("echo a |")), Err(ParseError::EmptyStage));
}

#[test]
fn test_parse_leading_pipe_is_error() {
    assert_eq!(shell::parse(&words("| cat")), Err(ParseError::EmptyStage));
}

#[test]
fn test_parse_redirection_without_target_is_error() {
    assert_eq!(
        shell::parse(&words("echo hi >")),
        Err(ParseError::MissingRedirectTarget)
    );
}

#[test]
fn test_parse_extracts_redirection() {
    let p = shell::parse(&words("echo hi > /tmp/xyz/out.txt")).unwrap();
    assert_eq!(p.stages.len(), 1);
    assert_eq!(p.stages[0].name, "echo");
    assert_eq!(p.stages[0].args, vec!["hi"]);
    assert_eq!(p.stages[0].redirs.len(), 1);
    assert_eq!(p.stages[0].redirs[0].kind, RedirectionType::Output);
    assert_eq!(p.stages[0].redirs[0].target, "/tmp/xyz/out.txt");
}

#[test]
fn test_parse_stderr_append_redirection() {
    let p = shell::parse(&words("cmd 2>> log.txt")).unwrap();
    assert_eq!(p.stages[0].redirs[0].kind, RedirectionType::ErrorAppend);
    let eff = p.stages[0].effective_redir(true).unwrap();
    assert_eq!(eff, (true, String::from("log.txt")));
    assert!(p.stages[0].effective_redir(false).is_none());
}

#[test]
fn test_parse_last_redirection_wins() {
    let p = shell::parse(&words("cmd > a.txt >> b.txt")).unwrap();
    assert_eq!(p.stages[0].redirs.len(), 2);
    let eff = p.stages[0].effective_redir(false).unwrap();
    assert_eq!(eff, (true, String::from("b.txt")));
}

#[test]
fn test_parse_redirection_only_stage_has_empty_name() {
    let p = shell::parse(&words("> out.txt")).unwrap();
    assert_eq!(p.stages.len(), 1);
    assert_eq!(p.stages[0].name, "");
    assert!(p.stages[0].args.is_empty());
    assert_eq!(p.stages[0].redirs.len(), 1);
}

#[test]
fn test_redirection_type_from_str() {
    assert_eq!(RedirectionType::from_str(">"), Some(RedirectionType::Output));
    assert_eq!(RedirectionType::from_str("1>"), Some(RedirectionType::Output));
    assert_eq!(RedirectionType::from_str(">>"), Some(RedirectionType::OutputAppend));
    assert_eq!(RedirectionType::from_str("1>>"), Some(RedirectionType::OutputAppend));
    assert_eq!(RedirectionType::from_str("2>"), Some(RedirectionType::Error));
    assert_eq!(RedirectionType::from_str("2>>"), Some(RedirectionType::ErrorAppend));
    assert_eq!(RedirectionType::from_str("|"), None);
    assert_eq!(RedirectionType::from_str("3>"), None);
    assert_eq!(RedirectionType::from_str("echo"), None);
}

#[test]
fn test_redirection_words() {
    assert_eq!(Redirection::from_word(">"), Some(Redirection::Default));
    assert_eq!(Redirection::from_word(">>"), Some(Redirection::DefaultAppend));
    assert_eq!(Redirection::from_word("1>"), Some(Redirection::Output));
    assert_eq!(Redirection::from_word("1>>"), Some(Redirection::OutputAppend));
    assert_eq!(Redirection::from_word("2>"), Some(Redirection::Error));
    assert_eq!(Redirection::from_word("2>>"), Some(Redirection::ErrorAppend));
    assert_eq!(Redirection::from_word(">>>"), None);
    assert_eq!(Redirection::from_word("x"), None);
}

#[test]
fn test_redirection_kinds() {
    assert_eq!(Redirection::Default.kind(), RedirectionType::Output);
    assert_eq!(Redirection::DefaultAppend.kind(), RedirectionType::OutputAppend);
    assert_eq!(Redirection::Output.kind(), RedirectionType::Output);
    assert_eq!(Redirection::OutputAppend.kind(), RedirectionType::OutputAppend);
    assert_eq!(Redirection::Error.kind(), RedirectionType::Error);
    assert_eq!(Redirection::ErrorAppend.kind(), RedirectionType::ErrorAppend);
    assert!(Redirection::ErrorAppend.kind().is_stderr());
    assert!(Redirection::ErrorAppend.kind().is_append());
    assert!(!Redirection::Default.kind().is_stderr());
    assert!(!Redirection::Default.kind().is_append());
}

#[test]
fn test_operators_inside_words_are_not_split() {
    // Operators count only as whole words.
    let p = shell::parse(&words("echo a>b")).unwrap();
    assert_eq!(p.stages.len(), 1);
    assert_eq!(p.stages[0].args, vec!["a>b"]);
    assert!(p.stages[0].redirs.is_empty());
}

#[test]
fn test_parse_i32_values() {
    assert_eq!(parse_i32("42"), Some(42));
    assert_eq!(parse_i32("-7"), Some(-7));
    assert_eq!(parse_i32("+0"), Some(0));
    assert_eq!(parse_i32("0042"), Some(42));
    assert_eq!(parse_i32("2147483647"), Some(2147483647));
    assert_eq!(parse_i32("-2147483648"), Some(-2147483648));
    assert_eq!(parse_i32("2147483648"), None);
    assert_eq!(parse_i32("-2147483649"), None);
    assert_eq!(parse_i32("99999999999999999999"), None);
    assert_eq!(parse_i32("3.14"), None);
    assert_eq!(parse_i32(""), None);
    assert_eq!(parse_i32("-"), None);
    assert_eq!(parse_i32("12a"), None);
}

#[test]
fn test_arguments_typed_reads() {
    let a = Arguments::new(vec![
        "exit".to_string(),
        "42".to_string(),
        "extra".to_string(),
    ]);
    assert_eq!(a.cmd(), "exit");
    assert_eq!(a.len(), 2);
    assert_eq!(a.get_raw(), vec!["42", "extra"]);
    assert_eq!(a.get_int(0, 0), 42);
    assert_eq!(a.get_int(1, 7), 7);
    assert_eq!(a.get_int(5, 9), 9);
    assert_eq!(a.get_str(1, String::new()), "extra");
    assert_eq!(a.get_str(5, "~".to_string()), "~");
}
