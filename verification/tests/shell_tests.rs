use shell::{
    cd_result, execute, finalize_executions, is_builtin, pwd_result, take_endpoint, tokenize,
    wire_pipeline, CommandOutput, CommandResult, Dispatch, ExecuteArgs, PathIndex, Prompt,
    StageOutcome, TakenEndpoint, RW,
};

fn index(entries: &[(&str, &str)]) -> PathIndex {
    PathIndex::build(
        entries
            .iter()
            .map(|(n, p)| (n.to_string(), p.to_string()))
            .collect(),
    )
}

/// Dispatches one line with the given index and home, expecting a finished
/// result, and returns what rendering would write to stdout and stderr.
fn run_line(line: &str, path: &PathIndex, home: Option<&str>) -> (Option<String>, Option<String>, i32) {
    let words = tokenize(line).unwrap();
    let d = execute(ExecuteArgs {
        params: words,
        path,
        home: home.map(|h| h.to_string()),
    });
    match d {
        Dispatch::Done(r) => (r.rendered_stdout(), r.rendered_stderr(), r.exit_code),
        _ => panic!("expected a finished command"),
    }
}

#[test]
fn test_quote_handling() {
    let idx = index(&[]);
    let out = |line: &str| run_line(line, &idx, None).0.unwrap();
    assert_eq!(out("echo 'hello\\'world'"), "hello\\'world\n");
    assert_eq!(out("echo 'hello\"world'"), "hello\"world\n");
    assert_eq!(out("echo 'hello\\world'"), "hello\\world\n");
    assert_eq!(out("echo \"hello\\\"world\""), "hello\"world\n");
    assert_eq!(out("echo \"hello\\'world\""), "hello\\'world\n");
    assert_eq!(out("echo \"hello\\world\""), "hello\\world\n");
    assert_eq!(out("echo 'hello'\"world\""), "helloworld\n");
    assert_eq!(out("echo \"hello\"'world'"), "helloworld\n");
    assert_eq!(out("echo 'script\\\"worldtest\\\"shell'"), "script\\\"worldtest\\\"shell\n");
    assert_eq!(out("echo \"script\\\"worldtest\\\"shell\""), "script\"worldtest\"shell\n");
    assert!(tokenize("echo 'hello").is_err());
}

#[test]
fn test_escape_handling() {
    let idx = index(&[]);
    let out = |line: &str| run_line(line, &idx, None).0.unwrap();
    assert_eq!(out("echo hello\\ world"), "hello world\n");
    assert_eq!(out("echo hello\\\\world"), "hello\\world\n");
    assert_eq!(out("echo hello\\nworld"), "hellonworld\n");
    assert_eq!(out("echo 'hello\\nworld'"), "hello\\nworld\n");
    // Inside double quotes only `\"` and `\\` escape; `\n` keeps its
    // backslash and no newline appears.
    assert_eq!(out("echo \"hello\\nworld\""), "hello\\nworld\n");
}

#[test]
fn test_token_handling() {
    let idx = index(&[]);
    let out = |line: &str| run_line(line, &idx, None).0.unwrap();
    assert_eq!(out("echo hello world"), "hello world\n");
    assert_eq!(out("echo 'hello world'"), "hello world\n");
    assert_eq!(out("echo \"hello world\""), "hello world\n");
    assert_eq!(out("echo 'hello  world'"), "hello  world\n");
    assert_eq!(out("echo \"hello  world\""), "hello  world\n");
    assert_eq!(out("echo 'hello;world'"), "hello;world\n");
    assert_eq!(out("echo \"hello;world\""), "hello;world\n");
}

#[test]
fn test_command_handling() {
    let idx = index(&[]);
    assert_eq!(run_line("echo hello", &idx, None).0.unwrap(), "hello\n");

    let d = execute(ExecuteArgs { params: tokenize("pwd").unwrap(), path: &idx, home: None });
    assert!(matches!(d, Dispatch::QueryCwd));
    let r = pwd_result("/some/dir".to_string());
    assert!(!r.rendered_stdout().unwrap().trim().is_empty());

    let d = execute(ExecuteArgs { params: tokenize("exit 42").unwrap(), path: &idx, home: None });
    assert!(matches!(d, Dispatch::Exit(42)));

    let (out, err, code) = run_line("nonexistentcommand", &idx, None);
    assert!(out.is_none());
    assert!(err.unwrap().contains("command not found"));
    assert_ne!(code, 0);
}

#[test]
fn test_value_handling() {
    let idx = index(&[]);
    let out = |line: &str| run_line(line, &idx, None).0.unwrap();
    assert_eq!(out("echo 42"), "42\n");
    assert_eq!(out("echo 3.14"), "3.14\n");
    assert_eq!(out("echo 1 2 3"), "1 2 3\n");
    assert_eq!(out("echo '1 2' 3"), "1 2 3\n");
    assert_eq!(out("echo 42 'hello' 3.14"), "42 hello 3.14\n");
    assert_eq!(out("echo \"42\" 'hello' 3.14"), "42 hello 3.14\n");
}

#[test]
fn test_echo_joins_with_single_spaces() {
    let idx = index(&[]);
    let (out, err, code) = run_line("echo hello world", &idx, None);
    assert_eq!(out.unwrap(), "hello world\n");
    assert!(err.is_none());
    assert_eq!(code, 0);
    assert_eq!(run_line("echo", &idx, None).0.unwrap(), "\n");
    assert_eq!(run_line("echo 'a  b' c", &idx, None).0.unwrap(), "a  b c\n");
}

#[test]
fn test_echo_quoted_double_quotes() {
    let idx = index(&[]);
    assert_eq!(run_line("echo \"\\\"q\\\"\"", &idx, None).0.unwrap(), "\"q\"\n");
}

#[test]
fn test_type_builtin() {
    let idx = index(&[]);
    let (out, err, code) = run_line("type echo", &idx, None);
    assert_eq!(out.unwrap(), "echo is a shell builtin\n");
    assert!(err.is_none());
    assert_eq!(code, 0);
}

#[test]
fn test_type_external_and_unknown() {
    let idx = index(&[("cat", "/bin/cat")]);
    let (out, _, code) = run_line("type cat", &idx, None);
    assert_eq!(out.unwrap(), "cat is /bin/cat\n");
    assert_eq!(code, 0);

    let (out, err, code) = run_line("type nonesuch", &idx, None);
    assert!(out.is_none());
    assert_eq!(err.unwrap(), "nonesuch: not found\n");
    assert_eq!(code, 1);
}

#[test]
fn test_unknown_command_is_127() {
    let idx = index(&[("cat", "/bin/cat")]);
    let (out, err, code) = run_line("nosuchcmd", &idx, None);
    assert!(out.is_none());
    assert_eq!(err.unwrap(), "nosuchcmd: command not found\n");
    assert_eq!(code, 127);
}

#[test]
fn test_empty_line_is_a_quiet_no_op() {
    let idx = index(&[]);
    let (out, err, code) = run_line("", &idx, None);
    assert!(out.is_none());
    assert!(err.is_none());
    assert_eq!(code, 0);
}

#[test]
fn test_whitespace_only_line_is_a_quiet_no_op() {
    let idx = index(&[]);
    let (out, err, code) = run_line("   \t ", &idx, None);
    assert!(out.is_none());
    assert!(err.is_none());
    assert_eq!(code, 0);
}

#[test]
fn test_exit_argument_parsing() {
    let idx = index(&[]);
    let exit_code = |line: &str| match execute(ExecuteArgs {
        params: tokenize(line).unwrap(),
        path: &idx,
        home: None,
    }) {
        Dispatch::Exit(c) => c,
        _ => panic!("expected exit"),
    };
    assert_eq!(exit_code("exit 42"), 42);
    assert_eq!(exit_code("exit"), 0);
    assert_eq!(exit_code("exit notanumber"), 0);
    assert_eq!(exit_code("exit 99999999999"), 0);
    assert_eq!(exit_code("exit -1"), -1);
}

#[test]
fn test_cd_expands_tilde_and_reports_failure() {
    let idx = index(&[]);
    let d = execute(ExecuteArgs {
        params: tokenize("cd ~/projects").unwrap(),
        path: &idx,
        home: Some("/home/u".to_string()),
    });
    match d {
        Dispatch::ChangeDir(t) => assert_eq!(t, "/home/u/projects"),
        _ => panic!("expected a directory change"),
    }

    let d = execute(ExecuteArgs {
        params: tokenize("cd").unwrap(),
        path: &idx,
        home: Some("/home/u".to_string()),
    });
    match d {
        Dispatch::ChangeDir(t) => assert_eq!(t, "/home/u"),
        _ => panic!("expected a directory change"),
    }

    let ok = cd_result(&"/tmp".to_string(), true);
    assert_eq!(ok, CommandResult { output: CommandOutput::NoOutput, exit_code: 0 });
    let bad = cd_result(&"/nope".to_string(), false);
    assert_eq!(
        bad.rendered_stderr().unwrap(),
        "cd: /nope: No such file or directory\n"
    );
    assert_eq!(bad.exit_code, 1);
}

#[test]
fn test_cd_without_home_is_an_error() {
    let idx = index(&[]);
    let (out, err, code) = run_line("cd somewhere", &idx, None);
    assert!(out.is_none());
    assert_eq!(err.unwrap(), "cd: HOME not set\n");
    assert_eq!(code, 1);
}

#[test]
fn test_pwd_cd_dot_pwd_is_stable() {
    // `pwd`, then `cd .`, then `pwd`: the reported directory is unchanged
    // (changing to `.` leaves the working directory where it was).
    let idx = index(&[]);
    let cwd = "/work/here".to_string();
    let first = pwd_result(cwd.clone());
    let d = execute(ExecuteArgs {
        params: tokenize("cd .").unwrap(),
        path: &idx,
        home: Some("/home/u".to_string()),
    });
    match d {
        Dispatch::ChangeDir(t) => assert_eq!(t, "."),
        _ => panic!("expected a directory change"),
    }
    let again = pwd_result(cwd);
    assert_eq!(first, again);
    assert_eq!(first.rendered_stdout().unwrap(), "/work/here\n");
}

#[test]
fn test_spawn_uses_indexed_path() {
    let idx = index(&[("cat", "/bin/cat")]);
    let d = execute(ExecuteArgs {
        params: tokenize("cat a.txt b.txt").unwrap(),
        path: &idx,
        home: None,
    });
    match d {
        Dispatch::Spawn(path, name, args) => {
            assert_eq!(path, "/bin/cat");
            assert_eq!(name, "cat");
            assert_eq!(args, vec!["a.txt", "b.txt"]);
        }
        _ => panic!("expected a spawn"),
    }
}

#[test]
fn test_path_index_first_entry_wins() {
    let idx = index(&[("x", "/usr/bin/x"), ("x", "/opt/bin/x"), ("y", "/bin/y")]);
    assert_eq!(idx.len(), 2);
    assert_eq!(idx.lookup("x").unwrap(), "/usr/bin/x");
    assert_eq!(idx.lookup("y").unwrap(), "/bin/y");
    assert!(idx.lookup("z").is_none());
    assert_eq!(idx.keys(), vec!["x", "y"]);
}

#[test]
fn test_path_index_excludes_builtins() {
    let idx = index(&[("echo", "/bin/echo"), ("cat", "/bin/cat")]);
    assert_eq!(idx.len(), 1);
    assert!(idx.lookup("echo").is_none());
    assert!(idx.contains("cat"));
    assert!(is_builtin("pwd"));
    assert!(!is_builtin("cat"));
}

#[test]
fn test_wire_single_stage_inherits_streams() {
    let p = shell::parse(&tokenize("echo hi").unwrap()).unwrap();
    let ios = wire_pipeline(&p).unwrap();
    assert_eq!(ios.len(), 1);
    assert!(matches!(ios[0].stdin, RW::Stdin));
    assert!(matches!(ios[0].stdout, RW::Stdout));
    assert!(matches!(ios[0].stderr, RW::Stderr));
}

#[test]
fn test_wire_pipeline_makes_one_pipe_per_link() {
    let p = shell::parse(&tokenize("echo one | cat | cat").unwrap()).unwrap();
    let mut ios = wire_pipeline(&p).unwrap();
    assert_eq!(ios.len(), 3);
    // One anonymous pipe per adjacent pair: every stage but the first
    // reads a live pipe end, every stage but the last writes one.
    assert!(matches!(ios[0].stdin, RW::Stdin));
    assert!(matches!(ios[0].stdout, RW::WPipe(Some(_))));
    assert!(matches!(ios[1].stdin, RW::RPipe(Some(_))));
    assert!(matches!(ios[1].stdout, RW::WPipe(Some(_))));
    assert!(matches!(ios[2].stdin, RW::RPipe(Some(_))));
    assert!(matches!(ios[2].stdout, RW::Stdout));

    // Taking an endpoint transfers the handle and leaves the slot empty:
    // the parent holds nothing to the pipe afterwards.
    let taken = take_endpoint(&mut ios[1].stdin);
    assert!(matches!(taken, TakenEndpoint::Reader(_)));
    assert!(matches!(ios[1].stdin, RW::RPipe(None)));
    let taken = take_endpoint(&mut ios[0].stdout);
    assert!(matches!(taken, TakenEndpoint::Writer(_)));
    assert!(matches!(ios[0].stdout, RW::WPipe(None)));
}

#[test]
fn test_wire_redirection_beats_pipe() {
    let p = shell::parse(&tokenize("echo hi > out.txt | cat").unwrap()).unwrap();
    let ios = wire_pipeline(&p).unwrap();
    assert_eq!(ios.len(), 2);
    // The file wins the first stage's stdout; the write end of the pipe is
    // dropped, so the second stage reads end-of-file from its pipe.
    match &ios[0].stdout {
        RW::File(path, append) => {
            assert_eq!(path, "out.txt");
            assert!(!append);
        }
        other => panic!("expected a file endpoint, got {:?}", other),
    }
    assert!(matches!(ios[1].stdin, RW::RPipe(Some(_))));
}

#[test]
fn test_wire_append_redirection() {
    let p = shell::parse(&tokenize("cmd >> log.txt 2> err.txt").unwrap()).unwrap();
    let ios = wire_pipeline(&p).unwrap();
    match &ios[0].stdout {
        RW::File(path, append) => {
            assert_eq!(path, "log.txt");
            assert!(*append);
        }
        other => panic!("expected a file endpoint, got {:?}", other),
    }
    match &ios[0].stderr {
        RW::File(path, append) => {
            assert_eq!(path, "err.txt");
            assert!(!append);
        }
        other => panic!("expected a file endpoint, got {:?}", other),
    }
}

#[test]
fn test_take_endpoint_plain_kinds() {
    let mut rw = RW::Stdin;
    assert!(matches!(take_endpoint(&mut rw), TakenEndpoint::Inherit));
    let mut rw = RW::Null;
    assert!(matches!(take_endpoint(&mut rw), TakenEndpoint::Null));
    let mut rw = RW::Pipe;
    assert!(matches!(take_endpoint(&mut rw), TakenEndpoint::Piped));
    let mut rw = RW::File("f.txt".to_string(), true);
    match take_endpoint(&mut rw) {
        TakenEndpoint::File(p, a) => {
            assert_eq!(p, "f.txt");
            assert!(a);
        }
        other => panic!("expected a file endpoint, got {:?}", other),
    }
}

#[test]
fn test_finalize_reports_terminal_stage() {
    let outcomes = vec![
        StageOutcome::Builtin(CommandResult {
            output: CommandOutput::Stdout("ignored".to_string(), false),
            exit_code: 0,
        }),
        StageOutcome::External("captured out".to_string(), "captured err".to_string(), 3),
    ];
    let r = finalize_executions(outcomes);
    assert_eq!(
        r,
        CommandResult {
            output: CommandOutput::StdoutAndStderr(
                "captured out".to_string(),
                "captured err".to_string(),
                true
            ),
            exit_code: 3,
        }
    );
    // Captured external output is flushed verbatim: no newline is added.
    assert_eq!(r.rendered_stdout().unwrap(), "captured out");
    assert_eq!(r.rendered_stderr().unwrap(), "captured err");
}

#[test]
fn test_finalize_of_nothing_is_quiet() {
    let r = finalize_executions(vec![]);
    assert_eq!(r, CommandResult { output: CommandOutput::NoOutput, exit_code: 0 });
    assert!(r.rendered_stdout().is_none());
    assert!(r.rendered_stderr().is_none());
}

#[test]
fn test_finalize_builtin_terminal() {
    let outcomes = vec![StageOutcome::Builtin(CommandResult {
        output: CommandOutput::Stdout("hi".to_string(), false),
        exit_code: 0,
    })];
    let r = finalize_executions(outcomes);
    assert_eq!(r.rendered_stdout().unwrap(), "hi\n");
}

#[test]
fn test_error_result_texts() {
    let r = shell::spawn_error_result(&"prog".to_string(), &"denied".to_string());
    assert_eq!(
        r.rendered_stderr().unwrap(),
        "Failed to spawn command 'prog': denied\n"
    );
    assert_eq!(r.exit_code, 1);
    let r = shell::wait_error_result(&"gone".to_string());
    assert_eq!(
        r.rendered_stderr().unwrap(),
        "Error waiting for intermediate command: gone\n"
    );
    let r = shell::capture_error_result(&"gone".to_string());
    assert_eq!(r.rendered_stderr().unwrap(), "Retrieving output error: gone\n");
}

#[test]
fn test_prompt_candidates() {
    let prompt = Prompt::new(vec!["cat".to_string(), "ls".to_string()]);
    assert_eq!(
        prompt.commands(),
        &vec![
            "echo".to_string(),
            "type".to_string(),
            "exit".to_string(),
            "pwd".to_string(),
            "cd".to_string(),
            "cat".to_string(),
            "ls".to_string()
        ]
    );
}
