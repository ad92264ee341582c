use shell_core::builtins::{
    echo_output, exit_code_from_args, exit_directive, expand_tilde, parse_i32, type_response,
};
use shell_core::executor::{
    last_redirect_index, not_found_message, spawn_error_message, status_after_wait,
    STATUS_NOT_FOUND, STATUS_SPAWN_FAILED,
};
use shell_core::lexer::tokenize;
use shell_core::parser::{
    builtin_lookup, parse, parse_line, BuiltinKind, Command, ParseError, Redirect, RedirMode,
    RedirStream,
};
use shell_core::resolver::{
    candidate_path, direct_candidate, has_slash, resolve_with_flags, split_search_path,
};
use shell_core::state::ShellState;

fn toks(line: &str) -> Vec<String> {
    tokenize(line)
}

#[test]
fn tokenize_simple_words() {
    assert_eq!(toks("echo hello"), vec!["echo", "hello"]);
}

#[test]
fn tokenize_collapses_runs_of_whitespace() {
    assert_eq!(toks("echo   a \t  b  "), vec!["echo", "a", "b"]);
    assert_eq!(toks("  \t "), Vec::<String>::new());
}

#[test]
fn tokenize_quotes_preserve_inner_whitespace() {
    assert_eq!(toks("echo \"a  b\" 'c d'"), vec!["echo", "a  b", "c d"]);
}

#[test]
fn tokenize_double_quote_escapes() {
    // Inside double quotes a backslash escapes only \, ", $ and newline;
    // before anything else it stays literal.
    assert_eq!(toks("echo \"x\\\"y\\z\""), vec!["echo", "x\"y\\z"]);
    assert_eq!(toks("echo \"a\\$b\\\\c\""), vec!["echo", "a$b\\c"]);
}

#[test]
fn tokenize_single_quotes_escape_nothing() {
    assert_eq!(toks("echo 'a\\b \"c\"'"), vec!["echo", "a\\b \"c\""]);
}

#[test]
fn tokenize_unterminated_quote_runs_to_end_of_line() {
    assert_eq!(toks("echo 'abc"), vec!["echo", "abc"]);
    assert_eq!(toks("echo \"a b"), vec!["echo", "a b"]);
}

#[test]
fn tokenize_backslash_outside_quotes() {
    assert_eq!(toks("a\\ b"), vec!["a b"]);
    assert_eq!(toks("\\'x"), vec!["'x"]);
    // A trailing backslash with nothing to escape is discarded.
    assert_eq!(toks("ab\\"), vec!["ab"]);
}

#[test]
fn tokenize_empty_quotes_make_empty_token() {
    assert_eq!(toks("echo '' x"), vec!["echo", "", "x"]);
    assert_eq!(toks("\"\""), vec![""]);
}

#[test]
fn parse_empty_token_list_is_empty_command() {
    assert_eq!(parse(&Vec::new()), Err(ParseError::EmptyCommand));
    assert_eq!(parse_line("   \t "), Err(ParseError::EmptyCommand));
}

#[test]
fn parse_trailing_redirection_operator_fails() {
    assert_eq!(parse_line("echo hi >"), Err(ParseError::RedirectionMissingTarget));
    assert_eq!(parse_line("ls 2>>"), Err(ParseError::RedirectionMissingTarget));
}

#[test]
fn parse_builtin_with_redirection() {
    let cmd = parse_line("echo hi > /tmp/out.txt").unwrap();
    assert_eq!(
        cmd,
        Command::Builtin {
            which: BuiltinKind::Echo,
            args: vec!["hi".to_string()],
            redirects: vec![Redirect {
                stream: RedirStream::Stdout,
                mode: RedirMode::Truncate,
                target: "/tmp/out.txt".to_string(),
            }],
        }
    );
}

#[test]
fn parse_all_redirection_operators() {
    let cmd = parse_line("prog a >> out 2> err 2>> err2 b").unwrap();
    assert_eq!(
        cmd,
        Command::External {
            name: "prog".to_string(),
            args: vec!["a".to_string(), "b".to_string()],
            redirects: vec![
                Redirect {
                    stream: RedirStream::Stdout,
                    mode: RedirMode::Append,
                    target: "out".to_string(),
                },
                Redirect {
                    stream: RedirStream::Stderr,
                    mode: RedirMode::Truncate,
                    target: "err".to_string(),
                },
                Redirect {
                    stream: RedirStream::Stderr,
                    mode: RedirMode::Append,
                    target: "err2".to_string(),
                },
            ],
        }
    );
}

#[test]
fn parse_external_command() {
    let cmd = parse_line("ls -l /tmp").unwrap();
    assert_eq!(
        cmd,
        Command::External {
            name: "ls".to_string(),
            args: vec!["-l".to_string(), "/tmp".to_string()],
            redirects: Vec::new(),
        }
    );
}

#[test]
fn parse_quoted_echo_keeps_arguments() {
    // Round trip: the single command echo with its two quoted arguments.
    let cmd = parse_line("echo \"a  b\" 'c d'").unwrap();
    assert_eq!(
        cmd,
        Command::Builtin {
            which: BuiltinKind::Echo,
            args: vec!["a  b".to_string(), "c d".to_string()],
            redirects: Vec::new(),
        }
    );
}

#[test]
fn builtin_lookup_is_case_sensitive() {
    assert_eq!(builtin_lookup("exit"), Some(BuiltinKind::Exit));
    assert_eq!(builtin_lookup("echo"), Some(BuiltinKind::Echo));
    assert_eq!(builtin_lookup("type"), Some(BuiltinKind::Type));
    assert_eq!(builtin_lookup("cd"), Some(BuiltinKind::Cd));
    assert_eq!(builtin_lookup("pwd"), Some(BuiltinKind::Pwd));
    assert_eq!(builtin_lookup("Echo"), None);
    assert_eq!(builtin_lookup("exit "), None);
    assert_eq!(builtin_lookup("nonexistentcmd123"), None);
}

#[test]
fn type_reports_builtins() {
    for name in ["exit", "echo", "type"] {
        let (text, status) = type_response(name, &None);
        assert_eq!(text, format!("{} is a shell builtin", name));
        assert_eq!(status, 0);
    }
}

#[test]
fn type_reports_resolved_path() {
    let (text, status) = type_response("ls", &Some("/bin/ls".to_string()));
    assert_eq!(text, "ls is /bin/ls");
    assert_eq!(status, 0);
}

#[test]
fn type_reports_not_found_with_status_1() {
    let (text, status) = type_response("nonexistentcmd123", &None);
    assert_eq!(text, "nonexistentcmd123: not found");
    assert_eq!(status, 1);
}

#[test]
fn resolution_takes_first_match_in_path_order() {
    let dirs = split_search_path("/usr/bin:/bin");
    assert_eq!(dirs, vec!["/usr/bin", "/bin"]);
    // /bin/ls exists, /usr/bin/ls does not.
    let r = resolve_with_flags(&dirs, "ls", &vec![false, true]);
    assert_eq!(r, Some("/bin/ls".to_string()));
    // When both exist the earlier directory shadows the later one.
    let r = resolve_with_flags(&dirs, "ls", &vec![true, true]);
    assert_eq!(r, Some("/usr/bin/ls".to_string()));
    let r = resolve_with_flags(&dirs, "ls", &vec![false, false]);
    assert_eq!(r, None);
}

#[test]
fn split_search_path_keeps_empty_entries() {
    assert_eq!(split_search_path("a::b"), vec!["a", "", "b"]);
    assert_eq!(split_search_path(""), vec![""]);
    assert_eq!(split_search_path("/bin"), vec!["/bin"]);
}

#[test]
fn candidate_paths() {
    assert_eq!(candidate_path("/bin", "ls"), "/bin/ls");
    assert!(has_slash("./x"));
    assert!(!has_slash("ls"));
    assert_eq!(direct_candidate("/abs/prog", "/cwd"), "/abs/prog");
    assert_eq!(direct_candidate("sub/prog", "/cwd"), "/cwd/sub/prog");
}

#[test]
fn exit_terminates_with_given_or_default_code() {
    let cmd = parse_line("exit 3").unwrap();
    assert_eq!(exit_directive(&cmd), Some(3));
    let cmd = parse_line("exit").unwrap();
    assert_eq!(exit_directive(&cmd), Some(0));
    let cmd = parse_line("exit -5").unwrap();
    assert_eq!(exit_directive(&cmd), Some(-5));
    // A non-integer or overlarge argument falls back to the default.
    let cmd = parse_line("exit xyz").unwrap();
    assert_eq!(exit_directive(&cmd), Some(0));
    let cmd = parse_line("exit 99999999999999999999").unwrap();
    assert_eq!(exit_directive(&cmd), Some(0));
    // Nothing but exit terminates the loop.
    let cmd = parse_line("echo hi").unwrap();
    assert_eq!(exit_directive(&cmd), None);
    let cmd = parse_line("ls").unwrap();
    assert_eq!(exit_directive(&cmd), None);
}

#[test]
fn parse_i32_exact_bounds() {
    assert_eq!(parse_i32("0"), Some(0));
    assert_eq!(parse_i32("42"), Some(42));
    assert_eq!(parse_i32("-7"), Some(-7));
    assert_eq!(parse_i32("2147483647"), Some(i32::MAX));
    assert_eq!(parse_i32("-2147483648"), Some(i32::MIN));
    assert_eq!(parse_i32("2147483648"), None);
    assert_eq!(parse_i32("-2147483649"), None);
    assert_eq!(parse_i32(""), None);
    assert_eq!(parse_i32("-"), None);
    assert_eq!(parse_i32("12a"), None);
    assert_eq!(parse_i32("+3"), None);
    assert_eq!(parse_i32("007"), Some(7));
}

#[test]
fn exit_code_defaults_to_zero() {
    assert_eq!(exit_code_from_args(&Vec::new()), 0);
    assert_eq!(exit_code_from_args(&vec!["9".to_string()]), 9);
    assert_eq!(exit_code_from_args(&vec!["no".to_string()]), 0);
}

#[test]
fn echo_joins_with_single_spaces_and_newline() {
    let args = vec!["a".to_string(), "b".to_string(), "c".to_string()];
    assert_eq!(echo_output(&args), "a b c\n");
    assert_eq!(echo_output(&vec!["hi".to_string()]), "hi\n");
    assert_eq!(echo_output(&Vec::new()), "\n");
    assert_eq!(echo_output(&vec!["a  b".to_string(), "c d".to_string()]), "a  b c d\n");
}

#[test]
fn child_status_propagates() {
    assert_eq!(status_after_wait(Some(5), None), 5);
    assert_eq!(status_after_wait(Some(0), Some(9)), 0);
    // Terminated by a signal: the POSIX convention 128 + signal number.
    assert_eq!(status_after_wait(None, Some(9)), 137);
    assert_eq!(STATUS_NOT_FOUND, 127);
    assert_eq!(STATUS_SPAWN_FAILED, 126);
}

#[test]
fn failure_report_lines() {
    assert_eq!(not_found_message("nonexistentcmd123"), "nonexistentcmd123: not found");
    assert_eq!(spawn_error_message("prog", "Permission denied"), "prog: Permission denied");
    assert_eq!(
        ParseError::RedirectionMissingTarget.message(),
        "syntax error: redirection without a target"
    );
    assert_eq!(ParseError::EmptyCommand.message(), "no command given");
}

#[test]
fn tilde_expansion_in_cd() {
    assert_eq!(expand_tilde("~", "/home/u"), "/home/u");
    assert_eq!(expand_tilde("~/x/y", "/home/u"), "/home/u/x/y");
    assert_eq!(expand_tilde("~other", "/home/u"), "~other");
    assert_eq!(expand_tilde("/tmp", "/home/u"), "/tmp");
}

#[test]
fn cd_success_and_failure() {
    let mut st = ShellState::new("/start".to_string());
    assert_eq!(st.last_status, 0);
    let msg = st.cd_apply("~/w", "/home/u/w".to_string(), true);
    assert_eq!(msg, None);
    assert_eq!(st.cwd, "/home/u/w");
    assert_eq!(st.last_status, 0);
    let msg = st.cd_apply("nope", "/home/u/w/nope".to_string(), false);
    assert_eq!(msg, Some("cd: nope: No such file or directory".to_string()));
    assert_eq!(st.cwd, "/home/u/w");
    assert_eq!(st.last_status, 1);
}

#[test]
fn pwd_prints_working_directory() {
    let st = ShellState::new("/tmp".to_string());
    assert_eq!(st.pwd_output(), "/tmp\n");
}

#[test]
fn state_records_status() {
    let mut st = ShellState::new("/".to_string());
    st.set_status(127);
    assert_eq!(st.last_status, 127);
    assert_eq!(st.cwd, "/");
}

#[test]
fn last_redirection_per_stream_wins() {
    let cmd = parse_line("echo hi > a > b 2> c").unwrap();
    let redirects = match &cmd {
        Command::Builtin { redirects, .. } => redirects.clone(),
        Command::External { redirects, .. } => redirects.clone(),
    };
    let ix = last_redirect_index(&redirects, RedirStream::Stdout).unwrap();
    assert_eq!(redirects[ix].target, "b");
    assert_eq!(redirects[ix].mode, RedirMode::Truncate);
    let ix = last_redirect_index(&redirects, RedirStream::Stderr).unwrap();
    assert_eq!(redirects[ix].target, "c");
    let none = last_redirect_index(&Vec::new(), RedirStream::Stdout);
    assert_eq!(none, None);
}

#[test]
fn redirected_echo_output_text() {
    // `echo hi > /tmp/out.txt`: what the file receives is exactly the
    // echo output, and nothing is left for standard output.
    let cmd = parse_line("echo hi > /tmp/out.txt").unwrap();
    match &cmd {
        Command::Builtin { which, args, redirects } => {
            assert_eq!(*which, BuiltinKind::Echo);
            assert_eq!(echo_output(args), "hi\n");
            assert_eq!(redirects.len(), 1);
            assert_eq!(redirects[0].target, "/tmp/out.txt");
            assert_eq!(redirects[0].mode, RedirMode::Truncate);
        }
        _ => panic!("expected a builtin"),
    }
    let cmd = parse_line("echo hi >> /tmp/out.txt").unwrap();
    match &cmd {
        Command::Builtin { redirects, .. } => {
            assert_eq!(redirects[0].mode, RedirMode::Append);
        }
        _ => panic!("expected a builtin"),
    }
}
