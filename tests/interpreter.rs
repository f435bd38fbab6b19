use minishell::{
    builtin_message, candidate_paths, cd_destination, cd_failure_message, chars_of,
    command_not_found_message, decimal_string, first_usable, format_error_message, has_exec_bit,
    is_builtin, is_whitespace, join, parse_command, parse_i32, rest_after_first_word,
    split_words, status_message, string_of, type_message, ChildStatus, Command,
};

fn strings(v: &[&str]) -> Vec<String> {
    v.iter().map(|s| s.to_string()).collect()
}

#[test]
fn blank_lines_ask_for_nothing() {
    for line in ["", " ", "   ", "\t", " \t \n ", "\u{3000}\u{a0}"] {
        assert_eq!(parse_command(line), Command::Blank);
    }
}

#[test]
fn words_split_on_runs_of_whitespace() {
    assert_eq!(split_words("  ls   -l\t/tmp  "), strings(&["ls", "-l", "/tmp"]));
    assert_eq!(split_words(""), Vec::<String>::new());
    assert_eq!(split_words("one"), strings(&["one"]));
    assert_eq!(split_words("a\u{2003}b"), strings(&["a", "b"]));
}

#[test]
fn whitespace_set() {
    assert!(is_whitespace(' '));
    assert!(is_whitespace('\n'));
    assert!(is_whitespace('\u{85}'));
    assert!(!is_whitespace('a'));
    assert!(!is_whitespace('\u{200b}'));
}

#[test]
fn echo_keeps_inner_spacing() {
    assert_eq!(parse_command("echo a   b"), Command::Echo("a   b".to_string()));
    assert_eq!(parse_command("echo    hello world"), Command::Echo("hello world".to_string()));
    assert_eq!(parse_command("echo"), Command::Echo(String::new()));
    assert_eq!(parse_command("echo\tx"), Command::Echo("x".to_string()));
}

#[test]
fn rest_after_first_word_skips_leading_space() {
    let r = rest_after_first_word(&chars_of("  say   it  twice"));
    assert_eq!(string_of(&r), "it  twice");
    assert_eq!(string_of(&rest_after_first_word(&chars_of("word"))), "");
}

#[test]
fn exit_with_a_code() {
    assert_eq!(parse_command("exit 0"), Command::Exit(0));
    assert_eq!(parse_command("exit 42"), Command::Exit(42));
    assert_eq!(parse_command("exit -3"), Command::Exit(-3));
}

#[test]
fn exit_with_bad_arguments_is_a_format_error() {
    for line in ["exit", "exit abc", "exit 1 2", "exit 99999999999"] {
        assert_eq!(parse_command(line), Command::FormatError("exit".to_string()));
    }
    assert_eq!(format_error_message("exit"), "Invalid exit command format");
}

#[test]
fn integer_parsing() {
    let p = |s: &str| parse_i32(&chars_of(s));
    assert_eq!(p("0"), Some(0));
    assert_eq!(p("+17"), Some(17));
    assert_eq!(p("-2147483648"), Some(i32::MIN));
    assert_eq!(p("2147483647"), Some(i32::MAX));
    assert_eq!(p("2147483648"), None);
    assert_eq!(p("-2147483649"), None);
    assert_eq!(p(""), None);
    assert_eq!(p("-"), None);
    assert_eq!(p("+"), None);
    assert_eq!(p("1a"), None);
    assert_eq!(p("00012"), Some(12));
}

#[test]
fn decimal_formatting() {
    assert_eq!(decimal_string(0), "0");
    assert_eq!(decimal_string(7), "7");
    assert_eq!(decimal_string(-1), "-1");
    assert_eq!(decimal_string(1200), "1200");
    assert_eq!(decimal_string(i32::MIN), "-2147483648");
    assert_eq!(decimal_string(i32::MAX), "2147483647");
}

#[test]
fn type_reports_builtins() {
    assert_eq!(parse_command("type echo"), Command::Type("echo".to_string()));
    assert_eq!(type_message("echo", None), "echo is a shell builtin");
    assert_eq!(type_message("cd", Some("/usr/bin/cd")), "cd is a shell builtin");
    assert_eq!(type_message("nonexistent_cmd_xyz", None), "nonexistent_cmd_xyz: not found");
}

#[test]
fn type_reports_the_first_match() {
    let paths = candidate_paths(Some("/opt/none:/usr/bin:/bin"), "ls");
    assert_eq!(paths, strings(&["/opt/none/ls", "/usr/bin/ls", "/bin/ls"]));
    let found = first_usable(&paths, &vec![false, true, true]);
    assert_eq!(found, Some("/usr/bin/ls".to_string()));
    assert_eq!(type_message("ls", found.as_deref()), "ls is /usr/bin/ls");
}

#[test]
fn type_needs_one_argument() {
    assert_eq!(parse_command("type"), Command::FormatError("type".to_string()));
    assert_eq!(parse_command("type a b"), Command::FormatError("type".to_string()));
}

#[test]
fn search_path_edges() {
    assert_eq!(candidate_paths(None, "ls"), Vec::<String>::new());
    assert_eq!(candidate_paths(Some(""), "ls"), Vec::<String>::new());
    assert_eq!(candidate_paths(Some("/a/:b::"), "x"), strings(&["/a/x", "b/x", "x", "x"]));
    assert_eq!(candidate_paths(Some("/usr/bin"), "/bin/echo"), strings(&["/bin/echo"]));
    assert_eq!(first_usable(&strings(&["a", "b"]), &vec![false, false]), None);
}

#[test]
fn joining_paths() {
    let j = |d: &str, n: &str| string_of(&join(&chars_of(d), &chars_of(n)));
    assert_eq!(j("/usr/bin", "ls"), "/usr/bin/ls");
    assert_eq!(j("/usr/bin/", "ls"), "/usr/bin/ls");
    assert_eq!(j("", "ls"), "ls");
    assert_eq!(j("/usr", "/bin/ls"), "/bin/ls");
}

#[test]
fn execute_permission_bits() {
    assert!(has_exec_bit(0o755));
    assert!(has_exec_bit(0o001));
    assert!(has_exec_bit(0o010));
    assert!(has_exec_bit(0o100));
    assert!(!has_exec_bit(0o644));
    assert!(!has_exec_bit(0o100666 & !0o111));
}

#[test]
fn cd_targets_and_failures() {
    assert_eq!(parse_command("cd /nonexistent/dir"), Command::Cd("/nonexistent/dir".to_string()));
    assert_eq!(
        cd_failure_message("/nonexistent/dir"),
        "cd: /nonexistent/dir: No such file or directory"
    );
    assert_eq!(cd_destination("~", Some("/home/me")), Some("/home/me".to_string()));
    assert_eq!(cd_destination("~", None), None);
    assert_eq!(cd_destination("../x", Some("/home/me")), Some("../x".to_string()));
    assert_eq!(cd_destination("~user", None), Some("~user".to_string()));
    assert_eq!(parse_command("cd"), Command::FormatError("cd".to_string()));
    assert_eq!(parse_command("cd a b"), Command::FormatError("cd".to_string()));
}

#[test]
fn pwd_and_its_arity() {
    assert_eq!(parse_command("pwd"), Command::Pwd);
    assert_eq!(parse_command("pwd now"), Command::Builtin("pwd".to_string()));
    assert_eq!(builtin_message("pwd"), "pwd is a shell builtin");
}

#[test]
fn external_commands_keep_their_arguments() {
    assert_eq!(
        parse_command("/bin/echo hi"),
        Command::External("/bin/echo".to_string(), strings(&["hi"]))
    );
    assert_eq!(
        parse_command("  grep  -n   x  "),
        Command::External("grep".to_string(), strings(&["-n", "x"]))
    );
    assert_eq!(command_not_found_message("frob"), "frob: command not found");
}

#[test]
fn child_status_messages() {
    assert_eq!(status_message(&ChildStatus::Exited(0)), None);
    assert_eq!(
        status_message(&ChildStatus::Exited(1)),
        Some("Command failed with status: 1".to_string())
    );
    assert_eq!(
        status_message(&ChildStatus::Exited(127)),
        Some("Command failed with status: 127".to_string())
    );
    assert_eq!(
        status_message(&ChildStatus::Exited(-2)),
        Some("Command failed with status: -2".to_string())
    );
    assert_eq!(
        status_message(&ChildStatus::LaunchFailed),
        Some("Failed to execute command".to_string())
    );
    assert_eq!(
        status_message(&ChildStatus::Signaled),
        Some("Command terminated by a signal".to_string())
    );
}

#[test]
fn builtins_win_over_programs() {
    for name in ["echo", "exit", "type", "pwd", "cd"] {
        assert!(is_builtin(name));
    }
    assert!(!is_builtin("ls"));
    assert!(!is_builtin("ech"));
    assert!(!is_builtin("echoo"));
    // Even when a directory on the search path holds a program named echo.
    assert_eq!(parse_command("echo x"), Command::Echo("x".to_string()));
    assert_eq!(type_message("echo", Some("/tmp/bin/echo")), "echo is a shell builtin");
}
