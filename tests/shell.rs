use minishell::builtins::{register_builtins, Builtin};
use minishell::dispatch::{execute_command, exit_code, run_shell, Action};
use minishell::number::parse_i32;
use minishell::report::{
    cd_failure_message, describe_result, prepare_launch, pwd_report, spawn_failure_message,
};
use minishell::search::{
    candidate_path, first_executable, has_execute_bit, path_dirs, search_candidates,
};
use minishell::words::{is_space_char, join_from, parse_command};

fn strings(ws: &[&str]) -> Vec<String> {
    ws.iter().map(|w| w.to_string()).collect()
}

fn printed(a: Action) -> String {
    match a {
        Action::Print(t) => t,
        other => panic!("expected text to print, got {:?}", other),
    }
}

fn line(text: &str) -> Action {
    run_shell(Some(text))
}

#[test]
fn blank_lines_do_nothing() {
    for text in ["", " ", "   \t  ", "\n", " \t\r\n", "\u{3000}\u{a0}"] {
        assert!(matches!(line(text), Action::Nothing), "line {:?}", text);
    }
}

#[test]
fn echo_joins_arguments() {
    assert_eq!(printed(line("echo a b c")), "a b c\n");
    assert_eq!(printed(line("echo")), "\n");
    assert_eq!(printed(line("  echo   a\t b  \n")), "a b\n");
}

#[test]
fn exit_statuses() {
    assert!(matches!(line("exit"), Action::Terminate(0)));
    assert!(matches!(line("exit 7"), Action::Terminate(7)));
    assert!(matches!(line("exit abc"), Action::Terminate(1)));
    assert!(matches!(line("exit -3"), Action::Terminate(-3)));
    assert!(matches!(line("exit +5"), Action::Terminate(5)));
    assert!(matches!(line("exit 2147483648"), Action::Terminate(1)));
    assert!(matches!(line("exit -2147483648"), Action::Terminate(-2147483648)));
    assert!(matches!(line("exit 7 8"), Action::Terminate(7)));
}

#[test]
fn exit_code_of_parts() {
    assert_eq!(exit_code(&strings(&["exit"])), 0);
    assert_eq!(exit_code(&strings(&["exit", "42"])), 42);
    assert_eq!(exit_code(&strings(&["exit", "4x"])), 1);
}

#[test]
fn parse_i32_cases() {
    assert_eq!(parse_i32("0"), Some(0));
    assert_eq!(parse_i32("007"), Some(7));
    assert_eq!(parse_i32("2147483647"), Some(2147483647));
    assert_eq!(parse_i32("-2147483648"), Some(-2147483648));
    assert_eq!(parse_i32("2147483648"), None);
    assert_eq!(parse_i32("99999999999999999999"), None);
    assert_eq!(parse_i32(""), None);
    assert_eq!(parse_i32("-"), None);
    assert_eq!(parse_i32("+"), None);
    assert_eq!(parse_i32("1 2"), None);
    assert_eq!(parse_i32("--1"), None);
    assert_eq!(parse_i32("+12"), Some(12));
}

#[test]
fn type_reports_builtins() {
    for name in ["cd", "echo", "exit", "pwd", "type"] {
        assert_eq!(
            printed(line(&format!("type {}", name))),
            format!("{} is a shell builtin\n", name)
        );
    }
    assert_eq!(printed(line("type")), "type: missing operand\n");
}

#[test]
fn type_reports_search_results() {
    match line("type nonexistent_xyz") {
        Action::Describe(n) => assert_eq!(n, "nonexistent_xyz"),
        other => panic!("unexpected {:?}", other),
    }
    let name = "nonexistent_xyz".to_string();
    assert_eq!(describe_result(&name, None), "nonexistent_xyz: not found\n");
    let ls = "ls".to_string();
    assert_eq!(describe_result(&ls, Some("/bin/ls".to_string())), "ls is /bin/ls\n");
}

#[test]
fn cd_and_pwd_actions() {
    match line("cd /tmp") {
        Action::ChangeDir(p) => assert_eq!(p, "/tmp"),
        other => panic!("unexpected {:?}", other),
    }
    assert_eq!(printed(line("cd")), "cd: missing operand\n");
    assert!(matches!(line("pwd"), Action::PrintWorkingDir));
    assert_eq!(
        cd_failure_message(&"/no/such/dir".to_string()),
        "cd: /no/such/dir: No such file or directory\n"
    );
}

#[test]
fn pwd_reports() {
    assert_eq!(pwd_report(Ok(Some("/tmp".to_string()))), "/tmp\n");
    assert_eq!(
        pwd_report(Ok(None)),
        "Error: current directory path is not valid UTF-8\n"
    );
    assert_eq!(
        pwd_report(Err("gone".to_string())),
        "pwd: error retrieving current directory: gone\n"
    );
}

#[test]
fn later_directory_is_found() {
    let cands = search_candidates("/first:/second", &"foo".to_string());
    assert_eq!(cands, strings(&["/first/foo", "/second/foo"]));
    assert_eq!(
        first_executable(&cands, &vec![false, true]),
        Some("/second/foo".to_string())
    );
    assert_eq!(
        first_executable(&cands, &vec![true, true]),
        Some("/first/foo".to_string())
    );
    assert_eq!(first_executable(&cands, &vec![false, false]), None);
}

#[test]
fn search_path_splitting() {
    assert_eq!(path_dirs(""), strings(&[""]));
    assert_eq!(path_dirs("a::b"), strings(&["a", "", "b"]));
    assert_eq!(path_dirs("/bin:"), strings(&["/bin", ""]));
    assert_eq!(
        search_candidates(":/usr/bin/", &"ls".to_string()),
        strings(&["ls", "/usr/bin/ls"])
    );
}

#[test]
fn candidate_paths() {
    let ls = "ls".to_string();
    assert_eq!(candidate_path(&"".to_string(), &ls), "ls");
    assert_eq!(candidate_path(&"/bin".to_string(), &ls), "/bin/ls");
    assert_eq!(candidate_path(&"/bin/".to_string(), &ls), "/bin/ls");
    assert_eq!(candidate_path(&"/bin".to_string(), &"/usr/x".to_string()), "/usr/x");
    assert_eq!(candidate_path(&"bin".to_string(), &"a/b".to_string()), "bin/a/b");
}

#[test]
fn execute_bits() {
    assert!(!has_execute_bit(0o644));
    assert!(has_execute_bit(0o100));
    assert!(has_execute_bit(0o010));
    assert!(has_execute_bit(0o001));
    assert!(has_execute_bit(0o755));
    assert!(!has_execute_bit(0o7666));
}

#[test]
fn unknown_command_is_launched_then_reported() {
    let a = line("zzzznotacommand");
    assert!(!a.ends_session());
    let parts = match a {
        Action::Launch(p) => p,
        other => panic!("unexpected {:?}", other),
    };
    assert_eq!(parts, strings(&["zzzznotacommand"]));
    match prepare_launch(&parts, None) {
        Err(msg) => assert_eq!(msg, "zzzznotacommand: command not found\n"),
        Ok(l) => panic!("unexpected {:?}", l),
    }
}

#[test]
fn launch_keeps_typed_name_and_arguments() {
    let parts = strings(&["ls", "-l", "/tmp"]);
    let l = prepare_launch(&parts, Some("/bin/ls".to_string())).unwrap();
    assert_eq!(l.program, "/bin/ls");
    assert_eq!(l.argv0, "ls");
    assert_eq!(l.args, strings(&["-l", "/tmp"]));
    match line("ls -l /tmp") {
        Action::Launch(p) => assert_eq!(p, parts),
        other => panic!("unexpected {:?}", other),
    }
}

#[test]
fn spawn_failure_text() {
    assert_eq!(
        spawn_failure_message(&"foo".to_string(), &"Permission denied (os error 13)".to_string()),
        "Error executing foo: Permission denied (os error 13)\n"
    );
}

#[test]
fn end_of_input_ends_with_zero() {
    let a = run_shell(None);
    assert!(a.ends_session());
    assert!(matches!(a, Action::Terminate(0)));
    assert!(!line("echo hi").ends_session());
}

#[test]
fn tokenizing() {
    assert_eq!(parse_command("  ls   -l\t/tmp \n"), strings(&["ls", "-l", "/tmp"]));
    assert_eq!(parse_command("a\u{3000}b"), strings(&["a", "b"]));
    assert_eq!(parse_command("héllo wörld"), strings(&["héllo", "wörld"]));
    assert!(parse_command(" \t ").is_empty());
    assert!(is_space_char('\u{85}'));
    assert!(!is_space_char('x'));
}

#[test]
fn joining_words() {
    let parts = strings(&["echo", "x", "y"]);
    assert_eq!(join_from(&parts, 1), "x y");
    assert_eq!(join_from(&parts, 3), "");
    assert_eq!(join_from(&parts, 0), "echo x y");
}

#[test]
fn registry_lookup() {
    let b = register_builtins();
    assert_eq!(b.lookup(&"cd".to_string()), Some(Builtin::Cd));
    assert_eq!(b.lookup(&"echo".to_string()), Some(Builtin::Echo));
    assert_eq!(b.lookup(&"ls".to_string()), None);
    assert_eq!(b.lookup(&"Echo".to_string()), None);
    match execute_command(&b, &strings(&[])) {
        Action::Nothing => {}
        other => panic!("unexpected {:?}", other),
    }
}
