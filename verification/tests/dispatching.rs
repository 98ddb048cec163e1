use minishell::command::{parse, OutputTarget};
use minishell::dispatch::{
    cd_failure, cd_target, classify, command_not_found, external_result, run_echo, run_pwd,
    run_type, CommandKind,
};
use minishell::search::{candidate_path, file_on_path};
use minishell::token::WriteType;

fn strings(words: &[&str]) -> Vec<String> {
    let mut v = Vec::new();
    for w in words {
        v.push(w.to_string());
    }
    v
}

#[test]
fn classify_knows_every_builtin() {
    assert_eq!(classify("exit"), CommandKind::Exit);
    assert_eq!(classify("echo"), CommandKind::Echo);
    assert_eq!(classify("type"), CommandKind::Type);
    assert_eq!(classify("pwd"), CommandKind::Pwd);
    assert_eq!(classify("cd"), CommandKind::Cd);
    assert_eq!(classify("ls"), CommandKind::External);
    assert_eq!(classify(""), CommandKind::External);
}

#[test]
fn echo_joins_arguments_with_single_spaces() {
    let r = run_echo(&strings(&["a", "b", "c"]));
    assert_eq!(r.stdout_text, "a b c");
    assert_eq!(r.stderr_text, "");
}

#[test]
fn echo_preserves_spaces_inside_one_argument() {
    let cmd = parse("echo 'a  b'");
    let r = run_echo(&cmd.args);
    assert_eq!(r.stdout_text, "a  b");
}

#[test]
fn echo_resolves_double_quote_escapes() {
    let cmd = parse(r#"echo "hello\"insidequotes"script\"#);
    let r = run_echo(&cmd.args);
    assert_eq!(r.stdout_text, r#"hello"insidequotesscript"#);
}

#[test]
fn echo_collapses_double_backslash_in_double_quotes() {
    let cmd = parse(r#"echo "hello'script'\\n'world""#);
    let r = run_echo(&cmd.args);
    assert_eq!(r.stdout_text, r#"hello'script'\n'world"#);
}

#[test]
fn echo_with_no_arguments_owes_nothing() {
    let r = run_echo(&strings(&[]));
    assert_eq!(r.stdout_text, "");
    assert_eq!(r.stderr_text, "");
}

#[test]
fn type_reports_exactly_the_fixed_builtin_set() {
    // The set that `type` answers for is exit/echo/type/pwd — cd is not in
    // it, so without a search-path hit it is reported as not found.
    for name in ["exit", "echo", "type", "pwd"] {
        let r = run_type(name, &None);
        assert_eq!(r.stdout_text, format!("{} is a shell builtin", name));
        assert_eq!(r.stderr_text, "");
    }
    let r = run_type("cd", &None);
    assert_eq!(r.stdout_text, "");
    assert_eq!(r.stderr_text, "cd: not found");
}

#[test]
fn type_reports_a_located_external() {
    let r = run_type("ls", &Some("/bin/ls".to_string()));
    assert_eq!(r.stdout_text, "ls is /bin/ls");
    assert_eq!(r.stderr_text, "");
}

#[test]
fn type_prefers_builtin_over_located_path() {
    let r = run_type("echo", &Some("/bin/echo".to_string()));
    assert_eq!(r.stdout_text, "echo is a shell builtin");
}

#[test]
fn pwd_reports_directory_or_diagnostic() {
    let r = run_pwd(&Ok("/tmp/here".to_string()));
    assert_eq!(r.stdout_text, "/tmp/here");
    assert_eq!(r.stderr_text, "");
    let r = run_pwd(&Err("denied".to_string()));
    assert_eq!(r.stdout_text, "");
    assert_eq!(r.stderr_text, "Error: denied");
}

#[test]
fn cd_substitutes_home_for_every_tilde() {
    let t = cd_target("~/x", &Some("/home/u".to_string()));
    assert_eq!(t, Some("/home/u/x".to_string()));
    let t = cd_target("a~b~", &Some("Z".to_string()));
    assert_eq!(t, Some("aZbZ".to_string()));
}

#[test]
fn cd_without_home_has_no_target() {
    assert_eq!(cd_target("~", &None), None);
    let r = cd_failure("~");
    assert_eq!(r.stdout_text, "");
    assert_eq!(r.stderr_text, "cd: ~: No such file or directory");
}

#[test]
fn cd_takes_plain_argument_verbatim() {
    assert_eq!(cd_target("/tmp", &None), Some("/tmp".to_string()));
    let r = cd_failure("/missing");
    assert_eq!(r.stderr_text, "cd: /missing: No such file or directory");
}

#[test]
fn unknown_command_message_goes_to_stderr_only() {
    let cmd = parse("nonexistent_cmd 1>out.txt");
    assert_eq!(cmd.name, "nonexistent_cmd");
    assert!(
        matches!(cmd.stdout_target, OutputTarget::File(ref p, WriteType::Overwrite) if p == "out.txt")
    );
    let r = command_not_found(&cmd.name);
    // The redirected stdout file receives nothing: the message is owed to
    // stderr alone, and an empty stdout text is never written.
    assert_eq!(r.stdout_text, "");
    assert_eq!(r.stderr_text, "nonexistent_cmd: command not found");
}

#[test]
fn append_redirection_keeps_append_mode_on_every_parse() {
    // Two identical invocations both carry the append mode, which opens the
    // file without truncating it — so the second write lands after the
    // first.
    for _ in 0..2 {
        let cmd = parse("echo foo >>out.txt");
        assert_eq!(cmd.name, "echo");
        assert!(
            matches!(cmd.stdout_target, OutputTarget::File(ref p, WriteType::Append) if p == "out.txt")
        );
        let r = run_echo(&cmd.args);
        assert_eq!(r.stdout_text, "foo");
    }
}

#[test]
fn external_streams_are_trimmed_of_trailing_whitespace() {
    let out: Vec<u8> = b"hello world\n".to_vec();
    let err: Vec<u8> = b"  oops\t \n".to_vec();
    let r = external_result(&out, &err);
    assert_eq!(r.stdout_text, "hello world");
    assert_eq!(r.stderr_text, "  oops");
}

#[test]
fn external_streams_read_bytes_as_code_points() {
    let out: Vec<u8> = vec![0x68, 0x69, 0xe9];
    let r = external_result(&out, &Vec::new());
    assert_eq!(r.stdout_text, "hi\u{e9}");
    assert_eq!(r.stderr_text, "");
}

#[test]
fn file_on_path_takes_the_first_hit_in_order() {
    let dirs = strings(&["/usr/bin", "/bin", "/sbin"]);
    let exists = vec![false, true, true];
    assert_eq!(file_on_path("ls", &dirs, &exists), Some("/bin/ls".to_string()));
}

#[test]
fn file_on_path_without_hit_finds_nothing() {
    let dirs = strings(&["/usr/bin", "/bin"]);
    let exists = vec![false, false];
    assert_eq!(file_on_path("nothing_here", &dirs, &exists), None);
    assert_eq!(file_on_path("x", &Vec::new(), &Vec::new()), None);
}

#[test]
fn candidate_path_joins_directory_and_file() {
    assert_eq!(candidate_path("/usr/bin", "ls"), "/usr/bin/ls");
}
