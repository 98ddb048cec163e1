use minishell::command::{parse, OutputTarget};
use minishell::quoting::Quoting;
use minishell::token::{RedirectFrom, Token, WriteType};
use minishell::tokenizer::tokenize;

fn chars(s: &str) -> Vec<char> {
    let mut v = Vec::new();
    for c in s.chars() {
        v.push(c);
    }
    v
}

fn literal_texts(toks: &[Token]) -> Vec<String> {
    let mut out = Vec::new();
    for t in toks {
        if let Token::Literal(s) = t {
            out.push(s.clone());
        }
    }
    out
}

#[test]
fn test_double_quote_1() {
    let input = r#"echo "hello'script'\\n'world""#.to_string();
    let result = parse(&input);
    assert_eq!(result.name.as_str(), "echo");
    assert_eq!(result.args, [r#"hello'script'\n'world"#]);
}

#[test]
fn test_double_quote_2() {
    let input = r#"echo "hello\"insidequotes"script\"#.to_string();
    let result = parse(&input);
    assert_eq!(result.name.as_str(), "echo");
    assert_eq!(result.args, [r#"hello"insidequotesscript"#]);
}

#[test]
fn single_quotes_preserve_inner_spaces() {
    let result = parse("echo 'a  b'");
    assert_eq!(result.name, "echo");
    assert_eq!(result.args, ["a  b"]);
}

#[test]
fn double_quotes_keep_backslash_before_plain_char() {
    // Inside double quotes only $, \ and " shed their backslash.
    let result = parse(r#"echo "a\tb""#);
    assert_eq!(result.args, [r#"a\tb"#]);
}

#[test]
fn double_quotes_unescape_dollar_backslash_and_quote() {
    let result = parse(r#"echo "a\$b\\c\"d""#);
    assert_eq!(result.args, [r#"a$b\c"d"#]);
}

#[test]
fn escape_pending_at_end_of_double_quote_is_dropped() {
    let result = parse("echo \"abc\\");
    assert_eq!(result.args, ["abc"]);
}

#[test]
fn escape_outside_quotes_is_literal() {
    let result = parse(r#"echo a\ b \'c"#);
    assert_eq!(result.args, ["a b", "'c"]);
}

#[test]
fn unterminated_quote_keeps_accumulated_text() {
    let result = parse("echo 'abc");
    assert_eq!(result.args, ["abc"]);
}

#[test]
fn consecutive_whitespace_produces_no_empty_tokens() {
    let toks = tokenize(&chars("  a \t  b  "));
    assert_eq!(literal_texts(&toks), ["a", "b"]);
    assert_eq!(toks.len(), 2);
}

#[test]
fn tokenize_redirect_operators() {
    let toks = tokenize(&chars("a > b"));
    assert!(matches!(toks[1], Token::Redirect(RedirectFrom::Stdout, WriteType::Overwrite)));
    let toks = tokenize(&chars("a >> b"));
    assert!(matches!(toks[1], Token::Redirect(RedirectFrom::Stdout, WriteType::Append)));
    let toks = tokenize(&chars("a 1> b"));
    assert!(matches!(toks[1], Token::Redirect(RedirectFrom::Stdout, WriteType::Overwrite)));
    let toks = tokenize(&chars("a 1>> b"));
    assert!(matches!(toks[1], Token::Redirect(RedirectFrom::Stdout, WriteType::Append)));
    let toks = tokenize(&chars("a 2> b"));
    assert!(matches!(toks[1], Token::Redirect(RedirectFrom::Stderr, WriteType::Overwrite)));
    let toks = tokenize(&chars("a 2>> b"));
    assert!(matches!(toks[1], Token::Redirect(RedirectFrom::Stderr, WriteType::Append)));
}

#[test]
fn digit_mid_word_is_ordinary_text() {
    let toks = tokenize(&chars("file1>out"));
    assert_eq!(toks[0].as_str(), "file1");
    assert!(matches!(toks[1], Token::Redirect(RedirectFrom::Stdout, WriteType::Overwrite)));
    assert_eq!(toks[2].as_str(), "out");
}

#[test]
fn digit_without_operator_is_ordinary_text() {
    let toks = tokenize(&chars("1 2 12"));
    assert_eq!(literal_texts(&toks), ["1", "2", "12"]);
}

#[test]
fn quoted_operator_is_literal() {
    let toks = tokenize(&chars("echo '>' x"));
    assert_eq!(literal_texts(&toks), ["echo", ">", "x"]);
    assert_eq!(toks.len(), 3);
}

#[test]
fn rejoining_literals_then_tokenizing_is_a_no_op() {
    // Tokenize, join the literal tokens with single spaces, tokenize again:
    // the words come back unchanged.
    let first = literal_texts(&tokenize(&chars("  echo   foo\tbar 1>out ")));
    assert_eq!(first, ["echo", "foo", "bar", "out"]);
    let rejoined = first.join(" ");
    let second = literal_texts(&tokenize(&chars(&rejoined)));
    assert_eq!(second, first);
}

#[test]
fn builder_takes_name_then_args() {
    let result = parse("prog x y z");
    assert_eq!(result.name, "prog");
    assert_eq!(result.args, ["x", "y", "z"]);
    assert!(matches!(result.stdout_target, OutputTarget::Terminal));
    assert!(matches!(result.stderr_target, OutputTarget::Terminal));
}

#[test]
fn builder_stops_after_first_redirection_pair() {
    let result = parse("a b > out c d");
    assert_eq!(result.name, "a");
    assert_eq!(result.args, ["b"]);
    assert!(
        matches!(result.stdout_target, OutputTarget::File(ref p, WriteType::Overwrite) if p == "out")
    );
    assert!(matches!(result.stderr_target, OutputTarget::Terminal));
}

#[test]
fn builder_skips_marker_followed_by_marker() {
    let result = parse("a > > b");
    assert_eq!(result.name, "a");
    assert_eq!(result.args, ["b"]);
    assert!(matches!(result.stdout_target, OutputTarget::Terminal));
}

#[test]
fn builder_ignores_trailing_marker_without_path() {
    let result = parse("a b >");
    assert_eq!(result.name, "a");
    assert_eq!(result.args, ["b"]);
    assert!(matches!(result.stdout_target, OutputTarget::Terminal));
}

#[test]
fn builder_routes_stderr_redirection() {
    let result = parse("cmd 2>> log.txt");
    assert_eq!(result.name, "cmd");
    assert!(matches!(result.stdout_target, OutputTarget::Terminal));
    assert!(
        matches!(result.stderr_target, OutputTarget::File(ref p, WriteType::Append) if p == "log.txt")
    );
}

#[test]
fn builder_without_name_leaves_it_empty() {
    let result = parse("2> err.txt");
    assert_eq!(result.name, "");
    assert_eq!(result.args.len(), 0);
    assert!(
        matches!(result.stderr_target, OutputTarget::File(ref p, WriteType::Overwrite) if p == "err.txt")
    );
}

#[test]
fn parse_trims_the_raw_line() {
    let result = parse("  echo hi  \n");
    assert_eq!(result.name, "echo");
    assert_eq!(result.args, ["hi"]);
}

#[test]
fn quoting_classifies_trigger_characters() {
    assert_eq!(Quoting::parse('\''), Some(Quoting::Quote));
    assert_eq!(Quoting::parse('"'), Some(Quoting::DoubleQuote));
    assert_eq!(Quoting::parse('\\'), Some(Quoting::Escape));
    assert_eq!(Quoting::parse('a'), None);
    assert_eq!(Quoting::Quote.as_str(), "'");
    assert_eq!(Quoting::DoubleQuote.as_str(), "\"");
    assert_eq!(Quoting::Escape.as_str(), "\\");
}

#[test]
fn token_grows_only_literals() {
    let mut t = Token::new();
    assert!(t.is_empty());
    t.push('h');
    t.append_token("ey");
    assert_eq!(t.as_str(), "hey");
    assert!(!t.is_empty());
    let r = Token::Redirect(RedirectFrom::Stderr, WriteType::Append);
    assert!(!r.is_empty());
    assert_eq!(r.as_str(), "2>>");
}
