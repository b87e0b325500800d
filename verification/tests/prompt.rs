use fern::error::ShErrKind;
use fern::prompt::{expand_prompt, tokenize_prompt, PromptEnv, PromptTk};

fn show(tokens: &[PromptTk]) -> Vec<String> {
    let mut out = Vec::new();
    for t in tokens {
        out.push(format!("{t:?}"));
    }
    out
}

fn env() -> PromptEnv {
    PromptEnv {
        pwd: Some("/home/me/src/fern/core/deep".to_string()),
        home: Some("/home/me".to_string()),
        hostname: Some("box".to_string()),
        user: Some("me".to_string()),
        uid: Some("1000".to_string()),
        runtime: Some(1_500_000),
    }
}

#[test]
fn prompt_text_between_escapes_is_kept_whole() {
    let tokens = tokenize_prompt("a b\\u@\\h:\\w\\$ ");
    assert_eq!(
        show(&tokens),
        vec![
            "Text(\"a b\")",
            "Username",
            "Text(\"@\")",
            "Hostname",
            "Text(\":\")",
            "Pwd",
            "PromptSymbol",
            "Text(\" \")"
        ]
    );
}

#[test]
fn prompt_escapes_for_single_characters() {
    let tokens = tokenize_prompt("\\n\\r\\\\\\\"\\'\\W\\H\\s\\T");
    assert_eq!(
        show(&tokens),
        vec![
            "Text(\"\\n\")",
            "Text(\"\\r\")",
            "Text(\"\\\\\")",
            "Text(\"\\\"\")",
            "Text(\"'\")",
            "PwdShort",
            "HostnameShort",
            "ShellName",
            "Runtime"
        ]
    );
}

#[test]
fn prompt_trailing_backslash_is_text() {
    assert_eq!(show(&tokenize_prompt("x\\")), vec!["Text(\"x\")", "Text(\"\\\\\")"]);
}

#[test]
fn prompt_unknown_escape_is_text() {
    assert_eq!(show(&tokenize_prompt("\\q")), vec!["Text(\"\\\\q\")"]);
}

#[test]
fn prompt_control_sequence_ends_with_a_letter() {
    let tokens = tokenize_prompt("\\e[1;32mok");
    assert_eq!(show(&tokens), vec!["AnsiSeq(\"\\u{1b}[1;32m\")", "Text(\"ok\")"]);
}

#[test]
fn prompt_control_sequence_cut_short_is_given_twice() {
    let tokens = tokenize_prompt("\\e[1;3 x");
    assert_eq!(
        show(&tokens),
        vec!["Text(\"\\u{1b}[1;3\")", "AnsiSeq(\"\\u{1b}[1;3\")", "Text(\"x\")"]
    );
}

#[test]
fn prompt_control_sequence_at_the_end_of_the_string() {
    assert_eq!(show(&tokenize_prompt("\\e[12")), vec!["AnsiSeq(\"\\u{1b}[12\")"]);
}

#[test]
fn prompt_e_without_bracket_swallows_the_next_character() {
    assert_eq!(show(&tokenize_prompt("\\exy")), vec!["Text(\"\\\\e\")", "Text(\"y\")"]);
    assert_eq!(show(&tokenize_prompt("\\e")), vec!["Text(\"\\\\e\")"]);
}

#[test]
fn prompt_octal_escape_takes_up_to_three_digits() {
    assert_eq!(show(&tokenize_prompt("\\0331")), vec!["AsciiOct(27)", "Text(\"1\")"]);
    assert_eq!(show(&tokenize_prompt("\\7")), vec!["AsciiOct(7)"]);
    assert_eq!(show(&tokenize_prompt("\\778")), vec!["AsciiOct(63)", "Text(\"8\")"]);
    assert_eq!(show(&tokenize_prompt("\\777")), vec!["AsciiOct(511)"]);
}

#[test]
fn prompt_shows_user_host_and_directory() {
    assert_eq!(
        expand_prompt("\\u@\\h \\w \\$ ", &env()).unwrap(),
        "me@box ~/src/fern/core/deep $ "
    );
}

#[test]
fn prompt_shows_the_last_four_components() {
    assert_eq!(expand_prompt("\\W", &env()).unwrap(), "src/fern/core/deep");
    let mut e = env();
    e.pwd = Some("/usr/share".to_string());
    assert_eq!(expand_prompt("\\W", &e).unwrap(), "/usr/share");
    e.pwd = Some("/a/b/c/d".to_string());
    assert_eq!(expand_prompt("\\W", &e).unwrap(), "a/b/c/d");
    e.pwd = Some("/home/me".to_string());
    assert_eq!(expand_prompt("\\W", &e).unwrap(), "~");
}

#[test]
fn prompt_symbol_for_root_is_a_hash() {
    let mut e = env();
    e.uid = Some("0".to_string());
    assert_eq!(expand_prompt("\\$", &e).unwrap(), "#");
}

#[test]
fn prompt_shows_name_and_runtime() {
    assert_eq!(expand_prompt("\\s took \\T", &env()).unwrap(), "fern took 1s 500ms");
    let mut e = env();
    e.runtime = None;
    assert_eq!(expand_prompt("[\\T]", &e).unwrap(), "[]");
}

#[test]
fn prompt_needs_its_variables() {
    let mut e = env();
    e.home = None;
    let err = expand_prompt("\\u \\w", &e).unwrap_err();
    assert_eq!(err.kind, ShErrKind::EnvErr);
    assert_eq!(err.msg, "HOME");
    e.pwd = None;
    assert_eq!(expand_prompt("\\w", &e).unwrap_err().msg, "PWD");
    e.user = None;
    assert_eq!(expand_prompt("\\h\\u", &e).unwrap_err().msg, "USER");
    e.hostname = None;
    assert_eq!(expand_prompt("\\h\\u", &e).unwrap_err().msg, "HOSTNAME");
    e.uid = None;
    assert_eq!(expand_prompt("\\$", &e).unwrap_err().msg, "UID");
    assert_eq!(expand_prompt("plain \\e[0m", &e).unwrap(), "plain \u{1b}[0m");
}

#[test]
fn prompt_cannot_show_every_piece() {
    assert_eq!(expand_prompt("\\033", &env()).unwrap_err().kind, ShErrKind::InternalErr);
    assert_eq!(expand_prompt("\\H", &env()).unwrap_err().kind, ShErrKind::InternalErr);
}
