use fern::expand::{unescape_str, Expander, DUB_QUOTE, SNG_QUOTE, VAR_SUB};
use fern::lex::{Span, Tk, TkFlags, TkRule};
use fern::shellenv::VarTab;

fn vars_with_x() -> VarTab {
    let mut vars = VarTab::new();
    vars.set_var("X", "1");
    vars
}

fn expand_text(text: &str, vars: &VarTab) -> Vec<String> {
    Expander::new(Tk::new(TkRule::Ident, text)).expand(vars)
}

#[test]
fn unescape_marks_control_characters() {
    let expected: String = [VAR_SUB, 'A', DUB_QUOTE, 'b', DUB_QUOTE, SNG_QUOTE, 'c', SNG_QUOTE]
        .iter()
        .collect();
    assert_eq!(unescape_str("$A\"b\"'c'"), expected);
}

#[test]
fn unescape_removes_one_backslash_outside_quotes() {
    assert_eq!(unescape_str("a\\$b\\\\c"), "a$b\\c");
    assert_eq!(unescape_str("trailing\\"), "trailing");
}

#[test]
fn unescape_keeps_backslash_inside_double_quotes() {
    let expected: String = [DUB_QUOTE, '\\', '$', 'x', DUB_QUOTE].iter().collect();
    assert_eq!(unescape_str("\"\\$x\""), expected);
}

#[test]
fn unescape_leaves_single_quoted_text_alone() {
    let expected: String = [SNG_QUOTE, '$', 'A', '"', '\\', SNG_QUOTE].iter().collect();
    assert_eq!(unescape_str("'$A\"\\'"), expected);
}

#[test]
fn quoted_variable_keeps_its_space() {
    let vars = vars_with_x();
    assert_eq!(expand_text("\"a$X b\"", &vars), vec!["a1 b".to_string()]);
}

#[test]
fn unquoted_variable_splits_at_the_space() {
    let vars = vars_with_x();
    assert_eq!(expand_text("a$X b", &vars), vec!["a1".to_string(), "b".to_string()]);
}

#[test]
fn unset_variable_expands_to_nothing() {
    let vars = VarTab::new();
    assert_eq!(expand_text("a${NOPE}b", &vars), vec!["ab".to_string()]);
    assert_eq!(expand_text("$NOPE", &vars), Vec::<String>::new());
}

#[test]
fn braces_end_a_variable_name() {
    let vars = vars_with_x();
    assert_eq!(expand_text("${X}2", &vars), vec!["12".to_string()]);
}

#[test]
fn closing_brace_without_opening_one_belongs_to_the_name() {
    let vars = vars_with_x();
    assert_eq!(expand_text("${X}$X}", &vars), vec!["1".to_string()]);
}

#[test]
fn single_quotes_stop_substitution() {
    let vars = vars_with_x();
    assert_eq!(expand_text("'$X y'", &vars), vec!["$X y".to_string()]);
}

#[test]
fn every_separator_ends_a_word() {
    let vars = VarTab::new();
    assert_eq!(
        expand_text("a  b ", &vars),
        vec!["a".to_string(), "".to_string(), "b".to_string()]
    );
}

#[test]
fn positional_parameters_are_read_by_number() {
    let mut vars = VarTab::new();
    vars.bpush_arg("first");
    vars.bpush_arg("second");
    assert_eq!(vars.get_var("1"), "first");
    assert_eq!(vars.get_var("2"), "second");
    assert_eq!(vars.get_var("3"), "");
    assert_eq!(vars.get_var("0"), "");
    assert_eq!(vars.get_var("99999999999999999999999999"), "");
    assert_eq!(expand_text("${2}-${1}", &vars), vec!["second-first".to_string()]);
    assert_eq!(expand_text("$2 $1", &vars), vec!["second".to_string(), "first".to_string()]);
    vars.reset_params();
    assert_eq!(vars.get_var("1"), "");
}

#[test]
fn name_runs_on_to_the_next_separator() {
    let mut vars = VarTab::new();
    vars.set_var("X", "1");
    vars.set_var("X-", "dash");
    assert_eq!(expand_text("$X-;$X", &vars), vec!["dash;1".to_string()]);
    assert_eq!(expand_text("$X$X", &vars), Vec::<String>::new());
}

#[test]
fn local_variable_hides_exported_one() {
    let mut vars = VarTab::new();
    vars.export("V", "exported");
    assert_eq!(vars.get_var("V"), "exported");
    vars.set_var("V", "local");
    assert_eq!(vars.get_var("V"), "local");
}

#[test]
fn split_words_leaves_the_text_as_it_is() {
    let vars = vars_with_x();
    let mut expander = Expander::new(Tk::new(TkRule::Ident, "a b"));
    let first = expander.split_words();
    let second = expander.split_words();
    assert_eq!(first, second);
    assert_eq!(expander.expand_raw(&vars), "a b");
}

#[test]
fn expanding_twice_is_expanding_once() {
    let vars = vars_with_x();
    let token = Tk::new(TkRule::Ident, "a$X b");
    let once = token.expand(Span::new(0, 5, "a$X b"), TkFlags::empty(), &vars);
    let words = once.get_words();
    assert_eq!(words, vec!["a1".to_string(), "b".to_string()]);
    let mut other = VarTab::new();
    other.set_var("X", "2");
    let twice = once.expand(Span::new(7, 9, "zz"), TkFlags { builtin: true, is_cmd: true }, &other);
    assert_eq!(twice.get_words(), words);
    assert_eq!(twice.span.start, 0);
    assert!(!twice.flags.builtin);
}

#[test]
fn raw_token_is_its_own_word() {
    let token = Tk::new(TkRule::Ident, "a$X b");
    assert_eq!(token.get_words(), vec!["a$X b".to_string()]);
    assert_eq!(token.text(), "a$X b");
}

#[test]
fn expanded_token_is_written_with_spaces() {
    let vars = vars_with_x();
    let token = Tk::new(TkRule::Ident, "a  $X");
    let expanded = token.expand(Span::new(0, 5, "a  $X"), TkFlags::empty(), &vars);
    assert_eq!(expanded.text(), "a  1");
}
