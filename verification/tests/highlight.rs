use fern::lex::{Tk, TkRule};
use fern::prompt::highlight::{highlight, style_text, HlToken, Style};

fn tok(class: TkRule, text: &str) -> HlToken {
    HlToken { token: Tk::new(class, text), known: false, inner: String::new() }
}

fn known(text: &str) -> HlToken {
    HlToken { token: Tk::new(TkRule::Ident, text), known: true, inner: String::new() }
}

#[test]
fn style_wraps_text_in_control_sequences() {
    assert_eq!(style_text("x", Style::Green), "\u{1b}[32mx\u{1b}[0m");
    assert_eq!(style_text("", Style::RedBold), "\u{1b}[1;31m\u{1b}[0m");
    assert_eq!(style_text("x", Style::BrightBlack), "\u{1b}[90mx\u{1b}[0m");
    assert_eq!(style_text("x", Style::Cyan), "\u{1b}[36mx\u{1b}[0m");
    assert_eq!(style_text("x", Style::Yellow), "\u{1b}[33mx\u{1b}[0m");
    assert_eq!(style_text("x", Style::BrightBlue), "\u{1b}[94mx\u{1b}[0m");
    assert_eq!(style_text("x", Style::Magenta), "\u{1b}[35mx\u{1b}[0m");
}

#[test]
fn first_word_is_green_when_known_and_red_when_not() {
    let line = vec![known("ls"), tok(TkRule::Ident, "-l")];
    assert_eq!(highlight(&line), "\u{1b}[32mls\u{1b}[0m-l");
    let line = vec![tok(TkRule::Ident, "sl"), known("ls")];
    assert_eq!(highlight(&line), "\u{1b}[1;31msl\u{1b}[0mls");
}

#[test]
fn operator_makes_the_next_word_a_command() {
    let line = vec![known("a"), tok(TkRule::PipeOp, "|"), known("b"), tok(TkRule::Ident, "c")];
    assert_eq!(
        highlight(&line),
        "\u{1b}[32ma\u{1b}[0m\u{1b}[36m|\u{1b}[0m\u{1b}[32mb\u{1b}[0mc"
    );
}

#[test]
fn separator_makes_the_next_word_a_command() {
    let line = vec![known("a"), tok(TkRule::Sep, ";"), tok(TkRule::Ident, "zz")];
    assert_eq!(highlight(&line), "\u{1b}[32ma\u{1b}[0m;\u{1b}[1;31mzz\u{1b}[0m");
}

#[test]
fn words_of_a_for_loop_are_magenta_up_to_the_separator() {
    let line = vec![
        tok(TkRule::Keyword, "for"),
        tok(TkRule::Ident, "x"),
        tok(TkRule::Ident, "in"),
        tok(TkRule::Ident, "a"),
        tok(TkRule::Sep, ";"),
        known("echo"),
    ];
    assert_eq!(
        highlight(&line),
        "\u{1b}[33mfor\u{1b}[0m\u{1b}[35mx\u{1b}[0m\u{1b}[33min\u{1b}[0m\u{1b}[35ma\u{1b}[0m;\u{1b}[32mecho\u{1b}[0m"
    );
}

#[test]
fn group_shows_its_inner_text_between_blue_brackets() {
    let mut group = tok(TkRule::BraceGrp, "{ ls }");
    group.inner = "INNER".to_string();
    let line = vec![group, known("after")];
    assert_eq!(highlight(&line), "\u{1b}[94m{\u{1b}[0mINNER\u{1b}[94m}\u{1b}[0mafter");
    let mut sub = tok(TkRule::Subshell, "(ls)");
    sub.inner = "X".to_string();
    assert_eq!(highlight(&vec![sub]), "\u{1b}[94m(\u{1b}[0mX\u{1b}[94m)\u{1b}[0m");
}

#[test]
fn function_name_keeps_its_parentheses_plain() {
    let line = vec![tok(TkRule::FuncName, "greet()"), tok(TkRule::FuncName, "bare")];
    assert_eq!(highlight(&line), "\u{1b}[36mgreet\u{1b}[0m()\u{1b}[36mbare\u{1b}[0m()");
}

#[test]
fn comment_is_grey_and_braces_are_plain() {
    let line = vec![tok(TkRule::Ident, "{"), tok(TkRule::Comment, "# hi"), tok(TkRule::Ident, "}")];
    assert_eq!(highlight(&line), "{\u{1b}[90m# hi\u{1b}[0m}");
}

#[test]
fn empty_line_has_no_colours() {
    assert_eq!(highlight(&Vec::new()), "");
}
