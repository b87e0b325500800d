use fern::builtin::alias::{alias, trim_quotes};
use fern::error::ShErrKind;
use fern::lex::{Span, Tk, TkRule};
use fern::parse::{NdRule, Node};
use fern::shellenv::ShEnv;
use fern::table::Table;

fn alias_node(args: &[&str]) -> Node {
    let mut argv = vec![Tk::new(TkRule::Ident, "alias")];
    for a in args {
        argv.push(Tk::new(TkRule::Ident, a));
    }
    Node::new(NdRule::Command { argv, redirs: Vec::new() }, Span::new(0, 5, "alias"))
}

#[test]
fn alias_defines_each_assignment() {
    let mut env = ShEnv::new();
    let r = alias(alias_node(&["ll=\"ls -l\"", "e=echo", "q='"]), &mut env);
    assert!(r.is_ok());
    assert_eq!(env.get_alias("ll").unwrap(), "ls -l");
    assert_eq!(env.get_alias("e").unwrap(), "echo");
    assert_eq!(env.get_alias("q").unwrap(), "'");
    assert!(env.get_alias("alias").is_none());
}

#[test]
fn alias_stops_at_the_first_argument_that_is_no_assignment() {
    let mut env = ShEnv::new();
    let r = alias(alias_node(&["a=1", "oops", "b=2"]), &mut env);
    let err = r.unwrap_err();
    assert_eq!(err.kind, ShErrKind::SyntaxErr);
    assert_eq!(err.msg, "Expected an assignment in alias args");
    assert_eq!(err.span.unwrap().text, "oops");
    assert_eq!(env.get_alias("a").unwrap(), "1");
    assert!(env.get_alias("b").is_none());
}

#[test]
fn alias_without_arguments_changes_nothing() {
    let mut env = ShEnv::new();
    assert!(alias(alias_node(&[]), &mut env).is_ok());
    assert!(env.logic.aliases.entries.is_empty());
}

#[test]
fn alias_of_a_node_that_is_no_command_is_an_error() {
    let mut env = ShEnv::new();
    let node = Node::new(NdRule::Pipeline { cmds: Vec::new() }, Span::new(0, 0, ""));
    assert_eq!(alias(node, &mut env).unwrap_err().kind, ShErrKind::InternalErr);
}

#[test]
fn trim_quotes_takes_off_one_matching_pair() {
    assert_eq!(trim_quotes("\"a b\""), "a b");
    assert_eq!(trim_quotes("'a'"), "a");
    assert_eq!(trim_quotes("''a''"), "'a'");
    assert_eq!(trim_quotes("\"a'"), "\"a'");
    assert_eq!(trim_quotes("a"), "a");
    assert_eq!(trim_quotes("\""), "\"");
    assert_eq!(trim_quotes(""), "");
}

#[test]
fn table_keeps_the_order_of_first_storing() {
    let mut t = Table::new();
    t.set("b", "1");
    t.set("a", "2");
    t.set("b", "3");
    assert_eq!(t.get("b").unwrap(), "3");
    assert_eq!(t.get("a").unwrap(), "2");
    assert!(t.get("c").is_none());
    assert!(t.contains("a"));
    assert!(!t.contains("c"));
    assert_eq!(t.entries.len(), 2);
    assert_eq!(t.entries[0].0, "b");
    assert_eq!(t.entries[1].0, "a");
}
