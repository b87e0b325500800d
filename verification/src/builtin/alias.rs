//! The `alias` builtin.

use vstd::prelude::*;
use crate::error::{result_view, ShErr, ShErrKind, ShErrView, ShResult};
use crate::lex::{tk_views, TkView};
use crate::parse::{NdRule, NdRuleView, Node, NodeView};
use crate::shellenv::{ShEnv, ShEnvView};
use crate::text::{from_chars, split_at_first, split_once, to_chars};

verus! {

/// `s` without the pair of quotes around it, if it stands between two double
/// or two single quotes.
pub open spec fn unquoted(s: Seq<char>) -> Seq<char> {
    if s.len() >= 2 && (s[0] == '"' || s[0] == '\'') && s.last() == s[0] {
        s.subrange(1, s.len() - 1)
    } else {
        s
    }
}

/// Takes one pair of quotes off `s`, if it stands between two.
pub fn trim_quotes(s: &str) -> (r: String)
    ensures
        r@ == unquoted(s@),
{
    let chars = to_chars(s);
    let n = chars.len();
    if n >= 2 && (chars[0] == '"' || chars[0] == '\'') && chars[n - 1] == chars[0] {
        from_chars(&chars, 1, n - 1)
    } else {
        assert(chars@.subrange(0, n as int) =~= chars@);
        from_chars(&chars, 0, n)
    }
}

/// The error for an argument of `alias` that is no assignment.
pub open spec fn not_an_assignment(arg: TkView) -> ShErrView {
    ShErrView {
        kind: ShErrKind::SyntaxErr,
        msg: "Expected an assignment in alias args"@,
        span: Some(arg.span),
    }
}

/// The aliases after the arguments `args` of an `alias` command, and how the
/// command ends. Every argument of the form `name=body` defines `name`, with
/// one pair of quotes taken off the body. The first argument without `=`
/// ends the command with an error; the aliases before it stay defined.
pub open spec fn aliased(env: ShEnvView, args: Seq<TkView>) -> (ShEnvView, Result<(), ShErrView>)
    decreases args.len(),
{
    if args.len() == 0 {
        (env, Ok(()))
    } else {
        match split_once(args[0].text(), '=') {
            Some((name, body)) => aliased(env.with_alias(name, unquoted(body)), args.skip(1)),
            None => (env, Err(not_an_assignment(args[0]))),
        }
    }
}

/// The error for a node that is no command where one is needed.
pub open spec fn not_a_command(node: NodeView) -> ShErrView {
    ShErrView {
        kind: ShErrKind::InternalErr,
        msg: "Expected a command"@,
        span: Some(node.span),
    }
}

/// What the `alias` command `node` does to `env`, and how it ends.
pub open spec fn alias_outcome(env: ShEnvView, node: NodeView) -> (
    ShEnvView,
    Result<(), ShErrView>,
) {
    match node.rule {
        NdRuleView::Command { argv, redirs } => if argv.len() > 0 {
            aliased(env, argv.skip(1))
        } else {
            (env, Ok(()))
        },
        _ => (env, Err(not_a_command(node))),
    }
}

/// Runs the `alias` command `node`: defines an alias for each of its
/// arguments after the command name.
pub fn alias(node: Node, shenv: &mut ShEnv) -> (r: ShResult<()>)
    ensures
        alias_outcome(old(shenv)@, node@) == (final(shenv)@, result_view(r)),
{
    let span = node.span;
    match node.rule {
        NdRule::Command { argv, redirs } => {
            if argv.len() == 0 {
                return Ok(());
            }
            let ghost args = tk_views(argv@).skip(1);
            let mut i: usize = 1;
            assert(args.skip(0) =~= args);
            while i < argv.len()
                invariant
                    1 <= i <= argv.len(),
                    args == tk_views(argv@).skip(1),
                    alias_outcome(old(shenv)@, node@) == aliased(old(shenv)@, args),
                    aliased(old(shenv)@, args) == aliased(shenv@, args.skip(i - 1)),
                decreases argv.len() - i,
            {
                let arg_raw = argv[i].text();
                proof {
                    assert(args.skip(i - 1)[0] == argv@[i as int]@);
                    assert(args.skip(i - 1).skip(1) =~= args.skip(i as int));
                }
                match split_at_first(arg_raw.as_str(), '=') {
                    Some((name, body)) => {
                        let clean_body = trim_quotes(body.as_str());
                        shenv.set_alias(name.as_str(), clean_body.as_str());
                    },
                    None => {
                        return Err(
                            ShErr::full(
                                ShErrKind::SyntaxErr,
                                "Expected an assignment in alias args",
                                argv[i].span.clone(),
                            ),
                        );
                    },
                }
                i += 1;
            }
            assert(args.skip(argv.len() - 1) =~= Seq::<TkView>::empty());
            Ok(())
        },
        _ => Err(ShErr::full(ShErrKind::InternalErr, "Expected a command", span)),
    }
}

} // verus!
