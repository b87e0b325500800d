//! The syntax tree as the parser hands it over.

use vstd::prelude::*;
use crate::lex::{clone_tokens, tk_views, Span, SpanView, Tk, TkView};
use crate::shellenv::{clone_redirs, redir_views, Redir, RedirView};

verus! {

/// What links an element of a list to the one before it.
#[derive(Clone, Copy, Debug, PartialEq, Eq, Structural)]
pub enum CmdGuard {
    /// Run only if the command before succeeded.
    And,
    /// Run only if the command before failed.
    Or,
}

/// What the parser noted about a node.
#[derive(Clone, Copy, Debug, PartialEq, Eq, Structural)]
pub struct NdFlags {
    /// The command of the node is a builtin.
    pub builtin: bool,
}

/// The kinds of node.
#[derive(Debug)]
#[allow(inconsistent_fields)]
pub enum NdRule {
    Command { argv: Vec<Tk>, redirs: Vec<Redir> },
    Pipeline { cmds: Vec<Node> },
    Subshell { body: Tk, argv: Vec<Tk>, redirs: Vec<Redir> },
    FuncDef { name: Tk, body: Tk },
    Assignment { assignments: Vec<Tk>, cmd: Option<Box<Node>> },
    CmdList { cmds: Vec<(Option<CmdGuard>, Node)> },
}

/// One node of the syntax tree.
#[derive(Debug)]
pub struct Node {
    pub rule: NdRule,
    pub span: Span,
    pub flags: NdFlags,
}

#[allow(inconsistent_fields)]
pub enum NdRuleView {
    Command { argv: Seq<TkView>, redirs: Seq<RedirView> },
    Pipeline { cmds: Seq<NodeView> },
    Subshell { body: TkView, argv: Seq<TkView>, redirs: Seq<RedirView> },
    FuncDef { name: TkView, body: TkView },
    Assignment { assignments: Seq<TkView>, cmd: Option<Box<NodeView>> },
    CmdList { cmds: Seq<(Option<CmdGuard>, NodeView)> },
}

pub struct NodeView {
    pub rule: NdRuleView,
    pub span: SpanView,
    pub flags: NdFlags,
}

/// The view of a node.
pub open spec fn node_view(n: Node) -> NodeView
    decreases n,
{
    NodeView { rule: rule_view(n.rule), span: n.span@, flags: n.flags }
}

/// The view of what a node holds.
pub open spec fn rule_view(r: NdRule) -> NdRuleView
    decreases r,
{
    match r {
        NdRule::Command { argv, redirs } => NdRuleView::Command {
            argv: tk_views(argv@),
            redirs: redir_views(redirs@),
        },
        NdRule::Pipeline { cmds } => NdRuleView::Pipeline {
            cmds: Seq::new(
                cmds.len() as nat,
                |i: int|
                    if 0 <= i < cmds.len() {
                        node_view(cmds[i])
                    } else {
                        arbitrary()
                    },
            ),
        },
        NdRule::Subshell { body, argv, redirs } => NdRuleView::Subshell {
            body: body@,
            argv: tk_views(argv@),
            redirs: redir_views(redirs@),
        },
        NdRule::FuncDef { name, body } => NdRuleView::FuncDef { name: name@, body: body@ },
        NdRule::Assignment { assignments, cmd } => NdRuleView::Assignment {
            assignments: tk_views(assignments@),
            cmd: match cmd {
                Some(c) => Some(Box::new(node_view(*c))),
                None => None,
            },
        },
        NdRule::CmdList { cmds } => NdRuleView::CmdList {
            cmds: Seq::new(
                cmds.len() as nat,
                |i: int|
                    if 0 <= i < cmds.len() {
                        (cmds[i].0, node_view(cmds[i].1))
                    } else {
                        arbitrary()
                    },
            ),
        },
    }
}

impl View for Node {
    type V = NodeView;

    open spec fn view(&self) -> NodeView {
        node_view(*self)
    }
}

/// The views of a list of nodes, in order.
pub open spec fn node_views(v: Seq<Node>) -> Seq<NodeView> {
    Seq::new(v.len(), |i: int| v[i]@)
}

/// The views of the elements of a list, each with its guard.
pub open spec fn item_views(v: Seq<(Option<CmdGuard>, Node)>) -> Seq<(Option<CmdGuard>, NodeView)> {
    Seq::new(v.len(), |i: int| (v[i].0, v[i].1@))
}

pub proof fn lemma_rule_view_lists(r: NdRule)
    ensures
        r matches NdRule::Pipeline { cmds } ==> rule_view(r) == (NdRuleView::Pipeline {
            cmds: node_views(cmds@),
        }),
        r matches NdRule::CmdList { cmds } ==> rule_view(r) == (NdRuleView::CmdList {
            cmds: item_views(cmds@),
        }),
{
    match r {
        NdRule::Pipeline { cmds } => {
            assert(rule_view(r)->Pipeline_cmds =~= node_views(cmds@));
        },
        NdRule::CmdList { cmds } => {
            assert(rule_view(r)->CmdList_cmds =~= item_views(cmds@));
        },
        _ => {},
    }
}

/// A copy of a list of nodes.
pub fn clone_nodes(v: &Vec<Node>) -> (r: Vec<Node>)
    ensures
        node_views(r@) == node_views(v@),
    decreases v,
{
    let mut out: Vec<Node> = Vec::new();
    let mut i: usize = 0;
    while i < v.len()
        invariant
            i <= v.len(),
            out@.len() == i,
            forall|j: int| 0 <= j < i ==> out@[j]@ == v@[j]@,
        decreases v.len() - i,
    {
        proof {
            vstd::std_specs::vec::axiom_vec_index_decreases(*v, i as int);
        }
        let n = v[i].clone();
        out.push(n);
        i += 1;
    }
    assert(node_views(out@) =~= node_views(v@));
    out
}

/// A copy of the elements of a list.
pub fn clone_items(v: &Vec<(Option<CmdGuard>, Node)>) -> (r: Vec<(Option<CmdGuard>, Node)>)
    ensures
        item_views(r@) == item_views(v@),
    decreases v,
{
    let mut out: Vec<(Option<CmdGuard>, Node)> = Vec::new();
    let mut i: usize = 0;
    while i < v.len()
        invariant
            i <= v.len(),
            out@.len() == i,
            forall|j: int| 0 <= j < i ==> out@[j].0 == v@[j].0 && out@[j].1@ == v@[j].1@,
        decreases v.len() - i,
    {
        proof {
            vstd::std_specs::vec::axiom_vec_index_decreases(*v, i as int);
            assert(decreases_to!(v@[i as int] => v@[i as int].1));
        }
        let n = v[i].1.clone();
        out.push((v[i].0, n));
        i += 1;
    }
    assert(item_views(out@) =~= item_views(v@));
    out
}

impl Clone for Node {
    fn clone(&self) -> (r: Self)
        ensures
            r@ == self@,
        decreases self,
    {
        proof {
            lemma_rule_view_lists(self.rule);
        }
        let rule = match &self.rule {
            NdRule::Command { argv, redirs } => NdRule::Command {
                argv: clone_tokens(argv),
                redirs: clone_redirs(redirs),
            },
            NdRule::Pipeline { cmds } => {
                assert(decreases_to!(*self => self.rule));
                assert(decreases_to!(self.rule => self.rule->Pipeline_cmds));
                NdRule::Pipeline { cmds: clone_nodes(cmds) }
            },
            NdRule::Subshell { body, argv, redirs } => NdRule::Subshell {
                body: body.clone(),
                argv: clone_tokens(argv),
                redirs: clone_redirs(redirs),
            },
            NdRule::FuncDef { name, body } => NdRule::FuncDef {
                name: name.clone(),
                body: body.clone(),
            },
            NdRule::Assignment { assignments, cmd } => {
                let cmd = match cmd {
                    Some(c) => {
                        assert(decreases_to!(*self => self.rule));
                        assert(decreases_to!(self.rule => self.rule->Assignment_cmd));
                        Some(Box::new((**c).clone()))
                    },
                    None => None,
                };
                NdRule::Assignment { assignments: clone_tokens(assignments), cmd }
            },
            NdRule::CmdList { cmds } => {
                assert(decreases_to!(*self => self.rule));
                assert(decreases_to!(self.rule => self.rule->CmdList_cmds));
                NdRule::CmdList { cmds: clone_items(cmds) }
            },
        };
        proof {
            lemma_rule_view_lists(rule);
        }
        Node { rule, span: self.span.clone(), flags: self.flags }
    }
}

impl Node {
    /// A node that covers `span`, with no flag set.
    pub fn new(rule: NdRule, span: Span) -> (r: Node)
        ensures
            r@ == (NodeView { rule: rule_view(rule), span: span@, flags: NdFlags { builtin: false } }),
    {
        Node { rule, span, flags: NdFlags { builtin: false } }
    }
}

} // verus!
