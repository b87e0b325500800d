//! The rules of the engine, stated over views: what each construct does to
//! the state, what it asks of the host, and how an answer of the host is
//! taken up.

use vstd::prelude::*;
use crate::builtin::alias::{alias_outcome, not_a_command};
use crate::error::{ShErrKind, ShErrView};
use crate::execute::model::{
    ActionView, EventView, FlowView, FrameView, MachineView, Phase, PipeRunView, EXEC_FAILURE,
};
use crate::expand::expansion;
use crate::jobs::single_job;
use crate::lex::{SpanView, TkRuleView, TkView};
use crate::parse::{CmdGuard, NdRuleView, NodeView};
use crate::shellenv::{RedirTargetView, RedirType, RedirView, ShEnvView, VarTabView};
use crate::table::Entry;
use crate::text::{inner, split_once, trimmed, Trim};

verus! {

/// The words that a token gives under `vars`: those it carries, or those
/// that its text expands to.
pub open spec fn words_under(t: TkView, vars: VarTabView) -> Seq<Seq<char>> {
    match t.class {
        TkRuleView::Expanded { exp } => exp,
        _ => expansion(vars, t.span.text),
    }
}

/// The words of all tokens of `argv` under `vars`, in order.
pub open spec fn argv_words(argv: Seq<TkView>, vars: VarTabView) -> Seq<Seq<char>>
    decreases argv.len(),
{
    if argv.len() == 0 {
        Seq::empty()
    } else {
        argv_words(argv.drop_last(), vars) + words_under(argv.last(), vars)
    }
}

/// The tokens of `argv`, each expanded under `vars`.
pub open spec fn argv_expanded(argv: Seq<TkView>, vars: VarTabView) -> Seq<TkView> {
    Seq::new(argv.len(), |i: int| argv[i].expanded(argv[i].span, argv[i].flags, vars))
}

/// The exported variables as a program receives them: `NAME=value`, one for
/// each, in the order in which the names were first exported.
pub open spec fn environment(env: Seq<Entry>) -> Seq<Seq<char>> {
    Seq::new(env.len(), |i: int| env[i].0 + seq!['='] + env[i].1)
}

/// The variables with `words` added to the positional parameters.
pub open spec fn with_params(vars: VarTabView, words: Seq<Seq<char>>) -> VarTabView {
    VarTabView { params: vars.params + words, ..vars }
}

/// The variables after the assignments `assigns`, in order: each token of
/// the form `name=value` stores the value under the name, among the exported
/// variables if `exported` and among the shell's own otherwise. A token
/// without `=` changes nothing.
pub open spec fn assigned(vars: VarTabView, assigns: Seq<TkView>, exported: bool) -> VarTabView
    decreases assigns.len(),
{
    if assigns.len() == 0 {
        vars
    } else {
        let before = assigned(vars, assigns.drop_last(), exported);
        match split_once(assigns.last().text(), '=') {
            Some((name, value)) => if exported {
                before.export(name, value)
            } else {
                before.set(name, value)
            },
            None => before,
        }
    }
}

/// `s` without the pairs of parentheses `()` at its end.
pub open spec fn without_parens(s: Seq<char>) -> Seq<char>
    decreases s.len(),
{
    if s.len() >= 2 && s[s.len() - 2] == '(' && s[s.len() - 1] == ')' {
        without_parens(s.take(s.len() - 2))
    } else {
        s
    }
}

pub open spec fn internal(msg: Seq<char>, span: SpanView) -> ShErrView {
    ShErrView { kind: ShErrKind::InternalErr, msg, span: Some(span) }
}

/// The error for a command whose words are none.
pub open spec fn empty_command(span: SpanView) -> ShErrView {
    internal("Command without a name"@, span)
}

/// The error for a node of a kind that cannot stand where it stands.
pub open spec fn unsupported(span: SpanView) -> ShErrView {
    internal("Unsupported node"@, span)
}

/// The error for a body that lacks its enclosing pair of brackets.
pub open spec fn malformed_body(span: SpanView) -> ShErrView {
    internal("Body without brackets"@, span)
}

/// The error for a command flagged as a builtin that is none.
pub open spec fn unknown_builtin(span: SpanView) -> ShErrView {
    internal("Unknown builtin"@, span)
}

/// The error for a call of a function that is not defined.
pub open spec fn unknown_function(span: SpanView) -> ShErrView {
    internal("Unknown function"@, span)
}

/// The error for an answer of the host that fits no request.
pub open spec fn out_of_turn() -> ShErrView {
    ShErrView { kind: ShErrKind::InternalErr, msg: "Event out of turn"@, span: None }
}

/// The error for a program that was not found.
pub open spec fn not_found(command: Seq<char>, span: SpanView) -> ShErrView {
    ShErrView { kind: ShErrKind::CmdNotFound, msg: command, span: Some(span) }
}

/// Whether `name` is a builtin that the host runs.
pub open spec fn host_builtin(name: Seq<char>) -> bool {
    name == "echo"@ || name == "cd"@ || name == "pwd"@ || name == "export"@ || name == "jobs"@
        || name == "fg"@ || name == "bg"@ || name == "read"@
}

/// How a child process ends: with status zero after success, and with
/// status one and a report of the error after failure.
pub open spec fn exit_for(r: Result<(), ShErrView>) -> ActionView {
    match r {
        Ok(_) => ActionView::Exit { code: 0, error: None },
        Err(e) => ActionView::Exit { code: 1, error: Some(e) },
    }
}

/// Whether the guard keeps the rest of a list from running, given the exit
/// status of the command before.
pub open spec fn guard_blocks(guard: Option<CmdGuard>, status: i32) -> bool {
    match guard {
        Some(CmdGuard::And) => status != 0,
        Some(CmdGuard::Or) => status == 0,
        None => false,
    }
}

/// What an answer that the frame did not ask for leads to: a failure of the
/// host is passed on, anything else is an error of its own.
pub open spec fn unexpected(m: MachineView, ev: EventView) -> (MachineView, FlowView) {
    match ev {
        EventView::Failed(e) => (m, FlowView::Return(Err(e))),
        _ => (m, FlowView::Return(Err(out_of_turn()))),
    }
}

/// The redirections of a command join those that wait, all of them are
/// handed to the host, and the program follows once they are applied.
pub open spec fn redirect_then_exec(
    m: MachineView,
    command: Seq<char>,
    argv: Seq<Seq<char>>,
    envp: Seq<Seq<char>>,
    redirs: Seq<RedirView>,
) -> (MachineView, FlowView) {
    let all = m.env.redirs + redirs;
    (
        m.with_env(m.env.without_redirs()).push(FrameView::Redirecting { command, argv, envp }),
        FlowView::Yield(ActionView::Redirect { redirs: all }),
    )
}

/// An external command: its words are worked out, the environment of the
/// program is put together, and the host is asked to find the program.
pub open spec fn exec_cmd(
    m: MachineView,
    argv: Seq<TkView>,
    redirs: Seq<RedirView>,
    span: SpanView,
) -> (MachineView, FlowView) {
    let words = argv_words(argv, m.env.vars);
    if words.len() == 0 {
        (m, FlowView::Return(Err(empty_command(span))))
    } else {
        (
            m.push(
                FrameView::Resolving {
                    command: words[0],
                    argv: words,
                    envp: environment(m.env.vars.env),
                    redirs,
                    span,
                },
            ),
            FlowView::Yield(ActionView::Resolve { name: words[0] }),
        )
    }
}

/// The redirections of a subshell join those that wait and are handed to
/// the host; the body follows once they are applied.
pub open spec fn subshell_redirect(
    m: MachineView,
    body: Seq<char>,
    argv: Seq<Seq<char>>,
    redirs: Seq<RedirView>,
) -> (MachineView, FlowView) {
    let all = m.env.redirs + redirs;
    (
        m.with_env(m.env.without_redirs()).push(FrameView::SubshellRedirect { body, argv }),
        FlowView::Yield(ActionView::Redirect { redirs: all }),
    )
}

/// A subshell. The positional parameters are reset. A process that is a
/// child of its own already runs the body in place and ends with it; any
/// other forks first.
pub open spec fn exec_subshell(
    m: MachineView,
    body: TkView,
    argv: Seq<TkView>,
    redirs: Seq<RedirView>,
    span: SpanView,
) -> (MachineView, FlowView) {
    if body.text().len() < 2 {
        (m, FlowView::Return(Err(malformed_body(span))))
    } else {
        let words = argv_words(argv, m.env.vars);
        let reset = m.env.with_vars(m.env.vars.reset_params());
        if m.env.no_fork {
            subshell_redirect(
                m.with_env(reset.with_no_fork(false)).push(FrameView::Barrier),
                inner(body.text()),
                words,
                redirs,
            )
        } else {
            (
                m.with_env(reset).push(
                    FrameView::SubshellFork {
                        snapshot: m.env,
                        body: inner(body.text()),
                        argv: words,
                        redirs,
                    },
                ),
                FlowView::Yield(ActionView::Fork),
            )
        }
    }
}

/// A call of a function: the state is kept for later, the words after the
/// name become the positional parameters, the redirections join those that
/// wait, and the host is asked to parse the body.
pub open spec fn exec_func(
    m: MachineView,
    argv: Seq<TkView>,
    redirs: Seq<RedirView>,
    span: SpanView,
) -> (MachineView, FlowView) {
    let words = argv_words(argv, m.env.vars);
    if words.len() == 0 {
        (m, FlowView::Return(Err(empty_command(span))))
    } else {
        match m.env.function(words[0]) {
            None => (m, FlowView::Return(Err(unknown_function(span)))),
            Some(body) => {
                let bound = with_params(m.env.vars.reset_params(), words.skip(1));
                (
                    m.with_env(m.env.with_vars(bound).with_redirs(redirs)).push(
                        FrameView::Func { snapshot: m.env },
                    ).push(FrameView::Parsing),
                    FlowView::Yield(ActionView::Parse { text: body }),
                )
            },
        }
    }
}

/// The definition of a function: the name without the `()` at its end
/// stands for the body without its braces and without blanks around it.
pub open spec fn funcdef_outcome(env: ShEnvView, name: TkView, body: TkView, span: SpanView) -> (
    ShEnvView,
    Result<(), ShErrView>,
) {
    if body.text().len() < 2 {
        (env, Err(malformed_body(span)))
    } else {
        (
            env.with_function(
                without_parens(name.text()),
                trimmed(inner(body.text()), Trim::Blanks),
            ),
            Ok(()),
        )
    }
}

/// A builtin: `alias` is run by the engine itself, on the command with its
/// arguments expanded; the others are handed to the host.
pub open spec fn exec_builtin(m: MachineView, node: NodeView) -> (MachineView, FlowView) {
    match node.rule {
        NdRuleView::Command { argv, redirs } => {
            let words = argv_words(argv, m.env.vars);
            if words.len() == 0 {
                (m, FlowView::Return(Err(empty_command(node.span))))
            } else if words[0] == "alias"@ {
                let expanded = NodeView {
                    rule: NdRuleView::Command {
                        argv: argv_expanded(argv, m.env.vars),
                        redirs,
                    },
                    ..node
                };
                let (env, r) = alias_outcome(m.env, expanded);
                (m.with_env(env), FlowView::Return(r))
            } else if host_builtin(words[0]) {
                (
                    m.push(FrameView::Builtin),
                    FlowView::Yield(ActionView::Builtin { name: words[0], argv: words }),
                )
            } else {
                (m, FlowView::Return(Err(unknown_builtin(node.span))))
            }
        },
        _ => (m, FlowView::Return(Err(not_a_command(node)))),
    }
}

/// The state with its exported variables replaced by `exported`.
pub open spec fn with_exported(env: ShEnvView, exported: Seq<Entry>) -> ShEnvView {
    env.with_vars(VarTabView { env: exported, ..env.vars })
}

/// Assignments. In front of a command they are exported for as long as the
/// command runs, and the exported variables are put back as they were when
/// it is over. On their own they set variables of the shell.
pub open spec fn exec_assignment(
    m: MachineView,
    assignments: Seq<TkView>,
    cmd: Option<Box<NodeView>>,
) -> (MachineView, FlowView) {
    match cmd {
        None => (
            m.with_env(m.env.with_vars(assigned(m.env.vars, assignments, false))),
            FlowView::Return(Ok(())),
        ),
        Some(c) => {
            let scoped = m.with_env(m.env.with_vars(assigned(m.env.vars, assignments, true))).push(
                FrameView::Scope { exported: m.env.vars.env },
            );
            let (after, flow) = if c.flags.builtin {
                exec_builtin(scoped, *c)
            } else {
                match c.rule {
                    NdRuleView::Command { argv, redirs } => exec_cmd(scoped, argv, redirs, c.span),
                    _ => (scoped, FlowView::Return(Err(not_a_command(*c)))),
                }
            };
            match flow {
                FlowView::Yield(_) => (after, flow),
                FlowView::Return(r) => (
                    MachineView { env: with_exported(after.env, m.env.vars.env), stack: m.stack },
                    flow,
                ),
            }
        },
    }
}

/// A command or a subshell where a command is expected. A command is a call
/// if a function has its name, else a builtin if it is flagged as one, else
/// a program.
pub open spec fn dispatch_command(m: MachineView, node: NodeView) -> (MachineView, FlowView) {
    match node.rule {
        NdRuleView::Command { argv, redirs } => {
            let words = argv_words(argv, m.env.vars);
            if words.len() == 0 {
                (m, FlowView::Return(Err(empty_command(node.span))))
            } else if m.env.function(words[0]) is Some {
                exec_func(m, argv, redirs, node.span)
            } else if node.flags.builtin {
                exec_builtin(m, node)
            } else {
                exec_cmd(m, argv, redirs, node.span)
            }
        },
        NdRuleView::Subshell { body, argv, redirs } => exec_subshell(
            m,
            body,
            argv,
            redirs,
            node.span,
        ),
        _ => (m, FlowView::Return(Err(not_a_command(node)))),
    }
}

/// The name under which a stage of a pipeline is shown, if the node can be
/// a stage: the text of the first token of a command, or `subshell`.
pub open spec fn stage_name(node: NodeView) -> Option<Seq<char>> {
    match node.rule {
        NdRuleView::Command { argv, redirs } => if argv.len() > 0 {
            Some(argv[0].span.text)
        } else {
            None
        },
        NdRuleView::Subshell { body, argv, redirs } => Some("subshell"@),
        _ => None,
    }
}

/// The process group that the jobs of a pipeline are put in.
pub open spec fn group_of(p: PipeRunView, pid: i32) -> i32 {
    match p.pgid {
        Some(g) => g,
        None => pid,
    }
}

/// The parent waits for the next stage that it has not waited for, or is
/// done with the pipeline when there is none.
pub open spec fn wait_next(m: MachineView, p: PipeRunView) -> (MachineView, FlowView) {
    if p.waited >= p.pids.len() || p.waited >= p.names.len() {
        (m, FlowView::Return(Ok(())))
    } else {
        let pid = p.pids[p.waited as int];
        (
            m.push(FrameView::Pipeline(PipeRunView { phase: Phase::Waiting, ..p })),
            FlowView::Yield(
                ActionView::Wait {
                    job: single_job(pid, p.names[p.waited as int], group_of(p, pid)),
                },
            ),
        )
    }
}

/// The parent begins the stage `p.next`: it asks for a pipe if another
/// stage follows, and for the fork right away if none does. After the last
/// stage it turns to waiting.
pub open spec fn start_stage(m: MachineView, p: PipeRunView) -> (MachineView, FlowView) {
    if p.next >= p.cmds.len() {
        wait_next(m, PipeRunView { waited: 0, ..p })
    } else {
        let node = p.cmds[p.next as int];
        if stage_name(node) is None {
            (m, FlowView::Return(Err(unsupported(node.span))))
        } else if p.next + 1 < p.cmds.len() {
            (
                m.push(
                    FrameView::Pipeline(
                        PipeRunView { read: None, write: None, phase: Phase::Piping, ..p },
                    ),
                ),
                FlowView::Yield(ActionView::Pipe),
            )
        } else {
            (
                m.push(
                    FrameView::Pipeline(
                        PipeRunView { read: None, write: None, phase: Phase::Forking, ..p },
                    ),
                ),
                FlowView::Yield(ActionView::Fork),
            )
        }
    }
}

/// The parent moves on to the next stage, which reads from the pipe that
/// the stage before writes to.
pub open spec fn advance(m: MachineView, p: PipeRunView) -> (MachineView, FlowView) {
    if p.next < p.cmds.len() {
        start_stage(
            m,
            PipeRunView { prev_read: p.read, read: None, write: None, next: p.next + 1, ..p },
        )
    } else {
        (m, FlowView::Return(Err(out_of_turn())))
    }
}

/// The parent closes its copy of the read end that the stage just forked
/// reads from, if there is one.
pub open spec fn close_read(m: MachineView, p: PipeRunView) -> (MachineView, FlowView) {
    match p.prev_read {
        Some(fd) => (
            m.push(FrameView::Pipeline(PipeRunView { phase: Phase::ClosingRead, ..p })),
            FlowView::Yield(ActionView::Close { fd }),
        ),
        None => advance(m, p),
    }
}

/// The parent closes its copy of the write end that the stage just forked
/// writes to, if there is one.
pub open spec fn close_write(m: MachineView, p: PipeRunView) -> (MachineView, FlowView) {
    match p.write {
        Some(fd) => (
            m.push(FrameView::Pipeline(PipeRunView { phase: Phase::ClosingWrite, ..p })),
            FlowView::Yield(ActionView::Close { fd }),
        ),
        None => close_read(m, p),
    }
}

/// The redirections that tie a stage to its pipes: standard output to the
/// write end, then standard input to the read end.
pub open spec fn pipe_redirs(write: Option<i32>, read: Option<i32>) -> Seq<RedirView> {
    (match write {
        Some(fd) => seq![
            RedirView { src: 1, class: RedirType::Output, target: RedirTargetView::Fd(fd) },
        ],
        None => Seq::empty(),
    }) + (match read {
        Some(fd) => seq![
            RedirView { src: 0, class: RedirType::Input, target: RedirTargetView::Fd(fd) },
        ],
        None => Seq::empty(),
    })
}

/// A stage runs its command in the child: tied to its pipes, in place, and
/// ending the process when the command is over.
pub open spec fn pipe_child_run(
    m: MachineView,
    cmd: NodeView,
    write: Option<i32>,
    read: Option<i32>,
) -> (MachineView, FlowView) {
    let tied = m.with_env(m.env.with_redirs(pipe_redirs(write, read))).push(FrameView::Barrier);
    let (after, flow) = dispatch_command(tied, cmd);
    match flow {
        FlowView::Yield(_) => (after, flow),
        FlowView::Return(r) => (after.with_stack(m.stack), FlowView::Yield(exit_for(r))),
    }
}

/// A pipeline: its stages are set up from left to right, then waited for.
pub open spec fn exec_pipeline(m: MachineView, cmds: Seq<NodeView>) -> (MachineView, FlowView) {
    start_stage(
        m,
        PipeRunView {
            cmds,
            next: 0,
            names: Seq::empty(),
            pids: Seq::empty(),
            pgid: None,
            prev_read: None,
            read: None,
            write: None,
            phase: Phase::Piping,
            waited: 0,
        },
    )
}

/// One element of a list, by the kind of its node.
pub open spec fn exec_node(m: MachineView, node: NodeView) -> (MachineView, FlowView) {
    match node.rule {
        NdRuleView::Command { argv, redirs } => dispatch_command(m, node),
        NdRuleView::Subshell { body, argv, redirs } => exec_subshell(
            m,
            body,
            argv,
            redirs,
            node.span,
        ),
        NdRuleView::FuncDef { name, body } => {
            let (env, r) = funcdef_outcome(m.env, name, body, node.span);
            (m.with_env(env), FlowView::Return(r))
        },
        NdRuleView::Assignment { assignments, cmd } => exec_assignment(m, assignments, cmd),
        NdRuleView::Pipeline { cmds } => exec_pipeline(m, cmds),
        NdRuleView::CmdList { cmds } => (m, FlowView::Return(Err(unsupported(node.span)))),
    }
}

/// The elements of a list from `next` on. An element whose guard fails
/// ends the list: nothing after it runs. An element that fails ends the
/// list with its error, blamed on the element.
pub open spec fn exec_list(
    m: MachineView,
    items: Seq<(Option<CmdGuard>, NodeView)>,
    next: nat,
) -> (MachineView, FlowView)
    decreases items.len() - next,
{
    if next >= items.len() {
        (m, FlowView::Return(Ok(())))
    } else {
        let (guard, node) = items[next as int];
        if guard_blocks(guard, m.env.status) {
            (m, FlowView::Return(Ok(())))
        } else {
            let (after, flow) = exec_node(
                m.push(FrameView::List { items, next: next + 1 }),
                node,
            );
            match flow {
                FlowView::Yield(_) => (after, flow),
                FlowView::Return(Ok(_)) => exec_list(
                    after.with_stack(m.stack),
                    items,
                    next + 1,
                ),
                FlowView::Return(Err(e)) => (
                    after.with_stack(m.stack),
                    FlowView::Return(Err(e.blamed(node.span))),
                ),
            }
        }
    }
}

/// The trees of one input from `next` on. Each must be a list; one that
/// fails ends the walk with its error, blamed on the list.
pub open spec fn exec_trees(m: MachineView, trees: Seq<NodeView>, next: nat) -> (
    MachineView,
    FlowView,
)
    decreases trees.len() - next,
{
    if next >= trees.len() {
        (m, FlowView::Return(Ok(())))
    } else {
        let node = trees[next as int];
        match node.rule {
            NdRuleView::CmdList { cmds } => {
                let (after, flow) = exec_list(
                    m.push(FrameView::Walk { trees, next: next + 1 }),
                    cmds,
                    0,
                );
                match flow {
                    FlowView::Yield(_) => (after, flow),
                    FlowView::Return(Ok(_)) => exec_trees(
                        after.with_stack(m.stack),
                        trees,
                        next + 1,
                    ),
                    FlowView::Return(Err(e)) => (
                        after.with_stack(m.stack),
                        FlowView::Return(Err(e.blamed(node.span))),
                    ),
                }
            },
            _ => (m, FlowView::Return(Err(unsupported(node.span)))),
        }
    }
}

/// What the construct `frame` does when the part of the walk that it was
/// waiting for is over with `r`. `m` is the engine without the frame.
pub open spec fn resume(m: MachineView, frame: FrameView, r: Result<(), ShErrView>) -> (
    MachineView,
    FlowView,
) {
    match frame {
        FrameView::Walk { trees, next } => match r {
            Ok(_) => exec_trees(m, trees, next),
            Err(e) => if 0 < next <= trees.len() {
                (m, FlowView::Return(Err(e.blamed(trees[next - 1].span))))
            } else {
                (m, FlowView::Return(Err(e)))
            },
        },
        FrameView::List { items, next } => match r {
            Ok(_) => exec_list(m, items, next),
            Err(e) => if 0 < next <= items.len() {
                (m, FlowView::Return(Err(e.blamed(items[next - 1].1.span))))
            } else {
                (m, FlowView::Return(Err(e)))
            },
        },
        FrameView::Func { snapshot } => (m.with_env(snapshot), FlowView::Return(r)),
        FrameView::Scope { exported } => (
            m.with_env(with_exported(m.env, exported)),
            FlowView::Return(r),
        ),
        FrameView::Barrier => (m, FlowView::Yield(exit_for(r))),
        _ => (m, FlowView::Return(r)),
    }
}

/// How the parent of a pipeline takes up an answer of the host.
pub open spec fn pipeline_event(m: MachineView, p: PipeRunView, ev: EventView) -> (
    MachineView,
    FlowView,
) {
    match (p.phase, ev) {
        (Phase::Piping, EventView::Piped(r, w)) => (
            m.push(
                FrameView::Pipeline(
                    PipeRunView { read: Some(r), write: Some(w), phase: Phase::Forking, ..p },
                ),
            ),
            FlowView::Yield(ActionView::Fork),
        ),
        (Phase::Forking, EventView::Child) => if p.next < p.cmds.len() {
            let isolated = m.with_env(m.env.with_no_fork(true));
            match p.read {
                Some(fd) => (
                    isolated.push(
                        FrameView::PipeChild {
                            cmd: p.cmds[p.next as int],
                            write: p.write,
                            read: p.prev_read,
                        },
                    ),
                    FlowView::Yield(ActionView::Close { fd }),
                ),
                None => pipe_child_run(isolated, p.cmds[p.next as int], p.write, p.prev_read),
            }
        } else {
            (m, FlowView::Return(Err(out_of_turn())))
        },
        (Phase::Forking, EventView::Parent(pid)) => if p.next < p.cmds.len() && stage_name(
            p.cmds[p.next as int],
        ) is Some {
            close_write(
                m,
                PipeRunView {
                    pgid: Some(group_of(p, pid)),
                    pids: p.pids.push(pid),
                    names: p.names.push(stage_name(p.cmds[p.next as int])->0),
                    ..p
                },
            )
        } else {
            (m, FlowView::Return(Err(out_of_turn())))
        },
        (Phase::ClosingWrite, EventView::Done) => close_read(m, p),
        (Phase::ClosingRead, EventView::Done) => advance(m, p),
        (Phase::Waiting, EventView::Waited(status)) => if p.waited < p.pids.len() {
            wait_next(
                m.with_env(m.env.with_status(status)),
                PipeRunView { waited: p.waited + 1, ..p },
            )
        } else {
            (m, FlowView::Return(Err(out_of_turn())))
        },
        _ => unexpected(m, ev),
    }
}

/// How the construct `frame`, which asked the host for something, takes up
/// the answer `ev`. `m` is the engine without the frame.
pub open spec fn on_event(m: MachineView, frame: FrameView, ev: EventView) -> (
    MachineView,
    FlowView,
) {
    match frame {
        FrameView::Ready => match ev {
            EventView::Start => (m, FlowView::Return(Ok(()))),
            _ => unexpected(m, ev),
        },
        FrameView::Resolving { command, argv, envp, redirs, span } => match ev {
            EventView::Resolved(found) => if !found {
                (m, FlowView::Return(Err(not_found(command, span))))
            } else if m.env.no_fork {
                redirect_then_exec(m, command, argv, envp, redirs)
            } else {
                (
                    m.push(FrameView::Forking { command, argv, envp, redirs }),
                    FlowView::Yield(ActionView::Fork),
                )
            },
            _ => unexpected(m, ev),
        },
        FrameView::Forking { command, argv, envp, redirs } => match ev {
            EventView::Child => redirect_then_exec(
                m.push(FrameView::Barrier),
                command,
                argv,
                envp,
                redirs,
            ),
            EventView::Parent(pid) => (
                m.push(FrameView::Waiting),
                FlowView::Yield(ActionView::Wait { job: single_job(pid, command, pid) }),
            ),
            _ => unexpected(m, ev),
        },
        FrameView::Redirecting { command, argv, envp } => match ev {
            EventView::Done => (
                m.push(FrameView::Executing),
                FlowView::Yield(ActionView::Exec { command, argv, envp }),
            ),
            _ => unexpected(m, ev),
        },
        FrameView::Executing => match ev {
            EventView::Failed(e) => (
                m,
                FlowView::Yield(ActionView::Exit { code: EXEC_FAILURE, error: Some(e) }),
            ),
            _ => unexpected(m, ev),
        },
        FrameView::Waiting => match ev {
            EventView::Waited(status) => (
                m.with_env(m.env.with_status(status)),
                FlowView::Return(Ok(())),
            ),
            _ => unexpected(m, ev),
        },
        FrameView::Parsing => match ev {
            EventView::Parsed(trees) => exec_trees(m, trees, 0),
            _ => unexpected(m, ev),
        },
        FrameView::Builtin => match ev {
            EventView::Builtin(env) => (m.with_env(env), FlowView::Return(Ok(()))),
            _ => unexpected(m, ev),
        },
        FrameView::SubshellFork { snapshot, body, argv, redirs } => match ev {
            EventView::Child => subshell_redirect(m.push(FrameView::Barrier), body, argv, redirs),
            EventView::Parent(pid) => (
                m.with_env(snapshot).push(FrameView::Waiting),
                FlowView::Yield(
                    ActionView::Wait { job: single_job(pid, "anonymous subshell"@, pid) },
                ),
            ),
            _ => unexpected(m.with_env(snapshot), ev),
        },
        FrameView::SubshellRedirect { body, argv } => match ev {
            EventView::Done => (
                m.with_env(m.env.with_vars(with_params(m.env.vars, argv))).push(FrameView::Parsing),
                FlowView::Yield(ActionView::Parse { text: body }),
            ),
            _ => unexpected(m, ev),
        },
        FrameView::Pipeline(p) => pipeline_event(m, p, ev),
        FrameView::PipeChild { cmd, write, read } => match ev {
            EventView::Done => pipe_child_run(m, cmd, write, read),
            _ => (m, FlowView::Yield(exit_for(unexpected(m, ev).1->Return_0))),
        },
        _ => unexpected(m, ev),
    }
}

/// Hands a result down the stack until a construct asks the host for
/// something, or until nothing is left to hand it to.
pub open spec fn unwind(m: MachineView, flow: FlowView) -> (MachineView, ActionView)
    decreases m.stack.len(),
{
    match flow {
        FlowView::Yield(action) => (m, action),
        FlowView::Return(r) => if m.stack.len() == 0 {
            (m, ActionView::Finished(r))
        } else {
            let (after, next) = resume(m.pop(), m.stack.last(), r);
            match next {
                FlowView::Yield(action) => (after, action),
                FlowView::Return(_) => if after.stack.len() < m.stack.len() {
                    unwind(after, next)
                } else {
                    (after, ActionView::Finished(Err(out_of_turn())))
                },
            }
        },
    }
}

/// One step of the engine: the innermost construct takes up the answer of
/// the host, and the walk goes on until the host is needed again or the
/// walk is over.
pub open spec fn step(m: MachineView, ev: EventView) -> (MachineView, ActionView) {
    if m.stack.len() == 0 {
        (m, ActionView::Finished(Err(out_of_turn())))
    } else {
        let (after, flow) = on_event(m.pop(), m.stack.last(), ev);
        unwind(after, flow)
    }
}

/// The engine before its first step, with `trees` to walk.
pub open spec fn initial(env: ShEnvView, trees: Seq<NodeView>) -> MachineView {
    MachineView { env, stack: seq![FrameView::Walk { trees, next: 0 }, FrameView::Ready] }
}

} // verus!
