//! What holds of the engine whatever it is given to run.

use vstd::prelude::*;
use crate::error::ShErrView;
use crate::execute::model::{
    ActionView, EventView, FlowView, FrameView, MachineView, Phase, PipeRunView,
};
use crate::execute::rules::{
    advance, assigned, close_read, close_write, environment, exec_assignment, exec_cmd, exec_func,
    exec_list, exec_pipeline, group_of, guard_blocks, on_event, pipeline_event, resume,
    stage_name, start_stage, step, unwind, wait_next,
};
use crate::jobs::single_job;
use crate::parse::{CmdGuard, NodeView};
use crate::lex::{SpanView, TkView};
use crate::shellenv::{RedirView, ShEnvView, VarTabView};
use crate::table::{lemma_lookup_stored, lookup};
use crate::text::split_once;

verus! {

/// Assignments that are not exported leave the exported variables and the
/// positional parameters alone.
pub proof fn lemma_assigned_keeps_exported(vars: VarTabView, assigns: Seq<TkView>)
    ensures
        assigned(vars, assigns, false).env == vars.env,
        assigned(vars, assigns, false).params == vars.params,
    decreases assigns.len(),
{
    if assigns.len() > 0 {
        lemma_assigned_keeps_exported(vars, assigns.drop_last());
    }
}

/// A list of assignments without a command changes variables of the shell
/// and nothing else. The exported variables stay as they were, and so does
/// the environment that a program started afterwards receives. The value of
/// the last assignment is what its name then stands for.
pub proof fn lemma_assignment_alone_is_local(
    m: MachineView,
    assigns: Seq<TkView>,
    argv: Seq<TkView>,
    redirs: Seq<RedirView>,
    span: SpanView,
)
    ensures
        ({
            let (after, flow) = exec_assignment(m, assigns, None);
            &&& flow == FlowView::Return(Ok(()))
            &&& after.stack == m.stack
            &&& after.env == m.env.with_vars(after.env.vars)
            &&& after.env.vars.env == m.env.vars.env
            &&& after.env.vars.params == m.env.vars.params
            &&& environment(after.env.vars.env) == environment(m.env.vars.env)
            &&& (assigns.len() > 0 ==> match split_once(assigns.last().text(), '=') {
                Some((name, value)) => lookup(after.env.vars.vars, name) == Some(value),
                None => true,
            })
            &&& (exec_cmd(m, argv, redirs, span).1 is Yield && exec_cmd(
                after,
                argv,
                redirs,
                span,
            ).1 is Yield ==> exec_cmd(after, argv, redirs, span).0.stack.last()->Resolving_envp
                == exec_cmd(m, argv, redirs, span).0.stack.last()->Resolving_envp)
        }),
{
    lemma_assigned_keeps_exported(m.env.vars, assigns);
    if assigns.len() > 0 {
        match split_once(assigns.last().text(), '=') {
            Some((name, value)) => {
                lemma_lookup_stored(
                    assigned(m.env.vars, assigns.drop_last(), false).vars,
                    name,
                    value,
                );
            },
            None => {},
        }
    }
}

/// A call of a function keeps the state of its caller, and when the body is
/// over the caller goes on in exactly that state, whatever the body did to
/// the state in between and whether it succeeded or failed. In particular
/// the positional parameters of the caller are those of before the call.
pub proof fn lemma_function_call_is_isolated(
    m: MachineView,
    argv: Seq<TkView>,
    redirs: Seq<RedirView>,
    span: SpanView,
    left_by_body: ShEnvView,
    r: Result<(), ShErrView>,
)
    requires
        exec_func(m, argv, redirs, span).1 is Yield,
    ensures
        ({
            let (called, flow) = exec_func(m, argv, redirs, span);
            let returning = MachineView {
                env: left_by_body,
                stack: m.stack.push(FrameView::Func { snapshot: m.env }),
            };
            &&& flow is Yield
            &&& flow->Yield_0 is Parse
            &&& called.stack == m.stack.push(FrameView::Func { snapshot: m.env }).push(
                FrameView::Parsing,
            )
            &&& resume(returning.pop(), returning.stack.last(), r) == (m, FlowView::Return(r))
            &&& resume(returning.pop(), returning.stack.last(), r).0.env.vars.params
                == m.env.vars.params
            &&& unwind(returning, FlowView::Return(r)) == unwind(m, FlowView::Return(r))
        }),
{
    let returning = MachineView {
        env: left_by_body,
        stack: m.stack.push(FrameView::Func { snapshot: m.env }),
    };
    assert(returning.stack.drop_last() =~= m.stack);
    assert(returning.pop().with_env(m.env) == m);
}


/// Whether `ev` is what a willing host answers to the request `a` in the
/// parent of a pipeline: a pipe for a pipe, the child's process id for a
/// fork, success for a close, an exit status for a wait.
pub open spec fn fits(a: ActionView, ev: EventView) -> bool {
    ||| a is Pipe && ev is Piped
    ||| a is Fork && ev is Parent
    ||| a is Close && ev is Done
    ||| a is Wait && ev is Waited
}

/// The requests that the parent of a pipeline makes from the state `m` on,
/// where it has just made the request of `flow`, when the host answers them
/// in turn with `answers`. The run ends when the pipeline is over, when the
/// answers are used up, or with the first answer that does not fit.
pub open spec fn parent_trace(m: MachineView, flow: FlowView, answers: Seq<EventView>) -> Seq<
    ActionView,
>
    decreases answers.len(),
{
    match flow {
        FlowView::Return(_) => Seq::empty(),
        FlowView::Yield(a) => if answers.len() == 0 || m.stack.len() == 0 || !fits(
            a,
            answers[0],
        ) {
            seq![a]
        } else {
            let (after, next) = on_event(m.pop(), m.stack.last(), answers[0]);
            seq![a] + parent_trace(after, next, answers.skip(1))
        },
    }
}

/// Whether the answers `answers` take the pipeline to its end: each fits the
/// request before it, and the last one leaves nothing to ask for.
pub open spec fn completes(m: MachineView, flow: FlowView, answers: Seq<EventView>) -> bool
    decreases answers.len(),
{
    match flow {
        FlowView::Return(r) => r is Ok && answers.len() == 0,
        FlowView::Yield(a) => {
            &&& answers.len() > 0
            &&& m.stack.len() > 0
            &&& fits(a, answers[0])
            &&& completes(
                on_event(m.pop(), m.stack.last(), answers[0]).0,
                on_event(m.pop(), m.stack.last(), answers[0]).1,
                answers.skip(1),
            )
        },
    }
}

/// How many of the requests `t` ask for a pipe.
pub open spec fn count_pipes(t: Seq<ActionView>) -> nat
    decreases t.len(),
{
    if t.len() == 0 {
        0
    } else {
        (if t[0] is Pipe {
            1nat
        } else {
            0nat
        }) + count_pipes(t.skip(1))
    }
}

/// How many of the requests `t` ask for a fork.
pub open spec fn count_forks(t: Seq<ActionView>) -> nat
    decreases t.len(),
{
    if t.len() == 0 {
        0
    } else {
        (if t[0] is Fork {
            1nat
        } else {
            0nat
        }) + count_forks(t.skip(1))
    }
}

/// How many of the requests `t` ask to wait for a job.
pub open spec fn count_waits(t: Seq<ActionView>) -> nat
    decreases t.len(),
{
    if t.len() == 0 {
        0
    } else {
        (if t[0] is Wait {
            1nat
        } else {
            0nat
        }) + count_waits(t.skip(1))
    }
}

/// Whether every job that `t` asks to wait for has one process and puts it,
/// and itself, in the process group `group`.
pub open spec fn waits_in_group(t: Seq<ActionView>, group: i32) -> bool {
    forall|k: int|
        0 <= k < t.len() && (#[trigger] t[k]) is Wait ==> {
            let job = t[k]->job;
            &&& job.pgid == group
            &&& job.children.len() == 1
            &&& job.children[0].pgid == Some(group)
        }
}

/// The process id that the first fork among `answers` reports to the
/// parent.
pub open spec fn first_child(answers: Seq<EventView>) -> i32
    decreases answers.len(),
{
    if answers.len() == 0 {
        0
    } else {
        match answers[0] {
            EventView::Parent(pid) => pid,
            _ => first_child(answers.skip(1)),
        }
    }
}

/// What holds of a pipeline under way and of the request `a` that its
/// parent has just made.
pub open spec fn pipeline_inv(p: PipeRunView, a: ActionView) -> bool {
    &&& p.names.len() == p.pids.len()
    &&& p.pids.len() == 0 ==> p.pgid is None
    &&& p.pids.len() > 0 ==> p.pgid == Some(p.pids[0])
    &&& forall|i: int| 0 <= i < p.cmds.len() ==> stage_name(#[trigger] p.cmds[i]) is Some
    &&& match p.phase {
        Phase::Piping => a is Pipe && p.next + 1 < p.cmds.len() && p.pids.len() == p.next,
        Phase::Forking => a is Fork && p.next < p.cmds.len() && p.pids.len() == p.next,
        Phase::ClosingWrite => a is Close && p.next < p.cmds.len() && p.pids.len() == p.next + 1,
        Phase::ClosingRead => a is Close && p.next < p.cmds.len() && p.pids.len() == p.next + 1,
        Phase::Waiting => {
            &&& p.waited < p.pids.len()
            &&& p.pids.len() == p.cmds.len()
            &&& a == ActionView::Wait {
                job: single_job(
                    p.pids[p.waited as int],
                    p.names[p.waited as int],
                    group_of(p, p.pids[p.waited as int]),
                ),
            }
        },
    }
}

/// How many pipes are still to be asked for, the request just made counted
/// in.
pub open spec fn pipes_due(p: PipeRunView) -> int {
    match p.phase {
        Phase::Piping => p.cmds.len() - 1 - p.next,
        Phase::Waiting => 0,
        _ => if p.next + 2 <= p.cmds.len() {
            p.cmds.len() - 2 - p.next
        } else {
            0
        },
    }
}

/// How many forks are still to be asked for, the request just made counted
/// in.
pub open spec fn forks_due(p: PipeRunView) -> int {
    match p.phase {
        Phase::Piping => p.cmds.len() - p.next,
        Phase::Forking => p.cmds.len() - p.next,
        Phase::Waiting => 0,
        _ => p.cmds.len() - p.next - 1,
    }
}

/// How many waits are still to be asked for, the request just made counted
/// in.
pub open spec fn waits_due(p: PipeRunView) -> int {
    match p.phase {
        Phase::Waiting => p.pids.len() - p.waited,
        _ => p.cmds.len() as int,
    }
}

/// The process group that the pipeline is in or, before its first fork,
/// will be in.
pub open spec fn group_due(p: PipeRunView, answers: Seq<EventView>) -> i32 {
    match p.pgid {
        Some(g) => g,
        None => first_child(answers),
    }
}

proof fn lemma_start_stage_keeps(m: MachineView, p: PipeRunView)
    requires
        p.names.len() == p.pids.len(),
        p.pids.len() == 0 ==> p.pgid is None,
        p.pids.len() > 0 ==> p.pgid == Some(p.pids[0]),
        forall|i: int| 0 <= i < p.cmds.len() ==> stage_name(#[trigger] p.cmds[i]) is Some,
        p.next <= p.cmds.len(),
        p.pids.len() == p.next,
    ensures
        ({
            let (after, flow) = start_stage(m, p);
            match flow {
                FlowView::Return(r) => r is Ok && p.cmds.len() == 0 && after == m,
                FlowView::Yield(a) => {
                    &&& after.stack.len() > 0
                    &&& after.pop() == m
                    &&& after.stack.last() is Pipeline
                    &&& pipeline_inv(after.stack.last()->Pipeline_0, a)
                    &&& after.stack.last()->Pipeline_0.pgid == p.pgid
                    &&& after.stack.last()->Pipeline_0.cmds == p.cmds
                    &&& pipes_due(after.stack.last()->Pipeline_0) == (if p.next + 1
                        < p.cmds.len() {
                        p.cmds.len() - 1 - p.next
                    } else {
                        0
                    })
                    &&& forks_due(after.stack.last()->Pipeline_0) == p.cmds.len() - p.next
                    &&& waits_due(after.stack.last()->Pipeline_0) == p.cmds.len()
                },
            }
        }),
{
    let (after, flow) = start_stage(m, p);
    if p.next >= p.cmds.len() {
        let w = PipeRunView { waited: 0, ..p };
        assert(start_stage(m, p) == wait_next(m, w));
        if p.pids.len() > 0 {
            assert(after.stack.drop_last() =~= m.stack);
        }
    } else {
        assert(stage_name(p.cmds[p.next as int]) is Some);
        assert(after.stack.drop_last() =~= m.stack);
    }
}

/// One answer of a willing host takes a pipeline under way to the next
/// request, with everything that is still due accounted for, or to its end
/// when nothing is due any more.
proof fn lemma_pipeline_step(m: MachineView, a: ActionView, answers: Seq<EventView>)
    requires
        m.stack.len() > 0,
        m.stack.last() is Pipeline,
        pipeline_inv(m.stack.last()->Pipeline_0, a),
        answers.len() > 0,
        fits(a, answers[0]),
    ensures
        ({
            let p = m.stack.last()->Pipeline_0;
            let (after, flow) = on_event(m.pop(), m.stack.last(), answers[0]);
            let here_pipe: int = if a is Pipe {
                1
            } else {
                0
            };
            let here_fork: int = if a is Fork {
                1
            } else {
                0
            };
            let here_wait: int = if a is Wait {
                1
            } else {
                0
            };
            &&& a is Wait ==> a->job == single_job(
                p.pids[p.waited as int],
                p.names[p.waited as int],
                group_due(p, answers),
            )
            &&& match flow {
                FlowView::Return(r) => {
                    &&& r is Ok
                    &&& pipes_due(p) == here_pipe
                    &&& forks_due(p) == here_fork
                    &&& waits_due(p) == here_wait
                },
                FlowView::Yield(b) => {
                    &&& after.stack.len() > 0
                    &&& after.stack.last() is Pipeline
                    &&& pipeline_inv(after.stack.last()->Pipeline_0, b)
                    &&& pipes_due(p) == here_pipe + pipes_due(after.stack.last()->Pipeline_0)
                    &&& forks_due(p) == here_fork + forks_due(after.stack.last()->Pipeline_0)
                    &&& waits_due(p) == here_wait + waits_due(after.stack.last()->Pipeline_0)
                    &&& group_due(after.stack.last()->Pipeline_0, answers.skip(1)) == group_due(
                        p,
                        answers,
                    )
                },
            }
        }),
{
    let p = m.stack.last()->Pipeline_0;
    let ev = answers[0];
    let base = m.pop();
    assert(on_event(base, m.stack.last(), ev) == pipeline_event(base, p, ev));
    match p.phase {
        Phase::Piping => {
            let q = PipeRunView {
                read: Some(ev->Piped_0),
                write: Some(ev->Piped_1),
                phase: Phase::Forking,
                ..p
            };
            assert(pipeline_event(base, p, ev) == (
                base.push(FrameView::Pipeline(q)),
                FlowView::Yield(ActionView::Fork),
            ));
        },
        Phase::Forking => {
            let pid = ev->Parent_0;
            let q = PipeRunView {
                pgid: Some(group_of(p, pid)),
                pids: p.pids.push(pid),
                names: p.names.push(stage_name(p.cmds[p.next as int])->0),
                ..p
            };
            assert(stage_name(p.cmds[p.next as int]) is Some);
            assert(pipeline_event(base, p, ev) == close_write(base, q));
            assert(q.pids[0] == group_of(p, pid));
            lemma_after_fork(base, q);
        },
        Phase::ClosingWrite => {
            assert(pipeline_event(base, p, ev) == close_read(base, p));
            lemma_after_close(base, p);
        },
        Phase::ClosingRead => {
            assert(pipeline_event(base, p, ev) == advance(base, p));
            lemma_after_close(base, p);
        },
        Phase::Waiting => {
            let env = base.env.with_status(ev->Waited_0);
            let q = PipeRunView { waited: p.waited + 1, ..p };
            assert(pipeline_event(base, p, ev) == wait_next(base.with_env(env), q));
        },
    }
}

/// What comes after the parent's closes: the next stage, with everything
/// that is still due accounted for.
proof fn lemma_after_close(base: MachineView, p: PipeRunView)
    requires
        p.names.len() == p.pids.len(),
        p.pids.len() > 0,
        p.pgid == Some(p.pids[0]),
        forall|i: int| 0 <= i < p.cmds.len() ==> stage_name(#[trigger] p.cmds[i]) is Some,
        p.next < p.cmds.len(),
        p.pids.len() == p.next + 1,
    ensures
        after_closes(base, p, advance(base, p)),
        p.phase == Phase::ClosingWrite ==> after_closes(base, p, close_read(base, p)),
{
    let q = PipeRunView { prev_read: p.read, read: None, write: None, next: p.next + 1, ..p };
    assert(advance(base, p) == start_stage(base, q));
    lemma_start_stage_keeps(base, q);
    if p.phase == Phase::ClosingWrite && p.prev_read is Some {
        let (after, flow) = close_read(base, p);
        assert(after.stack.drop_last() =~= base.stack);
    }
}

/// What holds of the state `outcome` that follows the fork of the stage
/// `p.next`, one or two closes later or none.
pub open spec fn after_closes(
    base: MachineView,
    p: PipeRunView,
    outcome: (MachineView, FlowView),
) -> bool {
    let (after, flow) = outcome;
    let rest_pipes: int = if p.next + 2 <= p.cmds.len() {
        p.cmds.len() - 2 - p.next
    } else {
        0
    };
    match flow {
        FlowView::Return(r) => false,
        FlowView::Yield(b) => {
            &&& after.stack.len() > 0
            &&& after.stack.last() is Pipeline
            &&& pipeline_inv(after.stack.last()->Pipeline_0, b)
            &&& after.stack.last()->Pipeline_0.pgid == p.pgid
            &&& pipes_due(after.stack.last()->Pipeline_0) == rest_pipes
            &&& forks_due(after.stack.last()->Pipeline_0) == p.cmds.len() - p.next - 1
            &&& waits_due(after.stack.last()->Pipeline_0) == p.cmds.len()
        },
    }
}

proof fn lemma_after_fork(base: MachineView, p: PipeRunView)
    requires
        p.names.len() == p.pids.len(),
        p.pids.len() > 0,
        p.pgid == Some(p.pids[0]),
        forall|i: int| 0 <= i < p.cmds.len() ==> stage_name(#[trigger] p.cmds[i]) is Some,
        p.next < p.cmds.len(),
        p.pids.len() == p.next + 1,
    ensures
        after_closes(base, p, close_write(base, p)),
{
    lemma_after_close(base, PipeRunView { phase: Phase::ClosingWrite, ..p });
    lemma_after_close(base, PipeRunView { phase: Phase::ClosingRead, ..p });
    if p.write is Some {
        let (after, flow) = close_write(base, p);
        assert(after.stack.drop_last() =~= base.stack);
    } else if p.prev_read is Some {
        let (after, flow) = close_read(base, p);
        assert(after.stack.drop_last() =~= base.stack);
    }
}

proof fn lemma_pipeline_run(m: MachineView, a: ActionView, answers: Seq<EventView>)
    requires
        m.stack.len() > 0,
        m.stack.last() is Pipeline,
        pipeline_inv(m.stack.last()->Pipeline_0, a),
        completes(m, FlowView::Yield(a), answers),
    ensures
        ({
            let p = m.stack.last()->Pipeline_0;
            let t = parent_trace(m, FlowView::Yield(a), answers);
            &&& count_pipes(t) == pipes_due(p)
            &&& count_forks(t) == forks_due(p)
            &&& count_waits(t) == waits_due(p)
            &&& waits_in_group(t, group_due(p, answers))
        }),
    decreases answers.len(),
{
    let p = m.stack.last()->Pipeline_0;
    let t = parent_trace(m, FlowView::Yield(a), answers);
    let (after, flow) = on_event(m.pop(), m.stack.last(), answers[0]);
    let rest = parent_trace(after, flow, answers.skip(1));
    lemma_pipeline_step(m, a, answers);
    assert(t == seq![a] + rest);
    assert(t.skip(1) =~= rest);
    assert(t[0] == a);
    match flow {
        FlowView::Return(r) => {
            assert(rest.len() == 0);
            assert(count_pipes(rest) == 0);
            assert(count_forks(rest) == 0);
            assert(count_waits(rest) == 0);
        },
        FlowView::Yield(b) => {
            lemma_pipeline_run(after, b, answers.skip(1));
            assert forall|k: int| 0 <= k < t.len() && (#[trigger] t[k]) is Wait implies {
                let job = t[k]->job;
                &&& job.pgid == group_due(p, answers)
                &&& job.children.len() == 1
                &&& job.children[0].pgid == Some(group_due(p, answers))
            } by {
                if k > 0 {
                    assert(t[k] == rest[k - 1]);
                }
            }
        },
    }
}

/// A pipeline of `n` stages, run to its end by a willing host: the parent
/// asks for `n - 1` pipes, for `n` forks and for `n` waits, and every job
/// that it waits for has one process and is, like that process, in the
/// process group named after the first child forked.
pub proof fn lemma_pipeline_pipes_and_group(
    m: MachineView,
    cmds: Seq<NodeView>,
    answers: Seq<EventView>,
)
    requires
        forall|i: int| 0 <= i < cmds.len() ==> stage_name(#[trigger] cmds[i]) is Some,
        completes(exec_pipeline(m, cmds).0, exec_pipeline(m, cmds).1, answers),
    ensures
        ({
            let (begun, flow) = exec_pipeline(m, cmds);
            let t = parent_trace(begun, flow, answers);
            &&& count_pipes(t) == (if cmds.len() == 0 {
                0
            } else {
                cmds.len() - 1
            })
            &&& count_forks(t) == cmds.len()
            &&& count_waits(t) == cmds.len()
            &&& waits_in_group(t, first_child(answers))
        }),
{
    let p = PipeRunView {
        cmds,
        next: 0,
        names: Seq::empty(),
        pids: Seq::empty(),
        pgid: None,
        prev_read: None,
        read: None,
        write: None,
        phase: Phase::Piping,
        waited: 0,
    };
    let (begun, flow) = exec_pipeline(m, cmds);
    assert(exec_pipeline(m, cmds) == start_stage(m, p));
    lemma_start_stage_keeps(m, p);
    match flow {
        FlowView::Return(r) => {
            assert(parent_trace(begun, flow, answers).len() == 0);
        },
        FlowView::Yield(a) => {
            lemma_pipeline_run(begun, a, answers);
        },
    }
}


/// An element whose guard fails ends its list on the spot: neither the
/// element nor anything after it runs, the state stays as it is, and the
/// list is over without an error.
pub proof fn lemma_failed_guard_drops_the_rest(
    m: MachineView,
    items: Seq<(Option<CmdGuard>, NodeView)>,
    next: nat,
)
    requires
        next < items.len(),
        guard_blocks(items[next as int].0, m.env.status),
    ensures
        exec_list(m, items, next) == (m, FlowView::Return(Ok(()))),
        items[next as int].0 == Some(CmdGuard::And) ==> m.env.status != 0,
        items[next as int].0 == Some(CmdGuard::Or) ==> m.env.status == 0,
{
}

/// While a construct has something to ask for, a step of the engine is the
/// answer taken up by that construct and nothing more: the request and the
/// state are those that the construct leaves.
pub proof fn lemma_step_while_asking(m: MachineView, ev: EventView)
    requires
        m.stack.len() > 0,
        on_event(m.pop(), m.stack.last(), ev).1 is Yield,
    ensures
        step(m, ev) == (
            on_event(m.pop(), m.stack.last(), ev).0,
            on_event(m.pop(), m.stack.last(), ev).1->Yield_0,
        ),
{
}

} // verus!
