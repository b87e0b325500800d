//! What the engine and its host say to each other, and what the engine
//! remembers between two steps.

use vstd::prelude::*;
use crate::error::{ShErr, ShErrView, ShResult};
use crate::jobs::{Job, JobView};
use crate::lex::{Span, SpanView};
use crate::parse::{item_views, node_views, CmdGuard, Node, NodeView};
use crate::shellenv::{redir_views, Redir, RedirView, ShEnv, ShEnvView};
use crate::table::{Entry, Table};
use crate::text::texts;

verus! {

/// The exit status of a process whose program could not be started.
pub const EXEC_FAILURE: i32 = 126;

/// What the host is asked to do next.
#[derive(Debug)]
pub enum Action {
    /// Look for the program `name` on the search path.
    Resolve { name: String },
    /// Fork the process.
    Fork,
    /// Open a pipe.
    Pipe,
    /// Close the descriptor `fd`.
    Close { fd: i32 },
    /// Apply these redirections to the descriptors of the process.
    Redirect { redirs: Vec<Redir> },
    /// Replace the process by the program `command`, with these arguments
    /// and this environment.
    Exec { command: String, argv: Vec<String>, envp: Vec<String> },
    /// Wait in the foreground until the job is over.
    Wait { job: Job },
    /// Read `text` as shell input and parse it.
    Parse { text: String },
    /// Run the builtin `name` with these arguments on the environment.
    Builtin { name: String, argv: Vec<String> },
    /// Report the error, if there is one, and end the process with `code`.
    Exit { code: i32, error: Option<ShErr> },
    /// Nothing is left to do: the walk is over, with this result.
    Finished(ShResult<()>),
}

pub enum ActionView {
    Resolve { name: Seq<char> },
    Fork,
    Pipe,
    Close { fd: i32 },
    Redirect { redirs: Seq<RedirView> },
    Exec { command: Seq<char>, argv: Seq<Seq<char>>, envp: Seq<Seq<char>> },
    Wait { job: JobView },
    Parse { text: Seq<char> },
    Builtin { name: Seq<char>, argv: Seq<Seq<char>> },
    Exit { code: i32, error: Option<ShErrView> },
    Finished(Result<(), ShErrView>),
}

impl View for Action {
    type V = ActionView;

    open spec fn view(&self) -> ActionView {
        match self {
            Action::Resolve { name } => ActionView::Resolve { name: name@ },
            Action::Fork => ActionView::Fork,
            Action::Pipe => ActionView::Pipe,
            Action::Close { fd } => ActionView::Close { fd: *fd },
            Action::Redirect { redirs } => ActionView::Redirect { redirs: redir_views(redirs@) },
            Action::Exec { command, argv, envp } => ActionView::Exec {
                command: command@,
                argv: texts(argv@),
                envp: texts(envp@),
            },
            Action::Wait { job } => ActionView::Wait { job: job@ },
            Action::Parse { text } => ActionView::Parse { text: text@ },
            Action::Builtin { name, argv } => ActionView::Builtin {
                name: name@,
                argv: texts(argv@),
            },
            Action::Exit { code, error } => ActionView::Exit {
                code: *code,
                error: match error {
                    Some(e) => Some(e@),
                    None => None,
                },
            },
            Action::Finished(Ok(_)) => ActionView::Finished(Ok(())),
            Action::Finished(Err(e)) => ActionView::Finished(Err(e@)),
        }
    }
}

/// What the host reports back.
#[derive(Debug)]
pub enum Event {
    /// The walk may begin.
    Start,
    /// Whether the program was found.
    Resolved(bool),
    /// The fork succeeded, and this process is the child.
    Child,
    /// The fork succeeded, and this process is the parent of `pid`.
    Parent(i32),
    /// The pipe is open: its read end and its write end.
    Piped(i32, i32),
    /// The action was carried out.
    Done,
    /// The job is over, with this exit status.
    Waited(i32),
    /// The text was parsed into these trees.
    Parsed(Vec<Node>),
    /// The builtin ran and left the environment like this.
    Builtin(ShEnv),
    /// The action failed.
    Failed(ShErr),
}

pub enum EventView {
    Start,
    Resolved(bool),
    Child,
    Parent(i32),
    Piped(i32, i32),
    Done,
    Waited(i32),
    Parsed(Seq<NodeView>),
    Builtin(ShEnvView),
    Failed(ShErrView),
}

impl View for Event {
    type V = EventView;

    open spec fn view(&self) -> EventView {
        match self {
            Event::Start => EventView::Start,
            Event::Resolved(found) => EventView::Resolved(*found),
            Event::Child => EventView::Child,
            Event::Parent(pid) => EventView::Parent(*pid),
            Event::Piped(r, w) => EventView::Piped(*r, *w),
            Event::Done => EventView::Done,
            Event::Waited(status) => EventView::Waited(*status),
            Event::Parsed(trees) => EventView::Parsed(node_views(trees@)),
            Event::Builtin(env) => EventView::Builtin(env@),
            Event::Failed(e) => EventView::Failed(e@),
        }
    }
}

/// Where the parent stands in the setup of a pipeline.
#[derive(Clone, Copy, Debug, PartialEq, Eq, Structural)]
pub enum Phase {
    /// A pipe for the stage was asked for.
    Piping,
    /// The fork of the stage was asked for.
    Forking,
    /// The parent closes its copy of the write end that the stage uses.
    ClosingWrite,
    /// The parent closes its copy of the read end that the stage uses.
    ClosingRead,
    /// All stages run, and the parent waits for them in turn.
    Waiting,
}

/// A pipeline in the making, as its parent sees it.
#[derive(Debug)]
pub struct PipeRun {
    pub cmds: Vec<Node>,
    /// The stage that is being set up.
    pub next: usize,
    /// The names and process ids of the stages forked so far.
    pub names: Vec<String>,
    pub pids: Vec<i32>,
    /// The process group of the pipeline.
    pub pgid: Option<i32>,
    /// The read end of the pipe that feeds the stage.
    pub prev_read: Option<i32>,
    /// The two ends of the pipe that the stage writes to.
    pub read: Option<i32>,
    pub write: Option<i32>,
    pub phase: Phase,
    /// How many stages have been waited for.
    pub waited: usize,
}

pub struct PipeRunView {
    pub cmds: Seq<NodeView>,
    pub next: nat,
    pub names: Seq<Seq<char>>,
    pub pids: Seq<i32>,
    pub pgid: Option<i32>,
    pub prev_read: Option<i32>,
    pub read: Option<i32>,
    pub write: Option<i32>,
    pub phase: Phase,
    pub waited: nat,
}

impl View for PipeRun {
    type V = PipeRunView;

    open spec fn view(&self) -> PipeRunView {
        PipeRunView {
            cmds: node_views(self.cmds@),
            next: self.next as nat,
            names: texts(self.names@),
            pids: self.pids@,
            pgid: self.pgid,
            prev_read: self.prev_read,
            read: self.read,
            write: self.write,
            phase: self.phase,
            waited: self.waited as nat,
        }
    }
}

/// What the engine has to come back to: one entry for every construct that
/// is under way, the innermost last.
#[derive(Debug)]
pub enum Frame {
    /// The walk has not begun.
    Ready,
    /// The trees of one input, of which `next` is the first not yet begun.
    Walk { trees: Vec<Node>, next: usize },
    /// The elements of one list, of which `next` is the first not yet begun.
    List { items: Vec<(Option<CmdGuard>, Node)>, next: usize },
    /// A function call, with the state to go back to when it is over.
    Func { snapshot: ShEnv },
    /// A command with assignments in front, with the exported variables to
    /// go back to when it is over.
    Scope { exported: Table },
    /// The process is a child that must end rather than return.
    Barrier,
    /// A program is being looked for.
    Resolving {
        command: String,
        argv: Vec<String>,
        envp: Vec<String>,
        redirs: Vec<Redir>,
        span: Span,
    },
    /// The process forks to run a program.
    Forking { command: String, argv: Vec<String>, envp: Vec<String>, redirs: Vec<Redir> },
    /// The redirections of a program are being applied.
    Redirecting { command: String, argv: Vec<String>, envp: Vec<String> },
    /// The process is about to become a program.
    Executing,
    /// A job runs in the foreground.
    Waiting,
    /// A body is being parsed.
    Parsing,
    /// A builtin runs at the host.
    Builtin,
    /// The process forks to run a subshell.
    SubshellFork { snapshot: ShEnv, body: String, argv: Vec<String>, redirs: Vec<Redir> },
    /// The redirections of a subshell are being applied.
    SubshellRedirect { body: String, argv: Vec<String> },
    /// A pipeline is being set up or waited for.
    Pipeline(PipeRun),
    /// A stage of a pipeline closes the read end that it does not use.
    PipeChild { cmd: Node, write: Option<i32>, read: Option<i32> },
}

pub enum FrameView {
    Ready,
    Walk { trees: Seq<NodeView>, next: nat },
    List { items: Seq<(Option<CmdGuard>, NodeView)>, next: nat },
    Func { snapshot: ShEnvView },
    Scope { exported: Seq<Entry> },
    Barrier,
    Resolving {
        command: Seq<char>,
        argv: Seq<Seq<char>>,
        envp: Seq<Seq<char>>,
        redirs: Seq<RedirView>,
        span: SpanView,
    },
    Forking {
        command: Seq<char>,
        argv: Seq<Seq<char>>,
        envp: Seq<Seq<char>>,
        redirs: Seq<RedirView>,
    },
    Redirecting { command: Seq<char>, argv: Seq<Seq<char>>, envp: Seq<Seq<char>> },
    Executing,
    Waiting,
    Parsing,
    Builtin,
    SubshellFork {
        snapshot: ShEnvView,
        body: Seq<char>,
        argv: Seq<Seq<char>>,
        redirs: Seq<RedirView>,
    },
    SubshellRedirect { body: Seq<char>, argv: Seq<Seq<char>> },
    Pipeline(PipeRunView),
    PipeChild { cmd: NodeView, write: Option<i32>, read: Option<i32> },
}

impl View for Frame {
    type V = FrameView;

    open spec fn view(&self) -> FrameView {
        match self {
            Frame::Ready => FrameView::Ready,
            Frame::Walk { trees, next } => FrameView::Walk {
                trees: node_views(trees@),
                next: *next as nat,
            },
            Frame::List { items, next } => FrameView::List {
                items: item_views(items@),
                next: *next as nat,
            },
            Frame::Func { snapshot } => FrameView::Func { snapshot: snapshot@ },
            Frame::Scope { exported } => FrameView::Scope { exported: exported@ },
            Frame::Barrier => FrameView::Barrier,
            Frame::Resolving { command, argv, envp, redirs, span } => FrameView::Resolving {
                command: command@,
                argv: texts(argv@),
                envp: texts(envp@),
                redirs: redir_views(redirs@),
                span: span@,
            },
            Frame::Forking { command, argv, envp, redirs } => FrameView::Forking {
                command: command@,
                argv: texts(argv@),
                envp: texts(envp@),
                redirs: redir_views(redirs@),
            },
            Frame::Redirecting { command, argv, envp } => FrameView::Redirecting {
                command: command@,
                argv: texts(argv@),
                envp: texts(envp@),
            },
            Frame::Executing => FrameView::Executing,
            Frame::Waiting => FrameView::Waiting,
            Frame::Parsing => FrameView::Parsing,
            Frame::Builtin => FrameView::Builtin,
            Frame::SubshellFork { snapshot, body, argv, redirs } => FrameView::SubshellFork {
                snapshot: snapshot@,
                body: body@,
                argv: texts(argv@),
                redirs: redir_views(redirs@),
            },
            Frame::SubshellRedirect { body, argv } => FrameView::SubshellRedirect {
                body: body@,
                argv: texts(argv@),
            },
            Frame::Pipeline(run) => FrameView::Pipeline(run@),
            Frame::PipeChild { cmd, write, read } => FrameView::PipeChild {
                cmd: cmd@,
                write: *write,
                read: *read,
            },
        }
    }
}

/// The views of a stack of frames, the innermost last.
pub open spec fn frame_views(v: Seq<Frame>) -> Seq<FrameView> {
    Seq::new(v.len(), |i: int| v[i]@)
}

pub proof fn lemma_frame_views_push(v: Seq<Frame>, f: Frame)
    ensures
        frame_views(v.push(f)) == frame_views(v).push(f@),
{
    assert(frame_views(v.push(f)) =~= frame_views(v).push(f@));
}

pub proof fn lemma_frame_views_pop(v: Seq<Frame>)
    requires
        v.len() > 0,
    ensures
        frame_views(v.drop_last()) == frame_views(v).drop_last(),
        frame_views(v).last() == v.last()@,
{
    assert(frame_views(v.drop_last()) =~= frame_views(v).drop_last());
}

/// How a part of the walk ends for the time being.
#[derive(Debug)]
pub enum Flow {
    /// It is over, with this result.
    Return(ShResult<()>),
    /// It needs the host to act.
    Yield(Action),
}

pub enum FlowView {
    Return(Result<(), ShErrView>),
    Yield(ActionView),
}

impl View for Flow {
    type V = FlowView;

    open spec fn view(&self) -> FlowView {
        match self {
            Flow::Return(Ok(_)) => FlowView::Return(Ok(())),
            Flow::Return(Err(e)) => FlowView::Return(Err(e@)),
            Flow::Yield(a) => FlowView::Yield(a@),
        }
    }
}

/// The engine as contracts see it: the interpreter's state and the stack of
/// what is under way.
pub struct MachineView {
    pub env: ShEnvView,
    pub stack: Seq<FrameView>,
}

impl MachineView {
    pub open spec fn push(self, f: FrameView) -> MachineView {
        MachineView { stack: self.stack.push(f), ..self }
    }

    pub open spec fn pop(self) -> MachineView {
        MachineView { stack: self.stack.drop_last(), ..self }
    }

    pub open spec fn with_env(self, env: ShEnvView) -> MachineView {
        MachineView { env, ..self }
    }

    pub open spec fn with_stack(self, stack: Seq<FrameView>) -> MachineView {
        MachineView { stack, ..self }
    }
}

} // verus!
