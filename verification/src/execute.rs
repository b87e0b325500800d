//! The execution engine.
//!
//! The engine never touches the operating system. It walks the syntax tree
//! and, whenever a process has to be forked, a pipe opened, a program run or
//! a body parsed, hands the request to its host and stops. The host carries
//! the request out and calls the engine again with what came of it.

use vstd::prelude::*;
use crate::builtin::alias::alias;
use crate::error::{result_view, ShErr, ShErrKind, ShResult};
use crate::execute::model::{
    frame_views, lemma_frame_views_pop, lemma_frame_views_push, Action, Event, Flow, FlowView,
    Frame, MachineView, Phase, PipeRun, EXEC_FAILURE,
};
use crate::expand::Expander;
use crate::jobs::Job;
use crate::lex::{clone_strings, tk_views, Span, Tk, TkRule, TkView};
use crate::parse::{
    clone_items, item_views, lemma_rule_view_lists, node_views, CmdGuard, NdRule, Node,
};
use crate::shellenv::{redir_views, Redir, RedirTarget, RedirType, ShEnv, VarTab};
use crate::text::{
    from_chars, lemma_texts_empty, lemma_texts_push, same_text, split_at_first, strip_ends, texts,
    to_chars, trim, Trim,
};

pub mod model;
pub mod laws;
pub mod rules;

verus! {

/// The engine: the state of the interpreter and the stack of what is under
/// way.
pub struct Executor {
    shenv: ShEnv,
    stack: Vec<Frame>,
}

impl View for Executor {
    type V = MachineView;

    closed spec fn view(&self) -> MachineView {
        MachineView { env: self.shenv@, stack: frame_views(self.stack@) }
    }
}

/// Whether a part of the walk that is over left the stack as it found it.
pub open spec fn settled(before: MachineView, after: MachineView, flow: FlowView) -> bool {
    flow is Return ==> after.stack == before.stack
}

fn internal_err(msg: &str, span: Span) -> (r: ShErr)
    ensures
        r@ == rules::internal(msg@, span@),
{
    ShErr::full(ShErrKind::InternalErr, msg, span)
}

fn out_of_turn() -> (r: ShErr)
    ensures
        r@ == rules::out_of_turn(),
{
    ShErr::simple(ShErrKind::InternalErr, "Event out of turn")
}

fn unexpected(event: Event) -> (flow: Flow)
    ensures
        forall|m: MachineView| rules::unexpected(m, event@) == (m, flow@),
        flow is Return,
{
    match event {
        Event::Failed(e) => Flow::Return(Err(e)),
        _ => Flow::Return(Err(out_of_turn())),
    }
}

fn exit_for(r: ShResult<()>) -> (a: Action)
    ensures
        a@ == rules::exit_for(result_view(r)),
{
    match r {
        Ok(_) => Action::Exit { code: 0, error: None },
        Err(e) => Action::Exit { code: 1, error: Some(e) },
    }
}

/// The words that a token gives under `vars`.
pub fn token_words(t: &Tk, vars: &VarTab) -> (r: Vec<String>)
    ensures
        texts(r@) == rules::words_under(t@, vars@),
{
    match &t.class {
        TkRule::Expanded { exp } => clone_strings(exp),
        _ => Expander::new(t.clone()).expand(vars),
    }
}

proof fn lemma_texts_concat(a: Seq<String>, b: Seq<String>)
    ensures
        texts(a + b) == texts(a) + texts(b),
{
    assert(texts(a + b) =~= texts(a) + texts(b));
}

/// The words of all tokens of `argv` under `vars`, in order.
pub fn words_of(argv: &Vec<Tk>, vars: &VarTab) -> (r: Vec<String>)
    ensures
        texts(r@) == rules::argv_words(tk_views(argv@), vars@),
{
    let mut out: Vec<String> = Vec::new();
    let mut i: usize = 0;
    proof {
        lemma_texts_empty();
        assert(tk_views(argv@).take(0) =~= Seq::<TkView>::empty());
    }
    while i < argv.len()
        invariant
            i <= argv.len(),
            texts(out@) == rules::argv_words(tk_views(argv@).take(i as int), vars@),
        decreases argv.len() - i,
    {
        let mut more = token_words(&argv[i], vars);
        proof {
            lemma_texts_concat(out@, more@);
            assert(tk_views(argv@).take(i + 1).drop_last() =~= tk_views(argv@).take(i as int));
            assert(tk_views(argv@).take(i + 1).last() == argv@[i as int]@);
        }
        out.append(&mut more);
        i += 1;
    }
    assert(tk_views(argv@).take(argv.len() as int) =~= tk_views(argv@));
    out
}

/// The tokens of `argv`, each expanded under `vars`.
pub fn expand_argv(argv: &Vec<Tk>, vars: &VarTab) -> (r: Vec<Tk>)
    ensures
        tk_views(r@) == rules::argv_expanded(tk_views(argv@), vars@),
{
    let mut out: Vec<Tk> = Vec::new();
    let mut i: usize = 0;
    while i < argv.len()
        invariant
            i <= argv.len(),
            out@.len() == i,
            forall|j: int|
                0 <= j < i ==> (#[trigger] out@[j])@ == argv@[j]@.expanded(
                    argv@[j]@.span,
                    argv@[j]@.flags,
                    vars@,
                ),
        decreases argv.len() - i,
    {
        let t = argv[i].clone();
        let span = t.span.clone();
        let flags = t.flags;
        out.push(t.expand(span, flags, vars));
        i += 1;
    }
    assert(tk_views(out@) =~= rules::argv_expanded(tk_views(argv@), vars@));
    out
}

/// The arguments and the environment that a program is started with: the
/// words of `argv`, and one `NAME=value` for every exported variable.
pub fn prep_execve(argv: &Vec<Tk>, shenv: &ShEnv) -> (r: (Vec<String>, Vec<String>))
    ensures
        texts(r.0@) == rules::argv_words(tk_views(argv@), shenv@.vars),
        texts(r.1@) == rules::environment(shenv@.vars.env),
{
    let argv_s = words_of(argv, &shenv.vars);
    let mut envp: Vec<String> = Vec::new();
    let entries = &shenv.vars.env.entries;
    let mut i: usize = 0;
    while i < entries.len()
        invariant
            i <= entries.len(),
            envp@.len() == i,
            forall|j: int|
                0 <= j < i ==> (#[trigger] envp@[j])@ == entries@[j].0@ + seq!['='] + entries@[j].1@,
        decreases entries.len() - i,
    {
        let mut formatted = entries[i].0.clone();
        formatted.push('=');
        formatted.append(entries[i].1.as_str());
        assert(formatted@ =~= entries@[i as int].0@ + seq!['='] + entries@[i as int].1@);
        envp.push(formatted);
        i += 1;
    }
    assert(texts(envp@) =~= rules::environment(shenv@.vars.env));
    (argv_s, envp)
}

/// Applies the assignments `assigns` to `vars`, exporting them or not.
pub fn apply_assignments(vars: &mut VarTab, assigns: &Vec<Tk>, exported: bool)
    ensures
        final(vars)@ == rules::assigned(old(vars)@, tk_views(assigns@), exported),
{
    let mut i: usize = 0;
    assert(tk_views(assigns@).take(0) =~= Seq::<TkView>::empty());
    while i < assigns.len()
        invariant
            i <= assigns.len(),
            vars@ == rules::assigned(old(vars)@, tk_views(assigns@).take(i as int), exported),
        decreases assigns.len() - i,
    {
        let assign_raw = assigns[i].text();
        proof {
            assert(tk_views(assigns@).take(i + 1).drop_last() =~= tk_views(assigns@).take(
                i as int,
            ));
            assert(tk_views(assigns@).take(i + 1).last() == assigns@[i as int]@);
        }
        match split_at_first(assign_raw.as_str(), '=') {
            Some((var, val)) => {
                if exported {
                    vars.export(var.as_str(), val.as_str());
                } else {
                    vars.set_var(var.as_str(), val.as_str());
                }
            },
            None => {},
        }
        i += 1;
    }
    assert(tk_views(assigns@).take(assigns.len() as int) =~= tk_views(assigns@));
}

fn strip_parens(s: &str) -> (r: String)
    ensures
        r@ == rules::without_parens(s@),
{
    let chars = to_chars(s);
    let mut hi: usize = chars.len();
    assert(chars@.take(hi as int) =~= chars@);
    while hi >= 2 && chars[hi - 2] == '(' && chars[hi - 1] == ')'
        invariant
            hi <= chars.len(),
            rules::without_parens(chars@) == rules::without_parens(chars@.take(hi as int)),
        decreases hi,
    {
        proof {
            assert(chars@.take(hi as int).take(hi - 2) =~= chars@.take(hi - 2));
        }
        hi -= 2;
    }
    assert(chars@.subrange(0, hi as int) =~= chars@.take(hi as int));
    from_chars(&chars, 0, hi)
}

/// Defines a function: `name` is the token of its name and `body` the token
/// of its body in braces.
pub fn exec_funcdef(name: &Tk, body: &Tk, span: Span, shenv: &mut ShEnv) -> (r: ShResult<()>)
    ensures
        rules::funcdef_outcome(old(shenv)@, name@, body@, span@) == (final(shenv)@, result_view(r)),
{
    let name_raw = name.text();
    let body_raw = body.text();
    match strip_ends(body_raw.as_str()) {
        Some(inside) => {
            let name = strip_parens(name_raw.as_str());
            let body = trim(inside.as_str(), Trim::Blanks);
            shenv.set_function(name.as_str(), body.as_str());
            Ok(())
        },
        None => Err(internal_err("Body without brackets", span)),
    }
}

impl Executor {
    /// An engine that is ready to walk `ast` in the state `shenv`.
    pub fn new(ast: Vec<Node>, shenv: ShEnv) -> (r: Executor)
        ensures
            r@ == rules::initial(shenv@, node_views(ast@)),
    {
        let mut stack: Vec<Frame> = Vec::new();
        stack.push(Frame::Walk { trees: ast, next: 0 });
        stack.push(Frame::Ready);
        let r = Executor { shenv, stack };
        assert(r@.stack =~= rules::initial(shenv@, node_views(ast@)).stack);
        r
    }

    /// The state of the interpreter.
    pub fn env(&self) -> (r: &ShEnv)
        ensures
            r@ == self@.env,
    {
        &self.shenv
    }

    /// Gives the state of the interpreter back.
    pub fn into_env(self) -> (r: ShEnv)
        ensures
            r@ == self@.env,
    {
        self.shenv
    }

    fn push(&mut self, frame: Frame)
        ensures
            final(self)@ == old(self)@.push(frame@),
    {
        proof {
            lemma_frame_views_push(self.stack@, frame);
        }
        self.stack.push(frame);
    }

    fn pop(&mut self) -> (frame: Frame)
        requires
            old(self)@.stack.len() > 0,
        ensures
            final(self)@ == old(self)@.pop(),
            frame@ == old(self)@.stack.last(),
    {
        proof {
            lemma_frame_views_pop(self.stack@);
        }
        self.stack.pop().unwrap()
    }
}

fn redirect_then_exec(
    exec: &mut Executor,
    command: String,
    argv: Vec<String>,
    envp: Vec<String>,
    redirs: Vec<Redir>,
) -> (flow: Flow)
    ensures
        (final(exec)@, flow@) == rules::redirect_then_exec(
            old(exec)@,
            command@,
            texts(argv@),
            texts(envp@),
            redir_views(redirs@),
        ),
        flow is Yield,
{
    exec.shenv.collect_redirs(redirs);
    let all = exec.shenv.take_redirs();
    exec.push(Frame::Redirecting { command, argv, envp });
    Flow::Yield(Action::Redirect { redirs: all })
}

/// Begins an external command: works out its words and asks the host to
/// find the program.
pub fn exec_cmd(exec: &mut Executor, argv: Vec<Tk>, redirs: Vec<Redir>, span: Span) -> (flow: Flow)
    ensures
        (final(exec)@, flow@) == rules::exec_cmd(
            old(exec)@,
            tk_views(argv@),
            redir_views(redirs@),
            span@,
        ),
        settled(old(exec)@, final(exec)@, flow@),
{
    let (words, envp) = prep_execve(&argv, &exec.shenv);
    if words.len() == 0 {
        return Flow::Return(Err(internal_err("Command without a name", span)));
    }
    let command = words[0].clone();
    let name = words[0].clone();
    exec.push(Frame::Resolving { command, argv: words, envp, redirs, span });
    Flow::Yield(Action::Resolve { name })
}

fn subshell_redirect(exec: &mut Executor, body: String, argv: Vec<String>, redirs: Vec<Redir>) -> (flow:
    Flow)
    ensures
        (final(exec)@, flow@) == rules::subshell_redirect(
            old(exec)@,
            body@,
            texts(argv@),
            redir_views(redirs@),
        ),
        flow is Yield,
{
    exec.shenv.collect_redirs(redirs);
    let all = exec.shenv.take_redirs();
    exec.push(Frame::SubshellRedirect { body, argv });
    Flow::Yield(Action::Redirect { redirs: all })
}

/// Begins a subshell.
pub fn exec_subshell(
    exec: &mut Executor,
    body: Tk,
    argv: Vec<Tk>,
    redirs: Vec<Redir>,
    span: Span,
) -> (flow: Flow)
    ensures
        (final(exec)@, flow@) == rules::exec_subshell(
            old(exec)@,
            body@,
            tk_views(argv@),
            redir_views(redirs@),
            span@,
        ),
        settled(old(exec)@, final(exec)@, flow@),
{
    let body_raw = body.text();
    let inside = match strip_ends(body_raw.as_str()) {
        Some(inside) => inside,
        None => {
            return Flow::Return(Err(internal_err("Body without brackets", span)));
        },
    };
    let words = words_of(&argv, &exec.shenv.vars);
    if exec.shenv.ctx.no_fork {
        exec.shenv.vars.reset_params();
        exec.shenv.ctx.no_fork = false;
        exec.push(Frame::Barrier);
        subshell_redirect(exec, inside, words, redirs)
    } else {
        let snapshot = exec.shenv.clone();
        exec.shenv.vars.reset_params();
        exec.push(Frame::SubshellFork { snapshot, body: inside, argv: words, redirs });
        Flow::Yield(Action::Fork)
    }
}

fn bind_params(vars: &mut VarTab, words: &Vec<String>, from: usize)
    requires
        from <= words.len(),
    ensures
        final(vars)@ == rules::with_params(old(vars)@, texts(words@).skip(from as int)),
{
    let mut i: usize = from;
    assert(old(vars)@.params + texts(words@).skip(from as int).take(0) =~= old(vars)@.params);
    while i < words.len()
        invariant
            from <= i <= words.len(),
            vars@ == rules::with_params(
                old(vars)@,
                texts(words@).skip(from as int).take(i - from),
            ),
        decreases words.len() - i,
    {
        vars.bpush_arg(words[i].as_str());
        i += 1;
        assert(texts(words@).skip(from as int).take(i - from) =~= texts(words@).skip(
            from as int,
        ).take(i - from - 1).push(words@[i - 1]@));
        assert(old(vars)@.params + texts(words@).skip(from as int).take(i - from - 1).push(
            words@[i - 1]@,
        ) =~= (old(vars)@.params + texts(words@).skip(from as int).take(i - from - 1)).push(
            words@[i - 1]@,
        ));
    }
    assert(texts(words@).skip(from as int).take(words.len() - from) =~= texts(words@).skip(
        from as int,
    ));
}

/// Begins a call of a function.
pub fn exec_func(exec: &mut Executor, argv: Vec<Tk>, redirs: Vec<Redir>, span: Span) -> (flow: Flow)
    ensures
        (final(exec)@, flow@) == rules::exec_func(
            old(exec)@,
            tk_views(argv@),
            redir_views(redirs@),
            span@,
        ),
        settled(old(exec)@, final(exec)@, flow@),
{
    let words = words_of(&argv, &exec.shenv.vars);
    if words.len() == 0 {
        return Flow::Return(Err(internal_err("Command without a name", span)));
    }
    let body = match exec.shenv.get_function(words[0].as_str()) {
        Some(body) => body,
        None => {
            return Flow::Return(Err(internal_err("Unknown function", span)));
        },
    };
    let snapshot = exec.shenv.clone();
    exec.shenv.vars.reset_params();
    bind_params(&mut exec.shenv.vars, &words, 1);
    exec.shenv.collect_redirs(redirs);
    exec.push(Frame::Func { snapshot });
    exec.push(Frame::Parsing);
    Flow::Yield(Action::Parse { text: body })
}

fn is_host_builtin(name: &str) -> (r: bool)
    ensures
        r == rules::host_builtin(name@),
{
    same_text(name, "echo") || same_text(name, "cd") || same_text(name, "pwd") || same_text(
        name,
        "export",
    ) || same_text(name, "jobs") || same_text(name, "fg") || same_text(name, "bg") || same_text(
        name,
        "read",
    )
}

/// Runs a builtin, or hands it to the host.
pub fn exec_builtin(exec: &mut Executor, node: Node) -> (flow: Flow)
    ensures
        (final(exec)@, flow@) == rules::exec_builtin(old(exec)@, node@),
        settled(old(exec)@, final(exec)@, flow@),
{
    let Node { rule, span, flags } = node;
    match rule {
        NdRule::Command { argv, redirs } => {
            let words = words_of(&argv, &exec.shenv.vars);
            if words.len() == 0 {
                return Flow::Return(Err(internal_err("Command without a name", span)));
            }
            if same_text(words[0].as_str(), "alias") {
                let expanded = Node {
                    rule: NdRule::Command { argv: expand_argv(&argv, &exec.shenv.vars), redirs },
                    span,
                    flags,
                };
                let r = alias(expanded, &mut exec.shenv);
                Flow::Return(r)
            } else if is_host_builtin(words[0].as_str()) {
                let name = words[0].clone();
                exec.push(Frame::Builtin);
                Flow::Yield(Action::Builtin { name, argv: words })
            } else {
                Flow::Return(Err(internal_err("Unknown builtin", span)))
            }
        },
        _ => Flow::Return(Err(internal_err("Expected a command", span))),
    }
}

/// Runs assignments, and begins the command behind them if there is one.
pub fn exec_assignment(exec: &mut Executor, assignments: Vec<Tk>, cmd: Option<Box<Node>>) -> (flow:
    Flow)
    ensures
        (final(exec)@, flow@) == rules::exec_assignment(
            old(exec)@,
            tk_views(assignments@),
            match cmd {
                Some(c) => Some(Box::new(c@)),
                None => None,
            },
        ),
        settled(old(exec)@, final(exec)@, flow@),
{
    match cmd {
        None => {
            apply_assignments(&mut exec.shenv.vars, &assignments, false);
            Flow::Return(Ok(()))
        },
        Some(boxed) => {
            let saved = exec.shenv.vars.env.clone();
            apply_assignments(&mut exec.shenv.vars, &assignments, true);
            exec.push(Frame::Scope { exported: saved });
            let c: Node = *boxed;
            let flow = if c.flags.builtin {
                exec_builtin(exec, c)
            } else {
                let Node { rule, span, flags } = c;
                match rule {
                    NdRule::Command { argv, redirs } => exec_cmd(exec, argv, redirs, span),
                    _ => Flow::Return(Err(internal_err("Expected a command", span))),
                }
            };
            match flow {
                Flow::Yield(a) => Flow::Yield(a),
                Flow::Return(r) => {
                    let frame = exec.pop();
                    match frame {
                        Frame::Scope { exported } => {
                            exec.shenv.vars.env = exported;
                        },
                        _ => {
                            assert(false);
                        },
                    }
                    assert(exec@.stack =~= old(exec)@.stack);
                    Flow::Return(r)
                },
            }
        },
    }
}

/// Begins a command or a subshell where a command is expected.
pub fn dispatch_command(exec: &mut Executor, node: Node) -> (flow: Flow)
    ensures
        (final(exec)@, flow@) == rules::dispatch_command(old(exec)@, node@),
        settled(old(exec)@, final(exec)@, flow@),
{
    let Node { rule, span, flags } = node;
    match rule {
        NdRule::Command { argv, redirs } => {
            let words = words_of(&argv, &exec.shenv.vars);
            if words.len() == 0 {
                return Flow::Return(Err(internal_err("Command without a name", span)));
            }
            if exec.shenv.get_function(words[0].as_str()).is_some() {
                exec_func(exec, argv, redirs, span)
            } else if flags.builtin {
                exec_builtin(exec, Node { rule: NdRule::Command { argv, redirs }, span, flags })
            } else {
                exec_cmd(exec, argv, redirs, span)
            }
        },
        NdRule::Subshell { body, argv, redirs } => exec_subshell(exec, body, argv, redirs, span),
        _ => Flow::Return(Err(internal_err("Expected a command", span))),
    }
}


fn stage_name_of(node: &Node) -> (r: Option<String>)
    ensures
        match r {
            Some(name) => rules::stage_name(node@) == Some(name@),
            None => rules::stage_name(node@) is None,
        },
{
    match &node.rule {
        NdRule::Command { argv, redirs } => {
            if argv.len() > 0 {
                Some(argv[0].span.text.clone())
            } else {
                None
            }
        },
        NdRule::Subshell { body, argv, redirs } => Some("subshell".to_owned()),
        _ => None,
    }
}

fn wait_next(exec: &mut Executor, run: PipeRun) -> (flow: Flow)
    ensures
        (final(exec)@, flow@) == rules::wait_next(old(exec)@, run@),
        settled(old(exec)@, final(exec)@, flow@),
{
    let mut run = run;
    if run.waited >= run.pids.len() || run.waited >= run.names.len() {
        return Flow::Return(Ok(()));
    }
    let pid = run.pids[run.waited];
    let pgid = match run.pgid {
        Some(g) => g,
        None => pid,
    };
    let job = Job::single(pid, run.names[run.waited].as_str(), pgid);
    run.phase = Phase::Waiting;
    exec.push(Frame::Pipeline(run));
    Flow::Yield(Action::Wait { job })
}

fn start_stage(exec: &mut Executor, run: PipeRun) -> (flow: Flow)
    ensures
        (final(exec)@, flow@) == rules::start_stage(old(exec)@, run@),
        settled(old(exec)@, final(exec)@, flow@),
{
    let mut run = run;
    if run.next >= run.cmds.len() {
        run.waited = 0;
        return wait_next(exec, run);
    }
    match stage_name_of(&run.cmds[run.next]) {
        None => {
            let span = run.cmds[run.next].span.clone();
            Flow::Return(Err(internal_err("Unsupported node", span)))
        },
        Some(_) => {
            run.read = None;
            run.write = None;
            if run.next + 1 < run.cmds.len() {
                run.phase = Phase::Piping;
                exec.push(Frame::Pipeline(run));
                Flow::Yield(Action::Pipe)
            } else {
                run.phase = Phase::Forking;
                exec.push(Frame::Pipeline(run));
                Flow::Yield(Action::Fork)
            }
        },
    }
}

fn advance(exec: &mut Executor, run: PipeRun) -> (flow: Flow)
    ensures
        (final(exec)@, flow@) == rules::advance(old(exec)@, run@),
        settled(old(exec)@, final(exec)@, flow@),
{
    let mut run = run;
    if run.next < run.cmds.len() {
        run.prev_read = run.read;
        run.read = None;
        run.write = None;
        run.next = run.next + 1;
        start_stage(exec, run)
    } else {
        Flow::Return(Err(out_of_turn()))
    }
}

fn close_read(exec: &mut Executor, run: PipeRun) -> (flow: Flow)
    ensures
        (final(exec)@, flow@) == rules::close_read(old(exec)@, run@),
        settled(old(exec)@, final(exec)@, flow@),
{
    let mut run = run;
    match run.prev_read {
        Some(fd) => {
            run.phase = Phase::ClosingRead;
            exec.push(Frame::Pipeline(run));
            Flow::Yield(Action::Close { fd })
        },
        None => advance(exec, run),
    }
}

fn close_write(exec: &mut Executor, run: PipeRun) -> (flow: Flow)
    ensures
        (final(exec)@, flow@) == rules::close_write(old(exec)@, run@),
        settled(old(exec)@, final(exec)@, flow@),
{
    let mut run = run;
    match run.write {
        Some(fd) => {
            run.phase = Phase::ClosingWrite;
            exec.push(Frame::Pipeline(run));
            Flow::Yield(Action::Close { fd })
        },
        None => close_read(exec, run),
    }
}

fn pipe_child_run(exec: &mut Executor, cmd: Node, write: Option<i32>, read: Option<i32>) -> (flow:
    Flow)
    ensures
        (final(exec)@, flow@) == rules::pipe_child_run(old(exec)@, cmd@, write, read),
        flow is Yield,
{
    let mut redirs: Vec<Redir> = Vec::new();
    match write {
        Some(fd) => {
            redirs.push(Redir::new(1, RedirType::Output, RedirTarget::Fd(fd)));
        },
        None => {},
    }
    match read {
        Some(fd) => {
            redirs.push(Redir::new(0, RedirType::Input, RedirTarget::Fd(fd)));
        },
        None => {},
    }
    assert(redir_views(redirs@) =~= rules::pipe_redirs(write, read));
    exec.shenv.collect_redirs(redirs);
    exec.push(Frame::Barrier);
    let flow = dispatch_command(exec, cmd);
    match flow {
        Flow::Yield(a) => Flow::Yield(a),
        Flow::Return(r) => {
            let _ = exec.pop();
            assert(exec@.stack =~= old(exec)@.stack);
            Flow::Yield(exit_for(r))
        },
    }
}

/// Begins a pipeline.
pub fn exec_pipeline(exec: &mut Executor, cmds: Vec<Node>) -> (flow: Flow)
    ensures
        (final(exec)@, flow@) == rules::exec_pipeline(old(exec)@, node_views(cmds@)),
        settled(old(exec)@, final(exec)@, flow@),
{
    let run = PipeRun {
        cmds,
        next: 0,
        names: Vec::new(),
        pids: Vec::new(),
        pgid: None,
        prev_read: None,
        read: None,
        write: None,
        phase: Phase::Piping,
        waited: 0,
    };
    proof {
        lemma_texts_empty();
    }
    start_stage(exec, run)
}

fn pipeline_event(exec: &mut Executor, run: PipeRun, event: Event) -> (flow: Flow)
    ensures
        (final(exec)@, flow@) == rules::pipeline_event(old(exec)@, run@, event@),
        settled(old(exec)@, final(exec)@, flow@),
{
    let mut run = run;
    match (run.phase, event) {
        (Phase::Piping, Event::Piped(r, w)) => {
            run.read = Some(r);
            run.write = Some(w);
            run.phase = Phase::Forking;
            exec.push(Frame::Pipeline(run));
            Flow::Yield(Action::Fork)
        },
        (Phase::Forking, Event::Child) => {
            if run.next < run.cmds.len() {
                let cmd = run.cmds[run.next].clone();
                exec.shenv.ctx.no_fork = true;
                match run.read {
                    Some(fd) => {
                        exec.push(
                            Frame::PipeChild { cmd, write: run.write, read: run.prev_read },
                        );
                        Flow::Yield(Action::Close { fd })
                    },
                    None => pipe_child_run(exec, cmd, run.write, run.prev_read),
                }
            } else {
                Flow::Return(Err(out_of_turn()))
            }
        },
        (Phase::Forking, Event::Parent(pid)) => {
            if run.next < run.cmds.len() {
                match stage_name_of(&run.cmds[run.next]) {
                    Some(name) => {
                        run.pgid = Some(
                            match run.pgid {
                                Some(g) => g,
                                None => pid,
                            },
                        );
                        run.pids.push(pid);
                        proof {
                            lemma_texts_push(run.names@, name);
                        }
                        run.names.push(name);
                        close_write(exec, run)
                    },
                    None => Flow::Return(Err(out_of_turn())),
                }
            } else {
                Flow::Return(Err(out_of_turn()))
            }
        },
        (Phase::ClosingWrite, Event::Done) => close_read(exec, run),
        (Phase::ClosingRead, Event::Done) => advance(exec, run),
        (Phase::Waiting, Event::Waited(status)) => {
            if run.waited < run.pids.len() {
                exec.shenv.set_code(status);
                run.waited = run.waited + 1;
                wait_next(exec, run)
            } else {
                Flow::Return(Err(out_of_turn()))
            }
        },
        (_, event) => unexpected(event),
    }
}

/// Begins one element of a list.
pub fn exec_node(exec: &mut Executor, node: Node) -> (flow: Flow)
    ensures
        (final(exec)@, flow@) == rules::exec_node(old(exec)@, node@),
        settled(old(exec)@, final(exec)@, flow@),
{
    proof {
        lemma_rule_view_lists(node.rule);
    }
    let Node { rule, span, flags } = node;
    match rule {
        NdRule::Command { argv, redirs } => dispatch_command(
            exec,
            Node { rule: NdRule::Command { argv, redirs }, span, flags },
        ),
        NdRule::Subshell { body, argv, redirs } => exec_subshell(exec, body, argv, redirs, span),
        NdRule::FuncDef { name, body } => {
            let r = exec_funcdef(&name, &body, span, &mut exec.shenv);
            Flow::Return(r)
        },
        NdRule::Assignment { assignments, cmd } => exec_assignment(exec, assignments, cmd),
        NdRule::Pipeline { cmds } => exec_pipeline(exec, cmds),
        NdRule::CmdList { cmds } => Flow::Return(Err(internal_err("Unsupported node", span))),
    }
}

/// Runs the elements of a list from `next` on, up to the first that needs
/// the host.
pub fn exec_list(exec: &mut Executor, items: Vec<(Option<CmdGuard>, Node)>, next: usize) -> (flow:
    Flow)
    ensures
        (final(exec)@, flow@) == rules::exec_list(old(exec)@, item_views(items@), next as nat),
        settled(old(exec)@, final(exec)@, flow@),
{
    let ghost views = item_views(items@);
    let mut rest = items;
    let mut idx = next;
    loop
        invariant
            views == item_views(items@),
            item_views(rest@) == views,
            exec@.stack == old(exec)@.stack,
            rules::exec_list(exec@, views, idx as nat) == rules::exec_list(
                old(exec)@,
                views,
                next as nat,
            ),
        decreases rest.len() - idx,
    {
        if idx >= rest.len() {
            return Flow::Return(Ok(()));
        }
        let blocked = match rest[idx].0 {
            Some(CmdGuard::And) => exec.shenv.get_code() != 0,
            Some(CmdGuard::Or) => exec.shenv.get_code() == 0,
            None => false,
        };
        if blocked {
            return Flow::Return(Ok(()));
        }
        let node = rest[idx].1.clone();
        let span = rest[idx].1.span.clone();
        let ghost before = exec@;
        exec.push(Frame::List { items: rest, next: idx + 1 });
        let flow = exec_node(exec, node);
        match flow {
            Flow::Yield(a) => {
                return Flow::Yield(a);
            },
            Flow::Return(r) => {
                let frame = exec.pop();
                assert(exec@.stack =~= before.stack);
                match frame {
                    Frame::List { items: back, next: _ } => {
                        rest = back;
                    },
                    _ => {
                        assert(false);
                        return Flow::Return(r);
                    },
                }
                match r {
                    Ok(_) => {
                        idx = idx + 1;
                    },
                    Err(e) => {
                        return Flow::Return(Err(e.try_blame(span)));
                    },
                }
            },
        }
    }
}

/// Runs the trees of one input from `next` on, up to the first element that
/// needs the host.
pub fn exec_trees(exec: &mut Executor, trees: Vec<Node>, next: usize) -> (flow: Flow)
    ensures
        (final(exec)@, flow@) == rules::exec_trees(old(exec)@, node_views(trees@), next as nat),
        settled(old(exec)@, final(exec)@, flow@),
{
    let ghost views = node_views(trees@);
    let mut rest = trees;
    let mut idx = next;
    loop
        invariant
            views == node_views(trees@),
            node_views(rest@) == views,
            exec@.stack == old(exec)@.stack,
            rules::exec_trees(exec@, views, idx as nat) == rules::exec_trees(
                old(exec)@,
                views,
                next as nat,
            ),
        decreases rest.len() - idx,
    {
        if idx >= rest.len() {
            return Flow::Return(Ok(()));
        }
        let span = rest[idx].span.clone();
        proof {
            lemma_rule_view_lists(rest@[idx as int].rule);
        }
        let cmds = match &rest[idx].rule {
            NdRule::CmdList { cmds } => clone_items(cmds),
            _ => {
                return Flow::Return(Err(internal_err("Unsupported node", span)));
            },
        };
        let ghost before = exec@;
        exec.push(Frame::Walk { trees: rest, next: idx + 1 });
        let flow = exec_list(exec, cmds, 0);
        match flow {
            Flow::Yield(a) => {
                return Flow::Yield(a);
            },
            Flow::Return(r) => {
                let frame = exec.pop();
                assert(exec@.stack =~= before.stack);
                match frame {
                    Frame::Walk { trees: back, next: _ } => {
                        rest = back;
                    },
                    _ => {
                        assert(false);
                        return Flow::Return(r);
                    },
                }
                match r {
                    Ok(_) => {
                        idx = idx + 1;
                    },
                    Err(e) => {
                        return Flow::Return(Err(e.try_blame(span)));
                    },
                }
            },
        }
    }
}

fn resume(exec: &mut Executor, frame: Frame, r: ShResult<()>) -> (flow: Flow)
    ensures
        (final(exec)@, flow@) == rules::resume(old(exec)@, frame@, result_view(r)),
        settled(old(exec)@, final(exec)@, flow@),
{
    match frame {
        Frame::Walk { trees, next } => match r {
            Ok(_) => exec_trees(exec, trees, next),
            Err(e) => {
                if 0 < next && next <= trees.len() {
                    let span = trees[next - 1].span.clone();
                    Flow::Return(Err(e.try_blame(span)))
                } else {
                    Flow::Return(Err(e))
                }
            },
        },
        Frame::List { items, next } => match r {
            Ok(_) => exec_list(exec, items, next),
            Err(e) => {
                if 0 < next && next <= items.len() {
                    let span = items[next - 1].1.span.clone();
                    Flow::Return(Err(e.try_blame(span)))
                } else {
                    Flow::Return(Err(e))
                }
            },
        },
        Frame::Func { snapshot } => {
            exec.shenv = snapshot;
            Flow::Return(r)
        },
        Frame::Scope { exported } => {
            exec.shenv.vars.env = exported;
            Flow::Return(r)
        },
        Frame::Barrier => Flow::Yield(exit_for(r)),
        _ => Flow::Return(r),
    }
}

fn on_event(exec: &mut Executor, frame: Frame, event: Event) -> (flow: Flow)
    ensures
        (final(exec)@, flow@) == rules::on_event(old(exec)@, frame@, event@),
        settled(old(exec)@, final(exec)@, flow@),
{
    match frame {
        Frame::Ready => match event {
            Event::Start => Flow::Return(Ok(())),
            event => unexpected(event),
        },
        Frame::Resolving { command, argv, envp, redirs, span } => match event {
            Event::Resolved(found) => {
                if !found {
                    Flow::Return(
                        Err(ShErr { kind: ShErrKind::CmdNotFound, msg: command, span: Some(span) }),
                    )
                } else if exec.shenv.ctx.no_fork {
                    redirect_then_exec(exec, command, argv, envp, redirs)
                } else {
                    exec.push(Frame::Forking { command, argv, envp, redirs });
                    Flow::Yield(Action::Fork)
                }
            },
            event => unexpected(event),
        },
        Frame::Forking { command, argv, envp, redirs } => match event {
            Event::Child => {
                exec.push(Frame::Barrier);
                redirect_then_exec(exec, command, argv, envp, redirs)
            },
            Event::Parent(pid) => {
                let job = Job::single(pid, command.as_str(), pid);
                exec.push(Frame::Waiting);
                Flow::Yield(Action::Wait { job })
            },
            event => unexpected(event),
        },
        Frame::Redirecting { command, argv, envp } => match event {
            Event::Done => {
                exec.push(Frame::Executing);
                Flow::Yield(Action::Exec { command, argv, envp })
            },
            event => unexpected(event),
        },
        Frame::Executing => match event {
            Event::Failed(e) => Flow::Yield(Action::Exit { code: EXEC_FAILURE, error: Some(e) }),
            event => unexpected(event),
        },
        Frame::Waiting => match event {
            Event::Waited(status) => {
                exec.shenv.set_code(status);
                Flow::Return(Ok(()))
            },
            event => unexpected(event),
        },
        Frame::Parsing => match event {
            Event::Parsed(trees) => exec_trees(exec, trees, 0),
            event => unexpected(event),
        },
        Frame::Builtin => match event {
            Event::Builtin(env) => {
                exec.shenv = env;
                Flow::Return(Ok(()))
            },
            event => unexpected(event),
        },
        Frame::SubshellFork { snapshot, body, argv, redirs } => match event {
            Event::Child => {
                exec.push(Frame::Barrier);
                subshell_redirect(exec, body, argv, redirs)
            },
            Event::Parent(pid) => {
                exec.shenv = snapshot;
                let job = Job::single(pid, "anonymous subshell", pid);
                exec.push(Frame::Waiting);
                Flow::Yield(Action::Wait { job })
            },
            event => {
                exec.shenv = snapshot;
                unexpected(event)
            },
        },
        Frame::SubshellRedirect { body, argv } => match event {
            Event::Done => {
                assert(texts(argv@).skip(0) =~= texts(argv@));
                bind_params(&mut exec.shenv.vars, &argv, 0);
                exec.push(Frame::Parsing);
                Flow::Yield(Action::Parse { text: body })
            },
            event => unexpected(event),
        },
        Frame::Pipeline(run) => pipeline_event(exec, run, event),
        Frame::PipeChild { cmd, write, read } => match event {
            Event::Done => pipe_child_run(exec, cmd, write, read),
            event => match unexpected(event) {
                Flow::Return(r) => Flow::Yield(exit_for(r)),
                Flow::Yield(a) => Flow::Yield(a),
            },
        },
        _ => unexpected(event),
    }
}

impl Executor {
    /// Takes the walk one step further. `event` is what came of the action
    /// that the step before asked for, and `Event::Start` on the first
    /// call. The result is what the host has to do next.
    pub fn walk(&mut self, event: Event) -> (action: Action)
        ensures
            (final(self)@, action@) == rules::step(old(self)@, event@),
    {
        if self.stack.len() == 0 {
            return Action::Finished(Err(out_of_turn()));
        }
        let frame = self.pop();
        let mut flow = on_event(self, frame, event);
        loop
            invariant
                rules::unwind(self@, flow@) == rules::step(old(self)@, event@),
            decreases
                    (if flow is Return {
                        self.stack.len() + 1
                    } else {
                        0
                    }),
        {
            match flow {
                Flow::Yield(action) => {
                    return action;
                },
                Flow::Return(r) => {
                    if self.stack.len() == 0 {
                        return Action::Finished(r);
                    }
                    let frame = self.pop();
                    flow = resume(self, frame, r);
                },
            }
        }
    }
}

} // verus!
