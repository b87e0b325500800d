use fern::error::{ShErr, ShErrKind};
use fern::execute::model::{Action, Event, EXEC_FAILURE};
use fern::execute::{exec_funcdef, prep_execve, Executor};
use fern::lex::{Span, Tk, TkRule};
use fern::parse::{CmdGuard, NdFlags, NdRule, Node};
use fern::shellenv::{Redir, RedirTarget, RedirType, ShEnv};

fn tk(text: &str) -> Tk {
    Tk::new(TkRule::Ident, text)
}

fn span(text: &str) -> Span {
    Span::new(0, text.len(), text)
}

fn command(words: &[&str]) -> Node {
    let mut argv = Vec::new();
    for w in words {
        argv.push(tk(w));
    }
    Node::new(NdRule::Command { argv, redirs: Vec::new() }, span(&words.join(" ")))
}

fn builtin(words: &[&str]) -> Node {
    let mut node = command(words);
    node.flags = NdFlags { builtin: true };
    node
}

fn list(items: Vec<(Option<CmdGuard>, Node)>) -> Node {
    Node::new(NdRule::CmdList { cmds: items }, span("list"))
}

fn single(node: Node) -> Vec<Node> {
    vec![list(vec![(None, node)])]
}

fn parse_words(text: &str) -> Vec<Node> {
    let mut items = Vec::new();
    for part in text.split(';') {
        let words: Vec<&str> = part.split_whitespace().collect();
        if !words.is_empty() {
            items.push((None, command(&words)));
        }
    }
    vec![list(items)]
}

/// A host that answers every request as a willing operating system would,
/// as seen from the parent of every fork.
struct Host {
    known: Vec<String>,
    statuses: Vec<i32>,
    log: Vec<String>,
    next_pid: i32,
    next_fd: i32,
    waits: usize,
}

impl Host {
    fn new(known: &[&str], statuses: &[i32]) -> Host {
        let mut names = Vec::new();
        for k in known {
            names.push(k.to_string());
        }
        Host {
            known: names,
            statuses: statuses.to_vec(),
            log: Vec::new(),
            next_pid: 100,
            next_fd: 10,
            waits: 0,
        }
    }

    fn answer(&mut self, exec: &Executor, action: Action) -> Event {
        match action {
            Action::Resolve { name } => {
                self.log.push(format!("resolve {name}"));
                Event::Resolved(self.known.contains(&name))
            }
            Action::Fork => {
                self.next_pid += 1;
                self.log.push(format!("fork {}", self.next_pid));
                Event::Parent(self.next_pid)
            }
            Action::Pipe => {
                let r = self.next_fd;
                self.next_fd += 2;
                self.log.push(format!("pipe {} {}", r, r + 1));
                Event::Piped(r, r + 1)
            }
            Action::Close { fd } => {
                self.log.push(format!("close {fd}"));
                Event::Done
            }
            Action::Redirect { redirs } => {
                self.log.push(format!("redirect {}", redirs.len()));
                Event::Done
            }
            Action::Wait { job } => {
                let child = &job.children[0];
                self.log.push(format!(
                    "wait {} {} {} {}",
                    child.pid,
                    child.command.clone().unwrap(),
                    child.pgid.unwrap(),
                    job.pgid
                ));
                let status = self.statuses.get(self.waits).copied().unwrap_or(0);
                self.waits += 1;
                Event::Waited(status)
            }
            Action::Parse { text } => {
                self.log.push(format!("parse {text}"));
                if text.contains("((") {
                    Event::Failed(ShErr::simple(ShErrKind::ParseErr, "unclosed"))
                } else {
                    Event::Parsed(parse_words(&text))
                }
            }
            Action::Builtin { name, argv } => {
                self.log.push(format!("builtin {} {}", name, argv.join(",")));
                let mut env = exec.env().clone();
                if name == "export" {
                    for arg in &argv[1..] {
                        let (k, v) = arg.split_once('=').unwrap();
                        env.vars.export(k, v);
                    }
                }
                Event::Builtin(env)
            }
            Action::Exec { .. } | Action::Exit { .. } | Action::Finished(_) => {
                panic!("not a request that the parent answers")
            }
        }
    }

    fn run(&mut self, exec: &mut Executor) -> Result<(), ShErr> {
        let mut event = Event::Start;
        loop {
            match exec.walk(event) {
                Action::Finished(r) => return r,
                action => event = self.answer(exec, action),
            }
        }
    }
}

fn run_trees(trees: Vec<Node>, env: ShEnv, host: &mut Host) -> (Result<(), ShErr>, ShEnv) {
    let mut exec = Executor::new(trees, env);
    let r = host.run(&mut exec);
    (r, exec.into_env())
}

#[test]
fn external_command_is_resolved_forked_and_waited_for() {
    let mut host = Host::new(&["ls"], &[3]);
    let (r, env) = run_trees(single(command(&["ls", "-l"])), ShEnv::new(), &mut host);
    assert!(r.is_ok());
    assert_eq!(host.log, vec!["resolve ls", "fork 101", "wait 101 ls 101 101"]);
    assert_eq!(env.get_code(), 3);
}

#[test]
fn unknown_command_is_not_found_and_nothing_is_forked() {
    let mut host = Host::new(&[], &[]);
    let (r, _) = run_trees(single(command(&["nope", "x"])), ShEnv::new(), &mut host);
    let err = r.unwrap_err();
    assert_eq!(err.kind, ShErrKind::CmdNotFound);
    assert_eq!(err.msg, "nope");
    assert_eq!(err.span.unwrap().text, "nope x");
    assert_eq!(host.log, vec!["resolve nope"]);
}

#[test]
fn command_whose_words_are_none_is_an_error() {
    let mut host = Host::new(&[], &[]);
    let (r, _) = run_trees(single(command(&["$UNSET"])), ShEnv::new(), &mut host);
    assert_eq!(r.unwrap_err().kind, ShErrKind::InternalErr);
    assert!(host.log.is_empty());
}

#[test]
fn tree_that_is_no_list_is_an_error() {
    let mut host = Host::new(&["ls"], &[]);
    let (r, _) = run_trees(vec![command(&["ls"])], ShEnv::new(), &mut host);
    assert_eq!(r.unwrap_err().kind, ShErrKind::InternalErr);
    assert!(host.log.is_empty());
}

#[test]
fn and_guard_after_failure_drops_the_rest_of_the_list() {
    let trees = vec![list(vec![
        (None, command(&["a"])),
        (Some(CmdGuard::And), command(&["b"])),
        (Some(CmdGuard::Or), command(&["c"])),
    ])];
    let mut host = Host::new(&["a", "b", "c"], &[1, 2]);
    let (r, env) = run_trees(trees, ShEnv::new(), &mut host);
    assert!(r.is_ok());
    assert_eq!(host.log, vec!["resolve a", "fork 101", "wait 101 a 101 101"]);
    assert_eq!(env.get_code(), 1);
}

#[test]
fn and_guard_after_success_lets_the_next_run() {
    let trees = vec![list(vec![
        (None, command(&["a"])),
        (Some(CmdGuard::And), command(&["b"])),
        (Some(CmdGuard::Or), command(&["c"])),
    ])];
    let mut host = Host::new(&["a", "b", "c"], &[0, 2]);
    let (r, env) = run_trees(trees, ShEnv::new(), &mut host);
    assert!(r.is_ok());
    assert_eq!(
        host.log,
        vec![
            "resolve a",
            "fork 101",
            "wait 101 a 101 101",
            "resolve b",
            "fork 102",
            "wait 102 b 102 102",
            "resolve c",
            "fork 103",
            "wait 103 c 103 103"
        ]
    );
    assert_eq!(env.get_code(), 0);
}

#[test]
fn or_guard_after_success_drops_the_rest_of_the_list() {
    let trees = vec![list(vec![
        (None, command(&["a"])),
        (Some(CmdGuard::Or), command(&["b"])),
        (None, command(&["c"])),
    ])];
    let mut host = Host::new(&["a", "b", "c"], &[0]);
    let (r, _) = run_trees(trees, ShEnv::new(), &mut host);
    assert!(r.is_ok());
    assert_eq!(host.log, vec!["resolve a", "fork 101", "wait 101 a 101 101"]);
}

#[test]
fn or_guard_after_failure_lets_the_next_run() {
    let trees = vec![list(vec![
        (None, command(&["a"])),
        (Some(CmdGuard::Or), command(&["c"])),
    ])];
    let mut host = Host::new(&["a", "c"], &[1, 2]);
    let (r, env) = run_trees(trees, ShEnv::new(), &mut host);
    assert!(r.is_ok());
    assert_eq!(host.log.len(), 6);
    assert_eq!(host.log[3], "resolve c");
    assert_eq!(env.get_code(), 2);
}

#[test]
fn guard_drops_only_the_list_it_stands_in() {
    let trees = vec![
        list(vec![(None, command(&["a"])), (Some(CmdGuard::And), command(&["b"]))]),
        list(vec![(None, command(&["c"]))]),
    ];
    let mut host = Host::new(&["a", "b", "c"], &[1, 0]);
    let (r, _) = run_trees(trees, ShEnv::new(), &mut host);
    assert!(r.is_ok());
    assert_eq!(host.log[0], "resolve a");
    assert_eq!(host.log[3], "resolve c");
    assert_eq!(host.log.len(), 6);
}

#[test]
fn pipeline_opens_one_pipe_less_than_it_has_stages() {
    let stages = vec![command(&["a"]), command(&["b", "x"]), command(&["c"])];
    let node = Node::new(NdRule::Pipeline { cmds: stages }, span("a | b x | c"));
    let mut host = Host::new(&["a", "b", "c"], &[0, 0, 7]);
    let (r, env) = run_trees(single(node), ShEnv::new(), &mut host);
    assert!(r.is_ok());
    assert_eq!(
        host.log,
        vec![
            "pipe 10 11",
            "fork 101",
            "close 11",
            "pipe 12 13",
            "fork 102",
            "close 13",
            "close 10",
            "fork 103",
            "close 12",
            "wait 101 a 101 101",
            "wait 102 b 101 101",
            "wait 103 c 101 101"
        ]
    );
    let pipes = host.log.iter().filter(|l| l.starts_with("pipe")).count();
    assert_eq!(pipes, 2);
    assert_eq!(env.get_code(), 7);
}

#[test]
fn pipeline_of_one_stage_opens_no_pipe() {
    let node = Node::new(NdRule::Pipeline { cmds: vec![command(&["a"])] }, span("a"));
    let mut host = Host::new(&["a"], &[0]);
    let (r, _) = run_trees(single(node), ShEnv::new(), &mut host);
    assert!(r.is_ok());
    assert_eq!(host.log, vec!["fork 101", "wait 101 a 101 101"]);
}

#[test]
fn pipeline_without_stages_does_nothing() {
    let node = Node::new(NdRule::Pipeline { cmds: Vec::new() }, span(""));
    let mut host = Host::new(&[], &[]);
    let (r, _) = run_trees(single(node), ShEnv::new(), &mut host);
    assert!(r.is_ok());
    assert!(host.log.is_empty());
}

#[test]
fn pipeline_stage_of_another_kind_is_an_error() {
    let inner = list(vec![(None, command(&["a"]))]);
    let node = Node::new(NdRule::Pipeline { cmds: vec![inner] }, span("x"));
    let mut host = Host::new(&["a"], &[]);
    let (r, _) = run_trees(single(node), ShEnv::new(), &mut host);
    assert_eq!(r.unwrap_err().kind, ShErrKind::InternalErr);
    assert!(host.log.is_empty());
}

#[test]
fn pipeline_stage_in_the_child_closes_ties_and_runs_in_place() {
    let stages = vec![command(&["a"]), command(&["b"])];
    let node = Node::new(NdRule::Pipeline { cmds: stages }, span("a | b"));
    let mut exec = Executor::new(single(node), ShEnv::new());
    assert!(matches!(exec.walk(Event::Start), Action::Pipe));
    assert!(matches!(exec.walk(Event::Piped(5, 6)), Action::Fork));
    assert!(matches!(exec.walk(Event::Child), Action::Close { fd: 5 }));
    assert!(exec.env().ctx.no_fork);
    match exec.walk(Event::Done) {
        Action::Resolve { name } => assert_eq!(name, "a"),
        other => panic!("unexpected {other:?}"),
    }
    match exec.walk(Event::Resolved(true)) {
        Action::Redirect { redirs } => {
            assert_eq!(redirs.len(), 1);
            assert_eq!(redirs[0].src, 1);
            assert_eq!(redirs[0].class, RedirType::Output);
            assert!(matches!(redirs[0].target, RedirTarget::Fd(6)));
        }
        other => panic!("unexpected {other:?}"),
    }
    match exec.walk(Event::Done) {
        Action::Exec { command, argv, envp } => {
            assert_eq!(command, "a");
            assert_eq!(argv, vec!["a".to_string()]);
            assert!(envp.is_empty());
        }
        other => panic!("unexpected {other:?}"),
    }
    match exec.walk(Event::Failed(ShErr::simple(ShErrKind::ExecFail, "EACCES"))) {
        Action::Exit { code, error } => {
            assert_eq!(code, EXEC_FAILURE);
            assert_eq!(error.unwrap().msg, "EACCES");
        }
        other => panic!("unexpected {other:?}"),
    }
}

#[test]
fn last_stage_in_the_child_reads_from_the_pipe_before() {
    let stages = vec![command(&["a"]), command(&["b"])];
    let node = Node::new(NdRule::Pipeline { cmds: stages }, span("a | b"));
    let mut exec = Executor::new(single(node), ShEnv::new());
    exec.walk(Event::Start);
    exec.walk(Event::Piped(5, 6));
    assert!(matches!(exec.walk(Event::Parent(50)), Action::Close { fd: 6 }));
    assert!(matches!(exec.walk(Event::Done), Action::Fork));
    match exec.walk(Event::Child) {
        Action::Resolve { name } => assert_eq!(name, "b"),
        other => panic!("unexpected {other:?}"),
    }
    match exec.walk(Event::Resolved(true)) {
        Action::Redirect { redirs } => {
            assert_eq!(redirs.len(), 1);
            assert_eq!(redirs[0].src, 0);
            assert_eq!(redirs[0].class, RedirType::Input);
            assert!(matches!(redirs[0].target, RedirTarget::Fd(5)));
        }
        other => panic!("unexpected {other:?}"),
    }
}

#[test]
fn stage_that_is_not_found_ends_the_child_with_a_report() {
    let node = Node::new(NdRule::Pipeline { cmds: vec![command(&["a"])] }, span("a"));
    let mut exec = Executor::new(single(node), ShEnv::new());
    assert!(matches!(exec.walk(Event::Start), Action::Fork));
    assert!(matches!(exec.walk(Event::Child), Action::Resolve { .. }));
    match exec.walk(Event::Resolved(false)) {
        Action::Exit { code, error } => {
            assert_eq!(code, 1);
            assert_eq!(error.unwrap().kind, ShErrKind::CmdNotFound);
        }
        other => panic!("unexpected {other:?}"),
    }
}

#[test]
fn child_of_a_command_applies_redirections_and_becomes_the_program() {
    let redirs = vec![Redir::new(1, RedirType::Append, RedirTarget::File("out".to_string()))];
    let node = Node::new(NdRule::Command { argv: vec![tk("ls"), tk("$D")], redirs }, span("ls"));
    let mut env = ShEnv::new();
    env.vars.set_var("D", "/tmp");
    env.vars.export("HOME", "/root");
    env.vars.export("LANG", "C");
    let mut exec = Executor::new(single(node), env);
    assert!(matches!(exec.walk(Event::Start), Action::Resolve { .. }));
    assert!(matches!(exec.walk(Event::Resolved(true)), Action::Fork));
    match exec.walk(Event::Child) {
        Action::Redirect { redirs } => {
            assert_eq!(redirs.len(), 1);
            assert_eq!(redirs[0].class, RedirType::Append);
        }
        other => panic!("unexpected {other:?}"),
    }
    match exec.walk(Event::Done) {
        Action::Exec { command, argv, envp } => {
            assert_eq!(command, "ls");
            assert_eq!(argv, vec!["ls".to_string(), "/tmp".to_string()]);
            assert_eq!(envp, vec!["HOME=/root".to_string(), "LANG=C".to_string()]);
        }
        other => panic!("unexpected {other:?}"),
    }
}

#[test]
fn failed_redirection_ends_the_child_with_status_one() {
    let mut exec = Executor::new(single(command(&["ls"])), ShEnv::new());
    exec.walk(Event::Start);
    exec.walk(Event::Resolved(true));
    assert!(matches!(exec.walk(Event::Child), Action::Redirect { .. }));
    match exec.walk(Event::Failed(ShErr::simple(ShErrKind::ExecFail, "no such file"))) {
        Action::Exit { code, error } => {
            assert_eq!(code, 1);
            assert_eq!(error.unwrap().msg, "no such file");
        }
        other => panic!("unexpected {other:?}"),
    }
}

#[test]
fn failed_fork_is_returned_to_the_caller() {
    let mut exec = Executor::new(single(command(&["ls"])), ShEnv::new());
    exec.walk(Event::Start);
    exec.walk(Event::Resolved(true));
    match exec.walk(Event::Failed(ShErr::simple(ShErrKind::ExecFail, "EAGAIN"))) {
        Action::Finished(Err(e)) => {
            assert_eq!(e.msg, "EAGAIN");
            assert_eq!(e.span.unwrap().text, "ls");
        }
        other => panic!("unexpected {other:?}"),
    }
}

#[test]
fn answer_out_of_turn_is_an_error() {
    let mut exec = Executor::new(single(command(&["ls"])), ShEnv::new());
    exec.walk(Event::Start);
    match exec.walk(Event::Piped(1, 2)) {
        Action::Finished(Err(e)) => assert_eq!(e.kind, ShErrKind::InternalErr),
        other => panic!("unexpected {other:?}"),
    }
    match exec.walk(Event::Start) {
        Action::Finished(Err(e)) => assert_eq!(e.kind, ShErrKind::InternalErr),
        other => panic!("unexpected {other:?}"),
    }
}

#[test]
fn assignment_alone_sets_a_local_variable() {
    let node = Node::new(
        NdRule::Assignment { assignments: vec![tk("FOO=bar"), tk("junk"), tk("A=b=c")], cmd: None },
        span("FOO=bar"),
    );
    let mut env = ShEnv::new();
    env.vars.export("PATH", "/bin");
    let before = prep_execve(&vec![tk("x")], &env).1;
    let mut host = Host::new(&[], &[]);
    let (r, env) = run_trees(single(node), env, &mut host);
    assert!(r.is_ok());
    assert!(host.log.is_empty());
    assert_eq!(env.vars.get_var("FOO"), "bar");
    assert_eq!(env.vars.get_var("A"), "b=c");
    assert!(env.vars.env.get("FOO").is_none());
    assert_eq!(prep_execve(&vec![tk("x")], &env).1, before);
    assert_eq!(before, vec!["PATH=/bin".to_string()]);
}

#[test]
fn export_makes_a_variable_part_of_the_environment() {
    let trees = vec![list(vec![
        (
            None,
            Node::new(NdRule::Assignment { assignments: vec![tk("FOO=bar")], cmd: None }, span("")),
        ),
        (None, builtin(&["export", "FOO=baz"])),
        (None, command(&["env"])),
    ])];
    let mut exec = Executor::new(trees, ShEnv::new());
    let mut host = Host::new(&["env"], &[]);
    let mut event = Event::Start;
    let mut seen = Vec::new();
    loop {
        match exec.walk(event) {
            Action::Fork => event = Event::Child,
            Action::Exec { envp, .. } => {
                seen = envp;
                break;
            }
            action => event = host.answer(&exec, action),
        }
    }
    assert_eq!(seen, vec!["FOO=baz".to_string()]);
    assert_eq!(host.log[0], "builtin export export,FOO=baz");
}

#[test]
fn assignment_before_a_command_is_exported_while_it_runs() {
    let node = Node::new(
        NdRule::Assignment {
            assignments: vec![tk("FOO=bar")],
            cmd: Some(Box::new(command(&["env"]))),
        },
        span("FOO=bar env"),
    );
    let mut exec = Executor::new(single(node), ShEnv::new());
    assert!(matches!(exec.walk(Event::Start), Action::Resolve { .. }));
    assert_eq!(exec.env().vars.env.get("FOO").unwrap(), "bar");
    assert!(matches!(exec.walk(Event::Resolved(true)), Action::Fork));
    assert!(matches!(exec.walk(Event::Parent(9)), Action::Wait { .. }));
    assert!(matches!(exec.walk(Event::Waited(0)), Action::Finished(Ok(()))));
    assert!(exec.env().vars.env.get("FOO").is_none());
    assert_eq!(exec.env().vars.get_var("FOO"), "");
}

#[test]
fn assignment_before_a_failing_command_is_taken_back_too() {
    let node = Node::new(
        NdRule::Assignment {
            assignments: vec![tk("FOO=bar")],
            cmd: Some(Box::new(command(&["nope"]))),
        },
        span("FOO=bar nope"),
    );
    let mut host = Host::new(&[], &[]);
    let (r, env) = run_trees(single(node), ShEnv::new(), &mut host);
    assert_eq!(r.unwrap_err().kind, ShErrKind::CmdNotFound);
    assert!(env.vars.env.get("FOO").is_none());
}

#[test]
fn function_definition_strips_parentheses_and_braces() {
    let mut env = ShEnv::new();
    let r = exec_funcdef(&tk("greet()"), &tk("{ echo hi; echo there \n}"), span("f"), &mut env);
    assert!(r.is_ok());
    assert_eq!(env.get_function("greet").unwrap(), "echo hi; echo there");
    let r = exec_funcdef(&tk("odd()()"), &tk("{}"), span("f"), &mut env);
    assert!(r.is_ok());
    assert_eq!(env.get_function("odd").unwrap(), "");
    let r = exec_funcdef(&tk("bad"), &tk("{"), span("f"), &mut env);
    assert_eq!(r.unwrap_err().kind, ShErrKind::InternalErr);
    assert!(env.get_function("bad").is_none());
}

fn define(name: &str, body: &str) -> Node {
    Node::new(NdRule::FuncDef { name: tk(name), body: tk(body) }, span(name))
}

#[test]
fn function_call_binds_arguments_and_restores_the_state() {
    let trees = vec![list(vec![
        (None, define("f()", "{ show $1 $2 }")),
        (None, command(&["f", "one", "two"])),
        (None, command(&["show", "$1"])),
    ])];
    let mut env = ShEnv::new();
    env.vars.bpush_arg("outer");
    let mut exec = Executor::new(trees, env);
    match exec.walk(Event::Start) {
        Action::Parse { text } => assert_eq!(text, "show $1 $2"),
        other => panic!("unexpected {other:?}"),
    }
    assert_eq!(exec.env().vars.get_var("1"), "one");
    assert_eq!(exec.env().vars.get_var("2"), "two");
    match exec.walk(Event::Parsed(parse_words("show $1 $2"))) {
        Action::Resolve { name } => assert_eq!(name, "show"),
        other => panic!("unexpected {other:?}"),
    }
    assert!(matches!(exec.walk(Event::Resolved(true)), Action::Fork));
    match exec.walk(Event::Parent(7)) {
        Action::Wait { job } => assert_eq!(job.pgid, 7),
        other => panic!("unexpected {other:?}"),
    }
    match exec.walk(Event::Waited(5)) {
        Action::Resolve { name } => assert_eq!(name, "show"),
        other => panic!("unexpected {other:?}"),
    }
    assert_eq!(exec.env().vars.get_var("1"), "outer");
    assert_eq!(exec.env().vars.get_var("2"), "");
    assert_eq!(exec.env().get_code(), 0);
    assert!(matches!(exec.walk(Event::Resolved(true)), Action::Fork));
    match exec.walk(Event::Child) {
        Action::Redirect { .. } => {}
        other => panic!("unexpected {other:?}"),
    }
    match exec.walk(Event::Done) {
        Action::Exec { argv, .. } => assert_eq!(argv, vec!["show".to_string(), "outer".to_string()]),
        other => panic!("unexpected {other:?}"),
    }
}

#[test]
fn failing_function_leaves_the_positional_parameters_of_its_caller() {
    let trees = vec![list(vec![
        (None, define("f()", "{ nope }")),
        (None, command(&["f", "inner"])),
    ])];
    let mut env = ShEnv::new();
    env.vars.bpush_arg("outer");
    env.vars.set_var("V", "kept");
    let mut host = Host::new(&[], &[]);
    let (r, env) = run_trees(trees, env, &mut host);
    let err = r.unwrap_err();
    assert_eq!(err.kind, ShErrKind::CmdNotFound);
    assert_eq!(host.log, vec!["parse nope", "resolve nope"]);
    assert_eq!(env.vars.get_var("1"), "outer");
    assert_eq!(env.vars.get_var("2"), "");
    assert_eq!(env.vars.get_var("V"), "kept");
    assert!(env.get_function("f").is_some());
}

#[test]
fn function_whose_body_does_not_parse_leaves_the_state_of_its_caller() {
    let trees = vec![list(vec![
        (None, define("f()", "{ (( }")),
        (None, command(&["f", "inner"])),
    ])];
    let mut env = ShEnv::new();
    env.vars.bpush_arg("outer");
    let mut host = Host::new(&[], &[]);
    let (r, env) = run_trees(trees, env, &mut host);
    assert_eq!(r.unwrap_err().kind, ShErrKind::ParseErr);
    assert_eq!(env.vars.get_var("1"), "outer");
}

#[test]
fn function_takes_precedence_over_a_builtin() {
    let trees = vec![list(vec![
        (None, define("echo()", "{ printf }")),
        (None, builtin(&["echo", "hi"])),
    ])];
    let mut host = Host::new(&["printf"], &[]);
    let (r, _) = run_trees(trees, ShEnv::new(), &mut host);
    assert!(r.is_ok());
    assert_eq!(host.log[0], "parse printf");
    assert_eq!(host.log[1], "resolve printf");
}

#[test]
fn builtin_is_handed_to_the_host_without_a_fork() {
    let mut host = Host::new(&[], &[]);
    let (r, _) = run_trees(single(builtin(&["echo", "a b", "$X"])), ShEnv::new(), &mut host);
    assert!(r.is_ok());
    assert_eq!(host.log, vec!["builtin echo echo,a,b"]);
}

#[test]
fn unknown_builtin_is_an_error() {
    let mut host = Host::new(&[], &[]);
    let (r, _) = run_trees(single(builtin(&["frobnicate"])), ShEnv::new(), &mut host);
    assert_eq!(r.unwrap_err().kind, ShErrKind::InternalErr);
    assert!(host.log.is_empty());
}

#[test]
fn alias_builtin_runs_inside_the_engine() {
    let mut host = Host::new(&[], &[]);
    let (r, env) =
        run_trees(single(builtin(&["alias", "ll='ls -l'", "g=git"])), ShEnv::new(), &mut host);
    assert!(r.is_ok());
    assert!(host.log.is_empty());
    assert_eq!(env.get_alias("ll").unwrap(), "ls -l");
    assert_eq!(env.get_alias("g").unwrap(), "git");
}

fn subshell(body: &str, args: &[&str]) -> Node {
    let mut argv = Vec::new();
    for a in args {
        argv.push(tk(a));
    }
    Node::new(NdRule::Subshell { body: tk(body), argv, redirs: Vec::new() }, span(body))
}

#[test]
fn subshell_forks_and_the_parent_keeps_its_state() {
    let mut env = ShEnv::new();
    env.vars.bpush_arg("outer");
    let mut exec = Executor::new(single(subshell("(ls)", &["arg"])), env);
    assert!(matches!(exec.walk(Event::Start), Action::Fork));
    match exec.walk(Event::Parent(42)) {
        Action::Wait { job } => {
            assert_eq!(job.pgid, 42);
            assert_eq!(job.children.len(), 1);
            assert_eq!(job.children[0].pid, 42);
            assert_eq!(job.children[0].command.clone().unwrap(), "anonymous subshell");
            assert_eq!(job.children[0].pgid, Some(42));
        }
        other => panic!("unexpected {other:?}"),
    }
    assert_eq!(exec.env().vars.get_var("1"), "outer");
    assert!(matches!(exec.walk(Event::Waited(4)), Action::Finished(Ok(()))));
    assert_eq!(exec.env().get_code(), 4);
}

#[test]
fn subshell_in_the_child_runs_its_body_and_ends() {
    let mut env = ShEnv::new();
    env.vars.bpush_arg("outer");
    let mut exec = Executor::new(single(subshell("(ls)", &["arg"])), env);
    exec.walk(Event::Start);
    assert!(matches!(exec.walk(Event::Child), Action::Redirect { .. }));
    match exec.walk(Event::Done) {
        Action::Parse { text } => assert_eq!(text, "ls"),
        other => panic!("unexpected {other:?}"),
    }
    assert_eq!(exec.env().vars.get_var("1"), "arg");
    assert!(matches!(exec.walk(Event::Parsed(parse_words("ls"))), Action::Resolve { .. }));
    assert!(matches!(exec.walk(Event::Resolved(true)), Action::Fork));
    assert!(matches!(exec.walk(Event::Parent(8)), Action::Wait { .. }));
    match exec.walk(Event::Waited(3)) {
        Action::Exit { code, error } => {
            assert_eq!(code, 0);
            assert!(error.is_none());
        }
        other => panic!("unexpected {other:?}"),
    }
}

#[test]
fn subshell_whose_body_fails_to_parse_ends_the_child_with_status_one() {
    let mut exec = Executor::new(single(subshell("(ls)", &[])), ShEnv::new());
    exec.walk(Event::Start);
    exec.walk(Event::Child);
    exec.walk(Event::Done);
    match exec.walk(Event::Failed(ShErr::simple(ShErrKind::ParseErr, "bad"))) {
        Action::Exit { code, error } => {
            assert_eq!(code, 1);
            assert_eq!(error.unwrap().kind, ShErrKind::ParseErr);
        }
        other => panic!("unexpected {other:?}"),
    }
}

#[test]
fn subshell_in_an_isolated_process_does_not_fork_again() {
    let mut env = ShEnv::new();
    env.ctx.no_fork = true;
    let mut exec = Executor::new(single(subshell("(ls)", &[])), env);
    assert!(matches!(exec.walk(Event::Start), Action::Redirect { .. }));
    assert!(!exec.env().ctx.no_fork);
    assert!(matches!(exec.walk(Event::Done), Action::Parse { .. }));
    match exec.walk(Event::Parsed(Vec::new())) {
        Action::Exit { code, .. } => assert_eq!(code, 0),
        other => panic!("unexpected {other:?}"),
    }
}

#[test]
fn subshell_whose_fork_fails_restores_the_state() {
    let mut env = ShEnv::new();
    env.vars.bpush_arg("outer");
    let mut exec = Executor::new(single(subshell("(ls)", &[])), env);
    exec.walk(Event::Start);
    assert_eq!(exec.env().vars.get_var("1"), "");
    match exec.walk(Event::Failed(ShErr::simple(ShErrKind::ExecFail, "EAGAIN"))) {
        Action::Finished(Err(e)) => assert_eq!(e.msg, "EAGAIN"),
        other => panic!("unexpected {other:?}"),
    }
    assert_eq!(exec.env().vars.get_var("1"), "outer");
}

#[test]
fn subshell_without_brackets_is_an_error() {
    let mut host = Host::new(&[], &[]);
    let (r, _) = run_trees(single(subshell("(", &[])), ShEnv::new(), &mut host);
    assert_eq!(r.unwrap_err().kind, ShErrKind::InternalErr);
}

#[test]
fn command_in_an_isolated_process_takes_its_place() {
    let mut env = ShEnv::new();
    env.ctx.no_fork = true;
    let mut exec = Executor::new(single(command(&["ls"])), env);
    assert!(matches!(exec.walk(Event::Start), Action::Resolve { .. }));
    assert!(matches!(exec.walk(Event::Resolved(true)), Action::Redirect { .. }));
    assert!(matches!(exec.walk(Event::Done), Action::Exec { .. }));
}

#[test]
fn error_is_blamed_on_the_innermost_element() {
    let trees = vec![Node::new(
        NdRule::CmdList { cmds: vec![(None, builtin(&["alias", "oops"]))] },
        span("whole list"),
    )];
    let mut host = Host::new(&[], &[]);
    let (r, _) = run_trees(trees, ShEnv::new(), &mut host);
    let err = r.unwrap_err();
    assert_eq!(err.kind, ShErrKind::SyntaxErr);
    assert_eq!(err.msg, "Expected an assignment in alias args");
    assert_eq!(err.span.unwrap().text, "oops");
}
