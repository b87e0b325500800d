//! The interpreter's state: variables, positional parameters, functions,
//! aliases, pending redirections and the last exit status.

use vstd::prelude::*;
use crate::lex::clone_strings;
use crate::table::{lookup, store, Entry, Table};
use crate::text::{lemma_texts_empty, lemma_texts_push, texts, to_chars};

verus! {

/// Whether `c` is a decimal digit.
pub open spec fn is_digit(c: char) -> bool {
    '0' <= c <= '9'
}

/// Whether `s` is made of decimal digits only, and of at least one.
pub open spec fn all_digits(s: Seq<char>) -> bool {
    s.len() > 0 && forall|i: int| 0 <= i < s.len() ==> is_digit(#[trigger] s[i])
}

/// The number that the decimal digits `s` write.
pub open spec fn number_of(s: Seq<char>) -> nat
    decreases s.len(),
{
    if s.len() == 0 {
        0
    } else {
        number_of(s.drop_last()) * 10 + (s.last() as u32 - '0' as u32) as nat
    }
}

/// The variables of the shell: those local to it, those exported to the
/// programs it starts, and the positional parameters.
#[derive(Debug)]
pub struct VarTab {
    pub vars: Table,
    pub env: Table,
    pub params: Vec<String>,
}

pub struct VarTabView {
    pub vars: Seq<Entry>,
    pub env: Seq<Entry>,
    pub params: Seq<Seq<char>>,
}

impl View for VarTab {
    type V = VarTabView;

    open spec fn view(&self) -> VarTabView {
        VarTabView { vars: self.vars@, env: self.env@, params: texts(self.params@) }
    }
}

impl Clone for VarTab {
    fn clone(&self) -> (r: Self)
        ensures
            r@ == self@,
    {
        VarTab {
            vars: self.vars.clone(),
            env: self.env.clone(),
            params: clone_strings(&self.params),
        }
    }
}

impl VarTabView {
    /// The value of the variable `name`, empty when it is not set.
    ///
    /// A name made of digits reads the positional parameter of that number,
    /// counted from one. Any other name reads the shell-local variable, or
    /// failing that the exported one.
    pub open spec fn get(self, name: Seq<char>) -> Seq<char> {
        if all_digits(name) {
            let k = number_of(name);
            if 1 <= k <= self.params.len() {
                self.params[k - 1]
            } else {
                Seq::empty()
            }
        } else if lookup(self.vars, name) is Some {
            lookup(self.vars, name)->0
        } else if lookup(self.env, name) is Some {
            lookup(self.env, name)->0
        } else {
            Seq::empty()
        }
    }

    /// The variables with `value` stored under `name`, local to the shell.
    pub open spec fn set(self, name: Seq<char>, value: Seq<char>) -> VarTabView {
        VarTabView { vars: store(self.vars, name, value), ..self }
    }

    /// The variables with `value` exported under `name`.
    pub open spec fn export(self, name: Seq<char>, value: Seq<char>) -> VarTabView {
        VarTabView { env: store(self.env, name, value), ..self }
    }

    /// The variables without positional parameters.
    pub open spec fn reset_params(self) -> VarTabView {
        VarTabView { params: Seq::empty(), ..self }
    }

    /// The variables with one more positional parameter at the end.
    pub open spec fn push_param(self, arg: Seq<char>) -> VarTabView {
        VarTabView { params: self.params.push(arg), ..self }
    }
}

proof fn lemma_number_grows(s: Seq<char>, c: char)
    requires
        is_digit(c),
    ensures
        number_of(s.push(c)) == number_of(s) * 10 + (c as u32 - '0' as u32),
        number_of(s.push(c)) >= number_of(s),
{
    assert(s.push(c).drop_last() =~= s);
    assert(number_of(s) * 10 >= number_of(s)) by (nonlinear_arith)
        requires
            number_of(s) >= 0,
    ;
}

/// The number written by `name` when it is made of digits and the number is
/// at most `cap`; `None` otherwise.
fn small_number(name: &str, cap: usize) -> (r: Option<usize>)
    ensures
        r is Some <==> all_digits(name@) && number_of(name@) <= cap,
        r is Some ==> r->0 == number_of(name@),
{
    let chars = to_chars(name);
    if chars.len() == 0 {
        return None;
    }
    let mut acc: u128 = 0;
    let mut over = false;
    let mut i: usize = 0;
    assert(chars@.take(0) =~= Seq::<char>::empty());
    while i < chars.len()
        invariant
            chars@ == name@,
            i <= chars.len(),
            forall|j: int| 0 <= j < i ==> is_digit(#[trigger] chars@[j]),
            over ==> number_of(chars@.take(i as int)) > cap,
            !over ==> acc == number_of(chars@.take(i as int)) && acc <= cap,
        decreases chars.len() - i,
    {
        let c = chars[i];
        if !(c >= '0' && c <= '9') {
            return None;
        }
        proof {
            lemma_number_grows(chars@.take(i as int), c);
            assert(chars@.take(i + 1) =~= chars@.take(i as int).push(c));
        }
        if !over {
            let d: u128 = (c as u32 - '0' as u32) as u128;
            acc = acc * 10 + d;
            if acc > cap as u128 {
                over = true;
            }
        }
        i += 1;
    }
    assert(chars@.take(chars.len() as int) =~= chars@);
    if over {
        None
    } else {
        Some(acc as usize)
    }
}

impl VarTab {
    pub fn new() -> (r: VarTab)
        ensures
            r@ == (VarTabView {
                vars: Seq::empty(),
                env: Seq::empty(),
                params: Seq::empty(),
            }),
    {
        proof {
            lemma_texts_empty();
        }
        VarTab { vars: Table::new(), env: Table::new(), params: Vec::new() }
    }

    /// The value of the variable `name`, empty when it is not set.
    pub fn get_var(&self, name: &str) -> (r: String)
        ensures
            r@ == self@.get(name@),
    {
        match small_number(name, self.params.len()) {
            Some(k) => {
                if k >= 1 {
                    return self.params[k - 1].clone();
                } else {
                    return String::new();
                }
            },
            None => {},
        }
        if all_digits_of(name) {
            return String::new();
        }
        match self.vars.get(name) {
            Some(v) => v,
            None => match self.env.get(name) {
                Some(v) => v,
                None => String::new(),
            },
        }
    }

    /// Stores `value` under `name`, local to the shell.
    pub fn set_var(&mut self, name: &str, value: &str)
        ensures
            final(self)@ == old(self)@.set(name@, value@),
    {
        self.vars.set(name, value);
    }

    /// Exports `value` under `name` to the programs that the shell starts.
    pub fn export(&mut self, name: &str, value: &str)
        ensures
            final(self)@ == old(self)@.export(name@, value@),
    {
        self.env.set(name, value);
    }

    /// Forgets the positional parameters.
    pub fn reset_params(&mut self)
        ensures
            final(self)@ == old(self)@.reset_params(),
    {
        self.params = Vec::new();
        proof {
            lemma_texts_empty();
        }
    }

    /// Adds a positional parameter after those already there.
    pub fn bpush_arg(&mut self, arg: &str)
        ensures
            final(self)@ == old(self)@.push_param(arg@),
    {
        let owned = arg.to_owned();
        proof {
            lemma_texts_push(self.params@, owned);
        }
        self.params.push(owned);
    }
}

/// Whether `name` is made of decimal digits only, and of at least one.
pub fn all_digits_of(name: &str) -> (r: bool)
    ensures
        r == all_digits(name@),
{
    let chars = to_chars(name);
    if chars.len() == 0 {
        return false;
    }
    let mut i: usize = 0;
    while i < chars.len()
        invariant
            chars@ == name@,
            i <= chars.len(),
            forall|j: int| 0 <= j < i ==> is_digit(#[trigger] chars@[j]),
        decreases chars.len() - i,
    {
        let c = chars[i];
        if !(c >= '0' && c <= '9') {
            return false;
        }
        i += 1;
    }
    true
}


/// The direction of a redirection.
#[derive(Clone, Copy, Debug, PartialEq, Eq, Structural)]
pub enum RedirType {
    Input,
    Output,
    Append,
    HereDoc,
    HereString,
}

/// Where a redirection leads.
#[derive(Debug)]
pub enum RedirTarget {
    /// An open file descriptor.
    Fd(i32),
    /// The file at a path.
    File(String),
    /// Text given in place.
    HereDoc(String),
}

pub enum RedirTargetView {
    Fd(i32),
    File(Seq<char>),
    HereDoc(Seq<char>),
}

impl View for RedirTarget {
    type V = RedirTargetView;

    open spec fn view(&self) -> RedirTargetView {
        match self {
            RedirTarget::Fd(fd) => RedirTargetView::Fd(*fd),
            RedirTarget::File(p) => RedirTargetView::File(p@),
            RedirTarget::HereDoc(t) => RedirTargetView::HereDoc(t@),
        }
    }
}

/// One redirection: the descriptor of the process that it changes, the
/// direction, and where it leads.
#[derive(Debug)]
pub struct Redir {
    pub src: i32,
    pub class: RedirType,
    pub target: RedirTarget,
}

pub struct RedirView {
    pub src: i32,
    pub class: RedirType,
    pub target: RedirTargetView,
}

impl View for Redir {
    type V = RedirView;

    open spec fn view(&self) -> RedirView {
        RedirView { src: self.src, class: self.class, target: self.target@ }
    }
}

impl Clone for Redir {
    fn clone(&self) -> (r: Self)
        ensures
            r@ == self@,
    {
        let target = match &self.target {
            RedirTarget::Fd(fd) => RedirTarget::Fd(*fd),
            RedirTarget::File(p) => RedirTarget::File(p.clone()),
            RedirTarget::HereDoc(t) => RedirTarget::HereDoc(t.clone()),
        };
        Redir { src: self.src, class: self.class, target }
    }
}

impl Redir {
    pub fn new(src: i32, class: RedirType, target: RedirTarget) -> (r: Redir)
        ensures
            r@ == (RedirView { src, class, target: target@ }),
    {
        Redir { src, class, target }
    }
}

/// The views of a list of redirections, in order.
pub open spec fn redir_views(v: Seq<Redir>) -> Seq<RedirView> {
    Seq::new(v.len(), |i: int| v[i]@)
}

pub proof fn lemma_redir_views_push(v: Seq<Redir>, r: Redir)
    ensures
        redir_views(v.push(r)) == redir_views(v).push(r@),
{
    assert(redir_views(v.push(r)) =~= redir_views(v).push(r@));
}

/// A copy of a list of redirections.
pub fn clone_redirs(v: &Vec<Redir>) -> (r: Vec<Redir>)
    ensures
        redir_views(r@) == redir_views(v@),
{
    let r = v.clone();
    assert(redir_views(r@) =~= redir_views(v@));
    r
}

/// The functions and aliases that the user has defined.
#[derive(Debug)]
pub struct LogTab {
    pub functions: Table,
    pub aliases: Table,
}

/// What the engine keeps between the steps of one command: the
/// redirections that wait to be applied, and whether the process is a child
/// of its own already, so that a command may take its place without another
/// fork.
#[derive(Debug)]
pub struct ExecCtx {
    pub redirs: Vec<Redir>,
    pub no_fork: bool,
}

/// The whole state of the interpreter.
#[derive(Debug)]
pub struct ShEnv {
    pub vars: VarTab,
    pub logic: LogTab,
    pub ctx: ExecCtx,
    /// The exit status of the last command.
    pub status: i32,
}

pub struct ShEnvView {
    pub vars: VarTabView,
    pub functions: Seq<Entry>,
    pub aliases: Seq<Entry>,
    pub redirs: Seq<RedirView>,
    pub no_fork: bool,
    pub status: i32,
}

impl View for ShEnv {
    type V = ShEnvView;

    open spec fn view(&self) -> ShEnvView {
        ShEnvView {
            vars: self.vars@,
            functions: self.logic.functions@,
            aliases: self.logic.aliases@,
            redirs: redir_views(self.ctx.redirs@),
            no_fork: self.ctx.no_fork,
            status: self.status,
        }
    }
}

impl Clone for ShEnv {
    fn clone(&self) -> (r: Self)
        ensures
            r@ == self@,
    {
        ShEnv {
            vars: self.vars.clone(),
            logic: LogTab {
                functions: self.logic.functions.clone(),
                aliases: self.logic.aliases.clone(),
            },
            ctx: ExecCtx { redirs: clone_redirs(&self.ctx.redirs), no_fork: self.ctx.no_fork },
            status: self.status,
        }
    }
}

impl ShEnvView {
    /// The state of a shell that has just started.
    pub open spec fn fresh() -> ShEnvView {
        ShEnvView {
            vars: VarTabView { vars: Seq::empty(), env: Seq::empty(), params: Seq::empty() },
            functions: Seq::empty(),
            aliases: Seq::empty(),
            redirs: Seq::empty(),
            no_fork: false,
            status: 0,
        }
    }

    /// The body of the function `name`, if it is defined.
    pub open spec fn function(self, name: Seq<char>) -> Option<Seq<char>> {
        lookup(self.functions, name)
    }

    /// What the alias `name` stands for, if it is defined.
    pub open spec fn alias(self, name: Seq<char>) -> Option<Seq<char>> {
        lookup(self.aliases, name)
    }

    pub open spec fn with_vars(self, vars: VarTabView) -> ShEnvView {
        ShEnvView { vars, ..self }
    }

    pub open spec fn with_function(self, name: Seq<char>, body: Seq<char>) -> ShEnvView {
        ShEnvView { functions: store(self.functions, name, body), ..self }
    }

    pub open spec fn with_alias(self, name: Seq<char>, body: Seq<char>) -> ShEnvView {
        ShEnvView { aliases: store(self.aliases, name, body), ..self }
    }

    pub open spec fn with_status(self, status: i32) -> ShEnvView {
        ShEnvView { status, ..self }
    }

    pub open spec fn with_no_fork(self, no_fork: bool) -> ShEnvView {
        ShEnvView { no_fork, ..self }
    }

    /// The state with `more` added to the redirections that wait.
    pub open spec fn with_redirs(self, more: Seq<RedirView>) -> ShEnvView {
        ShEnvView { redirs: self.redirs + more, ..self }
    }

    /// The state with no redirection waiting.
    pub open spec fn without_redirs(self) -> ShEnvView {
        ShEnvView { redirs: Seq::empty(), ..self }
    }
}

impl ShEnv {
    pub fn new() -> (r: ShEnv)
        ensures
            r@ == ShEnvView::fresh(),
    {
        let r = ShEnv {
            vars: VarTab::new(),
            logic: LogTab { functions: Table::new(), aliases: Table::new() },
            ctx: ExecCtx { redirs: Vec::new(), no_fork: false },
            status: 0,
        };
        assert(redir_views(r.ctx.redirs@) =~= Seq::<RedirView>::empty());
        r
    }

    /// The exit status of the last command.
    pub fn get_code(&self) -> (r: i32)
        ensures
            r == self@.status,
    {
        self.status
    }

    /// Records the exit status of a command.
    pub fn set_code(&mut self, status: i32)
        ensures
            final(self)@ == old(self)@.with_status(status),
    {
        self.status = status;
    }

    /// The body of the function `name`, if it is defined.
    pub fn get_function(&self, name: &str) -> (r: Option<String>)
        ensures
            r is Some == self@.function(name@) is Some,
            r is Some ==> r->0@ == self@.function(name@)->0,
    {
        self.logic.functions.get(name)
    }

    /// Defines the function `name`.
    pub fn set_function(&mut self, name: &str, body: &str)
        ensures
            final(self)@ == old(self)@.with_function(name@, body@),
    {
        self.logic.functions.set(name, body);
    }

    /// What the alias `name` stands for, if it is defined.
    pub fn get_alias(&self, name: &str) -> (r: Option<String>)
        ensures
            r is Some == self@.alias(name@) is Some,
            r is Some ==> r->0@ == self@.alias(name@)->0,
    {
        self.logic.aliases.get(name)
    }

    /// Defines the alias `name`.
    pub fn set_alias(&mut self, name: &str, body: &str)
        ensures
            final(self)@ == old(self)@.with_alias(name@, body@),
    {
        self.logic.aliases.set(name, body);
    }

    /// Adds the redirections of a command to those that wait.
    pub fn collect_redirs(&mut self, redirs: Vec<Redir>)
        ensures
            final(self)@ == old(self)@.with_redirs(redir_views(redirs@)),
    {
        let mut i: usize = 0;
        assert(redir_views(redirs@).take(0) =~= Seq::<RedirView>::empty());
        assert(old(self)@.redirs + Seq::<RedirView>::empty() =~= old(self)@.redirs);
        while i < redirs.len()
            invariant
                i <= redirs.len(),
                self@ == old(self)@.with_redirs(redir_views(redirs@).take(i as int)),
            decreases redirs.len() - i,
        {
            let r = redirs[i].clone();
            proof {
                lemma_redir_views_push(self.ctx.redirs@, r);
                assert(redir_views(redirs@).take(i + 1) =~= redir_views(redirs@).take(i as int).push(
                    r@,
                ));
                assert(old(self)@.redirs + redir_views(redirs@).take(i as int).push(r@) =~= (old(
                    self,
                )@.redirs + redir_views(redirs@).take(i as int)).push(r@));
            }
            self.ctx.redirs.push(r);
            i += 1;
        }
        assert(redir_views(redirs@).take(redirs.len() as int) =~= redir_views(redirs@));
    }

    /// Hands out the redirections that wait and leaves none waiting.
    pub fn take_redirs(&mut self) -> (r: Vec<Redir>)
        ensures
            redir_views(r@) == old(self)@.redirs,
            final(self)@ == old(self)@.without_redirs(),
    {
        let mut out: Vec<Redir> = Vec::new();
        std::mem::swap(&mut out, &mut self.ctx.redirs);
        assert(redir_views(self.ctx.redirs@) =~= Seq::<RedirView>::empty());
        out
    }
}

} // verus!
