//! Tokens as the lexer hands them over: a stretch of source text, what kind
//! of thing it is, and a few flags.

use vstd::prelude::*;
use crate::text::{join, join_strings, texts};

verus! {

/// Whether `ch` separates fields when it stands outside quotes.
pub open spec fn field_sep(ch: char) -> bool {
    ch == ' ' || ch == '\t' || ch == '\n'
}

/// Whether `ch` ends a variable name: a field separator or a semicolon.
pub open spec fn hard_sep(ch: char) -> bool {
    field_sep(ch) || ch == ';'
}

pub fn is_field_sep(ch: char) -> (r: bool)
    ensures
        r == field_sep(ch),
{
    ch == ' ' || ch == '\t' || ch == '\n'
}

pub fn is_hard_sep(ch: char) -> (r: bool)
    ensures
        r == hard_sep(ch),
{
    is_field_sep(ch) || ch == ';'
}

/// A stretch of the input: where it starts and ends, and the text it covers.
#[derive(Debug)]
pub struct Span {
    pub start: usize,
    pub end: usize,
    pub text: String,
}

pub struct SpanView {
    pub start: usize,
    pub end: usize,
    pub text: Seq<char>,
}

impl View for Span {
    type V = SpanView;

    open spec fn view(&self) -> SpanView {
        SpanView { start: self.start, end: self.end, text: self.text@ }
    }
}

impl Clone for Span {
    fn clone(&self) -> (r: Self)
        ensures
            r@ == self@,
    {
        Span { start: self.start, end: self.end, text: self.text.clone() }
    }
}

impl Span {
    pub fn new(start: usize, end: usize, text: &str) -> (r: Span)
        ensures
            r@ == (SpanView { start, end, text: text@ }),
    {
        Span { start, end, text: text.to_owned() }
    }

    /// The text that the span covers.
    pub fn as_str(&self) -> (r: &str)
        ensures
            r@ == self@.text,
    {
        self.text.as_str()
    }
}

/// What a token was recognised as.
#[derive(Debug)]
pub enum TkRule {
    Ident,
    Keyword,
    FuncName,
    BraceGrp,
    Subshell,
    Comment,
    Sep,
    AndOp,
    OrOp,
    PipeOp,
    ErrPipeOp,
    BgOp,
    RedirOp,
    /// A token whose words have been worked out already.
    Expanded { exp: Vec<String> },
}

pub enum TkRuleView {
    Ident,
    Keyword,
    FuncName,
    BraceGrp,
    Subshell,
    Comment,
    Sep,
    AndOp,
    OrOp,
    PipeOp,
    ErrPipeOp,
    BgOp,
    RedirOp,
    Expanded { exp: Seq<Seq<char>> },
}

impl View for TkRule {
    type V = TkRuleView;

    open spec fn view(&self) -> TkRuleView {
        match self {
            TkRule::Ident => TkRuleView::Ident,
            TkRule::Keyword => TkRuleView::Keyword,
            TkRule::FuncName => TkRuleView::FuncName,
            TkRule::BraceGrp => TkRuleView::BraceGrp,
            TkRule::Subshell => TkRuleView::Subshell,
            TkRule::Comment => TkRuleView::Comment,
            TkRule::Sep => TkRuleView::Sep,
            TkRule::AndOp => TkRuleView::AndOp,
            TkRule::OrOp => TkRuleView::OrOp,
            TkRule::PipeOp => TkRuleView::PipeOp,
            TkRule::ErrPipeOp => TkRuleView::ErrPipeOp,
            TkRule::BgOp => TkRuleView::BgOp,
            TkRule::RedirOp => TkRuleView::RedirOp,
            TkRule::Expanded { exp } => TkRuleView::Expanded { exp: texts(exp@) },
        }
    }
}

/// A copy of a list of strings.
pub fn clone_strings(v: &Vec<String>) -> (r: Vec<String>)
    ensures
        texts(r@) == texts(v@),
{
    let r = v.clone();
    assert(texts(r@) =~= texts(v@));
    r
}

impl Clone for TkRule {
    fn clone(&self) -> (r: Self)
        ensures
            r@ == self@,
    {
        match self {
            TkRule::Ident => TkRule::Ident,
            TkRule::Keyword => TkRule::Keyword,
            TkRule::FuncName => TkRule::FuncName,
            TkRule::BraceGrp => TkRule::BraceGrp,
            TkRule::Subshell => TkRule::Subshell,
            TkRule::Comment => TkRule::Comment,
            TkRule::Sep => TkRule::Sep,
            TkRule::AndOp => TkRule::AndOp,
            TkRule::OrOp => TkRule::OrOp,
            TkRule::PipeOp => TkRule::PipeOp,
            TkRule::ErrPipeOp => TkRule::ErrPipeOp,
            TkRule::BgOp => TkRule::BgOp,
            TkRule::RedirOp => TkRule::RedirOp,
            TkRule::Expanded { exp } => TkRule::Expanded { exp: clone_strings(exp) },
        }
    }
}

/// What the lexer noted about a token besides its kind.
#[derive(Clone, Copy, Debug, PartialEq, Eq, Structural)]
pub struct TkFlags {
    /// The token names a builtin command.
    pub builtin: bool,
    /// The token stands where a command name is expected.
    pub is_cmd: bool,
}

impl TkFlags {
    pub fn empty() -> (r: TkFlags)
        ensures
            r == (TkFlags { builtin: false, is_cmd: false }),
    {
        TkFlags { builtin: false, is_cmd: false }
    }
}

/// One token.
#[derive(Debug)]
pub struct Tk {
    pub class: TkRule,
    pub span: Span,
    pub flags: TkFlags,
}

pub struct TkView {
    pub class: TkRuleView,
    pub span: SpanView,
    pub flags: TkFlags,
}

impl View for Tk {
    type V = TkView;

    open spec fn view(&self) -> TkView {
        TkView { class: self.class@, span: self.span@, flags: self.flags }
    }
}

impl Clone for Tk {
    fn clone(&self) -> (r: Self)
        ensures
            r@ == self@,
    {
        Tk { class: self.class.clone(), span: self.span.clone(), flags: self.flags }
    }
}

impl TkView {
    /// The words that a token stands for: those worked out for it, or its
    /// own text as the one word.
    pub open spec fn words(self) -> Seq<Seq<char>> {
        match self.class {
            TkRuleView::Expanded { exp } => exp,
            _ => seq![self.span.text],
        }
    }

    /// The token written out: its words with single spaces between them.
    pub open spec fn text(self) -> Seq<char> {
        match self.class {
            TkRuleView::Expanded { exp } => join(exp, seq![' ']),
            _ => self.span.text,
        }
    }
}

impl Tk {
    /// A token of kind `class` that covers `text` at the start of the input.
    pub fn new(class: TkRule, text: &str) -> (r: Tk)
        ensures
            r@ == (TkView {
                class: class@,
                span: SpanView { start: 0, end: text@.len() as usize, text: text@ },
                flags: TkFlags { builtin: false, is_cmd: false },
            }),
    {
        let end = text.unicode_len();
        Tk { class, span: Span::new(0, end, text), flags: TkFlags::empty() }
    }

    /// The token written out as text.
    pub fn text(&self) -> (r: String)
        ensures
            r@ == self@.text(),
    {
        match &self.class {
            TkRule::Expanded { exp } => {
                proof {
                    reveal_strlit(" ");
                    assert(" "@ =~= seq![' ']);
                }
                join_strings(exp, " ")
            },
            _ => self.span.text.clone(),
        }
    }
}

/// The views of a list of tokens, in order.
pub open spec fn tk_views(v: Seq<Tk>) -> Seq<TkView> {
    Seq::new(v.len(), |i: int| v[i]@)
}

/// A copy of a list of tokens.
pub fn clone_tokens(v: &Vec<Tk>) -> (r: Vec<Tk>)
    ensures
        tk_views(r@) == tk_views(v@),
{
    let r = v.clone();
    assert(tk_views(r@) =~= tk_views(v@));
    r
}

} // verus!
