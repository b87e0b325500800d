//! Errors of the shell.

use vstd::prelude::*;
use crate::lex::{Span, SpanView};

verus! {

/// What went wrong, in broad terms.
#[derive(Clone, Copy, Debug, PartialEq, Eq, Structural)]
pub enum ShErrKind {
    /// The arguments of a builtin are malformed, or a construct is not closed.
    SyntaxErr,
    /// A nested body or an arithmetic expression could not be read.
    ParseErr,
    /// No program of the given name was found.
    CmdNotFound,
    /// The operating system refused to run a program or to perform some
    /// other step.
    ExecFail,
    /// A variable of the process environment that is needed is not set.
    EnvErr,
    /// The syntax tree holds something that the parser never produces, or
    /// the host answered out of turn.
    InternalErr,
}

/// An error, with the place in the input that it is blamed on, if known.
#[derive(Debug)]
pub struct ShErr {
    pub kind: ShErrKind,
    pub msg: String,
    pub span: Option<Span>,
}

pub struct ShErrView {
    pub kind: ShErrKind,
    pub msg: Seq<char>,
    pub span: Option<SpanView>,
}

/// The view of a span that may be missing.
pub open spec fn span_view(span: Option<Span>) -> Option<SpanView> {
    match span {
        Some(s) => Some(s@),
        None => None,
    }
}

impl View for ShErr {
    type V = ShErrView;

    open spec fn view(&self) -> ShErrView {
        ShErrView { kind: self.kind, msg: self.msg@, span: span_view(self.span) }
    }
}

impl Clone for ShErr {
    fn clone(&self) -> (r: Self)
        ensures
            r@ == self@,
    {
        let span = match &self.span {
            Some(s) => Some(s.clone()),
            None => None,
        };
        ShErr { kind: self.kind, msg: self.msg.clone(), span }
    }
}

impl ShErrView {
    /// The error blamed on `span`, unless it is blamed on a place already.
    pub open spec fn blamed(self, span: SpanView) -> ShErrView {
        match self.span {
            Some(_) => self,
            None => ShErrView { span: Some(span), ..self },
        }
    }
}

pub type ShResult<T> = Result<T, ShErr>;

/// The view of a result that carries nothing on success.
pub open spec fn result_view(r: ShResult<()>) -> Result<(), ShErrView> {
    match r {
        Ok(_) => Ok(()),
        Err(e) => Err(e@),
    }
}

impl ShErr {
    /// An error that is blamed on no place.
    pub fn simple(kind: ShErrKind, msg: &str) -> (r: ShErr)
        ensures
            r@ == (ShErrView { kind, msg: msg@, span: None }),
    {
        ShErr { kind, msg: msg.to_owned(), span: None }
    }

    /// An error that is blamed on `span`.
    pub fn full(kind: ShErrKind, msg: &str, span: Span) -> (r: ShErr)
        ensures
            r@ == (ShErrView { kind, msg: msg@, span: Some(span@) }),
    {
        ShErr { kind, msg: msg.to_owned(), span: Some(span) }
    }

    /// Blames the error on `span`, unless it is blamed on a place already.
    pub fn try_blame(self, span: Span) -> (r: ShErr)
        ensures
            r@ == self@.blamed(span@),
    {
        match self.span {
            Some(_) => self,
            None => ShErr { kind: self.kind, msg: self.msg, span: Some(span) },
        }
    }
}

} // verus!
