//! Arithmetic expansion: from the text of an expression to its tokens, from
//! infix to postfix order, and the stack machine that evaluates the postfix
//! form.
//!
//! Numbers are IEEE 754 double-precision values. The crate never computes
//! with them: it holds them as bit patterns, asks its caller for every sum,
//! product or power, and decides everything else itself.

use vstd::prelude::*;
use crate::error::{ShErr, ShErrKind, ShErrView, ShResult};
use crate::expand::{expansion, substituted, unescape_str, unescaped, Expander};
use crate::lex::{Tk, TkRule, TkRuleView, TkView};
use crate::shellenv::{is_digit, ShEnv, VarTabView};
use crate::text::{from_chars, texts, to_chars, trim, trimmed, Trim};

verus! {

/// An operator of an arithmetic expression.
#[derive(Clone, Copy, Debug, PartialEq, Eq, Structural)]
pub enum Op {
    Add,
    Sub,
    Mul,
    Div,
    IntDiv,
    Mod,
    Pow,
}

impl Op {
    /// How tightly the operator binds: sums least, powers most.
    pub open spec fn spec_precedence(&self) -> u8 {
        match self {
            Op::Add | Op::Sub => 1,
            Op::Mul | Op::Div | Op::IntDiv | Op::Mod => 2,
            Op::Pow => 3,
        }
    }

    #[verifier::when_used_as_spec(spec_precedence)]
    pub fn precedence(&self) -> (r: u8)
        ensures
            r == self.spec_precedence(),
    {
        match self {
            Op::Add | Op::Sub => 1,
            Op::Mul | Op::Div | Op::IntDiv | Op::Mod => 2,
            Op::Pow => 3,
        }
    }

    /// Whether a chain of the operator groups from the left. Only the power
    /// groups from the right.
    pub open spec fn spec_is_left_associative(&self) -> bool {
        *self != Op::Pow
    }

    #[verifier::when_used_as_spec(spec_is_left_associative)]
    pub fn is_left_associative(&self) -> (r: bool)
        ensures
            r == self.spec_is_left_associative(),
    {
        match self {
            Op::Pow => false,
            _ => true,
        }
    }
}


/// One token of an arithmetic expression.
#[derive(Debug)]
pub enum ExprToken {
    /// A number, as the digits that write it.
    Number(String),
    Operator(Op),
    OpenParen,
    CloseParen,
}

pub enum ExprTokenView {
    Number(Seq<char>),
    Operator(Op),
    OpenParen,
    CloseParen,
}

impl View for ExprToken {
    type V = ExprTokenView;

    open spec fn view(&self) -> ExprTokenView {
        match self {
            ExprToken::Number(d) => ExprTokenView::Number(d@),
            ExprToken::Operator(op) => ExprTokenView::Operator(*op),
            ExprToken::OpenParen => ExprTokenView::OpenParen,
            ExprToken::CloseParen => ExprTokenView::CloseParen,
        }
    }
}

impl Clone for ExprToken {
    fn clone(&self) -> (r: Self)
        ensures
            r@ == self@,
    {
        match self {
            ExprToken::Number(d) => ExprToken::Number(d.clone()),
            ExprToken::Operator(op) => ExprToken::Operator(*op),
            ExprToken::OpenParen => ExprToken::OpenParen,
            ExprToken::CloseParen => ExprToken::CloseParen,
        }
    }
}

/// The views of a list of tokens, in order.
pub open spec fn token_views(v: Seq<ExprToken>) -> Seq<ExprTokenView> {
    Seq::new(v.len(), |i: int| v[i]@)
}

proof fn lemma_token_views_push(v: Seq<ExprToken>, t: ExprToken)
    ensures
        token_views(v.push(t)) == token_views(v).push(t@),
{
    assert(token_views(v.push(t)) =~= token_views(v).push(t@));
}

proof fn lemma_token_views_drop_last(v: Seq<ExprToken>)
    requires
        v.len() > 0,
    ensures
        token_views(v.drop_last()) == token_views(v).drop_last(),
        token_views(v).last() == v.last()@,
{
    assert(token_views(v.drop_last()) =~= token_views(v).drop_last());
}

/// How many digits stand at the start of `s`.
pub open spec fn leading_digits(s: Seq<char>) -> nat
    decreases s.len(),
{
    if s.len() > 0 && is_digit(s[0]) {
        1 + leading_digits(s.skip(1))
    } else {
        0
    }
}

/// `tok` in front of the tokens of the rest, or the rest's error.
pub open spec fn then_tokens(
    first: Seq<ExprTokenView>,
    rest: Result<Seq<ExprTokenView>, char>,
) -> Result<Seq<ExprTokenView>, char> {
    match rest {
        Ok(tokens) => Ok(first + tokens),
        Err(c) => Err(c),
    }
}

/// The tokens of the expression `s`, or the first character of `s` that
/// belongs to no token.
///
/// `**` and `//` are one operator each, a number is a run of digits as long
/// as it can be, and blanks and tabs separate tokens without being one.
pub open spec fn expr_tokens(s: Seq<char>) -> Result<Seq<ExprTokenView>, char>
    decreases s.len(),
    via expr_tokens_shrinks
{
    if s.len() == 0 {
        Ok(Seq::empty())
    } else {
        let c = s[0];
        if c == '+' {
            then_tokens(seq![ExprTokenView::Operator(Op::Add)], expr_tokens(s.skip(1)))
        } else if c == '-' {
            then_tokens(seq![ExprTokenView::Operator(Op::Sub)], expr_tokens(s.skip(1)))
        } else if c == '*' {
            if s.len() > 1 && s[1] == '*' {
                then_tokens(seq![ExprTokenView::Operator(Op::Pow)], expr_tokens(s.skip(2)))
            } else {
                then_tokens(seq![ExprTokenView::Operator(Op::Mul)], expr_tokens(s.skip(1)))
            }
        } else if c == '/' {
            if s.len() > 1 && s[1] == '/' {
                then_tokens(seq![ExprTokenView::Operator(Op::IntDiv)], expr_tokens(s.skip(2)))
            } else {
                then_tokens(seq![ExprTokenView::Operator(Op::Div)], expr_tokens(s.skip(1)))
            }
        } else if c == '%' {
            then_tokens(seq![ExprTokenView::Operator(Op::Mod)], expr_tokens(s.skip(1)))
        } else if c == '(' {
            then_tokens(seq![ExprTokenView::OpenParen], expr_tokens(s.skip(1)))
        } else if c == ')' {
            then_tokens(seq![ExprTokenView::CloseParen], expr_tokens(s.skip(1)))
        } else if is_digit(c) {
            let n = leading_digits(s) as int;
            then_tokens(seq![ExprTokenView::Number(s.take(n))], expr_tokens(s.skip(n)))
        } else if c == ' ' || c == '\t' {
            expr_tokens(s.skip(1))
        } else {
            Err(c)
        }
    }
}

/// The message of the error for a character that belongs to no token.
pub open spec fn unexpected_char_msg(c: char) -> Seq<char> {
    "Unexpected character in arithmetic expansion: "@.push(c)
}

/// The outcome of reading an expression, as an error of the shell where it
/// fails.
pub open spec fn tokenized(s: Seq<char>) -> Result<Seq<ExprTokenView>, ShErrView> {
    match expr_tokens(s) {
        Ok(tokens) => Ok(tokens),
        Err(c) => Err(
            ShErrView { kind: ShErrKind::ParseErr, msg: unexpected_char_msg(c), span: None },
        ),
    }
}

#[via_fn]
proof fn expr_tokens_shrinks(s: Seq<char>) {
    lemma_leading_digits_bound(s);
}

proof fn lemma_leading_digits_bound(s: Seq<char>)
    ensures
        leading_digits(s) <= s.len(),
        s.len() > 0 && is_digit(s[0]) ==> leading_digits(s) >= 1,
    decreases s.len(),
{
    if s.len() > 0 && is_digit(s[0]) {
        lemma_leading_digits_bound(s.skip(1));
    }
}

/// Reads the tokens of an expression.
pub fn tokenize_expr(expr: &str) -> (r: ShResult<Vec<ExprToken>>)
    ensures
        match r {
            Ok(tokens) => tokenized(expr@) == Ok::<Seq<ExprTokenView>, ShErrView>(
                token_views(tokens@),
            ),
            Err(e) => tokenized(expr@) == Err::<Seq<ExprTokenView>, ShErrView>(e@),
        },
{
    let chars = to_chars(expr);
    let mut tokens: Vec<ExprToken> = Vec::new();
    let mut i: usize = 0;
    proof {
        assert(chars@.skip(0) =~= chars@);
        assert(token_views(tokens@) =~= Seq::<ExprTokenView>::empty());
        assert(expr_tokens(chars@) == then_tokens(token_views(tokens@), expr_tokens(chars@)))
            by {
            match expr_tokens(chars@) {
                Ok(t) => {
                    assert(Seq::<ExprTokenView>::empty() + t =~= t);
                },
                Err(_) => {},
            }
        }
    }
    while i < chars.len()
        invariant
            chars@ == expr@,
            i <= chars.len(),
            expr_tokens(chars@) == then_tokens(
                token_views(tokens@),
                expr_tokens(chars@.skip(i as int)),
            ),
        decreases chars.len() - i,
    {
        let ch = chars[i];
        let ghost rest = chars@.skip(i as int);
        let ghost before = tokens@;
        proof {
            assert(rest[0] == ch);
            assert(rest.skip(1) =~= chars@.skip(i + 1));
            if i + 1 < chars.len() {
                assert(rest[1] == chars@[i + 1]);
                assert(rest.skip(2) =~= chars@.skip(i + 2));
            }
        }
        let mut token: Option<ExprToken> = None;
        if ch == '+' {
            token = Some(ExprToken::Operator(Op::Add));
            i += 1;
        } else if ch == '-' {
            token = Some(ExprToken::Operator(Op::Sub));
            i += 1;
        } else if ch == '*' {
            if i + 1 < chars.len() && chars[i + 1] == '*' {
                token = Some(ExprToken::Operator(Op::Pow));
                i += 2;
            } else {
                token = Some(ExprToken::Operator(Op::Mul));
                i += 1;
            }
        } else if ch == '/' {
            if i + 1 < chars.len() && chars[i + 1] == '/' {
                token = Some(ExprToken::Operator(Op::IntDiv));
                i += 2;
            } else {
                token = Some(ExprToken::Operator(Op::Div));
                i += 1;
            }
        } else if ch == '%' {
            token = Some(ExprToken::Operator(Op::Mod));
            i += 1;
        } else if ch == '(' {
            token = Some(ExprToken::OpenParen);
            i += 1;
        } else if ch == ')' {
            token = Some(ExprToken::CloseParen);
            i += 1;
        } else if ch >= '0' && ch <= '9' {
            let mut j: usize = i;
            proof {
                assert(chars@.skip(j as int) =~= rest);
            }
            while j < chars.len() && chars[j] >= '0' && chars[j] <= '9'
                invariant
                    i <= j <= chars.len(),
                    rest == chars@.skip(i as int),
                    leading_digits(rest) == (j - i) + leading_digits(chars@.skip(j as int)),
                decreases chars.len() - j,
            {
                proof {
                    assert(chars@.skip(j as int)[0] == chars@[j as int]);
                    assert(chars@.skip(j as int).skip(1) =~= chars@.skip(j + 1));
                }
                j += 1;
            }
            proof {
                if j < chars.len() {
                    assert(chars@.skip(j as int)[0] == chars@[j as int]);
                }
                assert(leading_digits(rest) == j - i);
                assert(rest.take(j - i) =~= chars@.subrange(i as int, j as int));
                assert(rest.skip(j - i) =~= chars@.skip(j as int));
            }
            token = Some(ExprToken::Number(from_chars(&chars, i, j)));
            i = j;
        } else if ch == ' ' || ch == '\t' {
            i += 1;
        } else {
            let mut msg = "Unexpected character in arithmetic expansion: ".to_owned();
            msg.push(ch);
            let e = ShErr { kind: ShErrKind::ParseErr, msg, span: None };
            return Err(e);
        }
        match token {
            Some(t) => {
                proof {
                    lemma_token_views_push(tokens@, t);
                    let after = expr_tokens(chars@.skip(i as int));
                    match after {
                        Ok(ts) => {
                            assert(token_views(before).push(t@) + ts =~= token_views(before) + (
                            seq![t@] + ts));
                        },
                        Err(_) => {},
                    }
                }
                tokens.push(t);
            },
            None => {},
        }
    }
    proof {
        assert(chars@.skip(chars.len() as int) =~= Seq::<char>::empty());
        assert(token_views(tokens@) + Seq::<ExprTokenView>::empty() =~= token_views(tokens@));
    }
    Ok(tokens)
}

/// The two lists of the conversion to postfix order: what has been put out,
/// and the operators that wait, the one that came last at the end.
pub struct Yard {
    pub out: Seq<ExprTokenView>,
    pub ops: Seq<ExprTokenView>,
}

/// Whether the waiting operator `top` goes out before `op` comes in: when it
/// binds tighter, or as tightly where `op` groups from the left.
pub open spec fn yields_to(op: Op, top: Op) -> bool {
    (op.is_left_associative() && op.precedence() <= top.precedence()) || (
    !op.is_left_associative() && op.precedence() < top.precedence())
}

/// Moves waiting operators out for as long as the last one yields to `op`.
pub open spec fn pop_operators(y: Yard, op: Op) -> Yard
    decreases y.ops.len(),
{
    if y.ops.len() > 0 && y.ops.last() is Operator && yields_to(op, y.ops.last()->Operator_0) {
        pop_operators(Yard { out: y.out.push(y.ops.last()), ops: y.ops.drop_last() }, op)
    } else {
        y
    }
}

/// Moves waiting operators out down to the last opening parenthesis, which
/// is dropped; moves all of them out when there is none.
pub open spec fn pop_to_paren(y: Yard) -> Yard
    decreases y.ops.len(),
{
    if y.ops.len() == 0 {
        y
    } else if y.ops.last() is OpenParen {
        Yard { out: y.out, ops: y.ops.drop_last() }
    } else {
        pop_to_paren(Yard { out: y.out.push(y.ops.last()), ops: y.ops.drop_last() })
    }
}

/// One token of the conversion.
pub open spec fn yard_step(y: Yard, tok: ExprTokenView) -> Yard {
    match tok {
        ExprTokenView::Number(_) => Yard { out: y.out.push(tok), ops: y.ops },
        ExprTokenView::Operator(op) => {
            let popped = pop_operators(y, op);
            Yard { out: popped.out, ops: popped.ops.push(tok) }
        },
        ExprTokenView::OpenParen => Yard { out: y.out, ops: y.ops.push(tok) },
        ExprTokenView::CloseParen => pop_to_paren(y),
    }
}

/// The conversion over all of `tokens`.
pub open spec fn yard_scan(tokens: Seq<ExprTokenView>) -> Yard
    decreases tokens.len(),
{
    if tokens.len() == 0 {
        Yard { out: Seq::empty(), ops: Seq::empty() }
    } else {
        yard_step(yard_scan(tokens.drop_last()), tokens.last())
    }
}

/// Moves the operators that still wait out, last first; fails when a
/// parenthesis is among them.
pub open spec fn yard_finish(y: Yard) -> Option<Seq<ExprTokenView>>
    decreases y.ops.len(),
{
    if y.ops.len() == 0 {
        Some(y.out)
    } else if y.ops.last() is OpenParen || y.ops.last() is CloseParen {
        None
    } else {
        yard_finish(Yard { out: y.out.push(y.ops.last()), ops: y.ops.drop_last() })
    }
}

/// The error for a parenthesis that is never closed.
pub open spec fn mismatched_paren() -> ShErrView {
    ShErrView {
        kind: ShErrKind::ParseErr,
        msg: "Mismatched parenthesis in arithmetic expansion"@,
        span: None,
    }
}

/// `tokens` in postfix order, or the error for a parenthesis that is still
/// open at the end.
pub open spec fn postfix(tokens: Seq<ExprTokenView>) -> Result<Seq<ExprTokenView>, ShErrView> {
    match yard_finish(yard_scan(tokens)) {
        Some(out) => Ok(out),
        None => Err(mismatched_paren()),
    }
}

/// Whether every token of `tokens` is a number or an operator.
pub open spec fn paren_free(tokens: Seq<ExprTokenView>) -> bool {
    forall|i: int|
        0 <= i < tokens.len() ==> (#[trigger] tokens[i]) is Number || tokens[i] is Operator
}

/// Whether nothing but operators and opening parentheses waits.
pub open spec fn ops_only(ops: Seq<ExprTokenView>) -> bool {
    forall|i: int| 0 <= i < ops.len() ==> (#[trigger] ops[i]) is Operator || ops[i] is OpenParen
}

pub open spec fn yard_clean(y: Yard) -> bool {
    paren_free(y.out) && ops_only(y.ops)
}

proof fn lemma_pop_operators_clean(y: Yard, op: Op)
    requires
        yard_clean(y),
    ensures
        yard_clean(pop_operators(y, op)),
    decreases y.ops.len(),
{
    if y.ops.len() > 0 && y.ops.last() is Operator && yields_to(op, y.ops.last()->Operator_0) {
        lemma_pop_operators_clean(
            Yard { out: y.out.push(y.ops.last()), ops: y.ops.drop_last() },
            op,
        );
    }
}

proof fn lemma_pop_to_paren_clean(y: Yard)
    requires
        yard_clean(y),
    ensures
        yard_clean(pop_to_paren(y)),
    decreases y.ops.len(),
{
    if y.ops.len() > 0 && !(y.ops.last() is OpenParen) {
        lemma_pop_to_paren_clean(Yard { out: y.out.push(y.ops.last()), ops: y.ops.drop_last() });
    }
}

proof fn lemma_yard_scan_clean(tokens: Seq<ExprTokenView>)
    ensures
        yard_clean(yard_scan(tokens)),
    decreases tokens.len(),
{
    if tokens.len() > 0 {
        lemma_yard_scan_clean(tokens.drop_last());
        let y = yard_scan(tokens.drop_last());
        match tokens.last() {
            ExprTokenView::Operator(op) => {
                lemma_pop_operators_clean(y, op);
            },
            ExprTokenView::CloseParen => {
                lemma_pop_to_paren_clean(y);
            },
            _ => {},
        }
    }
}

proof fn lemma_yard_finish_clean(y: Yard)
    requires
        yard_clean(y),
    ensures
        yard_finish(y) is Some ==> paren_free(yard_finish(y)->0),
    decreases y.ops.len(),
{
    if y.ops.len() > 0 && !(y.ops.last() is OpenParen || y.ops.last() is CloseParen) {
        lemma_yard_finish_clean(Yard { out: y.out.push(y.ops.last()), ops: y.ops.drop_last() });
    }
}

/// A postfix form holds no parenthesis.
pub proof fn lemma_postfix_paren_free(tokens: Seq<ExprTokenView>)
    ensures
        postfix(tokens) is Ok ==> paren_free(postfix(tokens)->Ok_0),
{
    lemma_yard_scan_clean(tokens);
    lemma_yard_finish_clean(yard_scan(tokens));
}

/// Reorders the tokens of an infix expression into postfix order.
pub fn shunting_yard(tokens: Vec<ExprToken>) -> (r: ShResult<Vec<ExprToken>>)
    ensures
        match r {
            Ok(sorted) => postfix(token_views(tokens@)) == Ok::<Seq<ExprTokenView>, ShErrView>(
                token_views(sorted@),
            ) && paren_free(token_views(sorted@)),
            Err(e) => postfix(token_views(tokens@)) == Err::<Seq<ExprTokenView>, ShErrView>(e@),
        },
{
    let mut sorted: Vec<ExprToken> = Vec::new();
    let mut operators: Vec<ExprToken> = Vec::new();
    let ghost all = token_views(tokens@);
    let mut i: usize = 0;
    proof {
        assert(all.take(0) =~= Seq::<ExprTokenView>::empty());
        assert(token_views(sorted@) =~= Seq::<ExprTokenView>::empty());
        assert(token_views(operators@) =~= Seq::<ExprTokenView>::empty());
    }
    while i < tokens.len()
        invariant
            i <= tokens.len(),
            all == token_views(tokens@),
            (Yard { out: token_views(sorted@), ops: token_views(operators@) }) == yard_scan(
                all.take(i as int),
            ),
        decreases tokens.len() - i,
    {
        let token = tokens[i].clone();
        let ghost y0 = yard_scan(all.take(i as int));
        proof {
            assert(all.take(i + 1).drop_last() =~= all.take(i as int));
            assert(all.take(i + 1).last() == token@);
        }
        match token {
            ExprToken::Number(_) => {
                proof {
                    lemma_token_views_push(sorted@, token);
                }
                sorted.push(token);
            },
            ExprToken::Operator(op) => {
                loop
                    invariant
                        pop_operators(y0, op) == pop_operators(
                            Yard { out: token_views(sorted@), ops: token_views(operators@) },
                            op,
                        ),
                    ensures
                        pop_operators(y0, op) == (Yard {
                            out: token_views(sorted@),
                            ops: token_views(operators@),
                        }),
                    decreases operators.len(),
                {
                    if operators.len() == 0 {
                        break ;
                    }
                    let yields = match &operators[operators.len() - 1] {
                        ExprToken::Operator(top_op) => (op.is_left_associative() && op.precedence()
                            <= top_op.precedence()) || (!op.is_left_associative() && op.precedence()
                            < top_op.precedence()),
                        _ => false,
                    };
                    proof {
                        lemma_token_views_drop_last(operators@);
                    }
                    if !yields {
                        break ;
                    }
                    let top = operators.pop().unwrap();
                    proof {
                        lemma_token_views_push(sorted@, top);
                    }
                    sorted.push(top);
                }
                proof {
                    lemma_token_views_push(operators@, token);
                }
                operators.push(token);
            },
            ExprToken::OpenParen => {
                proof {
                    lemma_token_views_push(operators@, token);
                }
                operators.push(token);
            },
            ExprToken::CloseParen => {
                loop
                    invariant_except_break
                        pop_to_paren(y0) == pop_to_paren(
                            Yard { out: token_views(sorted@), ops: token_views(operators@) },
                        ),
                    ensures
                        pop_to_paren(y0) == (Yard {
                            out: token_views(sorted@),
                            ops: token_views(operators@),
                        }),
                    decreases operators.len(),
                {
                    if operators.len() == 0 {
                        break ;
                    }
                    proof {
                        lemma_token_views_drop_last(operators@);
                    }
                    let top = operators.pop().unwrap();
                    match top {
                        ExprToken::OpenParen => {
                            break ;
                        },
                        _ => {
                            proof {
                                lemma_token_views_push(sorted@, top);
                            }
                            sorted.push(top);
                        },
                    }
                }
            },
        }
        i += 1;
    }
    proof {
        assert(all.take(tokens.len() as int) =~= all);
        lemma_postfix_paren_free(all);
    }
    let ghost y1 = yard_scan(all);
    loop
        invariant
            all == token_views(tokens@),
            yard_finish(y1) == yard_finish(
                Yard { out: token_views(sorted@), ops: token_views(operators@) },
            ),
            postfix(all) is Ok ==> paren_free(postfix(all)->Ok_0),
            postfix(all) == match yard_finish(y1) {
                Some(out) => Ok::<Seq<ExprTokenView>, ShErrView>(out),
                None => Err::<Seq<ExprTokenView>, ShErrView>(mismatched_paren()),
            },
        decreases operators.len(),
    {
        if operators.len() == 0 {
            return Ok(sorted);
        }
        proof {
            lemma_token_views_drop_last(operators@);
        }
        let op = operators.pop().unwrap();
        match op {
            ExprToken::OpenParen | ExprToken::CloseParen => {
                return Err(
                    ShErr::simple(
                        ShErrKind::ParseErr,
                        "Mismatched parenthesis in arithmetic expansion",
                    ),
                );
            },
            _ => {
                proof {
                    lemma_token_views_push(sorted@, op);
                }
                sorted.push(op);
            },
        }
    }
}


/// A number, held as the bits of an IEEE 754 double-precision value.
#[derive(Clone, Copy, Debug, PartialEq, Eq, Structural)]
pub struct Num {
    pub bits: u64,
}

impl Num {
    /// Whether the number is zero, positive or negative: every bit but the
    /// sign is clear.
    pub open spec fn spec_is_zero(&self) -> bool {
        self.bits == 0 || self.bits == 0x8000_0000_0000_0000
    }

    #[verifier::when_used_as_spec(spec_is_zero)]
    pub fn is_zero(&self) -> (r: bool)
        ensures
            r == self.spec_is_zero(),
    {
        self.bits == 0 || self.bits == 0x8000_0000_0000_0000
    }
}

/// What the evaluator asks of its caller, or how it ended.
#[derive(Debug)]
pub enum Calc {
    /// The number that these digits write is wanted.
    Literal { digits: String },
    /// `lhs op rhs` is wanted.
    Binary { op: Op, lhs: Num, rhs: Num },
    /// The evaluation is over.
    Done(ShResult<Num>),
}

pub enum CalcView {
    Literal { digits: Seq<char> },
    Binary { op: Op, lhs: Num, rhs: Num },
    Done(Result<Num, ShErrView>),
}

impl View for Calc {
    type V = CalcView;

    open spec fn view(&self) -> CalcView {
        match self {
            Calc::Literal { digits } => CalcView::Literal { digits: digits@ },
            Calc::Binary { op, lhs, rhs } => CalcView::Binary { op: *op, lhs: *lhs, rhs: *rhs },
            Calc::Done(Ok(v)) => CalcView::Done(Ok(*v)),
            Calc::Done(Err(e)) => CalcView::Done(Err(e@)),
        }
    }
}

/// The stack machine that evaluates an expression in postfix order.
#[derive(Debug)]
pub struct RpnEval {
    pub tokens: Vec<ExprToken>,
    /// How many tokens have been dealt with.
    pub next: usize,
    /// The operands that wait, the one that came last at the end.
    pub stack: Vec<Num>,
}

pub struct RpnView {
    pub tokens: Seq<ExprTokenView>,
    pub next: usize,
    pub stack: Seq<Num>,
}

impl View for RpnEval {
    type V = RpnView;

    open spec fn view(&self) -> RpnView {
        RpnView { tokens: token_views(self.tokens@), next: self.next, stack: self.stack@ }
    }
}

pub open spec fn not_enough_operands() -> ShErrView {
    ShErrView {
        kind: ShErrKind::ParseErr,
        msg: "Not enough operands in arithmetic expansion"@,
        span: None,
    }
}

pub open spec fn division_by_zero() -> ShErrView {
    ShErrView {
        kind: ShErrKind::ParseErr,
        msg: "Attempt to divide by zero in arithmetic expansion"@,
        span: None,
    }
}

pub open spec fn stray_paren() -> ShErrView {
    ShErrView {
        kind: ShErrKind::ParseErr,
        msg: "Parenthesis in a postfix arithmetic expression"@,
        span: None,
    }
}

impl RpnView {
    /// The machine at the start of `tokens`.
    pub open spec fn start(tokens: Seq<ExprTokenView>) -> RpnView {
        RpnView { tokens, next: 0, stack: Seq::empty() }
    }

    /// The machine once the caller's answer, if there is one, has joined the
    /// operands that wait.
    pub open spec fn fed(self, answer: Option<Num>) -> RpnView {
        match answer {
            Some(v) => RpnView { stack: self.stack.push(v), ..self },
            None => self,
        }
    }

    /// One step of the evaluation.
    ///
    /// The answer to the last request joins the operands. Then the next
    /// token is dealt with. A number is handed to the caller to be read. An
    /// operator takes the two operands that came last, the right one first;
    /// with fewer than two the evaluation fails, and so does a division or
    /// an integer division by zero; otherwise the caller is asked for the
    /// result. After the last token the operand that came last is the value
    /// of the expression.
    pub open spec fn step(self, answer: Option<Num>) -> (RpnView, CalcView) {
        let s = self.fed(answer);
        if s.next >= s.tokens.len() {
            if s.stack.len() > 0 {
                (RpnView { stack: s.stack.drop_last(), ..s }, CalcView::Done(Ok(s.stack.last())))
            } else {
                (s, CalcView::Done(Err(not_enough_operands())))
            }
        } else {
            match s.tokens[s.next as int] {
                ExprTokenView::Number(digits) => (
                    RpnView { next: (s.next + 1) as usize, ..s },
                    CalcView::Literal { digits },
                ),
                ExprTokenView::Operator(op) => if s.stack.len() < 2 {
                    (s, CalcView::Done(Err(not_enough_operands())))
                } else {
                    let rhs = s.stack[s.stack.len() - 1];
                    let lhs = s.stack[s.stack.len() - 2];
                    let rest = s.stack.take(s.stack.len() - 2);
                    if (op == Op::Div || op == Op::IntDiv) && rhs.is_zero() {
                        (RpnView { stack: rest, ..s }, CalcView::Done(Err(division_by_zero())))
                    } else {
                        (
                            RpnView { next: (s.next + 1) as usize, stack: rest, ..s },
                            CalcView::Binary { op, lhs, rhs },
                        )
                    }
                },
                _ => (s, CalcView::Done(Err(stray_paren()))),
            }
        }
    }
}

impl RpnEval {
    /// A machine at the start of `tokens`, which are in postfix order.
    pub fn new(tokens: Vec<ExprToken>) -> (r: RpnEval)
        ensures
            r@ == RpnView::start(token_views(tokens@)),
    {
        RpnEval { tokens, next: 0, stack: Vec::new() }
    }
}

/// Runs the evaluation up to its next request or to its end. `answer` is the
/// number that the caller computed for the last request, and `None` on the
/// first call.
pub fn eval_rpn(eval: &mut RpnEval, answer: Option<Num>) -> (r: Calc)
    ensures
        (final(eval)@, r@) == old(eval)@.step(answer),
{
    match answer {
        Some(v) => {
            eval.stack.push(v);
        },
        None => {},
    }
    if eval.next >= eval.tokens.len() {
        match eval.stack.pop() {
            Some(v) => Calc::Done(Ok(v)),
            None => Calc::Done(
                Err(
                    ShErr::simple(
                        ShErrKind::ParseErr,
                        "Not enough operands in arithmetic expansion",
                    ),
                ),
            ),
        }
    } else {
        match &eval.tokens[eval.next] {
            ExprToken::Number(digits) => {
                let digits = digits.clone();
                eval.next = eval.next + 1;
                Calc::Literal { digits }
            },
            ExprToken::Operator(op) => {
                let op = *op;
                if eval.stack.len() < 2 {
                    return Calc::Done(
                        Err(
                            ShErr::simple(
                                ShErrKind::ParseErr,
                                "Not enough operands in arithmetic expansion",
                            ),
                        ),
                    );
                }
                let ghost fed = eval.stack@;
                let rhs = eval.stack.pop().unwrap();
                let lhs = eval.stack.pop().unwrap();
                assert(eval.stack@ =~= fed.take(fed.len() - 2));
                let by_zero = match op {
                    Op::Div | Op::IntDiv => rhs.is_zero(),
                    _ => false,
                };
                if by_zero {
                    return Calc::Done(
                        Err(
                            ShErr::simple(
                                ShErrKind::ParseErr,
                                "Attempt to divide by zero in arithmetic expansion",
                            ),
                        ),
                    );
                }
                eval.next = eval.next + 1;
                Calc::Binary { op, lhs, rhs }
            },
            _ => Calc::Done(
                Err(
                    ShErr::simple(
                        ShErrKind::ParseErr,
                        "Parenthesis in a postfix arithmetic expression",
                    ),
                ),
            ),
        }
    }
}

/// `s` without the backticks at either end.
pub open spec fn trim_ticks(s: Seq<char>) -> Seq<char> {
    trimmed(s, Trim::Backticks)
}

/// `exp` without its first and last character, where it starts with a
/// backtick, the text `s` it was made from ends with one, and it has two
/// characters at least; `exp` itself otherwise.
pub open spec fn unwrapped(exp: Seq<char>, s: Seq<char>) -> Seq<char> {
    if exp.len() >= 2 && exp[0] == '`' && s.len() > 0 && s.last() == '`' {
        exp.subrange(1, exp.len() - 1)
    } else {
        exp
    }
}

/// The postfix form of the arithmetic expression `s` after its variables
/// have been substituted under `vars`, or the error that reading it gives.
pub open spec fn arith_program(vars: VarTabView, s: Seq<char>) -> Result<
    Seq<ExprTokenView>,
    ShErrView,
> {
    let exp = unwrapped(substituted(vars, unescaped(s)), s);
    match tokenized(exp) {
        Ok(tokens) => postfix(tokens),
        Err(e) => Err(e),
    }
}

/// Prepares the evaluation of the arithmetic expression `s`: substitutes its
/// variables, reads its tokens and puts them in postfix order.
pub fn expand_arith_string(s: &str, shenv: &ShEnv) -> (r: ShResult<RpnEval>)
    ensures
        match r {
            Ok(eval) => arith_program(shenv@.vars, s@) == Ok::<Seq<ExprTokenView>, ShErrView>(
                eval@.tokens,
            ) && eval@ == RpnView::start(eval@.tokens),
            Err(e) => arith_program(shenv@.vars, s@) == Err::<Seq<ExprTokenView>, ShErrView>(e@),
        },
{
    let first = unescape_str(s);
    let expander = Expander::from_text(first);
    let exp = to_chars(expander.expand_raw(&shenv.vars).as_str());
    let given = to_chars(s);
    let inner = if exp.len() >= 2 && exp[0] == '`' && given.len() > 0 && given[given.len() - 1]
        == '`' {
        from_chars(&exp, 1, exp.len() - 1)
    } else {
        from_chars(&exp, 0, exp.len())
    };
    assert(exp@.subrange(0, exp.len() as int) =~= exp@);
    let tokens = match tokenize_expr(inner.as_str()) {
        Ok(t) => t,
        Err(e) => {
            return Err(e);
        },
    };
    match shunting_yard(tokens) {
        Ok(sorted) => Ok(RpnEval::new(sorted)),
        Err(e) => Err(e),
    }
}

/// Prepares the evaluation of the arithmetic expression that the token
/// `token` holds between backticks.
pub fn expand_arith_token(token: &Tk, shenv: &ShEnv) -> (r: ShResult<RpnEval>)
    ensures
        match r {
            Ok(eval) => arith_program(shenv@.vars, trim_ticks(token@.text())) == Ok::<
                Seq<ExprTokenView>,
                ShErrView,
            >(eval@.tokens) && eval@ == RpnView::start(eval@.tokens),
            Err(e) => arith_program(shenv@.vars, trim_ticks(token@.text())) == Err::<
                Seq<ExprTokenView>,
                ShErrView,
            >(e@),
        },
{
    let token_raw = token.text();
    let arith_raw = trim(token_raw.as_str(), Trim::Backticks);
    expand_arith_string(arith_raw.as_str(), shenv)
}

impl TkView {
    /// The token that takes the place of an arithmetic token once its value
    /// has been written out as `rendered`: the words of that text, or the
    /// token itself when the text has none.
    pub open spec fn with_arith_result(self, rendered: Seq<char>, vars: VarTabView) -> TkView {
        let words = expansion(vars, rendered);
        if words.len() > 0 {
            TkView { class: TkRuleView::Expanded { exp: words }, ..self }
        } else {
            self
        }
    }
}

/// Puts the value of an arithmetic expression, written out as `rendered`,
/// in the place of the token that held the expression. The text goes
/// through expansion like any other.
pub fn finish_arith_token(token: Tk, rendered: &str, shenv: &ShEnv) -> (r: Tk)
    ensures
        r@ == token@.with_arith_result(rendered@, shenv@.vars),
{
    let source = Tk::new(TkRule::Ident, rendered);
    let words = Expander::new(source).expand(&shenv.vars);
    assert(texts(words@).len() == words.len());
    if words.len() > 0 {
        Tk { class: TkRule::Expanded { exp: words }, span: token.span, flags: token.flags }
    } else {
        token
    }
}

} // verus!
