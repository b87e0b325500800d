//! Colours for a line of input while it is being typed.

use vstd::prelude::*;
use crate::lex::{Tk, TkRule, TkRuleView, TkView};
use crate::text::{from_chars, same_text, to_chars};

verus! {

/// The colours that the highlighter uses.
#[derive(Clone, Copy, Debug, PartialEq, Eq, Structural)]
pub enum Style {
    BrightBlack,
    Cyan,
    Yellow,
    BrightBlue,
    Magenta,
    Green,
    RedBold,
}

/// The colour as a parameter of the terminal's "select graphic rendition"
/// sequence.
pub open spec fn style_params(style: Style) -> Seq<char> {
    match style {
        Style::BrightBlack => "90"@,
        Style::Cyan => "36"@,
        Style::Yellow => "33"@,
        Style::BrightBlue => "94"@,
        Style::Magenta => "35"@,
        Style::Green => "32"@,
        Style::RedBold => "1;31"@,
    }
}

/// `text` between the sequence that switches `style` on and the one that
/// switches every style off.
pub open spec fn styled(text: Seq<char>, style: Style) -> Seq<char> {
    seq!['\x1b', '['] + style_params(style) + seq!['m'] + text + seq!['\x1b', '[', '0', 'm']
}

/// Wraps `text` in the control sequences of `style`.
pub fn style_text(text: &str, style: Style) -> (r: String)
    ensures
        r@ == styled(text@, style),
{
    let mut out = String::new();
    out.push('\x1b');
    out.push('[');
    match style {
        Style::BrightBlack => out.append("90"),
        Style::Cyan => out.append("36"),
        Style::Yellow => out.append("33"),
        Style::BrightBlue => out.append("94"),
        Style::Magenta => out.append("35"),
        Style::Green => out.append("32"),
        Style::RedBold => out.append("1;31"),
    }
    out.push('m');
    out.append(text);
    out.push('\x1b');
    out.push('[');
    out.push('0');
    out.push('m');
    assert(out@ =~= styled(text@, style));
    out
}

/// One token of the line, with what the highlighter cannot find out by
/// itself.
#[derive(Debug)]
pub struct HlToken {
    pub token: Tk,
    /// Whether a command of the token's name can be run: a program on the
    /// search path, an alias, a function or a builtin.
    pub known: bool,
    /// For a group in braces or parentheses, the text between them,
    /// highlighted already.
    pub inner: String,
}

pub struct HlTokenView {
    pub token: TkView,
    pub known: bool,
    pub inner: Seq<char>,
}

impl View for HlToken {
    type V = HlTokenView;

    open spec fn view(&self) -> HlTokenView {
        HlTokenView { token: self.token@, known: self.known, inner: self.inner@ }
    }
}

/// The views of a list of tokens, in order.
pub open spec fn hl_views(v: Seq<HlToken>) -> Seq<HlTokenView> {
    Seq::new(v.len(), |i: int| v[i]@)
}

/// What the highlighter knows about the place it is at.
pub struct HlState {
    /// The next word names a command.
    pub is_command: bool,
    /// The words belong to the list of a `for` loop.
    pub in_array: bool,
}

/// `name` without `()` at its end, if it ends so.
pub open spec fn without_call(name: Seq<char>) -> Seq<char> {
    if name.len() >= 2 && name[name.len() - 2] == '(' && name[name.len() - 1] == ')' {
        name.take(name.len() - 2)
    } else {
        name
    }
}

/// One token: the state after it and the text shown for it.
///
/// Comments are grey and operators cyan; after an operator or a separator a
/// command is expected. The name of a function is cyan, a keyword yellow.
/// A group shows its inner text between blue brackets. After `for`, every
/// word is magenta but `in`, as far as the next separator. A word where a
/// command is expected is green if the command is known and red if not.
pub open spec fn hl_step(st: HlState, t: HlTokenView) -> (HlState, Seq<char>) {
    let raw = t.token.text();
    match t.token.class {
        TkRuleView::Comment => (st, styled(raw, Style::BrightBlack)),
        TkRuleView::ErrPipeOp
        | TkRuleView::OrOp
        | TkRuleView::AndOp
        | TkRuleView::PipeOp
        | TkRuleView::RedirOp
        | TkRuleView::BgOp => (HlState { is_command: true, ..st }, styled(raw, Style::Cyan)),
        TkRuleView::FuncName => (st, styled(without_call(raw), Style::Cyan) + seq!['(', ')']),
        TkRuleView::Keyword => (
            HlState { in_array: st.in_array || raw == "for"@, ..st },
            styled(raw, Style::Yellow),
        ),
        TkRuleView::BraceGrp => (
            HlState { is_command: false, ..st },
            styled(seq!['{'], Style::BrightBlue) + t.inner + styled(seq!['}'], Style::BrightBlue),
        ),
        TkRuleView::Subshell => (
            HlState { is_command: false, ..st },
            styled(seq!['('], Style::BrightBlue) + t.inner + styled(seq![')'], Style::BrightBlue),
        ),
        TkRuleView::Ident => if st.in_array {
            if raw == "in"@ {
                (st, styled(raw, Style::Yellow))
            } else {
                (st, styled(raw, Style::Magenta))
            }
        } else if raw == "{"@ || raw == "}"@ {
            (st, raw)
        } else if st.is_command {
            (
                HlState { is_command: false, ..st },
                if t.known {
                    styled(raw, Style::Green)
                } else {
                    styled(raw, Style::RedBold)
                },
            )
        } else {
            (st, raw)
        },
        TkRuleView::Sep => (HlState { is_command: true, in_array: false }, raw),
        TkRuleView::Expanded { exp } => (st, raw),
    }
}

/// The highlighter over all of `tokens`, from a place where a command is
/// expected.
pub open spec fn hl_scan(tokens: Seq<HlTokenView>) -> (HlState, Seq<char>)
    decreases tokens.len(),
{
    if tokens.len() == 0 {
        (HlState { is_command: true, in_array: false }, Seq::empty())
    } else {
        let (st, out) = hl_scan(tokens.drop_last());
        let (next, text) = hl_step(st, tokens.last());
        (next, out + text)
    }
}

/// The line with its colours.
pub open spec fn highlighted(tokens: Seq<HlTokenView>) -> Seq<char> {
    hl_scan(tokens).1
}

fn strip_call(name: &str) -> (r: String)
    ensures
        r@ == without_call(name@),
{
    let chars = to_chars(name);
    let n = chars.len();
    if n >= 2 && chars[n - 2] == '(' && chars[n - 1] == ')' {
        assert(chars@.subrange(0, n - 2) =~= chars@.take(n - 2));
        from_chars(&chars, 0, n - 2)
    } else {
        assert(chars@.subrange(0, n as int) =~= chars@);
        from_chars(&chars, 0, n)
    }
}

fn bracket(open: char, inner: &str, close: char) -> (r: String)
    ensures
        r@ == styled(seq![open], Style::BrightBlue) + inner@ + styled(
            seq![close],
            Style::BrightBlue,
        ),
{
    let mut o = String::new();
    o.push(open);
    assert(o@ =~= seq![open]);
    let mut c = String::new();
    c.push(close);
    assert(c@ =~= seq![close]);
    let mut out = style_text(o.as_str(), Style::BrightBlue);
    out.append(inner);
    let tail = style_text(c.as_str(), Style::BrightBlue);
    out.append(tail.as_str());
    out
}

/// Gives the tokens of a line their colours.
pub fn highlight(tokens: &Vec<HlToken>) -> (r: String)
    ensures
        r@ == highlighted(hl_views(tokens@)),
{
    let mut result = String::new();
    let mut is_command = true;
    let mut in_array = false;
    let mut i: usize = 0;
    assert(hl_views(tokens@).take(0) =~= Seq::<HlTokenView>::empty());
    while i < tokens.len()
        invariant
            i <= tokens.len(),
            hl_scan(hl_views(tokens@).take(i as int)) == (HlState { is_command, in_array }, result@),
        decreases tokens.len() - i,
    {
        let t = &tokens[i];
        let raw = t.token.text();
        let ghost before = result@;
        let ghost st = HlState { is_command, in_array };
        proof {
            assert(hl_views(tokens@).take(i + 1).drop_last() =~= hl_views(tokens@).take(i as int));
            assert(hl_views(tokens@).take(i + 1).last() == t@);
        }
        match &t.token.class {
            TkRule::Comment => {
                let s = style_text(raw.as_str(), Style::BrightBlack);
                result.append(s.as_str());
            },
            TkRule::ErrPipeOp
            | TkRule::OrOp
            | TkRule::AndOp
            | TkRule::PipeOp
            | TkRule::RedirOp
            | TkRule::BgOp => {
                is_command = true;
                let s = style_text(raw.as_str(), Style::Cyan);
                result.append(s.as_str());
            },
            TkRule::FuncName => {
                let name = strip_call(raw.as_str());
                let mut s = style_text(name.as_str(), Style::Cyan);
                s.push('(');
                s.push(')');
                assert(s@ =~= styled(without_call(raw@), Style::Cyan) + seq!['(', ')']);
                result.append(s.as_str());
            },
            TkRule::Keyword => {
                if same_text(raw.as_str(), "for") {
                    in_array = true;
                }
                let s = style_text(raw.as_str(), Style::Yellow);
                result.append(s.as_str());
            },
            TkRule::BraceGrp => {
                is_command = false;
                let s = bracket('{', t.inner.as_str(), '}');
                result.append(s.as_str());
            },
            TkRule::Subshell => {
                is_command = false;
                let s = bracket('(', t.inner.as_str(), ')');
                result.append(s.as_str());
            },
            TkRule::Ident => {
                if in_array {
                    if same_text(raw.as_str(), "in") {
                        let s = style_text(raw.as_str(), Style::Yellow);
                        result.append(s.as_str());
                    } else {
                        let s = style_text(raw.as_str(), Style::Magenta);
                        result.append(s.as_str());
                    }
                } else if same_text(raw.as_str(), "{") || same_text(raw.as_str(), "}") {
                    result.append(raw.as_str());
                } else if is_command {
                    if t.known {
                        let s = style_text(raw.as_str(), Style::Green);
                        result.append(s.as_str());
                    } else {
                        let s = style_text(raw.as_str(), Style::RedBold);
                        result.append(s.as_str());
                    }
                    is_command = false;
                } else {
                    result.append(raw.as_str());
                }
            },
            TkRule::Sep => {
                is_command = true;
                in_array = false;
                result.append(raw.as_str());
            },
            TkRule::Expanded { exp } => {
                result.append(raw.as_str());
            },
        }
        i += 1;
        assert(result@ =~= before + hl_step(st, t@).1);
    }
    assert(hl_views(tokens@).take(tokens.len() as int) =~= hl_views(tokens@));
    result
}

} // verus!
