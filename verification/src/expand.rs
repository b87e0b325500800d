//! Expansion: from the raw text of a token to the words that a command
//! receives.
//!
//! The work is done in three passes over the text. The first removes one
//! layer of backslash escapes and replaces `$`, `"` and `'`, where they act
//! as control characters, by three marker characters. The second replaces
//! every variable marker and the name after it by the variable's value. The
//! third splits the text into words at field separators outside quotes and
//! drops the quote markers.

use vstd::prelude::*;
use crate::lex::{field_sep, hard_sep, is_field_sep, is_hard_sep, Span, SpanView, Tk, TkFlags, TkRule, TkRuleView, TkView, clone_strings};
use crate::shellenv::{VarTab, VarTabView};
use crate::text::{lemma_texts_empty, lemma_texts_push, texts, to_chars};

pub mod arithmetic;

verus! {

/// Marks the place of a variable substitution.
pub const VAR_SUB: char = '\u{fdd0}';

/// Marks the start or the end of a double-quoted stretch.
pub const DUB_QUOTE: char = '\u{fdd1}';

/// Marks the start or the end of a single-quoted stretch.
pub const SNG_QUOTE: char = '\u{fdd2}';

/// Where the first pass stands in the text.
pub enum Quoting {
    /// Outside quotes.
    Plain,
    /// Outside quotes, right after a backslash.
    PlainEscape,
    /// Inside double quotes.
    Double,
    /// Inside double quotes, right after a backslash.
    DoubleEscape,
    /// Inside single quotes.
    Single,
}

/// One character of the first pass: the state after `c` and what is written
/// for it.
pub open spec fn unescape_step(q: Quoting, c: char) -> (Quoting, Seq<char>) {
    match q {
        Quoting::Plain => if c == '\\' {
            (Quoting::PlainEscape, Seq::empty())
        } else if c == '"' {
            (Quoting::Double, seq![DUB_QUOTE])
        } else if c == '\'' {
            (Quoting::Single, seq![SNG_QUOTE])
        } else if c == '$' {
            (Quoting::Plain, seq![VAR_SUB])
        } else {
            (Quoting::Plain, seq![c])
        },
        Quoting::PlainEscape => (Quoting::Plain, seq![c]),
        Quoting::Double => if c == '\\' {
            (Quoting::DoubleEscape, seq![c])
        } else if c == '$' {
            (Quoting::Double, seq![VAR_SUB])
        } else if c == '"' {
            (Quoting::Plain, seq![DUB_QUOTE])
        } else {
            (Quoting::Double, seq![c])
        },
        Quoting::DoubleEscape => (Quoting::Double, seq![c]),
        Quoting::Single => if c == '\'' {
            (Quoting::Plain, seq![SNG_QUOTE])
        } else {
            (Quoting::Single, seq![c])
        },
    }
}

/// The first pass over all of `s`: the state at the end and the text
/// written.
pub open spec fn unescape_scan(s: Seq<char>) -> (Quoting, Seq<char>)
    decreases s.len(),
{
    if s.len() == 0 {
        (Quoting::Plain, Seq::empty())
    } else {
        let (q, out) = unescape_scan(s.drop_last());
        let (next, written) = unescape_step(q, s.last());
        (next, out + written)
    }
}

/// `s` after the first pass.
///
/// Outside quotes a backslash disappears and the character after it stands
/// for itself. Inside double quotes a backslash stays, and so does the
/// character after it. Inside single quotes nothing is special but the
/// closing quote.
pub open spec fn unescaped(s: Seq<char>) -> Seq<char> {
    unescape_scan(s).1
}

/// Where the second pass stands in the text.
pub enum Subst {
    /// In ordinary text.
    Text,
    /// In the name of a variable; `braced` once an opening brace was seen.
    Name { braced: bool, name: Seq<char> },
}

/// One character of the second pass.
pub open spec fn subst_step(vars: VarTabView, st: Subst, c: char) -> (Subst, Seq<char>) {
    match st {
        Subst::Text => if c == VAR_SUB {
            (Subst::Name { braced: false, name: Seq::empty() }, Seq::empty())
        } else {
            (Subst::Text, seq![c])
        },
        Subst::Name { braced, name } => if c == '{' {
            (Subst::Name { braced: true, name }, Seq::empty())
        } else if c == '}' && braced {
            (Subst::Text, vars.get(name))
        } else if hard_sep(c) || c == DUB_QUOTE {
            (Subst::Text, vars.get(name).push(c))
        } else {
            (Subst::Name { braced, name: name.push(c) }, Seq::empty())
        },
    }
}

/// The second pass over all of `s`.
pub open spec fn subst_scan(vars: VarTabView, s: Seq<char>) -> (Subst, Seq<char>)
    decreases s.len(),
{
    if s.len() == 0 {
        (Subst::Text, Seq::empty())
    } else {
        let (st, out) = subst_scan(vars, s.drop_last());
        let (next, written) = subst_step(vars, st, s.last());
        (next, out + written)
    }
}

/// `s` with every variable marker and the name after it replaced by the
/// value of that variable.
///
/// A name ends at a closing brace when an opening one was seen, or before a
/// hard separator or a double-quote marker, which stay in the text, or at
/// the end of the text.
pub open spec fn substituted(vars: VarTabView, s: Seq<char>) -> Seq<char> {
    let (st, out) = subst_scan(vars, s);
    match st {
        Subst::Name { braced, name } => if name.len() > 0 {
            out + vars.get(name)
        } else {
            out
        },
        Subst::Text => out,
    }
}

/// What the third pass has gathered so far.
pub struct Split {
    /// The quote marker that opened the stretch the pass is in, if any.
    pub quote: Option<char>,
    /// The word being gathered.
    pub word: Seq<char>,
    /// The words that are complete.
    pub words: Seq<Seq<char>>,
}

/// One character of the third pass.
pub open spec fn split_step(st: Split, c: char) -> Split {
    match st.quote {
        Some(q) => if c == q {
            Split { quote: None, ..st }
        } else {
            Split { word: st.word.push(c), ..st }
        },
        None => if c == DUB_QUOTE || c == SNG_QUOTE {
            Split { quote: Some(c), ..st }
        } else if field_sep(c) {
            Split { word: Seq::empty(), words: st.words.push(st.word), ..st }
        } else {
            Split { word: st.word.push(c), ..st }
        },
    }
}

/// The third pass over all of `s`.
pub open spec fn split_scan(s: Seq<char>) -> Split
    decreases s.len(),
{
    if s.len() == 0 {
        Split { quote: None, word: Seq::empty(), words: Seq::empty() }
    } else {
        split_step(split_scan(s.drop_last()), s.last())
    }
}

/// The words of `s`: the stretches between field separators that stand
/// outside quotes, without the quote markers. Every separator ends a word,
/// so two in a row give an empty word; what follows the last separator is a
/// word only when it is not empty.
pub open spec fn split(s: Seq<char>) -> Seq<Seq<char>> {
    let st = split_scan(s);
    if st.word.len() > 0 {
        st.words.push(st.word)
    } else {
        st.words
    }
}

/// The words that the raw text `raw` expands to under `vars`.
pub open spec fn expansion(vars: VarTabView, raw: Seq<char>) -> Seq<Seq<char>> {
    split(substituted(vars, unescaped(raw)))
}

/// Removes one layer of escapes from `raw` and marks the control characters.
pub fn unescape_str(raw: &str) -> (r: String)
    ensures
        r@ == unescaped(raw@),
{
    let chars = to_chars(raw);
    let mut result = String::new();
    let mut q = Quoting::Plain;
    let mut i: usize = 0;
    assert(chars@.take(0) =~= Seq::<char>::empty());
    while i < chars.len()
        invariant
            i <= chars.len(),
            (q, result@) == unescape_scan(chars@.take(i as int)),
        decreases chars.len() - i,
    {
        let ch = chars[i];
        let ghost before = result@;
        proof {
            assert(chars@.take(i + 1).drop_last() =~= chars@.take(i as int));
        }
        match q {
            Quoting::Plain => {
                if ch == '\\' {
                    q = Quoting::PlainEscape;
                } else if ch == '"' {
                    result.push(DUB_QUOTE);
                    q = Quoting::Double;
                } else if ch == '\'' {
                    result.push(SNG_QUOTE);
                    q = Quoting::Single;
                } else if ch == '$' {
                    result.push(VAR_SUB);
                } else {
                    result.push(ch);
                }
            },
            Quoting::PlainEscape => {
                result.push(ch);
                q = Quoting::Plain;
            },
            Quoting::Double => {
                if ch == '\\' {
                    result.push(ch);
                    q = Quoting::DoubleEscape;
                } else if ch == '$' {
                    result.push(VAR_SUB);
                } else if ch == '"' {
                    result.push(DUB_QUOTE);
                    q = Quoting::Plain;
                } else {
                    result.push(ch);
                }
            },
            Quoting::DoubleEscape => {
                result.push(ch);
                q = Quoting::Double;
            },
            Quoting::Single => {
                if ch == '\'' {
                    result.push(SNG_QUOTE);
                    q = Quoting::Plain;
                } else {
                    result.push(ch);
                }
            },
        }
        i += 1;
        assert(result@ =~= before + unescape_step(
            unescape_scan(chars@.take(i - 1)).0,
            ch,
        ).1);
    }
    assert(chars@.take(chars.len() as int) =~= chars@);
    result
}

/// Works the raw text of one token out into words.
pub struct Expander {
    raw: String,
}

impl View for Expander {
    type V = Seq<char>;

    closed spec fn view(&self) -> Seq<char> {
        self.raw@
    }
}

impl Expander {
    /// An expander for the text of `raw`, after the first pass.
    pub fn new(raw: Tk) -> (r: Expander)
        ensures
            r@ == unescaped(raw@.span.text),
    {
        let unescaped = unescape_str(raw.span.as_str());
        Expander { raw: unescaped }
    }

    /// An expander for text that went through the first pass already.
    pub fn from_text(text: String) -> (r: Expander)
        ensures
            r@ == text@,
    {
        Expander { raw: text }
    }

    /// Runs the second and the third pass: the text becomes the substituted
    /// text, and its words are returned.
    pub fn expand(&mut self, vars: &VarTab) -> (r: Vec<String>)
        ensures
            final(self)@ == substituted(vars@, old(self)@),
            texts(r@) == split(substituted(vars@, old(self)@)),
    {
        self.raw = self.expand_raw(vars);
        self.split_words()
    }

    /// The third pass: the words of the text.
    pub fn split_words(&mut self) -> (r: Vec<String>)
        ensures
            final(self)@ == old(self)@,
            texts(r@) == split(old(self)@),
    {
        let chars = to_chars(self.raw.as_str());
        let mut words: Vec<String> = Vec::new();
        let mut cur_word = String::new();
        let mut quote: Option<char> = None;
        let mut i: usize = 0;
        proof {
            lemma_texts_empty();
            assert(chars@.take(0) =~= Seq::<char>::empty());
        }
        while i < chars.len()
            invariant
                i <= chars.len(),
                (Split { quote, word: cur_word@, words: texts(words@) }) == split_scan(
                    chars@.take(i as int),
                ),
            decreases chars.len() - i,
        {
            let ch = chars[i];
            proof {
                assert(chars@.take(i + 1).drop_last() =~= chars@.take(i as int));
            }
            match quote {
                Some(q) => {
                    if ch == q {
                        quote = None;
                    } else {
                        cur_word.push(ch);
                    }
                },
                None => {
                    if ch == DUB_QUOTE || ch == SNG_QUOTE {
                        quote = Some(ch);
                    } else if is_field_sep(ch) {
                        proof {
                            lemma_texts_push(words@, cur_word);
                        }
                        words.push(cur_word);
                        cur_word = String::new();
                    } else {
                        cur_word.push(ch);
                    }
                },
            }
            i += 1;
        }
        assert(chars@.take(chars.len() as int) =~= chars@);
        if cur_word.as_str().unicode_len() > 0 {
            proof {
                lemma_texts_push(words@, cur_word);
            }
            words.push(cur_word);
        }
        words
    }

    /// The second pass: the text with the variables' values in place of
    /// their names.
    pub fn expand_raw(&self, vars: &VarTab) -> (r: String)
        ensures
            r@ == substituted(vars@, self@),
    {
        let chars = to_chars(self.raw.as_str());
        let mut result = String::new();
        let mut var_name = String::new();
        let mut in_name = false;
        let mut in_brace = false;
        let mut i: usize = 0;
        assert(chars@.take(0) =~= Seq::<char>::empty());
        while i < chars.len()
            invariant
                i <= chars.len(),
                subst_scan(vars@, chars@.take(i as int)) == (
                    if in_name {
                        Subst::Name { braced: in_brace, name: var_name@ }
                    } else {
                        Subst::Text
                    },
                    result@,
                ),
            decreases chars.len() - i,
        {
            let ch = chars[i];
            let ghost before = result@;
            let ghost st = subst_scan(vars@, chars@.take(i as int)).0;
            proof {
                assert(chars@.take(i + 1).drop_last() =~= chars@.take(i as int));
            }
            if !in_name {
                if ch == VAR_SUB {
                    in_name = true;
                    in_brace = false;
                    var_name = String::new();
                } else {
                    result.push(ch);
                }
            } else {
                if ch == '{' {
                    in_brace = true;
                } else if ch == '}' && in_brace {
                    let var_val = vars.get_var(var_name.as_str());
                    result.append(var_val.as_str());
                    in_name = false;
                } else if is_hard_sep(ch) || ch == DUB_QUOTE {
                    let var_val = vars.get_var(var_name.as_str());
                    result.append(var_val.as_str());
                    result.push(ch);
                    in_name = false;
                } else {
                    var_name.push(ch);
                }
            }
            i += 1;
            assert(result@ =~= before + subst_step(vars@, st, ch).1);
        }
        assert(chars@.take(chars.len() as int) =~= chars@);
        if in_name && var_name.as_str().unicode_len() > 0 {
            let var_val = vars.get_var(var_name.as_str());
            result.append(var_val.as_str());
        }
        result
    }
}

impl TkView {
    /// The token after expansion under `vars`: a token that was expanded
    /// before stays as it is; any other becomes an expanded token with the
    /// words of its text, at `span` and with `flags`.
    pub open spec fn expanded(self, span: SpanView, flags: TkFlags, vars: VarTabView) -> TkView {
        match self.class {
            TkRuleView::Expanded { exp } => self,
            _ => TkView {
                class: TkRuleView::Expanded { exp: expansion(vars, self.span.text) },
                span,
                flags,
            },
        }
    }
}

impl Tk {
    /// Expands the token under `vars`. Expansion happens at most once: a
    /// token that carries its words already is returned unchanged.
    pub fn expand(self, span: Span, flags: TkFlags, vars: &VarTab) -> (r: Tk)
        ensures
            r@ == self@.expanded(span@, flags, vars@),
    {
        match &self.class {
            TkRule::Expanded { exp } => self,
            _ => {
                let exp = Expander::new(self).expand(vars);
                Tk { class: TkRule::Expanded { exp }, span, flags }
            },
        }
    }

    /// The words that the token stands for.
    pub fn get_words(&self) -> (r: Vec<String>)
        ensures
            texts(r@) == self@.words(),
    {
        match &self.class {
            TkRule::Expanded { exp } => clone_strings(exp),
            _ => {
                let mut words: Vec<String> = Vec::new();
                let word = self.span.text.clone();
                proof {
                    lemma_texts_empty();
                    lemma_texts_push(words@, word);
                }
                words.push(word);
                words
            },
        }
    }
}

/// Expanding a token a second time changes nothing, whatever the variables,
/// span and flags of the second expansion.
pub proof fn lemma_expand_idempotent(
    t: TkView,
    span1: SpanView,
    flags1: TkFlags,
    vars1: VarTabView,
    span2: SpanView,
    flags2: TkFlags,
    vars2: VarTabView,
)
    ensures
        t.expanded(span1, flags1, vars1).expanded(span2, flags2, vars2) == t.expanded(
            span1,
            flags1,
            vars1,
        ),
        t.expanded(span1, flags1, vars1).expanded(span2, flags2, vars2).words() == t.expanded(
            span1,
            flags1,
            vars1,
        ).words(),
{
}

} // verus!
