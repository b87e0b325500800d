//! The prompt: from a prompt string with its backslash escapes to the text
//! that is shown.

use vstd::prelude::*;
use crate::error::{ShErr, ShErrKind, ShErrView, ShResult};
use crate::runtime::{format_cmd_runtime, runtime_parts};
use crate::text::{
    from_chars, join, join_strings, lemma_texts_empty, lemma_texts_push, same_text, texts,
    to_chars,
};

pub mod highlight;

verus! {

/// A class of characters.
#[derive(Clone, Copy, Debug, PartialEq, Eq, Structural)]
pub enum CharClass {
    /// Anything but a backslash.
    Plain,
    /// Anything but a slash.
    Segment,
    /// A digit, a semicolon, a question mark or a colon.
    AnsiParam,
    /// A digit from zero to seven.
    Octal,
}

impl CharClass {
    pub open spec fn spec_holds(&self, c: char) -> bool {
        match self {
            CharClass::Plain => c != '\\',
            CharClass::Segment => c != '/',
            CharClass::AnsiParam => ('0' <= c <= '9') || c == ';' || c == '?' || c == ':',
            CharClass::Octal => '0' <= c <= '7',
        }
    }

    /// Whether `c` belongs to the class.
    #[verifier::when_used_as_spec(spec_holds)]
    pub fn holds(&self, c: char) -> (r: bool)
        ensures
            r == self.spec_holds(c),
    {
        match self {
            CharClass::Plain => c != '\\',
            CharClass::Segment => c != '/',
            CharClass::AnsiParam => (c >= '0' && c <= '9') || c == ';' || c == '?' || c == ':',
            CharClass::Octal => c >= '0' && c <= '7',
        }
    }
}

/// How many characters of `class` stand at the start of `s`, counting no
/// more than `max`.
pub open spec fn run_of(s: Seq<char>, class: CharClass, max: nat) -> nat
    decreases max,
{
    if max > 0 && s.len() > 0 && class.holds(s[0]) {
        1 + run_of(s.skip(1), class, (max - 1) as nat)
    } else {
        0
    }
}

pub proof fn lemma_run_bound(s: Seq<char>, class: CharClass, max: nat)
    ensures
        run_of(s, class, max) <= s.len(),
        run_of(s, class, max) <= max,
        max > 0 && s.len() > 0 && class.holds(s[0]) ==> run_of(s, class, max) >= 1,
    decreases max,
{
    if max > 0 && s.len() > 0 && class.holds(s[0]) {
        lemma_run_bound(s.skip(1), class, (max - 1) as nat);
    }
}

/// The end of the run of `class` that starts at `from` and has `max`
/// characters at most.
fn scan_run(chars: &Vec<char>, from: usize, class: CharClass, max: usize) -> (to: usize)
    requires
        from <= chars.len(),
    ensures
        from <= to <= chars.len(),
        to - from == run_of(chars@.skip(from as int), class, max as nat),
{
    let mut to: usize = from;
    let mut left: usize = max;
    while left > 0 && to < chars.len() && class.holds(chars[to])
        invariant
            from <= to <= chars.len(),
            left <= max,
            run_of(chars@.skip(from as int), class, max as nat) == (to - from) + run_of(
                chars@.skip(to as int),
                class,
                left as nat,
            ),
        decreases left,
    {
        proof {
            assert(chars@.skip(to as int)[0] == chars@[to as int]);
            assert(chars@.skip(to as int).skip(1) =~= chars@.skip(to + 1));
        }
        to += 1;
        left -= 1;
    }
    proof {
        if to < chars.len() {
            assert(chars@.skip(to as int)[0] == chars@[to as int]);
        }
    }
    to
}

/// One piece of a prompt string.
#[derive(Debug)]
pub enum PromptTk {
    AsciiOct(i32),
    Text(String),
    AnsiSeq(String),
    VisGrp,
    UserSeq,
    Runtime,
    Weekday,
    Dquote,
    Squote,
    Return,
    Newline,
    Pwd,
    PwdShort,
    Hostname,
    HostnameShort,
    ShellName,
    Username,
    PromptSymbol,
    ExitCode,
    SuccessSymbol,
    FailureSymbol,
    JobCount,
}

pub enum PromptTkView {
    AsciiOct(i32),
    Text(Seq<char>),
    AnsiSeq(Seq<char>),
    VisGrp,
    UserSeq,
    Runtime,
    Weekday,
    Dquote,
    Squote,
    Return,
    Newline,
    Pwd,
    PwdShort,
    Hostname,
    HostnameShort,
    ShellName,
    Username,
    PromptSymbol,
    ExitCode,
    SuccessSymbol,
    FailureSymbol,
    JobCount,
}

impl View for PromptTk {
    type V = PromptTkView;

    open spec fn view(&self) -> PromptTkView {
        match self {
            PromptTk::AsciiOct(n) => PromptTkView::AsciiOct(*n),
            PromptTk::Text(t) => PromptTkView::Text(t@),
            PromptTk::AnsiSeq(t) => PromptTkView::AnsiSeq(t@),
            PromptTk::VisGrp => PromptTkView::VisGrp,
            PromptTk::UserSeq => PromptTkView::UserSeq,
            PromptTk::Runtime => PromptTkView::Runtime,
            PromptTk::Weekday => PromptTkView::Weekday,
            PromptTk::Dquote => PromptTkView::Dquote,
            PromptTk::Squote => PromptTkView::Squote,
            PromptTk::Return => PromptTkView::Return,
            PromptTk::Newline => PromptTkView::Newline,
            PromptTk::Pwd => PromptTkView::Pwd,
            PromptTk::PwdShort => PromptTkView::PwdShort,
            PromptTk::Hostname => PromptTkView::Hostname,
            PromptTk::HostnameShort => PromptTkView::HostnameShort,
            PromptTk::ShellName => PromptTkView::ShellName,
            PromptTk::Username => PromptTkView::Username,
            PromptTk::PromptSymbol => PromptTkView::PromptSymbol,
            PromptTk::ExitCode => PromptTkView::ExitCode,
            PromptTk::SuccessSymbol => PromptTkView::SuccessSymbol,
            PromptTk::FailureSymbol => PromptTkView::FailureSymbol,
            PromptTk::JobCount => PromptTkView::JobCount,
        }
    }
}

/// The views of a list of pieces, in order.
pub open spec fn prompt_views(v: Seq<PromptTk>) -> Seq<PromptTkView> {
    Seq::new(v.len(), |i: int| v[i]@)
}

proof fn lemma_prompt_views_push(v: Seq<PromptTk>, t: PromptTk)
    ensures
        prompt_views(v.push(t)) == prompt_views(v).push(t@),
{
    assert(prompt_views(v.push(t)) =~= prompt_views(v).push(t@));
}

/// Whether `c` is a letter of the basic Latin alphabet.
pub open spec fn is_letter(c: char) -> bool {
    ('A' <= c <= 'Z') || ('a' <= c <= 'z')
}

/// The number that the octal digits `s` write.
pub open spec fn octal_value(s: Seq<char>) -> int
    decreases s.len(),
{
    if s.len() == 0 {
        0
    } else {
        octal_value(s.drop_last()) * 8 + (s.last() as u32 - '0' as u32)
    }
}

/// The start of a terminal control sequence with the parameters `params`.
pub open spec fn control_seq(params: Seq<char>) -> Seq<char> {
    seq!['\x1b', '['] + params
}

/// The pieces for what follows `\e[`, and how many characters of `rest`
/// they take up. The parameters run up to a letter, which ends the
/// sequence and belongs to it. Any other character ends it too: it is
/// dropped, and the sequence is given twice, as text and as a control
/// sequence.
pub open spec fn ansi_pieces(rest: Seq<char>) -> (Seq<PromptTkView>, nat) {
    let k = run_of(rest, CharClass::AnsiParam, rest.len());
    if k < rest.len() {
        if is_letter(rest[k as int]) {
            (seq![PromptTkView::AnsiSeq(control_seq(rest.take(k as int + 1)))], k + 1)
        } else {
            (
                seq![
                    PromptTkView::Text(control_seq(rest.take(k as int))),
                    PromptTkView::AnsiSeq(control_seq(rest.take(k as int))),
                ],
                k + 1,
            )
        }
    } else {
        (seq![PromptTkView::AnsiSeq(control_seq(rest.take(k as int)))], k)
    }
}

/// The piece that the escape `\c` stands for, if `c` alone decides it.
pub open spec fn simple_escape(c: char) -> Option<PromptTkView> {
    if c == 'w' {
        Some(PromptTkView::Pwd)
    } else if c == 'W' {
        Some(PromptTkView::PwdShort)
    } else if c == 'h' {
        Some(PromptTkView::Hostname)
    } else if c == 'H' {
        Some(PromptTkView::HostnameShort)
    } else if c == 's' {
        Some(PromptTkView::ShellName)
    } else if c == 'u' {
        Some(PromptTkView::Username)
    } else if c == '$' {
        Some(PromptTkView::PromptSymbol)
    } else if c == 'n' {
        Some(PromptTkView::Text(seq!['\n']))
    } else if c == 'r' {
        Some(PromptTkView::Text(seq!['\r']))
    } else if c == 'T' {
        Some(PromptTkView::Runtime)
    } else if c == '\\' {
        Some(PromptTkView::Text(seq!['\\']))
    } else if c == '"' {
        Some(PromptTkView::Text(seq!['"']))
    } else if c == '\'' {
        Some(PromptTkView::Text(seq!['\'']))
    } else {
        None
    }
}

/// The pieces for the escape at the start of `s`, which begins with a
/// backslash, and how many characters of `s` they take up.
pub open spec fn escape_pieces(s: Seq<char>) -> (Seq<PromptTkView>, nat) {
    if s.len() < 2 {
        (seq![PromptTkView::Text(seq!['\\'])], 1)
    } else {
        let c = s[1];
        if simple_escape(c) is Some {
            (seq![simple_escape(c)->0], 2)
        } else if c == 'e' {
            if s.len() > 2 && s[2] == '[' {
                let (pieces, k) = ansi_pieces(s.skip(3));
                (pieces, 3 + k)
            } else if s.len() > 2 {
                (seq![PromptTkView::Text(seq!['\\', 'e'])], 3)
            } else {
                (seq![PromptTkView::Text(seq!['\\', 'e'])], 2)
            }
        } else if CharClass::Octal.holds(c) {
            let k = 1 + run_of(s.skip(2), CharClass::Octal, 2);
            (seq![PromptTkView::AsciiOct(octal_value(s.subrange(1, 1 + k as int)) as i32)], 1 + k)
        } else {
            (seq![PromptTkView::Text(seq!['\\', c])], 2)
        }
    }
}

/// The pieces of the prompt string `s`: stretches of text without a
/// backslash, and what the escapes between them stand for.
pub open spec fn prompt_pieces(s: Seq<char>) -> Seq<PromptTkView>
    decreases s.len(),
    via prompt_pieces_shrinks
{
    if s.len() == 0 {
        Seq::empty()
    } else if s[0] != '\\' {
        let n = run_of(s, CharClass::Plain, s.len());
        seq![PromptTkView::Text(s.take(n as int))] + prompt_pieces(s.skip(n as int))
    } else {
        let (pieces, k) = escape_pieces(s);
        pieces + prompt_pieces(s.skip(k as int))
    }
}

pub proof fn lemma_escape_bound(s: Seq<char>)
    requires
        s.len() > 0,
    ensures
        1 <= escape_pieces(s).1 <= s.len(),
{
    if s.len() >= 2 {
        lemma_run_bound(s.skip(3), CharClass::AnsiParam, s.skip(3).len());
        lemma_run_bound(s.skip(2), CharClass::Octal, 2);
    }
}

#[via_fn]
proof fn prompt_pieces_shrinks(s: Seq<char>) {
    if s.len() > 0 {
        lemma_run_bound(s, CharClass::Plain, s.len());
        lemma_escape_bound(s);
    }
}

proof fn lemma_octal_bound(s: Seq<char>)
    requires
        s.len() <= 3,
        forall|i: int| 0 <= i < s.len() ==> CharClass::Octal.holds(#[trigger] s[i]),
    ensures
        0 <= octal_value(s) < 512,
        s.len() <= 2 ==> octal_value(s) < 64,
        s.len() <= 1 ==> octal_value(s) < 8,
    decreases s.len(),
{
    if s.len() > 0 {
        lemma_octal_bound(s.drop_last());
    }
}

proof fn lemma_run_all(s: Seq<char>, class: CharClass, max: nat, i: int)
    requires
        0 <= i < run_of(s, class, max),
    ensures
        i < s.len(),
        class.holds(s[i]),
    decreases max,
{
    lemma_run_bound(s, class, max);
    if i > 0 {
        lemma_run_all(s.skip(1), class, (max - 1) as nat, i - 1);
        assert(s.skip(1)[i - 1] == s[i]);
    }
}

fn prefixed(first: char, second: char, chars: &Vec<char>, from: usize, to: usize) -> (r: String)
    requires
        from <= to <= chars.len(),
    ensures
        r@ == seq![first, second] + chars@.subrange(from as int, to as int),
{
    let mut out = String::new();
    out.push(first);
    out.push(second);
    let rest = from_chars(chars, from, to);
    out.append(rest.as_str());
    assert(out@ =~= seq![first, second] + chars@.subrange(from as int, to as int));
    out
}

fn single_char(c: char) -> (r: String)
    ensures
        r@ == seq![c],
{
    let mut out = String::new();
    out.push(c);
    assert(out@ =~= seq![c]);
    out
}

fn simple_escape_of(c: char) -> (r: Option<PromptTk>)
    ensures
        match r {
            Some(t) => simple_escape(c) == Some(t@),
            None => simple_escape(c) is None,
        },
{
    if c == 'w' {
        Some(PromptTk::Pwd)
    } else if c == 'W' {
        Some(PromptTk::PwdShort)
    } else if c == 'h' {
        Some(PromptTk::Hostname)
    } else if c == 'H' {
        Some(PromptTk::HostnameShort)
    } else if c == 's' {
        Some(PromptTk::ShellName)
    } else if c == 'u' {
        Some(PromptTk::Username)
    } else if c == '$' {
        Some(PromptTk::PromptSymbol)
    } else if c == 'n' {
        Some(PromptTk::Text(single_char('\n')))
    } else if c == 'r' {
        Some(PromptTk::Text(single_char('\r')))
    } else if c == 'T' {
        Some(PromptTk::Runtime)
    } else if c == '\\' {
        Some(PromptTk::Text(single_char('\\')))
    } else if c == '"' {
        Some(PromptTk::Text(single_char('"')))
    } else if c == '\'' {
        Some(PromptTk::Text(single_char('\'')))
    } else {
        None
    }
}

/// Reads the escape that starts at `at` into `tokens`, and gives the place
/// after it.
fn read_escape(chars: &Vec<char>, at: usize, tokens: &mut Vec<PromptTk>) -> (next: usize)
    requires
        at < chars.len(),
    ensures
        prompt_views(final(tokens)@) == prompt_views(old(tokens)@) + escape_pieces(
            chars@.skip(at as int),
        ).0,
        next == at + escape_pieces(chars@.skip(at as int)).1,
        at < next <= chars.len(),
{
    let ghost s = chars@.skip(at as int);
    let ghost before = prompt_views(tokens@);
    proof {
        lemma_escape_bound(s);
    }
    if at + 1 >= chars.len() {
        let t = PromptTk::Text(single_char('\\'));
        proof {
            lemma_prompt_views_push(tokens@, t);
        }
        tokens.push(t);
        assert(before.push(t@) =~= before + seq![t@]);
        return at + 1;
    }
    let c = chars[at + 1];
    assert(s[1] == c);
    match simple_escape_of(c) {
        Some(t) => {
            proof {
                lemma_prompt_views_push(tokens@, t);
            }
            tokens.push(t);
            assert(before.push(t@) =~= before + seq![t@]);
            return at + 2;
        },
        None => {},
    }
    if c == 'e' {
        if at + 2 < chars.len() && chars[at + 2] == '[' {
            assert(s[2] == '[');
            let start = at + 3;
            let ghost rest = s.skip(3);
            assert(rest =~= chars@.skip(start as int));
            let end = scan_run(chars, start, CharClass::AnsiParam, chars.len() - start);
            assert(rest.take(end - start) =~= chars@.subrange(start as int, end as int));
            if end < chars.len() {
                let last = chars[end];
                assert(rest[end - start] == last);
                if (last >= 'A' && last <= 'Z') || (last >= 'a' && last <= 'z') {
                    let t = PromptTk::AnsiSeq(prefixed('\x1b', '[', chars, start, end + 1));
                    assert(rest.take(end + 1 - start) =~= chars@.subrange(
                        start as int,
                        end + 1,
                    ));
                    proof {
                        lemma_prompt_views_push(tokens@, t);
                    }
                    tokens.push(t);
                    assert(before.push(t@) =~= before + seq![t@]);
                } else {
                    let a = PromptTk::Text(prefixed('\x1b', '[', chars, start, end));
                    let b = PromptTk::AnsiSeq(prefixed('\x1b', '[', chars, start, end));
                    proof {
                        lemma_prompt_views_push(tokens@, a);
                        lemma_prompt_views_push(tokens@.push(a), b);
                    }
                    tokens.push(a);
                    tokens.push(b);
                    assert(before.push(a@).push(b@) =~= before + seq![a@, b@]);
                }
                end + 1
            } else {
                let t = PromptTk::AnsiSeq(prefixed('\x1b', '[', chars, start, end));
                proof {
                    lemma_prompt_views_push(tokens@, t);
                }
                tokens.push(t);
                assert(before.push(t@) =~= before + seq![t@]);
                end
            }
        } else {
            let mut text = single_char('\\');
            text.push('e');
            assert(text@ =~= seq!['\\', 'e']);
            let t = PromptTk::Text(text);
            proof {
                lemma_prompt_views_push(tokens@, t);
                if at + 2 < chars.len() {
                    assert(s[2] == chars@[at + 2]);
                }
            }
            tokens.push(t);
            assert(before.push(t@) =~= before + seq![t@]);
            if at + 2 < chars.len() {
                at + 3
            } else {
                at + 2
            }
        }
    } else if c >= '0' && c <= '7' {
        let start = at + 2;
        assert(s.skip(2) =~= chars@.skip(start as int));
        let end = scan_run(chars, start, CharClass::Octal, 2);
        proof {
            lemma_run_bound(chars@.skip(start as int), CharClass::Octal, 2);
        }
        let ghost digits = chars@.subrange(at + 1, end as int);
        assert(s.subrange(1, 1 + (end - start + 1)) =~= digits);
        let mut value: i32 = 0;
        let mut j: usize = at + 1;
        assert(digits.take(0) =~= Seq::<char>::empty());
        assert forall|i: int| 0 <= i < digits.len() implies CharClass::Octal.holds(
            #[trigger] digits[i],
        ) by {
            if i > 0 {
                lemma_run_all(chars@.skip(start as int), CharClass::Octal, 2, i - 1);
                assert(chars@.skip(start as int)[i - 1] == digits[i]);
            }
        }
        while j < end
            invariant
                at + 1 <= j <= end <= chars.len(),
                end - (at + 1) <= 3,
                digits == chars@.subrange(at + 1, end as int),
                forall|i: int| 0 <= i < digits.len() ==> CharClass::Octal.holds(#[trigger] digits[i]),
                value == octal_value(digits.take(j - (at + 1))),
                0 <= value < 512,
                j - (at + 1) <= 2 ==> value < 64,
            decreases end - j,
        {
            let d = chars[j];
            proof {
                let k = j - (at + 1);
                assert(digits[k] == d);
                assert(digits.take(k + 1).drop_last() =~= digits.take(k));
                assert(digits.take(k + 1).last() == d);
                lemma_octal_bound(digits.take(k + 1));
            }
            value = value * 8 + (d as u32 - '0' as u32) as i32;
            j += 1;
        }
        assert(digits.take(end - (at + 1)) =~= digits);
        let t = PromptTk::AsciiOct(value);
        proof {
            lemma_prompt_views_push(tokens@, t);
        }
        tokens.push(t);
        assert(before.push(t@) =~= before + seq![t@]);
        end
    } else {
        let mut text = single_char('\\');
        text.push(c);
        assert(text@ =~= seq!['\\', c]);
        let t = PromptTk::Text(text);
        proof {
            lemma_prompt_views_push(tokens@, t);
        }
        tokens.push(t);
        assert(before.push(t@) =~= before + seq![t@]);
        at + 2
    }
}

/// Splits a prompt string into its pieces.
pub fn tokenize_prompt(raw: &str) -> (r: Vec<PromptTk>)
    ensures
        prompt_views(r@) == prompt_pieces(raw@),
{
    let chars = to_chars(raw);
    let mut tokens: Vec<PromptTk> = Vec::new();
    let mut i: usize = 0;
    proof {
        assert(chars@.skip(0) =~= chars@);
        assert(prompt_views(tokens@) =~= Seq::<PromptTkView>::empty());
        assert(Seq::<PromptTkView>::empty() + prompt_pieces(chars@) =~= prompt_pieces(chars@));
    }
    while i < chars.len()
        invariant
            chars@ == raw@,
            i <= chars.len(),
            prompt_pieces(chars@) == prompt_views(tokens@) + prompt_pieces(chars@.skip(i as int)),
        decreases chars.len() - i,
    {
        let ghost s = chars@.skip(i as int);
        let ghost before = prompt_views(tokens@);
        assert(s[0] == chars@[i as int]);
        if chars[i] != '\\' {
            proof {
                lemma_run_bound(s, CharClass::Plain, s.len());
            }
            let end = scan_run(&chars, i, CharClass::Plain, chars.len() - i);
            let t = PromptTk::Text(from_chars(&chars, i, end));
            proof {
                assert(s.take(end - i) =~= chars@.subrange(i as int, end as int));
                assert(s.skip(end - i) =~= chars@.skip(end as int));
                lemma_prompt_views_push(tokens@, t);
                assert(before.push(t@) + prompt_pieces(chars@.skip(end as int)) =~= before + (
                seq![t@] + prompt_pieces(chars@.skip(end as int))));
            }
            tokens.push(t);
            i = end;
        } else {
            let next = read_escape(&chars, i, &mut tokens);
            proof {
                assert(s.skip(next - i) =~= chars@.skip(next as int));
                assert((before + escape_pieces(s).0) + prompt_pieces(chars@.skip(next as int))
                    =~= before + (escape_pieces(s).0 + prompt_pieces(chars@.skip(next as int))));
            }
            i = next;
        }
    }
    proof {
        assert(chars@.skip(chars.len() as int) =~= Seq::<char>::empty());
        assert(prompt_views(tokens@) + Seq::<PromptTkView>::empty() =~= prompt_views(tokens@));
    }
    tokens
}


/// What the prompt shows of the world outside the shell. A variable that is
/// not set is `None`.
#[derive(Debug)]
pub struct PromptEnv {
    pub pwd: Option<String>,
    pub home: Option<String>,
    pub hostname: Option<String>,
    pub user: Option<String>,
    pub uid: Option<String>,
    /// How long the last command ran, in microseconds, if it was timed.
    pub runtime: Option<u128>,
}

pub struct PromptEnvView {
    pub pwd: Option<Seq<char>>,
    pub home: Option<Seq<char>>,
    pub hostname: Option<Seq<char>>,
    pub user: Option<Seq<char>>,
    pub uid: Option<Seq<char>>,
    pub runtime: Option<u128>,
}

/// The view of a string that may be missing.
pub open spec fn text_view(s: Option<String>) -> Option<Seq<char>> {
    match s {
        Some(t) => Some(t@),
        None => None,
    }
}

impl View for PromptEnv {
    type V = PromptEnvView;

    open spec fn view(&self) -> PromptEnvView {
        PromptEnvView {
            pwd: text_view(self.pwd),
            home: text_view(self.home),
            hostname: text_view(self.hostname),
            user: text_view(self.user),
            uid: text_view(self.uid),
            runtime: self.runtime,
        }
    }
}

/// `path` with `~` in the place of `home` at its start, if it starts with
/// it.
pub open spec fn tilde(path: Seq<char>, home: Seq<char>) -> Seq<char> {
    if home.is_prefix_of(path) {
        seq!['~'] + path.skip(home.len() as int)
    } else {
        path
    }
}

/// The stretches of `s` between slashes that are not empty.
pub open spec fn segments(s: Seq<char>) -> Seq<Seq<char>>
    decreases s.len(),
    via segments_shrinks
{
    if s.len() == 0 {
        Seq::empty()
    } else if s[0] == '/' {
        segments(s.skip(1))
    } else {
        let n = run_of(s, CharClass::Segment, s.len());
        seq![s.take(n as int)] + segments(s.skip(n as int))
    }
}

#[via_fn]
proof fn segments_shrinks(s: Seq<char>) {
    if s.len() > 0 {
        lemma_run_bound(s, CharClass::Segment, s.len());
    }
}

/// `path` cut down to its last four components, the root counting as one.
/// A path of four components or fewer keeps them all.
pub open spec fn short_path(path: Seq<char>) -> Seq<char> {
    let parts = segments(path);
    let rooted = path.len() > 0 && path[0] == '/';
    if rooted && parts.len() <= 3 {
        seq!['/'] + join(parts, seq!['/'])
    } else if parts.len() <= 4 {
        join(parts, seq!['/'])
    } else {
        join(parts.skip(parts.len() - 4), seq!['/'])
    }
}

/// The error for a variable of the environment that is not set.
pub open spec fn not_set(name: Seq<char>) -> ShErrView {
    ShErrView { kind: ShErrKind::EnvErr, msg: name, span: None }
}

/// The error for a piece that the prompt cannot show.
pub open spec fn not_shown() -> ShErrView {
    ShErrView { kind: ShErrKind::InternalErr, msg: "Unsupported prompt escape"@, span: None }
}

/// `value`, or the error for the variable `name` when it is missing.
pub open spec fn needed(value: Option<Seq<char>>, name: Seq<char>) -> Result<Seq<char>, ShErrView> {
    match value {
        Some(v) => Ok(v),
        None => Err(not_set(name)),
    }
}

/// The working directory with `~` for the home directory.
pub open spec fn shown_pwd(env: PromptEnvView) -> Result<Seq<char>, ShErrView> {
    match needed(env.pwd, "PWD"@) {
        Err(e) => Err(e),
        Ok(pwd) => match needed(env.home, "HOME"@) {
            Err(e) => Err(e),
            Ok(home) => Ok(tilde(pwd, home)),
        },
    }
}

/// What one piece of the prompt shows.
pub open spec fn piece_text(env: PromptEnvView, t: PromptTkView) -> Result<Seq<char>, ShErrView> {
    match t {
        PromptTkView::Text(text) => Ok(text),
        PromptTkView::AnsiSeq(seq) => Ok(seq),
        PromptTkView::Runtime => Ok(
            match env.runtime {
                Some(micros) => join(runtime_parts(micros as nat), " "@),
                None => Seq::empty(),
            },
        ),
        PromptTkView::Pwd => shown_pwd(env),
        PromptTkView::PwdShort => match shown_pwd(env) {
            Err(e) => Err(e),
            Ok(path) => Ok(tilde(short_path(path), env.home->0)),
        },
        PromptTkView::Hostname => needed(env.hostname, "HOSTNAME"@),
        PromptTkView::ShellName => Ok("fern"@),
        PromptTkView::Username => needed(env.user, "USER"@),
        PromptTkView::PromptSymbol => match needed(env.uid, "UID"@) {
            Err(e) => Err(e),
            Ok(uid) => Ok(
                if uid == "0"@ {
                    seq!['#']
                } else {
                    seq!['$']
                },
            ),
        },
        _ => Err(not_shown()),
    }
}

/// What the pieces show, one after another, or the error of the first piece
/// that cannot be shown.
pub open spec fn shown(env: PromptEnvView, pieces: Seq<PromptTkView>) -> Result<
    Seq<char>,
    ShErrView,
>
    decreases pieces.len(),
{
    if pieces.len() == 0 {
        Ok(Seq::empty())
    } else {
        match piece_text(env, pieces[0]) {
            Err(e) => Err(e),
            Ok(text) => match shown(env, pieces.skip(1)) {
                Err(e) => Err(e),
                Ok(rest) => Ok(text + rest),
            },
        }
    }
}

/// `text` in front of what the rest shows.
pub open spec fn then_shown(text: Seq<char>, rest: Result<Seq<char>, ShErrView>) -> Result<
    Seq<char>,
    ShErrView,
> {
    match rest {
        Ok(r) => Ok(text + r),
        Err(e) => Err(e),
    }
}

fn starts_with(path: &Vec<char>, home: &Vec<char>) -> (r: bool)
    ensures
        r == home@.is_prefix_of(path@),
{
    if home.len() > path.len() {
        return false;
    }
    let mut i: usize = 0;
    while i < home.len()
        invariant
            i <= home.len() <= path.len(),
            forall|j: int| 0 <= j < i ==> home@[j] == path@[j],
        decreases home.len() - i,
    {
        if home[i] != path[i] {
            assert(path@.subrange(0, home.len() as int)[i as int] != home@[i as int]);
            return false;
        }
        i += 1;
    }
    assert(home@ =~= path@.subrange(0, home.len() as int));
    true
}

fn with_tilde(path: &str, home: &str) -> (r: String)
    ensures
        r@ == tilde(path@, home@),
{
    let p = to_chars(path);
    let h = to_chars(home);
    if starts_with(&p, &h) {
        let mut out = String::new();
        out.push('~');
        let rest = from_chars(&p, h.len(), p.len());
        out.append(rest.as_str());
        assert(out@ =~= seq!['~'] + p@.skip(h.len() as int));
        out
    } else {
        assert(p@.subrange(0, p.len() as int) =~= p@);
        from_chars(&p, 0, p.len())
    }
}

fn path_segments(chars: &Vec<char>) -> (r: Vec<String>)
    ensures
        texts(r@) == segments(chars@),
{
    let mut parts: Vec<String> = Vec::new();
    let mut i: usize = 0;
    proof {
        lemma_texts_empty();
        assert(chars@.skip(0) =~= chars@);
        assert(Seq::<Seq<char>>::empty() + segments(chars@) =~= segments(chars@));
    }
    while i < chars.len()
        invariant
            i <= chars.len(),
            segments(chars@) == texts(parts@) + segments(chars@.skip(i as int)),
        decreases chars.len() - i,
    {
        let ghost s = chars@.skip(i as int);
        let ghost before = texts(parts@);
        assert(s[0] == chars@[i as int]);
        if chars[i] == '/' {
            assert(s.skip(1) =~= chars@.skip(i + 1));
            i += 1;
        } else {
            proof {
                lemma_run_bound(s, CharClass::Segment, s.len());
            }
            let end = scan_run(chars, i, CharClass::Segment, chars.len() - i);
            let part = from_chars(chars, i, end);
            proof {
                assert(s.take(end - i) =~= chars@.subrange(i as int, end as int));
                assert(s.skip(end - i) =~= chars@.skip(end as int));
                lemma_texts_push(parts@, part);
                assert(before.push(part@) + segments(chars@.skip(end as int)) =~= before + (
                seq![part@] + segments(chars@.skip(end as int))));
            }
            parts.push(part);
            i = end;
        }
    }
    proof {
        assert(chars@.skip(chars.len() as int) =~= Seq::<char>::empty());
        assert(texts(parts@) + Seq::<Seq<char>>::empty() =~= texts(parts@));
    }
    parts
}

fn shorten(path: &str) -> (r: String)
    ensures
        r@ == short_path(path@),
{
    let chars = to_chars(path);
    let mut parts = path_segments(&chars);
    let rooted = chars.len() > 0 && chars[0] == '/';
    proof {
        reveal_strlit("/");
        assert("/"@ =~= seq!['/']);
    }
    if rooted && parts.len() <= 3 {
        let mut out = String::new();
        out.push('/');
        let rest = join_strings(&parts, "/");
        out.append(rest.as_str());
        assert(out@ =~= seq!['/'] + join(texts(parts@), seq!['/']));
        out
    } else if parts.len() <= 4 {
        join_strings(&parts, "/")
    } else {
        let ghost all = texts(parts@);
        let tail = parts.split_off(parts.len() - 4);
        assert(texts(tail@) =~= all.skip(all.len() - 4));
        join_strings(&tail, "/")
    }
}

fn env_err(name: &str) -> (r: ShErr)
    ensures
        r@ == not_set(name@),
{
    ShErr::simple(ShErrKind::EnvErr, name)
}

fn shown_pwd_of(env: &PromptEnv) -> (r: ShResult<String>)
    ensures
        match r {
            Ok(t) => shown_pwd(env@) == Ok::<Seq<char>, ShErrView>(t@),
            Err(e) => shown_pwd(env@) == Err::<Seq<char>, ShErrView>(e@),
        },
{
    match &env.pwd {
        None => Err(env_err("PWD")),
        Some(pwd) => match &env.home {
            None => Err(env_err("HOME")),
            Some(home) => Ok(with_tilde(pwd.as_str(), home.as_str())),
        },
    }
}

fn piece_text_of(env: &PromptEnv, token: &PromptTk) -> (r: ShResult<String>)
    ensures
        match r {
            Ok(t) => piece_text(env@, token@) == Ok::<Seq<char>, ShErrView>(t@),
            Err(e) => piece_text(env@, token@) == Err::<Seq<char>, ShErrView>(e@),
        },
{
    match token {
        PromptTk::Text(text) => Ok(text.clone()),
        PromptTk::AnsiSeq(seq) => Ok(seq.clone()),
        PromptTk::Runtime => match env.runtime {
            Some(micros) => Ok(format_cmd_runtime(micros)),
            None => Ok(String::new()),
        },
        PromptTk::Pwd => shown_pwd_of(env),
        PromptTk::PwdShort => match shown_pwd_of(env) {
            Err(e) => Err(e),
            Ok(path) => {
                let short = shorten(path.as_str());
                match &env.home {
                    Some(home) => Ok(with_tilde(short.as_str(), home.as_str())),
                    None => Ok(short),
                }
            },
        },
        PromptTk::Hostname => match &env.hostname {
            Some(h) => Ok(h.clone()),
            None => Err(env_err("HOSTNAME")),
        },
        PromptTk::ShellName => Ok("fern".to_owned()),
        PromptTk::Username => match &env.user {
            Some(u) => Ok(u.clone()),
            None => Err(env_err("USER")),
        },
        PromptTk::PromptSymbol => match &env.uid {
            Some(uid) => {
                let mut out = String::new();
                if same_text(uid.as_str(), "0") {
                    out.push('#');
                    assert(out@ =~= seq!['#']);
                } else {
                    out.push('$');
                    assert(out@ =~= seq!['$']);
                }
                Ok(out)
            },
            None => Err(env_err("UID")),
        },
        _ => Err(ShErr::simple(ShErrKind::InternalErr, "Unsupported prompt escape")),
    }
}

/// The text of the prompt that the prompt string `raw` describes, as `env`
/// has it. A piece that needs a variable which is not set fails, and so
/// does a piece that the prompt cannot show; the first such piece decides
/// the error.
pub fn expand_prompt(raw: &str, env: &PromptEnv) -> (r: ShResult<String>)
    ensures
        match r {
            Ok(t) => shown(env@, prompt_pieces(raw@)) == Ok::<Seq<char>, ShErrView>(t@),
            Err(e) => shown(env@, prompt_pieces(raw@)) == Err::<Seq<char>, ShErrView>(e@),
        },
{
    let tokens = tokenize_prompt(raw);
    let ghost pieces = prompt_views(tokens@);
    let mut result = String::new();
    let mut i: usize = 0;
    proof {
        assert(pieces.skip(0) =~= pieces);
        match shown(env@, pieces) {
            Ok(t) => {
                assert(Seq::<char>::empty() + t =~= t);
            },
            Err(_) => {},
        }
    }
    while i < tokens.len()
        invariant
            i <= tokens.len(),
            pieces == prompt_views(tokens@),
            pieces == prompt_pieces(raw@),
            shown(env@, pieces) == then_shown(result@, shown(env@, pieces.skip(i as int))),
        decreases tokens.len() - i,
    {
        let ghost before = result@;
        proof {
            assert(pieces.skip(i as int)[0] == tokens@[i as int]@);
            assert(pieces.skip(i as int).skip(1) =~= pieces.skip(i + 1));
        }
        match piece_text_of(env, &tokens[i]) {
            Ok(text) => {
                result.append(text.as_str());
                proof {
                    match shown(env@, pieces.skip(i + 1)) {
                        Ok(rest) => {
                            assert((before + text@) + rest =~= before + (text@ + rest));
                        },
                        Err(_) => {},
                    }
                }
            },
            Err(e) => {
                return Err(e);
            },
        }
        i += 1;
    }
    proof {
        assert(pieces.skip(tokens.len() as int) =~= Seq::<PromptTkView>::empty());
        assert(result@ + Seq::<char>::empty() =~= result@);
    }
    Ok(result)
}

} // verus!
