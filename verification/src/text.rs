//! Text helpers shared by the rest of the crate: conversions between strings
//! and character vectors, decimal rendering, joining and comparing.

use vstd::prelude::*;

verus! {

/// `String::push` of the standard library: appends the one character `c` to
/// the end of the string and leaves what was there before in place.
pub assume_specification[ String::push ](s: &mut String, c: char)
    ensures
        final(s)@ == old(s)@.push(c),
;

/// The views of a sequence of strings, in order.
pub open spec fn texts(v: Seq<String>) -> Seq<Seq<char>> {
    Seq::new(v.len(), |i: int| v[i]@)
}

pub proof fn lemma_texts_push(v: Seq<String>, s: String)
    ensures
        texts(v.push(s)) == texts(v).push(s@),
{
    assert(texts(v.push(s)) =~= texts(v).push(s@));
}

pub proof fn lemma_texts_empty()
    ensures
        texts(Seq::<String>::empty()) == Seq::<Seq<char>>::empty(),
{
    assert(texts(Seq::<String>::empty()) =~= Seq::<Seq<char>>::empty());
}

/// The characters of `s`, in order.
pub fn to_chars(s: &str) -> (r: Vec<char>)
    ensures
        r@ == s@,
{
    let mut out: Vec<char> = Vec::new();
    for c in it: s.chars()
        invariant
            it.seq() == s@,
            out@ == it.seq().take(it.index() as int),
    {
        out.push(c);
    }
    out
}

/// The string made of the characters `v[from..to]`.
pub fn from_chars(v: &Vec<char>, from: usize, to: usize) -> (r: String)
    requires
        from <= to <= v.len(),
    ensures
        r@ == v@.subrange(from as int, to as int),
{
    let mut out = String::new();
    let mut i: usize = from;
    while i < to
        invariant
            from <= i <= to <= v.len(),
            out@ == v@.subrange(from as int, i as int),
        decreases to - i,
    {
        out.push(v[i]);
        i += 1;
        assert(v@.subrange(from as int, i as int) =~= v@.subrange(from as int, i - 1).push(
            v@[i - 1],
        ));
    }
    out
}

/// Whether two strings hold the same characters.
pub fn same_text(a: &str, b: &str) -> (r: bool)
    ensures
        r == (a@ == b@),
{
    let x = to_chars(a);
    let y = to_chars(b);
    if x.len() != y.len() {
        return false;
    }
    let mut i: usize = 0;
    while i < x.len()
        invariant
            x@ == a@,
            y@ == b@,
            x.len() == y.len(),
            i <= x.len(),
            x@.take(i as int) == y@.take(i as int),
        decreases x.len() - i,
    {
        if x[i] != y[i] {
            return false;
        }
        i += 1;
        assert(x@.take(i as int) =~= x@.take(i - 1).push(x@[i - 1]));
        assert(y@.take(i as int) =~= y@.take(i - 1).push(y@[i - 1]));
    }
    assert(x@.take(x.len() as int) =~= x@);
    assert(y@.take(y.len() as int) =~= y@);
    true
}

/// The character that writes the decimal digit `d`.
pub open spec fn digit_char(d: nat) -> char
    recommends
        d < 10,
{
    if d == 0 {
        '0'
    } else if d == 1 {
        '1'
    } else if d == 2 {
        '2'
    } else if d == 3 {
        '3'
    } else if d == 4 {
        '4'
    } else if d == 5 {
        '5'
    } else if d == 6 {
        '6'
    } else if d == 7 {
        '7'
    } else if d == 8 {
        '8'
    } else {
        '9'
    }
}

/// The decimal numeral of `n`, without leading zeros.
pub open spec fn decimal(n: nat) -> Seq<char>
    decreases n,
{
    if n < 10 {
        seq![digit_char(n)]
    } else {
        decimal(n / 10).push(digit_char(n % 10))
    }
}

fn digit(d: u8) -> (c: char)
    requires
        d < 10,
    ensures
        c == digit_char(d as nat),
{
    if d == 0 {
        '0'
    } else if d == 1 {
        '1'
    } else if d == 2 {
        '2'
    } else if d == 3 {
        '3'
    } else if d == 4 {
        '4'
    } else if d == 5 {
        '5'
    } else if d == 6 {
        '6'
    } else if d == 7 {
        '7'
    } else if d == 8 {
        '8'
    } else {
        '9'
    }
}

/// Appends the decimal numeral of `n` to `out`.
pub fn push_decimal(out: &mut String, n: u128)
    ensures
        final(out)@ == old(out)@ + decimal(n as nat),
    decreases n,
{
    if n >= 10 {
        push_decimal(out, n / 10);
    }
    let d: u8 = (n % 10) as u8;
    out.push(digit(d));
    assert(out@ =~= old(out)@ + decimal(n as nat));
}

/// The parts of `parts` written one after another with `sep` between each two.
pub open spec fn join(parts: Seq<Seq<char>>, sep: Seq<char>) -> Seq<char>
    decreases parts.len(),
{
    if parts.len() == 0 {
        Seq::empty()
    } else if parts.len() == 1 {
        parts[0]
    } else {
        join(parts.drop_last(), sep) + sep + parts.last()
    }
}

/// Joins the strings of `parts` with `sep` between each two.
pub fn join_strings(parts: &Vec<String>, sep: &str) -> (r: String)
    ensures
        r@ == join(texts(parts@), sep@),
{
    let mut out = String::new();
    let mut i: usize = 0;
    while i < parts.len()
        invariant
            i <= parts.len(),
            out@ == join(texts(parts@).take(i as int), sep@),
        decreases parts.len() - i,
    {
        if i > 0 {
            out.append(sep);
        }
        out.append(parts[i].as_str());
        i += 1;
        proof {
            let done = texts(parts@).take(i as int);
            assert(done.drop_last() =~= texts(parts@).take(i - 1));
            assert(done.last() == parts@[i - 1]@);
            if i == 1 {
                assert(out@ =~= done[0]);
            }
        }
    }
    assert(texts(parts@).take(parts.len() as int) =~= texts(parts@));
    out
}


/// What to take off the ends of a text.
#[derive(Clone, Copy, Debug, PartialEq, Eq, Structural)]
pub enum Trim {
    /// Backticks.
    Backticks,
    /// Blanks, tabs, line feeds, carriage returns, vertical tabs and form
    /// feeds.
    Blanks,
}

impl Trim {
    /// Whether `c` is among the characters to take off.
    pub open spec fn spec_matches(&self, c: char) -> bool {
        match self {
            Trim::Backticks => c == '`',
            Trim::Blanks => c == ' ' || c == '\t' || c == '\n' || c == '\r' || c == '\x0b' || c
                == '\x0c',
        }
    }

    #[verifier::when_used_as_spec(spec_matches)]
    pub fn matches(&self, c: char) -> (r: bool)
        ensures
            r == self.spec_matches(c),
    {
        match self {
            Trim::Backticks => c == '`',
            Trim::Blanks => c == ' ' || c == '\t' || c == '\n' || c == '\r' || c == '\x0b' || c
                == '\x0c',
        }
    }
}

/// `s` without the characters of `t` at its start.
pub open spec fn trim_start(s: Seq<char>, t: Trim) -> Seq<char>
    decreases s.len(),
{
    if s.len() > 0 && t.matches(s[0]) {
        trim_start(s.skip(1), t)
    } else {
        s
    }
}

/// `s` without the characters of `t` at its end.
pub open spec fn trim_end(s: Seq<char>, t: Trim) -> Seq<char>
    decreases s.len(),
{
    if s.len() > 0 && t.matches(s.last()) {
        trim_end(s.drop_last(), t)
    } else {
        s
    }
}

/// `s` without the characters of `t` at either end.
pub open spec fn trimmed(s: Seq<char>, t: Trim) -> Seq<char> {
    trim_end(trim_start(s, t), t)
}

/// Takes the characters of `t` off both ends of `s`.
pub fn trim(s: &str, t: Trim) -> (r: String)
    ensures
        r@ == trimmed(s@, t),
{
    let chars = to_chars(s);
    let mut lo: usize = 0;
    assert(chars@.skip(0) =~= chars@);
    while lo < chars.len() && t.matches(chars[lo])
        invariant
            lo <= chars.len(),
            trim_start(chars@, t) == trim_start(chars@.skip(lo as int), t),
        decreases chars.len() - lo,
    {
        proof {
            assert(chars@.skip(lo as int)[0] == chars@[lo as int]);
            assert(chars@.skip(lo as int).skip(1) =~= chars@.skip(lo + 1));
        }
        lo += 1;
    }
    let ghost rest = chars@.skip(lo as int);
    proof {
        if lo < chars.len() {
            assert(rest[0] == chars@[lo as int]);
        }
        assert(trim_start(chars@, t) == rest);
        assert(rest.take(chars.len() - lo) =~= rest);
    }
    let mut hi: usize = chars.len();
    while hi > lo && t.matches(chars[hi - 1])
        invariant
            lo <= hi <= chars.len(),
            rest == chars@.skip(lo as int),
            trim_end(rest, t) == trim_end(rest.take(hi - lo), t),
        decreases hi - lo,
    {
        proof {
            assert(rest.take(hi - lo).last() == chars@[hi - 1]);
            assert(rest.take(hi - lo).drop_last() =~= rest.take(hi - lo - 1));
        }
        hi -= 1;
    }
    proof {
        if hi > lo {
            assert(rest.take(hi - lo).last() == chars@[hi - 1]);
        }
        assert(rest.take(hi - lo) =~= chars@.subrange(lo as int, hi as int));
    }
    from_chars(&chars, lo, hi)
}

/// `s` without its first and its last character, or `s` itself when it has
/// fewer than two.
pub open spec fn inner(s: Seq<char>) -> Seq<char> {
    if s.len() >= 2 {
        s.subrange(1, s.len() - 1)
    } else {
        s
    }
}

/// The text between the first and the last character of `s`, if `s` has two
/// characters at least.
pub fn strip_ends(s: &str) -> (r: Option<String>)
    ensures
        r is Some == (s@.len() >= 2),
        r is Some ==> r->0@ == inner(s@),
{
    let chars = to_chars(s);
    if chars.len() >= 2 {
        Some(from_chars(&chars, 1, chars.len() - 1))
    } else {
        None
    }
}

/// Where the first `c` stands in `s`, or the length of `s` if there is none.
pub open spec fn first_index(s: Seq<char>, c: char) -> int
    decreases s.len(),
{
    if s.len() == 0 {
        0
    } else if s[0] == c {
        0
    } else {
        1 + first_index(s.skip(1), c)
    }
}

/// The two parts of `s` around its first `c`, if it has one.
pub open spec fn split_once(s: Seq<char>, c: char) -> Option<(Seq<char>, Seq<char>)> {
    let i = first_index(s, c);
    if 0 <= i < s.len() {
        Some((s.take(i), s.skip(i + 1)))
    } else {
        None
    }
}

/// Splits `s` at its first `c`.
pub fn split_at_first(s: &str, c: char) -> (r: Option<(String, String)>)
    ensures
        match r {
            Some(parts) => split_once(s@, c) == Some((parts.0@, parts.1@)),
            None => split_once(s@, c) is None,
        },
{
    let chars = to_chars(s);
    let mut i: usize = 0;
    assert(chars@.skip(0) =~= chars@);
    while i < chars.len() && chars[i] != c
        invariant
            i <= chars.len(),
            first_index(chars@, c) == i + first_index(chars@.skip(i as int), c),
        decreases chars.len() - i,
    {
        proof {
            assert(chars@.skip(i as int)[0] == chars@[i as int]);
            assert(chars@.skip(i as int).skip(1) =~= chars@.skip(i + 1));
        }
        i += 1;
    }
    proof {
        if i < chars.len() {
            assert(chars@.skip(i as int)[0] == chars@[i as int]);
        }
        assert(first_index(chars@, c) == i);
    }
    if i < chars.len() {
        let left = from_chars(&chars, 0, i);
        let right = from_chars(&chars, i + 1, chars.len());
        assert(chars@.subrange(0, i as int) =~= chars@.take(i as int));
        assert(chars@.subrange(i + 1, chars.len() as int) =~= chars@.skip(i + 1));
        Some((left, right))
    } else {
        None
    }
}

} // verus!
