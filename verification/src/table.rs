//! A small table from names to text that remembers the order in which names
//! were first stored.

use vstd::prelude::*;
use crate::text::same_text;

verus! {

/// One entry of a table as it appears in contracts: a name and its text.
pub type Entry = (Seq<char>, Seq<char>);

/// The position of the first entry named `name`, or the length of `t` when
/// there is none.
pub open spec fn position(t: Seq<Entry>, name: Seq<char>) -> int
    decreases t.len(),
{
    if t.len() == 0 {
        0
    } else if t[0].0 == name {
        0
    } else {
        1 + position(t.skip(1), name)
    }
}

/// What `t` holds under `name`, if anything.
pub open spec fn lookup(t: Seq<Entry>, name: Seq<char>) -> Option<Seq<char>> {
    let i = position(t, name);
    if i < t.len() {
        Some(t[i].1)
    } else {
        None
    }
}

/// `t` with `value` under `name`: in the place of the first entry of that
/// name, or at the end when there is none.
pub open spec fn store(t: Seq<Entry>, name: Seq<char>, value: Seq<char>) -> Seq<Entry> {
    let i = position(t, name);
    if i < t.len() {
        t.update(i, (name, value))
    } else {
        t.push((name, value))
    }
}

pub proof fn lemma_position_bounds(t: Seq<Entry>, name: Seq<char>)
    ensures
        0 <= position(t, name) <= t.len(),
        position(t, name) < t.len() ==> t[position(t, name)].0 == name,
        forall|j: int| 0 <= j < position(t, name) ==> (#[trigger] t[j]).0 != name,
    decreases t.len(),
{
    if t.len() > 0 && t[0].0 != name {
        lemma_position_bounds(t.skip(1), name);
        assert forall|j: int| 0 <= j < position(t, name) implies (#[trigger] t[j]).0 != name by {
            if j > 0 {
                assert(t[j] == t.skip(1)[j - 1]);
            }
        }
    }
}

/// The first position at which a name is met is its position.
pub proof fn lemma_position_is(t: Seq<Entry>, name: Seq<char>, i: int)
    requires
        0 <= i <= t.len(),
        i < t.len() ==> t[i].0 == name,
        forall|j: int| 0 <= j < i ==> (#[trigger] t[j]).0 != name,
    ensures
        position(t, name) == i,
{
    lemma_position_bounds(t, name);
    let p = position(t, name);
    if p < i {
        assert(t[p].0 == name);
    } else if p > i {
        assert(t[i].0 != name);
    }
}

/// What was stored under a name is what a lookup of that name finds.
pub proof fn lemma_lookup_stored(t: Seq<Entry>, name: Seq<char>, value: Seq<char>)
    ensures
        lookup(store(t, name, value), name) == Some(value),
{
    lemma_position_bounds(t, name);
    let i = position(t, name);
    let u = store(t, name, value);
    assert forall|j: int| 0 <= j < i implies (#[trigger] u[j]).0 != name by {
        assert(u[j] == t[j]);
    }
    lemma_position_is(u, name, i);
}

/// Storing under one name leaves every other name as it was.
pub proof fn lemma_lookup_other(t: Seq<Entry>, name: Seq<char>, value: Seq<char>, other: Seq<char>)
    requires
        other != name,
    ensures
        lookup(store(t, name, value), other) == lookup(t, other),
{
    lemma_position_bounds(t, name);
    lemma_position_bounds(t, other);
    let i = position(t, name);
    let k = position(t, other);
    let u = store(t, name, value);
    assert forall|j: int| 0 <= j < k implies (#[trigger] u[j]).0 != other by {
        if j < t.len() {
            if j != i {
                assert(u[j] == t[j]);
            }
        }
    }
    if k < t.len() {
        assert(u[k] == t[k]);
        lemma_position_is(u, other, k);
    } else {
        if i < t.len() {
            lemma_position_is(u, other, k);
        } else {
            assert(u[t.len() as int].0 != other);
            assert forall|j: int| 0 <= j < u.len() implies (#[trigger] u[j]).0 != other by {
                if j < t.len() {
                    assert(u[j] == t[j]);
                }
            }
            lemma_position_is(u, other, u.len() as int);
        }
    }
}

/// A table from names to text.
#[derive(Debug)]
pub struct Table {
    pub entries: Vec<(String, String)>,
}

/// The entries of a table as pairs of texts.
pub open spec fn entry_views(v: Seq<(String, String)>) -> Seq<Entry> {
    Seq::new(v.len(), |i: int| (v[i].0@, v[i].1@))
}

impl View for Table {
    type V = Seq<Entry>;

    open spec fn view(&self) -> Seq<Entry> {
        entry_views(self.entries@)
    }
}

impl Clone for Table {
    fn clone(&self) -> (r: Self)
        ensures
            r@ == self@,
    {
        let mut out: Vec<(String, String)> = Vec::new();
        let mut i: usize = 0;
        while i < self.entries.len()
            invariant
                i <= self.entries.len(),
                out@.len() == i,
                entry_views(out@) == self@.take(i as int),
            decreases self.entries.len() - i,
        {
            let name = self.entries[i].0.clone();
            let value = self.entries[i].1.clone();
            let ghost before = out@;
            out.push((name, value));
            i += 1;
            assert forall|j: int| 0 <= j < i implies entry_views(out@)[j] == self@[j] by {
                if j < i - 1 {
                    assert(out@[j] == before[j]);
                    assert(entry_views(before)[j] == self@.take(i - 1)[j]);
                }
            }
            assert(entry_views(out@) =~= self@.take(i as int));
        }
        assert(self@.take(self.entries.len() as int) =~= self@);
        Table { entries: out }
    }
}

impl Table {
    pub fn new() -> (r: Table)
        ensures
            r@ == Seq::<Entry>::empty(),
    {
        let r = Table { entries: Vec::new() };
        assert(r@ =~= Seq::<Entry>::empty());
        r
    }

    fn find(&self, name: &str) -> (i: usize)
        ensures
            i as int == position(self@, name@),
            i <= self.entries.len(),
    {
        let mut i: usize = 0;
        while i < self.entries.len()
            invariant
                i <= self.entries.len(),
                forall|j: int| 0 <= j < i ==> (#[trigger] self@[j]).0 != name@,
            decreases self.entries.len() - i,
        {
            if same_text(self.entries[i].0.as_str(), name) {
                proof {
                    lemma_position_is(self@, name@, i as int);
                }
                return i;
            }
            i += 1;
        }
        proof {
            lemma_position_is(self@, name@, i as int);
        }
        i
    }

    /// The text stored under `name`, if any.
    pub fn get(&self, name: &str) -> (r: Option<String>)
        ensures
            r is Some == lookup(self@, name@) is Some,
            r is Some ==> r->0@ == lookup(self@, name@)->0,
    {
        let i = self.find(name);
        if i < self.entries.len() {
            Some(self.entries[i].1.clone())
        } else {
            None
        }
    }

    /// Whether anything is stored under `name`.
    pub fn contains(&self, name: &str) -> (r: bool)
        ensures
            r == lookup(self@, name@) is Some,
    {
        let i = self.find(name);
        i < self.entries.len()
    }

    /// Stores `value` under `name`.
    pub fn set(&mut self, name: &str, value: &str)
        ensures
            final(self)@ == store(old(self)@, name@, value@),
    {
        let i = self.find(name);
        if i < self.entries.len() {
            self.entries[i] = (name.to_owned(), value.to_owned());
            assert(self@ =~= store(old(self)@, name@, value@));
        } else {
            self.entries.push((name.to_owned(), value.to_owned()));
            assert(self@ =~= store(old(self)@, name@, value@));
        }
    }
}

} // verus!
