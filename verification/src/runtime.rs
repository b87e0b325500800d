//! How long a command ran, in words.

use vstd::prelude::*;
use crate::text::{decimal, join, join_strings, lemma_texts_empty, lemma_texts_push, push_decimal, texts};

verus! {

/// A count followed by a space and a unit name, `plural` when the count is
/// above one and `singular` otherwise.
pub open spec fn counted(n: nat, singular: Seq<char>, plural: Seq<char>) -> Seq<char> {
    decimal(n) + seq![' '] + (if n > 1 {
        plural
    } else {
        singular
    })
}

/// A count immediately followed by a short unit.
pub open spec fn tagged(n: nat, unit: Seq<char>) -> Seq<char> {
    decimal(n) + unit
}

/// `part` as a one-element list when `n` is positive, nothing otherwise.
pub open spec fn when_positive(n: nat, part: Seq<char>) -> Seq<Seq<char>> {
    if n > 0 {
        seq![part]
    } else {
        Seq::empty()
    }
}

/// A duration split into calendar-like units, largest last.
pub struct Breakdown {
    pub micros: nat,
    pub millis: nat,
    pub seconds: nat,
    pub minutes: nat,
    pub hours: nat,
    pub days: nat,
    pub weeks: nat,
    pub months: nat,
    pub years: nat,
    pub decades: nat,
    pub centuries: nat,
    pub millennia: nat,
    pub epochs: nat,
    pub aeons: nat,
}

/// Splits a number of microseconds into units.
///
/// Every unit holds what is left after the next larger one took its share,
/// with two exceptions: months keep counting past twelve once years appear,
/// and epochs are reduced modulo the number of aeons rather than modulo one
/// thousand.
pub open spec fn breakdown(micros: nat) -> Breakdown {
    let millis = micros / 1000;
    let seconds = millis / 1000;
    let minutes = seconds / 60;
    let hours = minutes / 60;
    let days = hours / 24;
    let weeks = days / 7;
    let months = weeks / 4;
    let years = months / 12;
    let decades = years / 10;
    let centuries = decades / 10;
    let millennia = centuries / 10;
    let epochs = millennia / 1000;
    let aeons = epochs / 1000;
    Breakdown {
        micros: micros % 1000,
        millis: millis % 1000,
        seconds: seconds % 60,
        minutes: minutes % 60,
        hours: hours % 24,
        days: days % 7,
        weeks: weeks % 4,
        months,
        years: years % 10,
        decades: decades % 10,
        centuries: centuries % 10,
        millennia: millennia % 1000,
        epochs: if aeons > 0 {
            epochs % aeons
        } else {
            epochs
        },
        aeons,
    }
}

/// The words for every unit from aeons down to milliseconds that is not zero.
pub open spec fn coarse_parts(b: Breakdown) -> Seq<Seq<char>> {
    when_positive(b.aeons, counted(b.aeons, "aeon"@, "aeons"@))
        + when_positive(b.epochs, counted(b.epochs, "epoch"@, "epochs"@))
        + when_positive(b.millennia, counted(b.millennia, "millennia"@, "millennium"@))
        + when_positive(b.centuries, counted(b.centuries, "century"@, "centuries"@))
        + when_positive(b.decades, counted(b.decades, "decade"@, "decades"@))
        + when_positive(b.years, counted(b.years, "year"@, "years"@))
        + when_positive(b.months, counted(b.months, "month"@, "months"@))
        + when_positive(b.weeks, counted(b.weeks, "week"@, "weeks"@))
        + when_positive(b.days, counted(b.days, "day"@, "days"@))
        + when_positive(b.hours, tagged(b.hours, "h"@))
        + when_positive(b.minutes, tagged(b.minutes, "m"@))
        + when_positive(b.seconds, tagged(b.seconds, "s"@))
        + when_positive(b.millis, tagged(b.millis, "ms"@))
}

/// The words of a duration: the coarse parts, or the microseconds alone when
/// nothing coarser is left to say.
pub open spec fn runtime_parts(micros: nat) -> Seq<Seq<char>> {
    let b = breakdown(micros);
    if coarse_parts(b).len() == 0 && b.micros > 0 {
        seq![tagged(b.micros, "µs"@)]
    } else {
        coarse_parts(b)
    }
}

fn push_counted(parts: &mut Vec<String>, n: u128, singular: &str, plural: &str)
    ensures
        texts(final(parts)@) == texts(old(parts)@) + when_positive(
            n as nat,
            counted(n as nat, singular@, plural@),
        ),
{
    if n > 0 {
        let mut s = String::new();
        push_decimal(&mut s, n);
        s.push(' ');
        if n > 1 {
            s.append(plural);
        } else {
            s.append(singular);
        }
        assert(s@ =~= counted(n as nat, singular@, plural@));
        proof {
            lemma_texts_push(parts@, s);
        }
        parts.push(s);
        assert(texts(parts@) =~= texts(old(parts)@) + when_positive(
            n as nat,
            counted(n as nat, singular@, plural@),
        ));
    } else {
        assert(texts(parts@) =~= texts(old(parts)@) + when_positive(
            n as nat,
            counted(n as nat, singular@, plural@),
        ));
    }
}

fn push_tagged(parts: &mut Vec<String>, n: u128, unit: &str)
    ensures
        texts(final(parts)@) == texts(old(parts)@) + when_positive(
            n as nat,
            tagged(n as nat, unit@),
        ),
{
    if n > 0 {
        let mut s = String::new();
        push_decimal(&mut s, n);
        s.append(unit);
        assert(s@ =~= tagged(n as nat, unit@));
        proof {
            lemma_texts_push(parts@, s);
        }
        parts.push(s);
        assert(texts(parts@) =~= texts(old(parts)@) + when_positive(
            n as nat,
            tagged(n as nat, unit@),
        ));
    } else {
        assert(texts(parts@) =~= texts(old(parts)@) + when_positive(
            n as nat,
            tagged(n as nat, unit@),
        ));
    }
}

/// Renders a run time, given in microseconds, as words separated by single
/// spaces: the largest units first, each left out when it is zero.
/// Microseconds are shown only when the run time is below one millisecond,
/// and a run time of zero gives the empty string.
pub fn format_cmd_runtime(micros: u128) -> (r: String)
    ensures
        r@ == join(runtime_parts(micros as nat), " "@),
{
    let millis = micros / 1000;
    let seconds = millis / 1000;
    let minutes = seconds / 60;
    let hours = minutes / 60;
    let days = hours / 24;
    let weeks = days / 7;
    let months = weeks / 4;
    let years = months / 12;
    let decades = years / 10;
    let centuries = decades / 10;
    let millennia = centuries / 10;
    let epochs = millennia / 1000;
    let aeons = epochs / 1000;
    let epochs_left = if aeons > 0 {
        epochs % aeons
    } else {
        epochs
    };
    let ghost b = breakdown(micros as nat);

    let mut parts: Vec<String> = Vec::new();
    proof {
        lemma_texts_empty();
    }
    push_counted(&mut parts, aeons, "aeon", "aeons");
    push_counted(&mut parts, epochs_left, "epoch", "epochs");
    push_counted(&mut parts, millennia % 1000, "millennia", "millennium");
    push_counted(&mut parts, centuries % 10, "century", "centuries");
    push_counted(&mut parts, decades % 10, "decade", "decades");
    push_counted(&mut parts, years % 10, "year", "years");
    push_counted(&mut parts, months, "month", "months");
    push_counted(&mut parts, weeks % 4, "week", "weeks");
    push_counted(&mut parts, days % 7, "day", "days");
    push_tagged(&mut parts, hours % 24, "h");
    push_tagged(&mut parts, minutes % 60, "m");
    push_tagged(&mut parts, seconds % 60, "s");
    push_tagged(&mut parts, millis % 1000, "ms");
    assert(texts(parts@) =~= coarse_parts(b));
    if parts.len() == 0 && micros % 1000 > 0 {
        push_tagged(&mut parts, micros % 1000, "µs");
        assert(texts(parts@) =~= runtime_parts(micros as nat));
    }
    join_strings(&parts, " ")
}

} // verus!
