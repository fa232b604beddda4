use vstd::prelude::*;
use crate::number::{is_digit, is_mantissa};
use crate::text::{
    ends_with, is_white_space, split, split_seq, text_contains, text_ends_with, trim, trim_all, trim_each,
    trimmed, views,
};

verus! {

/// The unit that a timecount value is written in.
#[derive(Clone, Copy, Debug, PartialEq, Eq, Structural)]
pub enum ClockUnit {
    Milliseconds,
    Seconds,
    Minutes,
    Hours,
}

/// The structure of an SMIL clock value; the numbers in it are kept as text.
#[derive(Debug, PartialEq)]
pub enum ClockValue {
    /// A number with an optional unit (`"250ms"`, `"1.5"`, `"2min"`).
    Timecount { number: String, unit: ClockUnit },
    /// A full or partial clock `"[[hh:]mm:]ss(.fff)"`: its fields, trimmed.
    Clock { fields: Vec<String> },
}

/// The mathematical model of a clock value.
pub enum ClockModel {
    Timecount(Seq<char>, ClockUnit),
    Clock(Seq<Seq<char>>),
}

impl View for ClockValue {
    type V = ClockModel;

    open spec fn view(&self) -> ClockModel {
        match self {
            ClockValue::Timecount { number, unit } => ClockModel::Timecount(number@, *unit),
            ClockValue::Clock { fields } => ClockModel::Clock(views(fields@)),
        }
    }
}

/// The model of an optional clock value.
pub open spec fn clock_view(v: Option<ClockValue>) -> Option<ClockModel> {
    match v {
        Some(c) => Some(c@),
        None => None,
    }
}

/// `t` with its last `k` characters removed and the rest trimmed.
pub open spec fn before_suffix(t: Seq<char>, k: int) -> Seq<char> {
    trimmed(t.subrange(0, t.len() - k))
}

/// What an SMIL clock value says: `"1.5"`, `"250ms"`, `"1s"`, `"2min"`,
/// `"1h"`, or a clock `"[[hh:]mm:]ss(.fff)"`; `None` for empty text.
pub open spec fn clock_value_of(text: Seq<char>) -> Option<ClockModel> {
    let t = trimmed(text);
    if t.len() == 0 {
        None
    } else if ends_with(t, seq!['m', 's']) {
        Some(ClockModel::Timecount(before_suffix(t, 2), ClockUnit::Milliseconds))
    } else if ends_with(t, seq!['m', 'i', 'n']) {
        Some(ClockModel::Timecount(before_suffix(t, 3), ClockUnit::Minutes))
    } else if ends_with(t, seq!['s']) {
        Some(ClockModel::Timecount(before_suffix(t, 1), ClockUnit::Seconds))
    } else if ends_with(t, seq!['h']) {
        Some(ClockModel::Timecount(before_suffix(t, 1), ClockUnit::Hours))
    } else if t.contains(':') {
        Some(ClockModel::Clock(trim_each(split_seq(t, seq![':']))))
    } else {
        Some(ClockModel::Timecount(t, ClockUnit::Seconds))
    }
}

/// A clock value reads the same with or without white space around it.
pub proof fn law_clock_value_ignores_surrounding_space(text: Seq<char>)
    ensures
        clock_value_of(trimmed(text)) == clock_value_of(text),
{
    crate::text::lemma_trimmed_idempotent(text);
}

/// Text that starts and ends with no white space is already trimmed.
pub proof fn lemma_trimmed_when_no_outer_space(s: Seq<char>)
    requires
        s.len() > 0,
        !is_white_space(s[0]),
        !is_white_space(s.last()),
    ensures
        trimmed(s) == s,
{
}

/// A number followed by a unit reads as that number in that unit: `ms`
/// milliseconds, `s` seconds, `min` minutes, `h` hours, and no unit seconds.
pub proof fn law_timecount_units(number: Seq<char>)
    requires
        is_mantissa(number),
    ensures
        clock_value_of(number + seq!['m', 's']) == Some(
            ClockModel::Timecount(number, ClockUnit::Milliseconds),
        ),
        clock_value_of(number + seq!['s']) == Some(ClockModel::Timecount(number, ClockUnit::Seconds)),
        clock_value_of(number + seq!['m', 'i', 'n']) == Some(
            ClockModel::Timecount(number, ClockUnit::Minutes),
        ),
        clock_value_of(number + seq!['h']) == Some(ClockModel::Timecount(number, ClockUnit::Hours)),
        clock_value_of(number) == Some(ClockModel::Timecount(number, ClockUnit::Seconds)),
{
    let n = number.len();
    assert(is_digit(number[0]) || number[0] == '.');
    assert(is_digit(number[n - 1]) || number[n - 1] == '.');
    lemma_trimmed_when_no_outer_space(number);
    assert(!number.contains(':')) by {
        if number.contains(':') {
            let k = choose|k: int| 0 <= k < n && number[k] == ':';
            assert(is_digit(number[k]) || number[k] == '.');
        }
    }
    let ms = number + seq!['m', 's'];
    lemma_trimmed_when_no_outer_space(ms);
    assert(ms.subrange(ms.len() - 2, ms.len() as int) =~= seq!['m', 's']);
    assert(ms.subrange(0, ms.len() - 2) =~= number);
    let sec = number + seq!['s'];
    lemma_trimmed_when_no_outer_space(sec);
    assert(sec.subrange(sec.len() - 2, sec.len() as int)[0] == number[n - 1]);
    assert(sec.subrange(sec.len() - 1, sec.len() as int) =~= seq!['s']);
    assert(sec.subrange(0, sec.len() - 1) =~= number);
    let min = number + seq!['m', 'i', 'n'];
    lemma_trimmed_when_no_outer_space(min);
    assert(min.subrange(min.len() - 2, min.len() as int)[1] == 'n');
    assert(min.subrange(min.len() - 3, min.len() as int) =~= seq!['m', 'i', 'n']);
    assert(min.subrange(0, min.len() - 3) =~= number);
    let hour = number + seq!['h'];
    lemma_trimmed_when_no_outer_space(hour);
    assert(hour.subrange(hour.len() - 2, hour.len() as int)[1] == 'h');
    if hour.len() >= 3 {
        assert(hour.subrange(hour.len() - 3, hour.len() as int)[2] == 'h');
    }
    assert(hour.subrange(hour.len() - 1, hour.len() as int)[0] == 'h');
    assert(hour.subrange(hour.len() - 1, hour.len() as int) =~= seq!['h']);
    assert(hour.subrange(0, hour.len() - 1) =~= number);
    if n >= 2 {
        assert(number.subrange(n - 2, n as int)[1] == number[n - 1]);
    }
    if n >= 3 {
        assert(number.subrange(n - 3, n as int)[2] == number[n - 1]);
    }
    assert(number.subrange(n - 1, n as int)[0] == number[n - 1]);
}

/// Appending text without separators extends the last piece of a split.
pub proof fn lemma_split_append_plain(s: Seq<char>, t: Seq<char>, seps: Seq<char>)
    requires
        forall|i: int| 0 <= i < t.len() ==> !seps.contains(#[trigger] t[i]),
    ensures
        split_seq(s + t, seps) == split_seq(s, seps).update(
            split_seq(s, seps).len() - 1,
            split_seq(s, seps).last() + t,
        ),
    decreases t.len(),
{
    crate::text::lemma_split_nonempty(s, seps);
    let p = split_seq(s, seps);
    if t.len() == 0 {
        assert(s + t =~= s);
        assert(p.last() + t =~= p.last());
        assert(p.update(p.len() - 1, p.last() + t) =~= p);
    } else {
        let u = t.drop_last();
        lemma_split_append_plain(s, u, seps);
        assert((s + t).drop_last() =~= s + u);
        assert((s + t).last() == t.last());
        assert(!seps.contains(t[t.len() - 1]));
        assert((p.last() + u).push(t.last()) =~= p.last() + t);
        assert(split_seq(s + t, seps) =~= p.update(p.len() - 1, p.last() + t));
    }
}

/// Two numbers joined by a colon read as a clock of those two fields
/// (`01:30` is one minute and thirty seconds).
pub proof fn law_clock_fields(minutes: Seq<char>, seconds: Seq<char>)
    requires
        is_mantissa(minutes),
        is_mantissa(seconds),
    ensures
        clock_value_of(minutes + seq![':'] + seconds) == Some(
            ClockModel::Clock(seq![minutes, seconds]),
        ),
{
    let colon = seq![':'];
    let t = minutes + colon + seconds;
    let n = seconds.len();
    assert(is_digit(minutes[0]) || minutes[0] == '.');
    assert(is_digit(minutes[minutes.len() - 1]) || minutes[minutes.len() - 1] == '.');
    assert(is_digit(seconds[0]) || seconds[0] == '.');
    assert(is_digit(seconds[n - 1]) || seconds[n - 1] == '.');
    assert(t[0] == minutes[0]);
    assert(t.last() == seconds[n - 1]);
    lemma_trimmed_when_no_outer_space(t);
    lemma_trimmed_when_no_outer_space(minutes);
    lemma_trimmed_when_no_outer_space(seconds);
    assert forall|i: int| 0 <= i < minutes.len() implies !colon.contains(#[trigger] minutes[i]) by {
        assert(is_digit(minutes[i]) || minutes[i] == '.');
        if colon.contains(minutes[i]) {
            let k = choose|k: int| 0 <= k < 1 && colon[k] == minutes[i];
            assert(colon[k] == ':');
        }
    }
    assert forall|i: int| 0 <= i < n implies !colon.contains(#[trigger] seconds[i]) by {
        assert(is_digit(seconds[i]) || seconds[i] == '.');
        if colon.contains(seconds[i]) {
            let k = choose|k: int| 0 <= k < 1 && colon[k] == seconds[i];
            assert(colon[k] == ':');
        }
    }
    crate::element::lemma_split_without_separator(minutes, colon);
    assert((minutes + colon).drop_last() =~= minutes);
    assert(colon.contains((minutes + colon).last()));
    assert(split_seq(minutes + colon, colon) =~= seq![minutes, Seq::<char>::empty()]);
    lemma_split_append_plain(minutes + colon, seconds, colon);
    assert(Seq::<char>::empty() + seconds =~= seconds);
    assert(split_seq(t, colon) =~= seq![minutes, seconds]);
    assert(trim_each(seq![minutes, seconds]) =~= seq![minutes, seconds]);
    assert(t[minutes.len() as int] == ':');
    assert(t.contains(':'));
    assert(t.subrange(t.len() - 3, t.len() as int)[2] == seconds[n - 1]);
    assert(t.subrange(t.len() - 1, t.len() as int)[0] == seconds[n - 1]);
    assert(t.subrange(t.len() - 2, t.len() as int)[1] == seconds[n - 1]);
}

/// The number before a suffix of `k` characters, trimmed.
fn number_before_suffix(t: &str, k: usize) -> (r: String)
    requires
        k <= t@.len(),
    ensures
        r@ == before_suffix(t@, k as int),
{
    let n = t.unicode_len();
    trim(t.substring_char(0, n - k)).to_owned()
}

/// Parses an SMIL clock value into its unit and number text.
pub fn parse_clock_value(text: &str) -> (r: Option<ClockValue>)
    ensures
        clock_view(r) == clock_value_of(text@),
{
    let t = trim(text);
    if t.unicode_len() == 0 {
        return None;
    }
    let ms = ['m', 's'];
    let min = ['m', 'i', 'n'];
    let s = ['s'];
    let h = ['h'];
    let colon = [':'];
    assert(ms@ =~= seq!['m', 's']);
    assert(min@ =~= seq!['m', 'i', 'n']);
    assert(s@ =~= seq!['s']);
    assert(h@ =~= seq!['h']);
    assert(colon@ =~= seq![':']);
    if text_ends_with(t, &ms) {
        Some(ClockValue::Timecount { number: number_before_suffix(t, 2), unit: ClockUnit::Milliseconds })
    } else if text_ends_with(t, &min) {
        Some(ClockValue::Timecount { number: number_before_suffix(t, 3), unit: ClockUnit::Minutes })
    } else if text_ends_with(t, &s) {
        Some(ClockValue::Timecount { number: number_before_suffix(t, 1), unit: ClockUnit::Seconds })
    } else if text_ends_with(t, &h) {
        Some(ClockValue::Timecount { number: number_before_suffix(t, 1), unit: ClockUnit::Hours })
    } else if text_contains(t, ':') {
        let fields = trim_all(&split(t, &colon));
        Some(ClockValue::Clock { fields })
    } else {
        Some(ClockValue::Timecount { number: t.to_owned(), unit: ClockUnit::Seconds })
    }
}

} // verus!
