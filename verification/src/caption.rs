//! The words of the header and of the labels: dates, years and the names
//! of months and stations.

use crate::text::{at_least, int_text, nat_text, push_at_least, push_char, push_int, push_nat};
use crate::time::{lemma_date_of, Date, Day, Month, Year, MAX_YEAR};
use vstd::prelude::*;
use vstd::string::*;

verus! {

/// The three letters that stand for month `m`.
pub open spec fn month_name(m: int) -> Seq<char> {
    if m == 1 {
        "Jan"@
    } else if m == 2 {
        "Feb"@
    } else if m == 3 {
        "Mar"@
    } else if m == 4 {
        "Apr"@
    } else if m == 5 {
        "May"@
    } else if m == 6 {
        "Jun"@
    } else if m == 7 {
        "Jul"@
    } else if m == 8 {
        "Aug"@
    } else if m == 9 {
        "Sep"@
    } else if m == 10 {
        "Oct"@
    } else if m == 11 {
        "Nov"@
    } else {
        "Dec"@
    }
}

/// The three letters that stand for month `m`.
pub fn month_abbr(m: u32) -> (name: &'static str)
    ensures
        name@ == month_name(m as int),
{
    if m == 1 {
        "Jan"
    } else if m == 2 {
        "Feb"
    } else if m == 3 {
        "Mar"
    } else if m == 4 {
        "Apr"
    } else if m == 5 {
        "May"
    } else if m == 6 {
        "Jun"
    } else if m == 7 {
        "Jul"
    } else if m == 8 {
        "Aug"
    } else if m == 9 {
        "Sep"
    } else if m == 10 {
        "Oct"
    } else if m == 11 {
        "Nov"
    } else {
        "Dec"
    }
}

/// The number of a year as dates show it: four digits or more for the years
/// 0 to 9999, and a sign before them for all others.
pub open spec fn year_text(y: int) -> Seq<char> {
    if 0 <= y <= 9999 {
        at_least(y as nat, 4)
    } else if y < 0 {
        seq!['-'] + at_least((-y) as nat, 4)
    } else {
        seq!['+'] + at_least(y as nat, 4)
    }
}

/// A date as year, month and day with hyphens between them, month and day
/// in two digits: `2023-01-31`.
pub open spec fn date_text(d: Date) -> Seq<char> {
    year_text(d.year() as int) + seq!['-'] + at_least(d.month() as nat, 2) + seq!['-'] + at_least(
        d.day() as nat,
        2,
    )
}

/// A date in words: the letters of the month, the day, a comma and the
/// year, as `Jan 31, 2023`.
pub open spec fn spoken_date(d: Date) -> Seq<char> {
    month_name(d.month() as int) + seq![' '] + nat_text(d.day() as nat) + ", "@ + year_text(
        d.year() as int,
    )
}

/// Adds the number of the year `y` to the end of `s`, as dates show it.
fn push_year(s: &mut String, y: i32)
    ensures
        final(s)@ == old(s)@ + year_text(y as int),
{
    if 0 <= y && y <= 9999 {
        push_at_least(s, y as u128, 4);
    } else if y < 0 {
        push_char(s, '-');
        push_at_least(s, (-(y as i64)) as u128, 4);
        assert(final(s)@ =~= old(s)@ + year_text(y as int));
    } else {
        push_char(s, '+');
        push_at_least(s, y as u128, 4);
        assert(final(s)@ =~= old(s)@ + year_text(y as int));
    }
}

/// Adds the date `d` in words to the end of `s`.
fn push_spoken(s: &mut String, d: &Date)
    ensures
        final(s)@ == old(s)@ + spoken_date(*d),
{
    s.append(month_abbr(d.month()));
    push_char(s, ' ');
    push_nat(s, d.day() as u128);
    s.append(", ");
    push_year(s, d.year());
    assert(final(s)@ =~= old(s)@ + spoken_date(*d));
}

impl Date {
    /// The date as `2023-01-31`.
    pub fn to_string(&self) -> (s: String)
        ensures
            s@ == date_text(*self),
    {
        let mut s = String::new();
        push_year(&mut s, self.year());
        push_char(&mut s, '-');
        push_at_least(&mut s, self.month() as u128, 2);
        push_char(&mut s, '-');
        push_at_least(&mut s, self.day() as u128, 2);
        assert(s@ =~= date_text(*self));
        s
    }
}

impl Year {
    /// The number of the year.
    pub fn to_string(&self) -> (s: String)
        ensures
            s@ == int_text(self.ordinal() as int),
    {
        let mut s = String::new();
        push_int(&mut s, self.ordinal() as i128);
        assert(s@ =~= int_text(self.ordinal() as int));
        s
    }
}

impl Month {
    /// The day the month is counted from, as `2023-01-01`.
    pub fn to_string(&self) -> (s: String)
        ensures
            s@ == date_text(self.start()),
    {
        self.start().to_string()
    }
}

impl Day {
    /// The date of the day, as `2023-01-31`.
    pub fn to_string(&self) -> (s: String)
        ensures
            s@ == date_text(self.date()),
    {
        self.date().to_string()
    }
}

/// The year in words: the day it is counted from and its last day, the 31st
/// of December, a dash between them, as `Jan 1, 2023 – Dec 31, 2023`.
pub fn describe_year(year: Year) -> (s: String)
    requires
        year.ordinal() < MAX_YEAR,
    ensures
        s@ == spoken_date(year.start()) + " – "@ + spoken_date(
            Date::of(year.ordinal() as int, 12, 31),
        ),
{
    let start = year.start();
    let end = year.end();
    proof {
        use_type_invariant(&start);
    }
    let last = Day::new(end).prev().date();
    proof {
        use_type_invariant(&last);
        lemma_date_of(last);
    }
    let mut s = String::new();
    push_spoken(&mut s, &start);
    s.append(" – ");
    push_spoken(&mut s, &last);
    proof {
        assert(s@ =~= spoken_date(start) + " – "@ + spoken_date(last));
    }
    s
}

/// `s` with `to` in place of `from` wherever `from` stands in it, from the
/// left, a place taken once no longer counting for the next.
pub open spec fn replaced(s: Seq<char>, from: Seq<char>, to: Seq<char>) -> Seq<char>
    decreases s.len(),
{
    if from.len() == 0 || s.len() < from.len() {
        s
    } else if s.take(from.len() as int) == from {
        to + replaced(s.skip(from.len() as int), from, to)
    } else {
        seq![s[0]] + replaced(s.skip(1), from, to)
    }
}

/// `str::replace`: `s` with `to` in place of every match of `from`, the
/// matches found from the left and not overlapping. An empty `from`, which
/// matches between all characters, is left out.
#[verifier::external_body]
fn replace(s: &str, from: &str, to: &str) -> (r: String)
    requires
        from@.len() > 0,
    ensures
        r@ == replaced(s@, from@, to@),
{
    s.replace(from, to)
}

/// The name of a station as the header shows it: with `INTL` for
/// `INTERNATIONAL`.
pub fn shorten_station_name(name: &str) -> (s: String)
    ensures
        s@ == replaced(name@, "INTERNATIONAL"@, "INTL"@),
{
    proof {
        reveal_strlit("INTERNATIONAL");
    }
    replace(name, "INTERNATIONAL", "INTL")
}

} // verus!
