//! Calendar values: dates of the proleptic Gregorian calendar, and the years,
//! months and days built on them.
//!
//! The arithmetic on dates is done by `chrono`. Each call into it goes through a
//! private function of this module whose contract is stated over the calendar
//! functions below and is taken on trust; everything else is proved from those
//! contracts.

use chrono::{Datelike, Duration, NaiveDate};
use vstd::prelude::*;

verus! {

/// The earliest year a [`Date`] can lie in.
pub const MIN_YEAR: i32 = -262143;

/// The latest year a [`Date`] can lie in.
pub const MAX_YEAR: i32 = 262142;

/// Whether `y` is a leap year of the Gregorian calendar.
pub open spec fn is_leap_year(y: int) -> bool {
    y % 4 == 0 && (y % 100 != 0 || y % 400 == 0)
}

/// The number of days of year `y`.
pub open spec fn days_in_year(y: int) -> int {
    if is_leap_year(y) {
        366
    } else {
        365
    }
}

/// The number of days of month `m` (1 to 12) of year `y`.
pub open spec fn days_in_month(y: int, m: int) -> int {
    if m == 2 {
        if is_leap_year(y) {
            29
        } else {
            28
        }
    } else if m == 4 || m == 6 || m == 9 || m == 11 {
        30
    } else {
        31
    }
}

/// The number of days of year `y` that lie before the first of month `m`.
pub open spec fn days_before_month(y: int, m: int) -> int {
    let common: int = if m <= 1 {
        0
    } else if m == 2 {
        31
    } else if m == 3 {
        59
    } else if m == 4 {
        90
    } else if m == 5 {
        120
    } else if m == 6 {
        151
    } else if m == 7 {
        181
    } else if m == 8 {
        212
    } else if m == 9 {
        243
    } else if m == 10 {
        273
    } else if m == 11 {
        304
    } else {
        334
    };
    if m > 2 && is_leap_year(y) {
        common + 1
    } else {
        common
    }
}

/// The number of days between the first of January of year 1 and the first of
/// January of year `y` (negative for `y < 1`).
pub open spec fn days_before_year(y: int) -> int {
    let p: int = y - 1;
    365 * p + p / 4 - p / 100 + p / 400
}

/// Whether year `y`, month `m` and day `d` name a day that a [`Date`] can hold.
pub open spec fn valid_ymd(y: int, m: int, d: int) -> bool {
    &&& MIN_YEAR <= y <= MAX_YEAR
    &&& 1 <= m <= 12
    &&& 1 <= d <= days_in_month(y, m)
}

/// Whether year `y` has a day with the one-based day-of-year `o` that a
/// [`Date`] can hold.
pub open spec fn valid_yo(y: int, o: int) -> bool {
    &&& MIN_YEAR <= y <= MAX_YEAR
    &&& 1 <= o <= days_in_year(y)
}

/// A calendar date: year, month (1 to 12) and day of the month (from 1).
///
/// Every value is an existing day between the first of January of
/// [`MIN_YEAR`] and the last of December of [`MAX_YEAR`].
#[derive(Debug, Clone, Copy, PartialEq, Eq, PartialOrd, Ord, Hash)]
pub struct Date {
    year: i32,
    month: u32,
    day: u32,
}

impl Date {
    /// The year.
    pub closed spec fn spec_year(&self) -> i32 {
        self.year
    }

    /// The month, from 1 for January.
    pub closed spec fn spec_month(&self) -> u32 {
        self.month
    }

    /// The day of the month, from 1.
    pub closed spec fn spec_day(&self) -> u32 {
        self.day
    }

    /// The date names an existing day within the supported years.
    #[verifier::type_invariant]
    pub open spec fn wf(self) -> bool {
        valid_ymd(self.year() as int, self.month() as int, self.day() as int)
    }

    /// The one-based day of the year.
    pub open spec fn spec_ordinal(self) -> int {
        days_before_month(self.year() as int, self.month() as int) + self.day()
    }

    /// The number of the day, counted from the first of January of year 1,
    /// which has number 1.
    pub open spec fn day_number(self) -> int {
        days_before_year(self.year() as int) + self.spec_ordinal()
    }

    /// `self` is the first of January of its year.
    pub open spec fn is_new_year(self) -> bool {
        self.month() == 1 && self.day() == 1
    }

    /// `self` is the calendar day that comes directly after `prev`.
    pub open spec fn follows(self, prev: Date) -> bool {
        if prev.day() < days_in_month(prev.year() as int, prev.month() as int) {
            self.year() == prev.year() && self.month() == prev.month() && self.day() == prev.day()
                + 1
        } else if prev.month() < 12 {
            self.year() == prev.year() && self.month() == prev.month() + 1 && self.day() == 1
        } else {
            self.year() == prev.year() + 1 && self.month() == 1 && self.day() == 1
        }
    }

    /// `self` is the last day that a `Date` can hold.
    pub open spec fn is_last(self) -> bool {
        self.year() == MAX_YEAR && self.month() == 12 && self.day() == 31
    }

    /// `self` is the first day that a `Date` can hold.
    pub open spec fn is_first(self) -> bool {
        self.year() == MIN_YEAR && self.month() == 1 && self.day() == 1
    }

    /// The date with this year, month and day.
    pub closed spec fn of(year: int, month: int, day: int) -> Date {
        Date { year: year as i32, month: month as u32, day: day as u32 }
    }

    /// The date that `s` stands for in the form year, month, day with
    /// hyphens between them, as `2023-01-31`, if it stands for one.
    pub fn parse(s: &str) -> (r: Option<Date>)
        ensures
            match r {
                Some(d) => iso_date_of_text(s@) == Some(
                    (d.year() as int, d.month() as int, d.day() as int),
                ) && d == Date::of(d.year() as int, d.month() as int, d.day() as int),
                None => iso_date_of_text(s@).is_none(),
            },
    {
        naive_parse(s)
    }

    /// The date of day `day` of month `month` of year `year`, if there is such
    /// a day within the supported years.
    pub fn from_ymd_opt(year: i32, month: u32, day: u32) -> (r: Option<Date>)
        ensures
            r.is_some() == valid_ymd(year as int, month as int, day as int),
            r matches Some(d) ==> d.year() == year && d.month() == month && d.day() == day,
    {
        naive_from_ymd(year, month, day)
    }

    /// The date of the `ordinal`-th day of year `year`, if there is such a day
    /// within the supported years.
    pub fn from_yo_opt(year: i32, ordinal: u32) -> (r: Option<Date>)
        ensures
            r.is_some() == valid_yo(year as int, ordinal as int),
            r matches Some(d) ==> d.wf() && d.year() == year && d.spec_ordinal() == ordinal,
    {
        naive_from_yo(year, ordinal)
    }

    /// The year.
    #[verifier::when_used_as_spec(spec_year)]
    pub fn year(&self) -> (y: i32)
        ensures
            y == self.spec_year(),
            MIN_YEAR <= y <= MAX_YEAR,
    {
        proof {
            use_type_invariant(self);
        }
        self.year
    }

    /// The month, from 1 for January.
    #[verifier::when_used_as_spec(spec_month)]
    pub fn month(&self) -> (m: u32)
        ensures
            m == self.spec_month(),
            1 <= m <= 12,
    {
        proof {
            use_type_invariant(self);
        }
        self.month
    }

    /// The day of the month, from 1.
    #[verifier::when_used_as_spec(spec_day)]
    pub fn day(&self) -> (d: u32)
        ensures
            d == self.spec_day(),
            1 <= d <= 31,
    {
        proof {
            use_type_invariant(self);
        }
        self.day
    }

    /// The one-based day of the year.
    pub fn ordinal(&self) -> (o: u32)
        ensures
            o == self.spec_ordinal(),
            1 <= o <= days_in_year(self.year() as int),
    {
        proof {
            use_type_invariant(self);
        }
        naive_ordinal(*self)
    }

    /// The next calendar day.
    pub fn succ(&self) -> (r: Date)
        requires
            !self.is_last(),
        ensures
            r.follows(*self),
            r.day_number() == self.day_number() + 1,
    {
        proof {
            use_type_invariant(self);
        }
        let r = naive_succ(*self);
        proof {
            lemma_follows_day_number(*self, r);
        }
        r
    }

    /// The previous calendar day.
    pub fn pred(&self) -> (r: Date)
        requires
            !self.is_first(),
        ensures
            self.follows(r),
            r.day_number() == self.day_number() - 1,
    {
        proof {
            use_type_invariant(self);
        }
        let r = naive_pred(*self);
        proof {
            lemma_follows_day_number(r, *self);
        }
        r
    }

    /// The number of days from `earlier` to `self`; negative if `self` is the
    /// earlier of the two.
    pub fn days_since(&self, earlier: &Date) -> (n: i64)
        ensures
            n == self.day_number() - earlier.day_number(),
    {
        proof {
            use_type_invariant(self);
            use_type_invariant(earlier);
        }
        naive_days_since(*self, *earlier)
    }

    /// Whether the two dates are the same day.
    pub fn same_day(&self, other: &Date) -> (b: bool)
        ensures
            b == (*self == *other),
            b == (self.day_number() == other.day_number()),
    {
        proof {
            use_type_invariant(self);
            use_type_invariant(other);
            lemma_day_number_orders(*self, *other);
            lemma_day_number_orders(*other, *self);
        }
        self.year == other.year && self.month == other.month && self.day == other.day
    }
}

/// The date that `NaiveDate::parse_from_str` reads from a text in the form
/// year, month, day with hyphens between them (`%Y-%m-%d`), as year, month
/// and day; `None` where it reads none.
pub uninterp spec fn iso_date_of_text(s: Seq<char>) -> Option<(int, int, int)>;

/// `NaiveDate::parse_from_str` with the format `%Y-%m-%d`: the date that the
/// text stands for, if it stands for one.
#[verifier::external_body]
fn naive_parse(s: &str) -> (r: Option<Date>)
    ensures
        match r {
            Some(d) => d.wf() && iso_date_of_text(s@) == Some(
                (d.year() as int, d.month() as int, d.day() as int),
            ),
            None => iso_date_of_text(s@).is_none(),
        },
{
    match NaiveDate::parse_from_str(s, "%Y-%m-%d") {
        Ok(n) => Some(Date { year: n.year(), month: n.month(), day: n.day() }),
        Err(_) => None,
    }
}

/// `NaiveDate::from_ymd_opt`: `Some` exactly for an existing day of a year
/// between `MIN_YEAR` and `MAX_YEAR`, and then the date with these three fields.
#[verifier::external_body]
fn naive_from_ymd(year: i32, month: u32, day: u32) -> (r: Option<Date>)
    ensures
        r.is_some() == valid_ymd(year as int, month as int, day as int),
        r matches Some(d) ==> d.year() == year && d.month() == month && d.day() == day,
{
    match NaiveDate::from_ymd_opt(year, month, day) {
        Some(n) => Some(Date { year: n.year(), month: n.month(), day: n.day() }),
        None => None,
    }
}

/// `NaiveDate::from_yo_opt`: `Some` exactly for an existing day-of-year of a
/// year between `MIN_YEAR` and `MAX_YEAR`, and then the date of that year with
/// that day-of-year.
#[verifier::external_body]
fn naive_from_yo(year: i32, ordinal: u32) -> (r: Option<Date>)
    ensures
        r.is_some() == valid_yo(year as int, ordinal as int),
        r matches Some(d) ==> d.wf() && d.year() == year && d.spec_ordinal() == ordinal,
{
    match NaiveDate::from_yo_opt(year, ordinal) {
        Some(n) => Some(Date { year: n.year(), month: n.month(), day: n.day() }),
        None => None,
    }
}

/// `Datelike::ordinal` of `NaiveDate`: the day of the year, counted from 1.
#[verifier::external_body]
fn naive_ordinal(d: Date) -> (o: u32)
    requires
        d.wf(),
    ensures
        o == d.spec_ordinal(),
{
    NaiveDate::from_ymd_opt(d.year, d.month, d.day).unwrap().ordinal()
}

/// `NaiveDate + Duration::days(1)`: the next calendar day. The sum panics past
/// the last supported day, which `requires` leaves out.
#[verifier::external_body]
fn naive_succ(d: Date) -> (r: Date)
    requires
        d.wf(),
        !d.is_last(),
    ensures
        r.wf(),
        r.follows(d),
{
    let n = NaiveDate::from_ymd_opt(d.year, d.month, d.day).unwrap() + Duration::days(1);
    Date { year: n.year(), month: n.month(), day: n.day() }
}

/// `NaiveDate - Duration::days(1)`: the previous calendar day. The difference
/// panics before the first supported day, which `requires` leaves out.
#[verifier::external_body]
fn naive_pred(d: Date) -> (r: Date)
    requires
        d.wf(),
        !d.is_first(),
    ensures
        r.wf(),
        d.follows(r),
{
    let n = NaiveDate::from_ymd_opt(d.year, d.month, d.day).unwrap() - Duration::days(1);
    Date { year: n.year(), month: n.month(), day: n.day() }
}

/// `NaiveDate::signed_duration_since` followed by `num_days`: the number of
/// days from `b` to `a`.
#[verifier::external_body]
fn naive_days_since(a: Date, b: Date) -> (n: i64)
    requires
        a.wf(),
        b.wf(),
    ensures
        n == a.day_number() - b.day_number(),
{
    let x = NaiveDate::from_ymd_opt(a.year, a.month, a.day).unwrap();
    let y = NaiveDate::from_ymd_opt(b.year, b.month, b.day).unwrap();
    x.signed_duration_since(y).num_days()
}

/// The quotient by `d` steps up by one at each multiple of `d`, and only
/// there.
proof fn lemma_quotient_step(x: int, d: int)
    requires
        d > 0,
    ensures
        x / d - (x - 1) / d == if x % d == 0 {
            1int
        } else {
            0int
        },
{
    vstd::arithmetic::div_mod::lemma_fundamental_div_mod(x, d);
    let q = x / d;
    let r = x % d;
    if r == 0 {
        assert(x - 1 == (q - 1) * d + (d - 1)) by (nonlinear_arith)
            requires
                x == d * q + r,
                r == 0,
        ;
        vstd::arithmetic::div_mod::lemma_fundamental_div_mod_converse(x - 1, d, q - 1, d - 1);
    } else {
        assert(x - 1 == q * d + (r - 1)) by (nonlinear_arith)
            requires
                x == d * q + r,
        ;
        vstd::arithmetic::div_mod::lemma_fundamental_div_mod_converse(x - 1, d, q, r - 1);
    }
}

/// A year is 365 or 366 days long: the first of January of the next year is
/// that many days after the first of January of this one.
pub proof fn lemma_year_length(y: int)
    ensures
        days_before_year(y + 1) == days_before_year(y) + days_in_year(y),
{
    lemma_quotient_step(y, 4);
    lemma_quotient_step(y, 100);
    lemma_quotient_step(y, 400);
}

/// The day of the year of an existing day lies within the year.
pub proof fn lemma_ordinal_bounds(d: Date)
    requires
        d.wf(),
    ensures
        1 <= d.spec_ordinal() <= days_in_year(d.year() as int),
        d.spec_ordinal() == 1 <==> d.is_new_year(),
{
}

/// The day after `prev` has the next day number; within a year it has the next
/// day-of-year, and after the last day of a year it is the first of January.
pub proof fn lemma_follows_day_number(prev: Date, next: Date)
    requires
        prev.wf(),
        next.follows(prev),
    ensures
        next.day_number() == prev.day_number() + 1,
        next.year() == prev.year() ==> next.spec_ordinal() == prev.spec_ordinal() + 1,
        next.year() != prev.year() ==> next.year() == prev.year() + 1 && next.is_new_year()
            && prev.spec_ordinal() == days_in_year(prev.year() as int),
{
    lemma_year_length(prev.year() as int);
}

/// A date is the date of its year, month and day.
pub proof fn lemma_date_of(d: Date)
    ensures
        Date::of(d.year() as int, d.month() as int, d.day() as int) == d,
{
}

/// Years do not overlap: a later year starts after every day of an earlier one.
pub proof fn lemma_years_ordered(y1: int, y2: int)
    requires
        y1 < y2,
    ensures
        days_before_year(y1) + days_in_year(y1) <= days_before_year(y2),
    decreases y2 - y1,
{
    lemma_year_length(y1);
    if y1 + 1 < y2 {
        lemma_years_ordered(y1 + 1, y2);
    }
}

/// Day numbers follow the calendar: a date is the same as, or earlier than,
/// another exactly when its day number is.
pub proof fn lemma_day_number_orders(a: Date, b: Date)
    requires
        a.wf(),
        b.wf(),
    ensures
        a.day_number() == b.day_number() <==> a == b,
        a.day_number() < b.day_number() <==> (a.year() < b.year() || (a.year() == b.year() && (
        a.month() < b.month() || (a.month() == b.month() && a.day() < b.day())))),
{
    lemma_ordinal_bounds(a);
    lemma_ordinal_bounds(b);
    if a.year() < b.year() {
        lemma_years_ordered(a.year() as int, b.year() as int);
    } else if b.year() < a.year() {
        lemma_years_ordered(b.year() as int, a.year() as int);
    }
}

/// A calendar year, known by the day it is counted from (the first of January,
/// unless it was made by [`Year::from_start`] from another day).
#[derive(Debug, Clone, Copy, PartialEq, PartialOrd, Eq, Ord)]
pub struct Year {
    start: Date,
}

impl Year {
    /// The day that is counted from.
    pub closed spec fn spec_start(&self) -> Date {
        self.start
    }

    /// The number of the year.
    pub open spec fn spec_ordinal(&self) -> i32 {
        self.start().year()
    }

    /// The year that `start` lies in, counted from `start`.
    pub fn from_start(start: Date) -> (y: Year)
        ensures
            y.start() == start,
    {
        Year { start }
    }

    /// Year number `ord`, counted from its first of January.
    pub fn from_ordinal(ord: i32) -> (y: Year)
        requires
            MIN_YEAR <= ord <= MAX_YEAR,
        ensures
            y.ordinal() == ord,
            y.start().is_new_year(),
    {
        let start = Date::from_yo_opt(ord, 1);
        proof {
            lemma_ordinal_bounds(start.unwrap());
        }
        Year { start: start.unwrap() }
    }

    /// The day the year is counted from.
    #[verifier::when_used_as_spec(spec_start)]
    pub fn start(&self) -> (d: Date)
        ensures
            d == self.spec_start(),
    {
        self.start
    }

    /// The first day after the year: the first of January of the next year.
    pub fn end(&self) -> (d: Date)
        requires
            self.ordinal() < MAX_YEAR,
        ensures
            d.year() == self.ordinal() + 1,
            d.is_new_year(),
            d.day_number() == days_before_year(self.ordinal() + 1) + 1,
    {
        let y = self.start.year();
        let d = Date::from_yo_opt(y + 1, 1);
        proof {
            lemma_ordinal_bounds(d.unwrap());
        }
        d.unwrap()
    }

    /// The number of days from [`Year::start`] to [`Year::end`]: 365 or 366
    /// for a year counted from its first of January.
    pub fn duration(&self) -> (n: i64)
        requires
            self.ordinal() < MAX_YEAR,
        ensures
            n == days_in_year(self.ordinal() as int) - self.start().spec_ordinal() + 1,
            self.start().is_new_year() ==> n == days_in_year(self.ordinal() as int),
            1 <= n <= 366,
    {
        let end = self.end();
        proof {
            use_type_invariant(&self.start);
            lemma_ordinal_bounds(self.start);
            lemma_year_length(self.ordinal() as int);
        }
        end.days_since(&self.start)
    }

    /// The year after this one, counted from its first of January.
    pub fn next(&self) -> (y: Year)
        requires
            self.ordinal() < MAX_YEAR,
        ensures
            y.ordinal() == self.ordinal() + 1,
            y.start().is_new_year(),
    {
        let y = self.start.year();
        Self::from_ordinal(y + 1)
    }

    /// The days from [`Year::start`] up to, not including, [`Year::end`].
    pub fn days(&self) -> (it: DaysIter)
        requires
            self.ordinal() < MAX_YEAR,
        ensures
            it.wf(),
            it.spec_cur().date() == self.start(),
            it.spec_end().date().is_new_year(),
            it.spec_end().date().year() == self.ordinal() + 1,
            it.remaining() == days_in_year(self.ordinal() as int) - self.start().spec_ordinal() + 1,
    {
        let end = self.end();
        proof {
            use_type_invariant(&self.start);
            lemma_ordinal_bounds(self.start);
            lemma_year_length(self.ordinal() as int);
        }
        DaysIter { cur: Day::new(self.start), end: Day::new(end) }
    }

    /// The months from the one [`Year::start`] lies in up to December.
    pub fn months(&self) -> (it: MonthsIter)
        requires
            self.ordinal() < MAX_YEAR,
        ensures
            it.wf(),
            it.spec_cur().start() == self.start(),
            it.spec_end().start().is_new_year(),
            it.spec_end().start().year() == self.ordinal() + 1,
            it.remaining() == 13 - self.start().month(),
    {
        let end = self.end();
        proof {
            use_type_invariant(&self.start);
            lemma_day_number_orders(self.start, end);
        }
        MonthsIter { cur: Month::from_start(self.start), end: Month::from_start(end) }
    }

    /// The number of the year.
    #[verifier::when_used_as_spec(spec_ordinal)]
    pub fn ordinal(&self) -> (y: i32)
        ensures
            y == self.spec_ordinal(),
            MIN_YEAR <= y <= MAX_YEAR,
    {
        self.start.year()
    }
}

/// A calendar month, known by the day it is counted from (the first of the
/// month, unless it was made by [`Month::from_start`] from another day).
#[derive(Debug, Clone, Copy)]
pub struct Month {
    start: Date,
}

impl Month {
    /// The day that is counted from.
    pub closed spec fn spec_start(&self) -> Date {
        self.start
    }

    /// The month is December of the last supported year, after which no month
    /// can be held.
    pub open spec fn is_last(&self) -> bool {
        self.start().year() == MAX_YEAR && self.start().month() == 12
    }

    /// The month that `start` lies in, counted from `start`.
    pub fn from_start(start: Date) -> (m: Month)
        ensures
            m.start() == start,
    {
        Month { start }
    }

    /// The day the month is counted from.
    #[verifier::when_used_as_spec(spec_start)]
    pub fn start(&self) -> (d: Date)
        ensures
            d == self.spec_start(),
    {
        self.start
    }

    /// The first day after the month: the first of the next month, which after
    /// December is the first of January of the next year.
    pub fn end(&self) -> (d: Date)
        requires
            !self.is_last(),
        ensures
            d.day() == 1,
            self.start().month() == 12 ==> d.year() == self.start().year() + 1 && d.month() == 1,
            self.start().month() != 12 ==> d.year() == self.start().year() && d.month()
                == self.start().month() + 1,
            d.day_number() == self.start().day_number() + days_in_month(
                self.start().year() as int,
                self.start().month() as int,
            ) - self.start().day() + 1,
    {
        let year = self.start.year();
        let month = self.start.month();
        let d = if month == 12 {
            Date::from_ymd_opt(year + 1, 1, 1)
        } else {
            Date::from_ymd_opt(year, month + 1, 1)
        };
        proof {
            use_type_invariant(&self.start);
            lemma_year_length(year as int);
        }
        d.unwrap()
    }

    /// The number of days from [`Month::start`] to [`Month::end`]: the length
    /// of the month, for a month counted from its first day.
    pub fn duration(&self) -> (n: i64)
        requires
            !self.is_last(),
        ensures
            n == days_in_month(self.start().year() as int, self.start().month() as int)
                - self.start().day() + 1,
            1 <= n <= 31,
    {
        let end = self.end();
        proof {
            use_type_invariant(&self.start);
        }
        end.days_since(&self.start)
    }

    /// The year the month lies in, counted from its first of January.
    pub fn year(&self) -> (y: Year)
        ensures
            y.ordinal() == self.start().year(),
            y.start().is_new_year(),
    {
        Year::from_ordinal(self.start.year())
    }

    /// `self` is the month after `prev`, counted from its first day.
    pub open spec fn succeeds(&self, prev: Month) -> bool {
        &&& self.start().day() == 1
        &&& prev.start().month() == 12 ==> self.start().year() == prev.start().year() + 1
            && self.start().month() == 1
        &&& prev.start().month() != 12 ==> self.start().year() == prev.start().year()
            && self.start().month() == prev.start().month() + 1
    }

    /// The month after this one, counted from its first day.
    pub fn next(&self) -> (m: Month)
        requires
            !self.is_last(),
        ensures
            m.succeeds(*self),
    {
        Month::from_start(self.end())
    }

    /// The days from [`Month::start`] up to, not including, [`Month::end`].
    pub fn days(&self) -> (it: DaysIter)
        requires
            !self.is_last(),
        ensures
            it.wf(),
            it.spec_cur().date() == self.start(),
            it.remaining() == days_in_month(self.start().year() as int, self.start().month() as int)
                - self.start().day() + 1,
    {
        let end = self.end();
        proof {
            use_type_invariant(&self.start);
        }
        DaysIter { cur: Day::new(self.start), end: Day::new(end) }
    }
}

/// One calendar day.
#[derive(Debug, Clone, Copy)]
pub struct Day {
    t: Date,
}

impl Day {
    /// The date of the day.
    pub closed spec fn spec_date(&self) -> Date {
        self.t
    }

    /// The day of date `t`.
    pub fn new(t: Date) -> (d: Day)
        ensures
            d.date() == t,
    {
        Day { t }
    }

    /// The date of the day.
    #[verifier::when_used_as_spec(spec_date)]
    pub fn date(&self) -> (t: Date)
        ensures
            t == self.spec_date(),
    {
        self.t
    }

    /// The one-based day of the year, which counts the 29th of February in a
    /// leap year.
    pub fn ordinal(&self) -> (o: u32)
        ensures
            o == self.date().spec_ordinal(),
            1 <= o <= days_in_year(self.date().year() as int),
    {
        self.t.ordinal()
    }

    /// The month the day lies in, counted from its first day.
    pub fn month(&self) -> (m: Month)
        ensures
            m.start().year() == self.date().year(),
            m.start().month() == self.date().month(),
            m.start().day() == 1,
    {
        let first = Date::from_ymd_opt(self.t.year(), self.t.month(), 1);
        Month::from_start(first.unwrap())
    }

    /// The year the day lies in, counted from its first of January.
    pub fn year(&self) -> (y: Year)
        ensures
            y.ordinal() == self.date().year(),
            y.start().is_new_year(),
    {
        Year::from_ordinal(self.t.year())
    }

    /// The day after this one.
    pub fn next(&self) -> (d: Day)
        requires
            !self.date().is_last(),
        ensures
            d.date().follows(self.date()),
            d.date().day_number() == self.date().day_number() + 1,
    {
        Day::new(self.t.succ())
    }

    /// The day before this one.
    pub fn prev(&self) -> (d: Day)
        requires
            !self.date().is_first(),
        ensures
            self.date().follows(d.date()),
            d.date().day_number() == self.date().day_number() - 1,
    {
        Day::new(self.t.pred())
    }
}

/// The days from one day up to, not including, a later one, in calendar order.
pub struct DaysIter {
    cur: Day,
    end: Day,
}

impl DaysIter {
    /// The day that [`DaysIter::next`] hands out next, unless it is
    /// [`DaysIter::spec_end`].
    pub closed spec fn spec_cur(&self) -> Day {
        self.cur
    }

    /// The day at which the iteration stops.
    pub closed spec fn spec_end(&self) -> Day {
        self.end
    }

    /// The number of days still to come.
    pub open spec fn remaining(&self) -> int {
        self.spec_end().date().day_number() - self.spec_cur().date().day_number()
    }

    /// The iteration does not start after its end.
    #[verifier::type_invariant]
    pub open spec fn wf(&self) -> bool {
        &&& self.spec_cur().date().wf()
        &&& self.spec_end().date().wf()
        &&& self.remaining() >= 0
    }

    /// The next day, or `None` once the end is reached.
    pub fn next(&mut self) -> (r: Option<Day>)
        ensures
            final(self).spec_end() == old(self).spec_end(),
            old(self).remaining() == 0 ==> r.is_none() && final(self).spec_cur() == old(
                self
            ).spec_cur(),
            old(self).remaining() != 0 ==> r == Some(old(self).spec_cur()) && final(
                self
            ).spec_cur().date().follows(old(self).spec_cur().date()) && final(self).remaining()
                == old(self).remaining() - 1,
    {
        proof {
            use_type_invariant(&*self);
            lemma_day_number_orders(self.cur.date(), self.end.date());
        }
        let cur = self.cur;
        if !cur.t.same_day(&self.end.t) {
            self.cur = cur.next();
            Some(cur)
        } else {
            None
        }
    }
}

/// The months from one month up to, not including, a later one, in calendar
/// order.
pub struct MonthsIter {
    cur: Month,
    end: Month,
}

impl MonthsIter {
    /// The month that [`MonthsIter::next`] hands out next, unless it starts on
    /// the day [`MonthsIter::spec_end`] does.
    pub closed spec fn spec_cur(&self) -> Month {
        self.cur
    }

    /// The month at which the iteration stops.
    pub closed spec fn spec_end(&self) -> Month {
        self.end
    }

    /// The number of months still to come.
    pub open spec fn remaining(&self) -> int {
        (self.spec_end().start().year() - self.spec_cur().start().year()) * 12 + (
        self.spec_end().start().month() - self.spec_cur().start().month())
    }

    /// The iteration stops at a month counted from its first day, and does not
    /// start after it.
    #[verifier::type_invariant]
    pub open spec fn wf(&self) -> bool {
        &&& self.spec_cur().start().wf()
        &&& self.spec_end().start().wf()
        &&& self.spec_end().start().day() == 1
        &&& self.spec_cur().start().day_number() <= self.spec_end().start().day_number()
    }

    /// The next month, or `None` once the end is reached.
    pub fn next(&mut self) -> (r: Option<Month>)
        ensures
            final(self).spec_end() == old(self).spec_end(),
            old(self).remaining() >= 0,
            old(self).remaining() == 0 ==> r.is_none() && final(self).spec_cur() == old(
                self
            ).spec_cur(),
            old(self).remaining() != 0 ==> r == Some(old(self).spec_cur()) && final(
                self
            ).spec_cur().succeeds(old(self).spec_cur()) && final(self).remaining() == old(
                self
            ).remaining() - 1,
    {
        proof {
            use_type_invariant(&*self);
            lemma_day_number_orders(self.cur.start(), self.end.start());
        }
        let cur = self.cur;
        if !cur.start.same_day(&self.end.start) {
            let next = cur.next();
            proof {
                lemma_day_number_orders(next.start(), self.end.start());
            }
            self.cur = next;
            Some(cur)
        } else {
            None
        }
    }
}

} // verus!
