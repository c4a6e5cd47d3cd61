//! Daily weather summaries of one station, as the global summary of the day
//! gives them.
//!
//! A measured quantity is a whole number of thousandths of its unit (see
//! [`crate::range::ONE`]); a geographic coordinate is a whole number of
//! millionths of a degree.

pub use crate::decode::{day_of_fields, day_of_record, field_of, from_record, texts};
pub use crate::station::{DmsError, Location, Station};

use crate::parse::{fixed_of_text, int_of_text, parse_fixed, parse_i32, same_text};
use crate::text::{int_text, push_int};
use crate::time::Date;
use vstd::prelude::*;
use vstd::string::*;

verus! {

/// Whether `c` is white space, as Unicode defines it.
pub open spec fn is_white_space(c: char) -> bool {
    let u = c as int;
    ||| 0x09 <= u <= 0x0d
    ||| u == 0x20
    ||| u == 0x85
    ||| u == 0xa0
    ||| u == 0x1680
    ||| 0x2000 <= u <= 0x200a
    ||| u == 0x2028
    ||| u == 0x2029
    ||| u == 0x202f
    ||| u == 0x205f
    ||| u == 0x3000
}

/// `s` without the white space at its start and at its end.
pub open spec fn trimmed(s: Seq<char>) -> Seq<char>
    decreases s.len(),
{
    if s.len() == 0 {
        s
    } else if is_white_space(s.first()) {
        trimmed(s.drop_first())
    } else if is_white_space(s.last()) {
        trimmed(s.drop_last())
    } else {
        s
    }
}

/// `str::trim`: the part of `s` between its leading and its trailing white
/// space.
#[verifier::external_body]
pub(crate) fn trim(s: &str) -> (t: &str)
    ensures
        t@ == trimmed(s@),
{
    s.trim()
}

/// Why a summary could not be read, as contracts speak of it: a
/// [`GsodError`] with the texts it holds as sequences of characters.
pub enum Fault {
    MissingField(int),
    InvalidNumber(Seq<char>),
    InvalidDate(Seq<char>),
    InvalidPrecipitationAttr(Seq<char>),
    InvalidDeterminedVia(Seq<char>),
    EmptyEntry,
}

/// Why a summary could not be read.
#[derive(Debug, Clone, PartialEq, Eq)]
pub enum GsodError {
    /// The record has no field with this index.
    MissingField(usize),
    /// The text, given here as it was read, is no decimal number, or one too
    /// large to hold.
    InvalidNumber(String),
    /// The text is no date.
    InvalidDate(String),
    /// The text, given here without the white space around it, is none of
    /// the letters that qualify an amount of precipitation.
    InvalidPrecipitationAttr(String),
    /// The text, given here as it was found, says neither that a temperature
    /// was read nor that it was derived.
    InvalidDeterminedVia(String),
    /// There is no record to take the station from.
    EmptyEntry,
}

impl View for GsodError {
    type V = Fault;

    open spec fn view(&self) -> Fault {
        match self {
            GsodError::MissingField(ix) => Fault::MissingField(*ix as int),
            GsodError::InvalidNumber(t) => Fault::InvalidNumber(t@),
            GsodError::InvalidDate(t) => Fault::InvalidDate(t@),
            GsodError::InvalidPrecipitationAttr(t) => Fault::InvalidPrecipitationAttr(t@),
            GsodError::InvalidDeterminedVia(t) => Fault::InvalidDeterminedVia(t@),
            GsodError::EmptyEntry => Fault::EmptyEntry,
        }
    }
}

/// What the error says in words.
pub open spec fn fault_text(f: Fault) -> Seq<char> {
    match f {
        Fault::MissingField(ix) => "missing field "@ + int_text(ix),
        Fault::InvalidNumber(t) => "invalid number: "@ + t,
        Fault::InvalidDate(t) => "invalid date: "@ + t,
        Fault::InvalidPrecipitationAttr(t) => "invalid precipitation attr: "@ + t,
        Fault::InvalidDeterminedVia(t) => "invalid DeterminedVia: "@ + t,
        Fault::EmptyEntry => "empty entry"@,
    }
}

impl GsodError {
    /// What the error says in words.
    pub fn message(&self) -> (m: String)
        ensures
            m@ == fault_text(self@),
    {
        match self {
            GsodError::MissingField(ix) => {
                let mut m = String::from_str("missing field ");
                push_int(&mut m, *ix as i128);
                m
            },
            GsodError::InvalidNumber(t) => {
                let mut m = String::from_str("invalid number: ");
                m.append(t.as_str());
                m
            },
            GsodError::InvalidDate(t) => {
                let mut m = String::from_str("invalid date: ");
                m.append(t.as_str());
                m
            },
            GsodError::InvalidPrecipitationAttr(t) => {
                let mut m = String::from_str("invalid precipitation attr: ");
                m.append(t.as_str());
                m
            },
            GsodError::InvalidDeterminedVia(t) => {
                let mut m = String::from_str("invalid DeterminedVia: ");
                m.append(t.as_str());
                m
            },
            GsodError::EmptyEntry => String::from_str("empty entry"),
        }
    }
}

/// The result `r` is `want`, an error taken by its view.
pub open spec fn agrees<T>(r: Result<T, GsodError>, want: Result<T, Fault>) -> bool {
    match r {
        Ok(v) => want == Ok::<T, Fault>(v),
        Err(e) => want == Err::<T, Fault>(e@),
    }
}

/// The number of thousandths that the decimal numeral `t` stands for.
pub open spec fn number_of(t: Seq<char>) -> Result<i32, Fault> {
    match fixed_of_text(t, 3) {
        Some(v) => if i32::MIN <= v <= i32::MAX {
            Ok(v as i32)
        } else {
            Err(Fault::InvalidNumber(t))
        },
        None => Err(Fault::InvalidNumber(t)),
    }
}

/// The quantity that the field `s` holds, white space around it left aside:
/// none if it holds `missing`, the text that stands for a quantity that was
/// not measured, and else the number of thousandths that it stands for.
pub open spec fn quantity_of(s: Seq<char>, missing: Seq<char>) -> Result<Option<i32>, Fault> {
    let t = trimmed(s);
    if t == missing {
        Ok(None)
    } else {
        match number_of(t) {
            Ok(v) => Ok(Some(v)),
            Err(e) => Err(e),
        }
    }
}

/// The whole number that the field `s` holds, white space around it left
/// aside.
pub open spec fn count_of(s: Seq<char>) -> Result<i32, Fault> {
    match int_of_text(trimmed(s)) {
        Some(v) => if i32::MIN <= v <= i32::MAX {
            Ok(v as i32)
        } else {
            Err(Fault::InvalidNumber(trimmed(s)))
        },
        None => Err(Fault::InvalidNumber(trimmed(s))),
    }
}

/// The quantity that the field `s` holds.
pub(crate) fn quantity(s: &str, missing: &str) -> (r: Result<Option<i32>, GsodError>)
    ensures
        agrees(r, quantity_of(s@, missing@)),
{
    let t = trim(s);
    if same_text(t, missing) {
        return Ok(None);
    }
    match parse_fixed(t, 3) {
        Some(v) => {
            if v >= -0x8000_0000 && v <= 0x7fff_ffff {
                Ok(Some(v as i32))
            } else {
                Err(GsodError::InvalidNumber(String::from_str(t)))
            }
        },
        None => Err(GsodError::InvalidNumber(String::from_str(t))),
    }
}

/// The whole number that the field `s` holds.
pub(crate) fn count(s: &str) -> (r: Result<i32, GsodError>)
    ensures
        agrees(r, count_of(s@)),
{
    let t = trim(s);
    match parse_i32(t) {
        Some(v) => Ok(v),
        None => Err(GsodError::InvalidNumber(String::from_str(t))),
    }
}

/// How the amount of precipitation of a day was arrived at.
#[derive(Debug, Clone, Copy, PartialEq, Eq)]
pub enum PrecipitationAttr {
    SingleOf6HourAmount,
    SummationOf2ReportsOf6HourAmount,
    SummationOf3ReportsOf6HourAmount,
    SummationOf4ReportsOf6HourAmount,
    SingleReportOf12HourAmount,
    SummationOf2ReportsOf12HourAmount,
    SingleReportOf24HourAmount,
    ZeroDespiteHourlyObservations,
    NoReport,
}

impl PrecipitationAttr {
    /// The attribute that the letter `c` stands for.
    pub open spec fn of_letter(c: char) -> Option<PrecipitationAttr> {
        if c == 'A' {
            Some(PrecipitationAttr::SingleOf6HourAmount)
        } else if c == 'B' {
            Some(PrecipitationAttr::SummationOf2ReportsOf6HourAmount)
        } else if c == 'C' {
            Some(PrecipitationAttr::SummationOf3ReportsOf6HourAmount)
        } else if c == 'D' {
            Some(PrecipitationAttr::SummationOf4ReportsOf6HourAmount)
        } else if c == 'E' {
            Some(PrecipitationAttr::SingleReportOf12HourAmount)
        } else if c == 'F' {
            Some(PrecipitationAttr::SummationOf2ReportsOf12HourAmount)
        } else if c == 'G' {
            Some(PrecipitationAttr::SingleReportOf24HourAmount)
        } else if c == 'H' {
            Some(PrecipitationAttr::ZeroDespiteHourlyObservations)
        } else if c == 'I' {
            Some(PrecipitationAttr::NoReport)
        } else {
            None
        }
    }

    /// The letter that stands for the attribute.
    pub open spec fn letter(self) -> char {
        match self {
            PrecipitationAttr::SingleOf6HourAmount => 'A',
            PrecipitationAttr::SummationOf2ReportsOf6HourAmount => 'B',
            PrecipitationAttr::SummationOf3ReportsOf6HourAmount => 'C',
            PrecipitationAttr::SummationOf4ReportsOf6HourAmount => 'D',
            PrecipitationAttr::SingleReportOf12HourAmount => 'E',
            PrecipitationAttr::SummationOf2ReportsOf12HourAmount => 'F',
            PrecipitationAttr::SingleReportOf24HourAmount => 'G',
            PrecipitationAttr::ZeroDespiteHourlyObservations => 'H',
            PrecipitationAttr::NoReport => 'I',
        }
    }

    /// The attribute that `s` names, white space around it left aside: none
    /// for an empty field, the attribute of the letter for one of the letters
    /// `A` to `I`, and an error for anything else.
    pub open spec fn of_gsod(s: Seq<char>) -> Result<Option<PrecipitationAttr>, Fault> {
        let t = trimmed(s);
        if t.len() == 0 {
            Ok(None)
        } else if t.len() == 1 && Self::of_letter(t[0]).is_some() {
            Ok(Self::of_letter(t[0]))
        } else {
            Err(Fault::InvalidPrecipitationAttr(t))
        }
    }

    /// The attribute that `s` names: see [`PrecipitationAttr::of_gsod`].
    pub fn from_gsod(s: &str) -> (r: Result<Option<PrecipitationAttr>, GsodError>)
        ensures
            agrees(r, Self::of_gsod(s@)),
    {
        let t = trim(s);
        let n = t.unicode_len();
        if n == 0 {
            return Ok(None);
        }
        if n == 1 {
            let attr = match t.get_char(0) {
                'A' => Some(PrecipitationAttr::SingleOf6HourAmount),
                'B' => Some(PrecipitationAttr::SummationOf2ReportsOf6HourAmount),
                'C' => Some(PrecipitationAttr::SummationOf3ReportsOf6HourAmount),
                'D' => Some(PrecipitationAttr::SummationOf4ReportsOf6HourAmount),
                'E' => Some(PrecipitationAttr::SingleReportOf12HourAmount),
                'F' => Some(PrecipitationAttr::SummationOf2ReportsOf12HourAmount),
                'G' => Some(PrecipitationAttr::SingleReportOf24HourAmount),
                'H' => Some(PrecipitationAttr::ZeroDespiteHourlyObservations),
                'I' => Some(PrecipitationAttr::NoReport),
                _ => None,
            };
            if attr.is_some() {
                return Ok(attr);
            }
        }
        Err(GsodError::InvalidPrecipitationAttr(String::from_str(t)))
    }

    /// The letter that stands for the attribute.
    pub fn to_char(self) -> (c: char)
        ensures
            c == self.letter(),
            Self::of_letter(c) == Some(self),
    {
        match self {
            PrecipitationAttr::SingleOf6HourAmount => 'A',
            PrecipitationAttr::SummationOf2ReportsOf6HourAmount => 'B',
            PrecipitationAttr::SummationOf3ReportsOf6HourAmount => 'C',
            PrecipitationAttr::SummationOf4ReportsOf6HourAmount => 'D',
            PrecipitationAttr::SingleReportOf12HourAmount => 'E',
            PrecipitationAttr::SummationOf2ReportsOf12HourAmount => 'F',
            PrecipitationAttr::SingleReportOf24HourAmount => 'G',
            PrecipitationAttr::ZeroDespiteHourlyObservations => 'H',
            PrecipitationAttr::NoReport => 'I',
        }
    }
}

/// The amount of precipitation of a day.
#[derive(Debug, Clone, Copy)]
pub struct Precipitation {
    /// Thousandths of an inch.
    pub p: i32,
    pub attr: Option<PrecipitationAttr>,
}

impl Precipitation {
    /// The amount, in thousandths of an inch.
    pub fn in_inches(&self) -> (v: i32)
        ensures
            v == self.p,
    {
        self.p
    }

    /// How the amount was arrived at, where the summary says so.
    pub fn attr(&self) -> (a: Option<PrecipitationAttr>)
        ensures
            a == self.attr,
    {
        self.attr
    }
}

/// The depth of the snow on the ground.
#[derive(Debug, Clone, Copy)]
pub struct SnowDepth {
    /// Thousandths of an inch.
    pub d: i32,
}

impl SnowDepth {
    /// The depth, in thousandths of an inch.
    pub fn in_inches(&self) -> (v: i32)
        ensures
            v == self.d,
    {
        self.d
    }
}

/// Whether an extreme temperature was read as such or derived from the
/// hourly data.
#[derive(Debug, Clone, Copy, PartialEq, Eq)]
pub enum DeterminedVia {
    ExplicitReading,
    DerivedFromHourly,
}

impl DeterminedVia {
    /// The mark that stands for the way: an asterisk for a derived
    /// temperature, nothing for one that was read.
    pub open spec fn mark(self) -> Seq<char> {
        match self {
            DeterminedVia::ExplicitReading => Seq::<char>::empty(),
            DeterminedVia::DerivedFromHourly => seq!['*'],
        }
    }

    /// The way that `s` names, white space around it left aside: read for an
    /// empty field, derived for an asterisk, and an error for anything else.
    pub open spec fn of_gsod(s: Seq<char>) -> Result<DeterminedVia, Fault> {
        if trimmed(s) == DeterminedVia::ExplicitReading.mark() {
            Ok(DeterminedVia::ExplicitReading)
        } else if trimmed(s) == DeterminedVia::DerivedFromHourly.mark() {
            Ok(DeterminedVia::DerivedFromHourly)
        } else {
            Err(Fault::InvalidDeterminedVia(s))
        }
    }

    /// The way that `s` names: see [`DeterminedVia::of_gsod`].
    pub fn from_gsod(s: &str) -> (r: Result<DeterminedVia, GsodError>)
        ensures
            agrees(r, Self::of_gsod(s@)),
    {
        let t = trim(s);
        let n = t.unicode_len();
        if n == 0 {
            assert(t@ =~= DeterminedVia::ExplicitReading.mark());
            return Ok(DeterminedVia::ExplicitReading);
        }
        if n == 1 && t.get_char(0) == '*' {
            assert(t@ =~= DeterminedVia::DerivedFromHourly.mark());
            return Ok(DeterminedVia::DerivedFromHourly);
        }
        assert(t@ != DeterminedVia::DerivedFromHourly.mark()) by {
            if t@ == DeterminedVia::DerivedFromHourly.mark() {
                assert(t@.len() == 1 && t@[0] == '*');
            }
        }
        Err(GsodError::InvalidDeterminedVia(String::from_str(s)))
    }

    /// The mark that stands for the way.
    pub fn to_str(&self) -> (s: &'static str)
        ensures
            s@ == self.mark(),
    {
        match self {
            DeterminedVia::ExplicitReading => {
                proof {
                    reveal_strlit("");
                }
                assert(""@ =~= Seq::<char>::empty());
                ""
            },
            DeterminedVia::DerivedFromHourly => {
                proof {
                    reveal_strlit("*");
                }
                assert("*"@ =~= seq!['*']);
                "*"
            },
        }
    }
}

/// A temperature.
#[derive(Debug, Copy, Clone)]
pub struct Temperature {
    /// Thousandths of a degree Fahrenheit.
    pub f: i32,
}

/// The temperature in thousandths of a degree Celsius that is nearest to `f`
/// thousandths of a degree Fahrenheit: five ninths of what `f` lies above
/// the freezing point of water.
pub open spec fn celsius_of(f: int) -> int {
    (10 * (f - 32 * 1000) + 9) / 18
}

impl Temperature {
    /// The temperature of `f` thousandths of a degree Fahrenheit.
    pub fn from_fahrenheit(f: i32) -> (t: Temperature)
        ensures
            t.f == f,
    {
        Temperature { f }
    }

    /// The temperature, in thousandths of a degree Fahrenheit.
    pub fn in_fahrenheit(&self) -> (v: i32)
        ensures
            v == self.f,
    {
        self.f
    }

    /// The temperature, in thousandths of a degree Celsius, to the nearest
    /// thousandth.
    pub fn in_celsius(&self) -> (v: i32)
        ensures
            v == celsius_of(self.f as int),
    {
        let x: i64 = 10 * (self.f as i64 - 32000) + 9;
        let q: i128 = crate::arith::floor_div(x as i128, 18);
        q as i32
    }
}

/// An extreme temperature of a day, with the way it was determined.
#[derive(Debug, Clone, Copy)]
pub struct TemperatureExtremity {
    pub t: Temperature,
    pub d: DeterminedVia,
}

impl TemperatureExtremity {
    /// The temperature `t`, determined in the way `d`.
    pub fn new(t: Temperature, d: DeterminedVia) -> (e: TemperatureExtremity)
        ensures
            e.t == t,
            e.d == d,
    {
        TemperatureExtremity { t, d }
    }

    /// The temperature.
    pub fn temperature(&self) -> (t: Temperature)
        ensures
            t == self.t,
    {
        self.t
    }

    /// The temperature, in thousandths of a degree Fahrenheit.
    pub fn in_fahrenheit(&self) -> (v: i32)
        ensures
            v == self.t.f,
    {
        self.t.in_fahrenheit()
    }

    /// The temperature, in thousandths of a degree Celsius.
    pub fn in_celsius(&self) -> (v: i32)
        ensures
            v == celsius_of(self.t.f as int),
    {
        self.t.in_celsius()
    }
}

/// A wind speed.
#[derive(Debug, Clone, Copy)]
pub struct WindSpeed {
    /// Thousandths of a knot.
    pub s: i32,
}

impl WindSpeed {
    /// The speed of `s` thousandths of a knot.
    pub fn from_knots(s: i32) -> (w: WindSpeed)
        ensures
            w.s == s,
    {
        WindSpeed { s }
    }

    /// The speed, in thousandths of a knot.
    pub fn in_knots(&self) -> (v: i32)
        ensures
            v == self.s,
    {
        self.s
    }
}

/// The mean wind speed of a day, with the number of observations it is the
/// mean of.
#[derive(Debug, Clone, Copy)]
pub struct MeanWindSpeed {
    pub s: WindSpeed,
    pub n: i32,
}

impl MeanWindSpeed {
    /// The mean `s` of `n` observations.
    pub fn new(s: WindSpeed, n: i32) -> (m: MeanWindSpeed)
        ensures
            m.s == s,
            m.n == n,
    {
        MeanWindSpeed { s, n }
    }

    /// The speed, in thousandths of a knot.
    pub fn in_knots(&self) -> (v: i32)
        ensures
            v == self.s.s,
    {
        self.s.in_knots()
    }
}

/// A distance.
#[derive(Debug, Clone, Copy)]
pub struct Distance {
    /// Thousandths of a mile.
    pub m: i32,
}

impl Distance {
    /// The distance of `m` thousandths of a mile.
    pub fn from_miles(m: i32) -> (d: Distance)
        ensures
            d.m == m,
    {
        Distance { m }
    }

    /// The distance, in thousandths of a mile.
    pub fn in_miles(&self) -> (v: i32)
        ensures
            v == self.m,
    {
        self.m
    }
}

/// The mean visibility of a day, with the number of observations it is the
/// mean of.
#[derive(Debug, Clone, Copy)]
pub struct MeanDistance {
    pub d: Distance,
    pub n: i32,
}

impl MeanDistance {
    /// The mean `d` of `n` observations.
    pub fn new(d: Distance, n: i32) -> (m: MeanDistance)
        ensures
            m.d == d,
            m.n == n,
    {
        MeanDistance { d, n }
    }
}

/// An air pressure.
#[derive(Debug, Copy, Clone)]
pub struct Pressure {
    /// Thousandths of a millibar.
    pub p: i32,
}

impl Pressure {
    /// The pressure of `p` thousandths of a millibar.
    pub fn from_millibars(p: i32) -> (r: Pressure)
        ensures
            r.p == p,
    {
        Pressure { p }
    }

    /// The pressure, in thousandths of a millibar.
    pub fn in_millibars(&self) -> (v: i32)
        ensures
            v == self.p,
    {
        self.p
    }
}

/// The mean pressure of a day, with the number of observations it is the mean
/// of.
#[derive(Debug, Clone, Copy)]
pub struct MeanPressure {
    pub p: Pressure,
    pub n: i32,
}

impl MeanPressure {
    /// The mean `p` of `n` observations.
    pub fn new(p: Pressure, n: i32) -> (m: MeanPressure)
        ensures
            m.p == p,
            m.n == n,
    {
        MeanPressure { p, n }
    }
}

/// The mean temperature of a day, with the number of observations it is the
/// mean of.
#[derive(Debug, Clone, Copy)]
pub struct MeanTemperature {
    pub t: Temperature,
    pub n: i32,
}

impl MeanTemperature {
    /// The mean `t` of `n` observations.
    pub fn new(t: Temperature, n: i32) -> (m: MeanTemperature)
        ensures
            m.t == t,
            m.n == n,
    {
        MeanTemperature { t, n }
    }

    /// The temperature, in thousandths of a degree Fahrenheit.
    pub fn in_fahrenheit(&self) -> (v: i32)
        ensures
            v == self.t.f,
    {
        self.t.in_fahrenheit()
    }

    /// The temperature, in thousandths of a degree Celsius.
    pub fn in_celsius(&self) -> (v: i32)
        ensures
            v == celsius_of(self.t.f as int),
    {
        self.t.in_celsius()
    }

    /// The number of observations.
    pub fn samples(&self) -> (n: i32)
        ensures
            n == self.n,
    {
        self.n
    }

    /// The temperature.
    pub fn temperature(&self) -> (t: Temperature)
        ensures
            t == self.t,
    {
        self.t
    }
}

/// The height of a station above the sea.
#[derive(Debug, Clone, Copy)]
pub struct Elevation {
    /// Thousandths of a metre.
    pub m: i32,
}

impl Elevation {
    /// The elevation of `m` thousandths of a metre.
    pub fn new(m: i32) -> (e: Elevation)
        ensures
            e.m == m,
    {
        Elevation { m }
    }

    /// The elevation, in thousandths of a metre.
    pub fn in_meters(&self) -> (v: i32)
        ensures
            v == self.m,
    {
        self.m
    }
}

/// The summary of one day.
#[derive(Debug, Clone, Copy)]
pub struct Day {
    pub day: Date,
    pub mean_temperature: Option<MeanTemperature>,
    pub mean_dewpoint: Option<MeanTemperature>,
    pub mean_sea_level_pressure: Option<MeanPressure>,
    pub mean_station_pressure: Option<MeanPressure>,
    pub mean_visibility: Option<MeanDistance>,
    pub mean_wind: Option<MeanWindSpeed>,
    pub max_sustained_wind: Option<WindSpeed>,
    pub max_wind_gust: Option<WindSpeed>,
    pub max_temperature: Option<TemperatureExtremity>,
    pub min_temperature: Option<TemperatureExtremity>,
    pub precipitation: Option<Precipitation>,
    pub snow_depth: Option<SnowDepth>,
}

impl Day {
    /// The summary of the day `day` in which nothing was measured.
    pub fn new(day: Date) -> (d: Day)
        ensures
            d.day == day,
            d.mean_temperature.is_none(),
            d.mean_dewpoint.is_none(),
            d.mean_sea_level_pressure.is_none(),
            d.mean_station_pressure.is_none(),
            d.mean_visibility.is_none(),
            d.mean_wind.is_none(),
            d.max_sustained_wind.is_none(),
            d.max_wind_gust.is_none(),
            d.max_temperature.is_none(),
            d.min_temperature.is_none(),
            d.precipitation.is_none(),
            d.snow_depth.is_none(),
    {
        Day {
            day,
            mean_temperature: None,
            mean_dewpoint: None,
            mean_sea_level_pressure: None,
            mean_station_pressure: None,
            mean_visibility: None,
            mean_wind: None,
            max_sustained_wind: None,
            max_wind_gust: None,
            max_temperature: None,
            min_temperature: None,
            precipitation: None,
            snow_depth: None,
        }
    }

    /// The day that is summed up.
    pub fn date(&self) -> (d: Date)
        ensures
            d == self.day,
    {
        self.day
    }

    /// The maximum temperature of the day, if it was measured.
    pub fn max_temperature(&self) -> (t: Option<&TemperatureExtremity>)
        ensures
            t.is_some() == self.max_temperature.is_some(),
            t matches Some(v) ==> *v == self.max_temperature.unwrap(),
    {
        self.max_temperature.as_ref()
    }

    /// The minimum temperature of the day, if it was measured.
    pub fn min_temperature(&self) -> (t: Option<&TemperatureExtremity>)
        ensures
            t.is_some() == self.min_temperature.is_some(),
            t matches Some(v) ==> *v == self.min_temperature.unwrap(),
    {
        self.min_temperature.as_ref()
    }

    /// The mean temperature of the day, if it was measured.
    pub fn mean_temperature(&self) -> (t: Option<&MeanTemperature>)
        ensures
            t.is_some() == self.mean_temperature.is_some(),
            t matches Some(v) ==> *v == self.mean_temperature.unwrap(),
    {
        self.mean_temperature.as_ref()
    }

    /// The mean wind speed of the day, if it was measured.
    pub fn mean_wind(&self) -> (w: Option<&MeanWindSpeed>)
        ensures
            w.is_some() == self.mean_wind.is_some(),
            w matches Some(v) ==> *v == self.mean_wind.unwrap(),
    {
        self.mean_wind.as_ref()
    }

    /// The greatest sustained wind speed of the day, if it was measured.
    pub fn max_sustained_wind(&self) -> (w: Option<&WindSpeed>)
        ensures
            w.is_some() == self.max_sustained_wind.is_some(),
            w matches Some(v) ==> *v == self.max_sustained_wind.unwrap(),
    {
        self.max_sustained_wind.as_ref()
    }

    /// The precipitation of the day, if it was measured.
    pub fn precipitation(&self) -> (p: Option<&Precipitation>)
        ensures
            p.is_some() == self.precipitation.is_some(),
            p matches Some(v) ==> *v == self.precipitation.unwrap(),
    {
        self.precipitation.as_ref()
    }
}

/// The address of the archive that holds the summaries of all stations for
/// `year`.
pub fn url_for(year: i32) -> (url: String)
    ensures
        url@ == "https://www.ncei.noaa.gov/data/global-summary-of-the-day/archive/"@ + int_text(
            year as int,
        ) + ".tar.gz"@,
{
    let mut url = String::from_str(
        "https://www.ncei.noaa.gov/data/global-summary-of-the-day/archive/",
    );
    push_int(&mut url, year as i128);
    url.append(".tar.gz");
    url
}

} // verus!
