//! A weather station: where it lies, and the summaries of its days.

use crate::decode::{day_of_record, field_of, from_record, one, texts, two};
use crate::gsod::{agrees, Day, Elevation, Fault, GsodError};
use crate::parse::{fixed_of_text, int_of_text, parse_fixed, parse_i32};
use crate::text::{at_least, push_at_least, push_char};
use vstd::prelude::*;
use vstd::string::*;

verus! {

/// Degrees, minutes and seconds of the angle of `v` millionths of a degree,
/// its sign left aside, to the nearest second.
pub open spec fn dms_of(v: int) -> (int, int, int) {
    let a = if v < 0 {
        -v
    } else {
        v
    };
    let d = a / 1_000_000;
    let m = ((a % 1_000_000) * 60) / 1_000_000;
    let s = ((((a % 1_000_000) * 60) % 1_000_000) * 60 + 500_000) / 1_000_000;
    if s != 60 {
        (d, m, s)
    } else if m + 1 != 60 {
        (d, m + 1, 0)
    } else {
        (d + 1, 0, 0)
    }
}

/// The angle of `v` millionths of a degree in degrees, minutes and seconds,
/// with at least `width` digits of degrees, followed by the letter of the
/// hemisphere: `below` for a negative angle and `above` for any other.
pub open spec fn angle_text(v: int, width: nat, below: char, above: char) -> Seq<char> {
    at_least(dms_of(v).0 as nat, width) + seq!['°'] + at_least(dms_of(v).1 as nat, 2) + seq!['′']
        + at_least(dms_of(v).2 as nat, 2) + seq!['″'] + seq![if v < 0 {
        below
    } else {
        above
    }]
}

/// The number of millionths of a degree nearest to `d` degrees, `m` minutes
/// and `s` seconds.
pub open spec fn degrees_of(d: int, m: int, s: int) -> int {
    (5000 * (d * 3600 + m * 60 + s) + 9) / 18
}

/// Why a text in degrees, minutes and seconds gives no location.
#[derive(Debug, Clone, PartialEq, Eq)]
pub enum DmsError {
    /// The text does not hold two angles in degrees, minutes and seconds
    /// with the letters of their hemispheres.
    NoMatch,
    /// One of the eight parts of the two angles is missing.
    MissingCapture,
    /// The digits, given here, stand for a number too large to hold.
    Number(String),
    /// The first angle is neither north nor south.
    Latitude,
    /// The second angle is neither east nor west.
    Longitude,
}

/// The regular expression of two angles in degrees, minutes and seconds, the
/// first north or south and the second east or west, with one group for each
/// of the degrees, the minutes, the seconds and the letter of the hemisphere
/// of either angle.
pub open spec fn dms_pattern() -> Seq<char> {
    r#"(\d+)°(\d+)[′'](\d+)[″"]([NSns]) (\d+)°(\d+)[′'](\d+)[″"]([EWew])"#@
}

/// The text of [`dms_pattern`].
pub fn pattern() -> (p: &'static str)
    ensures
        p@ == dms_pattern(),
{
    r#"(\d+)°(\d+)[′'](\d+)[″"]([NSns]) (\d+)°(\d+)[′'](\d+)[″"]([EWew])"#
}

/// What `Regex::captures` finds in `s` for the regular expression that
/// `Regex::new` makes of `pattern`, at the first place of `s` at which the
/// expression matches: the text of every group, first that of the whole
/// match and then those of the groups of the pattern in their order, with
/// `None` for a group that took no part in the match. `None` where nothing
/// in `s` matches, and where `Regex::new` takes `pattern` for no regular
/// expression.
pub uninterp spec fn regex_captures(pattern: Seq<char>, s: Seq<char>) -> Option<Seq<Option<Seq<char>>>>;

/// The groups of a match as sequences of characters.
pub open spec fn group_texts(groups: Seq<Option<String>>) -> Seq<Option<Seq<char>>> {
    Seq::new(
        groups.len(),
        |i: int|
            match groups[i] {
                Some(t) => Some(t@),
                None => None,
            },
    )
}

/// `Regex::new` on `pattern` and `Regex::captures` of the outcome on `s`: the
/// groups of the first match as [`regex_captures`] names them, and `None`
/// where there is no match or `pattern` is refused.
#[verifier::external_body]
fn captures(pattern: &str, s: &str) -> (r: Option<Vec<Option<String>>>)
    ensures
        r.is_some() == regex_captures(pattern@, s@).is_some(),
        r matches Some(groups) ==> group_texts(groups@) == regex_captures(pattern@, s@).unwrap(),
{
    match regex::Regex::new(pattern) {
        Ok(re) => match re.captures(s) {
            Some(caps) => Some(caps.iter().map(|m| m.map(|m| m.as_str().to_string())).collect()),
            None => None,
        },
        Err(_) => None,
    }
}

/// The eight parts of two angles among the groups of a match: the groups
/// after that of the whole match, from the first to the eighth; none where
/// one of them is not there or took no part in the match.
pub open spec fn eight_parts(groups: Seq<Option<Seq<char>>>) -> Option<Seq<Seq<char>>> {
    if groups.len() >= 9 && forall|i: int| 1 <= i <= 8 ==> (#[trigger] groups[i]).is_some() {
        Some(Seq::new(8, |i: int| groups[i + 1].unwrap()))
    } else {
        None
    }
}

/// A place on the earth.
#[derive(Debug, Clone, Copy, PartialEq, Eq)]
pub struct Location {
    /// Millionths of a degree north of the equator; negative to the south.
    pub lat: i64,
    /// Millionths of a degree east of the prime meridian; negative to the
    /// west.
    pub lng: i64,
}

/// The whole number that the part `ix` of `parts` stands for.
pub open spec fn part_of(parts: Seq<Seq<char>>, ix: int) -> Option<int> {
    match int_of_text(parts[ix]) {
        Some(v) => if i32::MIN <= v <= i32::MAX {
            Some(v)
        } else {
            None
        },
        None => None,
    }
}

/// The sign that the letter of a hemisphere gives an angle: `plus` and its
/// small letter leave it as it is, `minus` and its small letter turn it
/// round, and any other text gives none.
pub open spec fn sign_of(t: Seq<char>, plus: char, minus: char, plus_small: char, minus_small: char)
    -> Option<int> {
    if t == seq![plus] || t == seq![plus_small] {
        Some(1)
    } else if t == seq![minus] || t == seq![minus_small] {
        Some(-1)
    } else {
        None
    }
}

impl Location {
    /// The location of these coordinates, in millionths of a degree.
    pub fn new(lat: i64, lng: i64) -> (l: Location)
        ensures
            l.lat == lat,
            l.lng == lng,
    {
        Location { lat, lng }
    }

    /// Millionths of a degree north of the equator.
    pub fn lat(&self) -> (v: i64)
        ensures
            v == self.lat,
    {
        self.lat
    }

    /// Millionths of a degree east of the prime meridian.
    pub fn lng(&self) -> (v: i64)
        ensures
            v == self.lng,
    {
        self.lng
    }

    /// What the fields `lat` and `lng` hold: nothing if either is empty,
    /// and else the location of the two decimal numbers of degrees, to the
    /// nearest millionth.
    pub open spec fn of_gsod(lat: Seq<char>, lng: Seq<char>) -> Result<Option<Location>, Fault> {
        if lat.len() == 0 || lng.len() == 0 {
            Ok(None)
        } else {
            match fixed_of_text(lat, 6) {
                Some(a) => match fixed_of_text(lng, 6) {
                    Some(b) => Ok(Some(Location { lat: a as i64, lng: b as i64 })),
                    None => Err(Fault::InvalidNumber(lng)),
                },
                None => Err(Fault::InvalidNumber(lat)),
            }
        }
    }

    /// What the fields `lat` and `lng` hold: see [`Location::of_gsod`].
    pub fn from_gsod(lat: &str, lng: &str) -> (r: Result<Option<Location>, GsodError>)
        ensures
            agrees(r, Self::of_gsod(lat@, lng@)),
    {
        if lat.is_empty() || lng.is_empty() {
            return Ok(None);
        }
        match parse_fixed(lat, 6) {
            Some(a) => match parse_fixed(lng, 6) {
                Some(b) => Ok(Some(Location::new(a, b))),
                None => Err(GsodError::InvalidNumber(String::from_str(lng))),
            },
            None => Err(GsodError::InvalidNumber(String::from_str(lat))),
        }
    }

    /// What the fields `a` and `b` of the record `rec` hold.
    pub fn at(rec: &[String], a: usize, b: usize) -> (r: Result<Option<Location>, GsodError>)
        ensures
            agrees(
                r,
                two(
                    texts(rec@),
                    a as int,
                    b as int,
                    |x: Seq<char>, y: Seq<char>| Location::of_gsod(x, y),
                ),
            ),
    {
        let x = match from_record(rec, a) {
            Ok(x) => x,
            Err(e) => {
                return Err(e);
            },
        };
        let y = match from_record(rec, b) {
            Ok(y) => y,
            Err(e) => {
                return Err(e);
            },
        };
        Location::from_gsod(x, y)
    }

    /// The location in degrees, minutes and seconds: the latitude with at
    /// least two digits of degrees and `N` or `S`, a space, and the
    /// longitude with at least three and `E` or `W`.
    pub open spec fn text(self) -> Seq<char> {
        angle_text(self.lat as int, 2, 'S', 'N') + seq![' '] + angle_text(
            self.lng as int,
            3,
            'W',
            'E',
        )
    }

    /// The location in degrees, minutes and seconds, as
    /// `35°52′40″N 078°47′15″W`.
    pub fn to_string(&self) -> (s: String)
        ensures
            s@ == self.text(),
    {
        let mut s = String::new();
        push_angle(&mut s, self.lat, 2, 'S', 'N');
        push_char(&mut s, ' ');
        push_angle(&mut s, self.lng, 3, 'W', 'E');
        assert(s@ =~= self.text());
        s
    }

    /// The location that the eight parts of two angles stand for: the
    /// degrees, the minutes, the seconds and the letter of the hemisphere,
    /// first of the latitude and then of the longitude.
    pub open spec fn of_captures(parts: Seq<Seq<char>>) -> Result<Location, DmsFault> {
        if parts.len() < 8 {
            Err(DmsFault::MissingCapture)
        } else if part_of(parts, 0).is_none() {
            Err(DmsFault::Number(parts[0]))
        } else if part_of(parts, 1).is_none() {
            Err(DmsFault::Number(parts[1]))
        } else if part_of(parts, 2).is_none() {
            Err(DmsFault::Number(parts[2]))
        } else if sign_of(parts[3], 'N', 'S', 'n', 's').is_none() {
            Err(DmsFault::Latitude)
        } else if part_of(parts, 4).is_none() {
            Err(DmsFault::Number(parts[4]))
        } else if part_of(parts, 5).is_none() {
            Err(DmsFault::Number(parts[5]))
        } else if part_of(parts, 6).is_none() {
            Err(DmsFault::Number(parts[6]))
        } else if sign_of(parts[7], 'E', 'W', 'e', 'w').is_none() {
            Err(DmsFault::Longitude)
        } else {
            Ok(
                Location {
                    lat: (sign_of(parts[3], 'N', 'S', 'n', 's').unwrap() * degrees_of(
                        part_of(parts, 0).unwrap(),
                        part_of(parts, 1).unwrap(),
                        part_of(parts, 2).unwrap(),
                    )) as i64,
                    lng: (sign_of(parts[7], 'E', 'W', 'e', 'w').unwrap() * degrees_of(
                        part_of(parts, 4).unwrap(),
                        part_of(parts, 5).unwrap(),
                        part_of(parts, 6).unwrap(),
                    )) as i64,
                },
            )
        }
    }

    /// The location that the eight parts of two angles stand for: see
    /// [`Location::of_captures`].
    pub fn from_captures(parts: &[String]) -> (r: Result<Location, DmsError>)
        ensures
            match r {
                Ok(l) => Self::of_captures(texts(parts@)) == Ok::<Location, DmsFault>(l),
                Err(e) => Self::of_captures(texts(parts@)) == Err::<Location, DmsFault>(e@),
            },
    {
        if parts.len() < 8 {
            return Err(DmsError::MissingCapture);
        }
        let lat = match angle(parts, 0) {
            Ok(v) => v,
            Err(e) => {
                return Err(e);
            },
        };
        let north = match sign(parts[3].as_str(), 'N', 'S', 'n', 's') {
            Some(v) => v,
            None => {
                return Err(DmsError::Latitude);
            },
        };
        let lng = match angle(parts, 4) {
            Ok(v) => v,
            Err(e) => {
                return Err(e);
            },
        };
        let east = match sign(parts[7].as_str(), 'E', 'W', 'e', 'w') {
            Some(v) => v,
            None => {
                return Err(DmsError::Longitude);
            },
        };
        proof {
            assert(1 * (lat as int) == lat && (-1) * (lat as int) == -lat) by (nonlinear_arith);
            assert(1 * (lng as int) == lng && (-1) * (lng as int) == -lng) by (nonlinear_arith);
        }
        Ok(
            Location::new(
                if north < 0 {
                    -lat
                } else {
                    lat
                },
                if east < 0 {
                    -lng
                } else {
                    lng
                },
            ),
        )
    }

    /// The location that the groups of a match of [`dms_pattern`] stand for:
    /// that of their [`eight_parts`].
    pub open spec fn of_groups(groups: Seq<Option<Seq<char>>>) -> Result<Location, DmsFault> {
        match eight_parts(groups) {
            Some(parts) => Self::of_captures(parts),
            None => Err(DmsFault::MissingCapture),
        }
    }

    /// The location that the groups of a match of [`dms_pattern`] stand for:
    /// see [`Location::of_groups`].
    pub fn from_groups(groups: &[Option<String>]) -> (r: Result<Location, DmsError>)
        ensures
            match r {
                Ok(l) => Self::of_groups(group_texts(groups@)) == Ok::<Location, DmsFault>(l),
                Err(e) => Self::of_groups(group_texts(groups@)) == Err::<Location, DmsFault>(e@),
            },
    {
        if groups.len() < 9 {
            return Err(DmsError::MissingCapture);
        }
        let ghost all = group_texts(groups@);
        let mut parts: Vec<String> = Vec::new();
        let mut i: usize = 1;
        while i <= 8
            invariant
                1 <= i <= 9,
                groups@.len() >= 9,
                all == group_texts(groups@),
                parts@.len() == i - 1,
                forall|k: int| 1 <= k < i ==> (#[trigger] all[k]).is_some(),
                forall|k: int| 0 <= k < i - 1 ==> (#[trigger] parts@[k])@ == all[k + 1].unwrap(),
            decreases 9 - i,
        {
            match &groups[i] {
                Some(t) => {
                    parts.push(t.clone());
                },
                None => {
                    assert(all[i as int].is_none());
                    return Err(DmsError::MissingCapture);
                },
            }
            assert(all[i as int].is_some());
            i += 1;
        }
        assert(texts(parts@) =~= eight_parts(all).unwrap());
        Location::from_captures(parts.as_slice())
    }

    /// The location that the first two angles in `s` stand for, where `s`
    /// holds a latitude and a longitude in degrees, minutes and seconds as
    /// [`Location::to_string`] writes them; a plain `'` may stand for the
    /// mark of the minutes and a plain `"` for that of the seconds, and the
    /// letters of the hemispheres may be small.
    pub fn parse(s: &str) -> (r: Result<Location, DmsError>)
        ensures
            match regex_captures(dms_pattern(), s@) {
                Some(groups) => match r {
                    Ok(l) => Self::of_groups(groups) == Ok::<Location, DmsFault>(l),
                    Err(e) => Self::of_groups(groups) == Err::<Location, DmsFault>(e@),
                },
                None => r == Err::<Location, DmsError>(DmsError::NoMatch),
            },
    {
        match captures(pattern(), s) {
            Some(groups) => Location::from_groups(groups.as_slice()),
            None => Err(DmsError::NoMatch),
        }
    }
}

impl std::str::FromStr for Location {
    type Err = DmsError;

    /// The location that the first two angles in `s` stand for: what
    /// [`Location::parse`] gives.
    fn from_str(s: &str) -> (r: Result<Self, Self::Err>)
        ensures
            match regex_captures(dms_pattern(), s@) {
                Some(groups) => match r {
                    Ok(l) => Location::of_groups(groups) == Ok::<Location, DmsFault>(l),
                    Err(e) => Location::of_groups(groups) == Err::<Location, DmsFault>(e@),
                },
                None => r == Err::<Location, DmsError>(DmsError::NoMatch),
            },
    {
        Location::parse(s)
    }
}

/// Why a text in degrees, minutes and seconds gives no location, as
/// contracts speak of it: a [`DmsError`] with the text it holds as a
/// sequence of characters.
pub enum DmsFault {
    NoMatch,
    MissingCapture,
    Number(Seq<char>),
    Latitude,
    Longitude,
}

impl View for DmsError {
    type V = DmsFault;

    open spec fn view(&self) -> DmsFault {
        match self {
            DmsError::NoMatch => DmsFault::NoMatch,
            DmsError::MissingCapture => DmsFault::MissingCapture,
            DmsError::Number(t) => DmsFault::Number(t@),
            DmsError::Latitude => DmsFault::Latitude,
            DmsError::Longitude => DmsFault::Longitude,
        }
    }
}

/// The sign that the letter of a hemisphere gives an angle.
fn sign(t: &str, plus: char, minus: char, plus_small: char, minus_small: char) -> (r: Option<i64>)
    ensures
        r.is_some() == sign_of(t@, plus, minus, plus_small, minus_small).is_some(),
        r matches Some(v) ==> sign_of(t@, plus, minus, plus_small, minus_small) == Some(v as int),
{
    if t.unicode_len() != 1 {
        return None;
    }
    let c = t.get_char(0);
    assert(t@ =~= seq![c]);
    assert(forall|x: char| seq![x] == seq![c] ==> seq![x][0] == seq![c][0]);
    if c == plus || c == plus_small {
        Some(1)
    } else if c == minus || c == minus_small {
        Some(-1)
    } else {
        None
    }
}

/// The number of millionths of a degree of the angle whose degrees, minutes
/// and seconds are the parts `at`, `at + 1` and `at + 2` of `parts`.
fn angle(parts: &[String], at: usize) -> (r: Result<i64, DmsError>)
    requires
        at + 2 < parts@.len(),
    ensures
        match r {
            Ok(v) => {
                &&& part_of(texts(parts@), at as int).is_some()
                &&& part_of(texts(parts@), at + 1).is_some()
                &&& part_of(texts(parts@), at + 2).is_some()
                &&& v == degrees_of(
                    part_of(texts(parts@), at as int).unwrap(),
                    part_of(texts(parts@), at + 1).unwrap(),
                    part_of(texts(parts@), at + 2).unwrap(),
                )
                &&& -0x1000_0000_0000_0000 < v < 0x1000_0000_0000_0000
            },
            Err(e) => {
                ||| part_of(texts(parts@), at as int).is_none() && e@ == DmsFault::Number(
                    texts(parts@)[at as int],
                )
                ||| part_of(texts(parts@), at as int).is_some() && part_of(
                    texts(parts@),
                    at + 1,
                ).is_none() && e@ == DmsFault::Number(texts(parts@)[at + 1])
                ||| part_of(texts(parts@), at as int).is_some() && part_of(
                    texts(parts@),
                    at + 1,
                ).is_some() && part_of(texts(parts@), at + 2).is_none() && e@ == DmsFault::Number(
                    texts(parts@)[at + 2],
                )
            },
        },
{
    let d = match parse_i32(parts[at].as_str()) {
        Some(v) => v,
        None => {
            return Err(DmsError::Number(parts[at].clone()));
        },
    };
    let m = match parse_i32(parts[at + 1].as_str()) {
        Some(v) => v,
        None => {
            return Err(DmsError::Number(parts[at + 1].clone()));
        },
    };
    let s = match parse_i32(parts[at + 2].as_str()) {
        Some(v) => v,
        None => {
            return Err(DmsError::Number(parts[at + 2].clone()));
        },
    };
    let seconds: i128 = (d as i128) * 3600 + (m as i128) * 60 + s as i128;
    Ok(crate::arith::floor_div(5000 * seconds + 9, 18) as i64)
}

/// Degrees, minutes and seconds of the angle of `v` millionths of a degree.
fn to_dms(v: i64) -> (r: (u128, u128, u128))
    ensures
        (r.0 as int, r.1 as int, r.2 as int) == dms_of(v as int),
{
    let a: u128 = if v < 0 {
        ((-1 - v) as u128) + 1
    } else {
        v as u128
    };
    let d: u128 = a / 1_000_000;
    let rest: u128 = a % 1_000_000;
    let m: u128 = (rest * 60) / 1_000_000;
    let left: u128 = (rest * 60) % 1_000_000;
    let s: u128 = (left * 60 + 500_000) / 1_000_000;
    if s != 60 {
        (d, m, s)
    } else if m + 1 != 60 {
        (d, m + 1, 0)
    } else {
        (d + 1, 0, 0)
    }
}

/// Adds the angle of `v` millionths of a degree to the end of `s`.
fn push_angle(s: &mut String, v: i64, width: usize, below: char, above: char)
    ensures
        final(s)@ == old(s)@ + angle_text(v as int, width as nat, below, above),
{
    let (d, m, sec) = to_dms(v);
    push_at_least(s, d, width);
    push_char(s, '°');
    push_at_least(s, m, 2);
    push_char(s, '′');
    push_at_least(s, sec, 2);
    push_char(s, '″');
    push_char(s, if v < 0 {
        below
    } else {
        above
    });
    assert(final(s)@ =~= old(s)@ + angle_text(v as int, width as nat, below, above));
}

/// The summaries of the days of one station.
#[derive(Debug, Clone)]
pub struct Station {
    pub id: String,
    pub name: Option<String>,
    pub loc: Option<Location>,
    pub elevation: Option<Elevation>,
    pub days: Vec<Day>,
}

/// What the first record of a station says of the station itself: its
/// identifier, where it lies, its name, if it has one, and its elevation.
/// Identifier, place, name and elevation are read in this order, and the
/// first that cannot be read is why there is no station.
pub open spec fn header_of(f: Seq<Seq<char>>) -> Result<
    (Seq<char>, Option<Location>, Option<Seq<char>>, Option<Elevation>),
    Fault,
> {
    let id = field_of(f, 0);
    let loc = two(f, 2, 3, |x: Seq<char>, y: Seq<char>| Location::of_gsod(x, y));
    let name = field_of(f, 5);
    let elevation = one(f, 4, |x: Seq<char>| Elevation::of_gsod(x));
    if id is Err {
        Err(id->Err_0)
    } else if loc is Err {
        Err(loc->Err_0)
    } else if name is Err {
        Err(name->Err_0)
    } else if elevation is Err {
        Err(elevation->Err_0)
    } else {
        Ok(
            (
                id->Ok_0,
                loc->Ok_0,
                if name->Ok_0.len() == 0 {
                    None
                } else {
                    Some(name->Ok_0)
                },
                elevation->Ok_0,
            ),
        )
    }
}

/// The summaries that the first `n` of `records` hold, in order; the first
/// record that holds none is why there are none.
pub open spec fn days_of(records: Seq<Seq<Seq<char>>>, n: int) -> Result<Seq<Day>, Fault>
    decreases n,
{
    if n <= 0 {
        Ok(Seq::<Day>::empty())
    } else {
        match days_of(records, n - 1) {
            Ok(days) => match day_of_record(records[n - 1]) {
                Ok(day) => Ok(days.push(day)),
                Err(e) => Err(e),
            },
            Err(e) => Err(e),
        }
    }
}

/// The fields of records as sequences of characters.
pub open spec fn all_texts(records: Seq<Vec<String>>) -> Seq<Seq<Seq<char>>> {
    Seq::new(records.len(), |i: int| texts(records[i]@))
}

/// The name of a station as a sequence of characters.
pub open spec fn name_text(name: Option<String>) -> Option<Seq<char>> {
    match name {
        Some(n) => Some(n@),
        None => None,
    }
}

impl Station {
    /// The station is the one that `records` hold: what [`header_of`] reads
    /// from the first, with the summaries that [`days_of`] reads from all of
    /// them.
    pub open spec fn holds(&self, records: Seq<Seq<Seq<char>>>) -> bool {
        &&& records.len() > 0
        &&& header_of(records[0]) == Ok::<
            (Seq<char>, Option<Location>, Option<Seq<char>>, Option<Elevation>),
            Fault,
        >((self.id@, self.loc, name_text(self.name), self.elevation))
        &&& days_of(records, records.len() as int) == Ok::<Seq<Day>, Fault>(self.days@)
    }

    /// Why `records` hold no station: there is no record, the first says
    /// nothing of a station, or one of them holds no summary.
    pub open spec fn fault_of(records: Seq<Seq<Seq<char>>>) -> Option<Fault> {
        if records.len() == 0 {
            Some(Fault::EmptyEntry)
        } else if header_of(records[0]) is Err {
            Some(header_of(records[0])->Err_0)
        } else if days_of(records, records.len() as int) is Err {
            Some(days_of(records, records.len() as int)->Err_0)
        } else {
            None
        }
    }

    /// The station whose days the records hold, each record a list of
    /// fields.
    pub fn from_records(records: &[Vec<String>]) -> (r: Result<Station, GsodError>)
        ensures
            match r {
                Ok(st) => st.holds(all_texts(records@)) && Self::fault_of(all_texts(records@)).is_none(),
                Err(e) => Self::fault_of(all_texts(records@)) == Some(e@),
            },
    {
        if records.len() == 0 {
            return Err(GsodError::EmptyEntry);
        }
        let ghost all = all_texts(records@);
        let first = records[0].as_slice();
        assert(texts(first@) == all[0]);
        let id = match from_record(first, 0) {
            Ok(t) => String::from_str(t),
            Err(e) => {
                return Err(e);
            },
        };
        let loc = match Location::at(first, 2, 3) {
            Ok(l) => l,
            Err(e) => {
                return Err(e);
            },
        };
        let name = match from_record(first, 5) {
            Ok(t) => if t.is_empty() {
                None
            } else {
                Some(String::from_str(t))
            },
            Err(e) => {
                return Err(e);
            },
        };
        let elevation = match Elevation::at(first, 4) {
            Ok(v) => v,
            Err(e) => {
                return Err(e);
            },
        };
        let days = match read_days(records) {
            Ok(days) => days,
            Err(e) => {
                return Err(e);
            },
        };
        Ok(Station { id, name, loc, elevation, days })
    }

    /// The identifier of the station.
    pub fn id(&self) -> (s: &str)
        ensures
            s@ == self.id@,
    {
        self.id.as_str()
    }

    /// Where the station lies, if that is known.
    pub fn location(&self) -> (l: Option<&Location>)
        ensures
            l.is_some() == self.loc.is_some(),
            l matches Some(v) ==> *v == self.loc.unwrap(),
    {
        self.loc.as_ref()
    }

    /// The name of the station, if it has one.
    pub fn name(&self) -> (n: Option<&str>)
        ensures
            n.is_some() == self.name.is_some(),
            n matches Some(t) ==> t@ == self.name.unwrap()@,
    {
        match &self.name {
            Some(n) => Some(n.as_str()),
            None => None,
        }
    }

    /// The elevation of the station, if that is known.
    pub fn elevation(&self) -> (e: Option<&Elevation>)
        ensures
            e.is_some() == self.elevation.is_some(),
            e matches Some(v) ==> *v == self.elevation.unwrap(),
    {
        self.elevation.as_ref()
    }

    /// The summaries of the days, in the order of the records.
    pub fn days(&self) -> (d: &[Day])
        ensures
            d@ == self.days@,
    {
        self.days.as_slice()
    }
}

/// The summaries that `records` hold, in order.
fn read_days(records: &[Vec<String>]) -> (r: Result<Vec<Day>, GsodError>)
    ensures
        match r {
            Ok(days) => days_of(all_texts(records@), records@.len() as int) == Ok::<
                Seq<Day>,
                Fault,
            >(days@),
            Err(e) => days_of(all_texts(records@), records@.len() as int) == Err::<
                Seq<Day>,
                Fault,
            >(e@),
        },
{
    let ghost all = all_texts(records@);
    let mut days: Vec<Day> = Vec::new();
    let mut i: usize = 0;
    while i < records.len()
        invariant
            i <= records@.len(),
            all == all_texts(records@),
            days_of(all, i as int) == Ok::<Seq<Day>, Fault>(days@),
        decreases records@.len() - i,
    {
        let rec = records[i].as_slice();
        let read = Day::from_record(rec);
        proof {
            assert(texts(rec@) == all[i as int]);
            lemma_days_step(all, i as int);
        }
        match read {
            Ok(day) => {
                days.push(day);
            },
            Err(e) => {
                proof {
                    lemma_days_fail(all, i + 1, records@.len() as int);
                }
                return Err(e);
            },
        }
        i += 1;
    }
    Ok(days)
}

/// The summaries of one record more are those of the records before it and
/// its own, or why one of these is missing.
proof fn lemma_days_step(records: Seq<Seq<Seq<char>>>, n: int)
    requires
        0 <= n,
    ensures
        days_of(records, n + 1) == match days_of(records, n) {
            Ok(days) => match day_of_record(records[n]) {
                Ok(day) => Ok::<Seq<Day>, Fault>(days.push(day)),
                Err(e) => Err::<Seq<Day>, Fault>(e),
            },
            Err(e) => Err::<Seq<Day>, Fault>(e),
        },
{
}

/// Once a record holds no summary, more records do not change why there are
/// no summaries.
proof fn lemma_days_fail(records: Seq<Seq<Seq<char>>>, n: int, m: int)
    requires
        0 < n <= m,
        days_of(records, n) is Err,
    ensures
        days_of(records, m) == days_of(records, n),
    decreases m - n,
{
    if n < m {
        lemma_days_fail(records, n, m - 1);
    }
}

/// The line under the name of a station: its identifier and, where it is
/// known, where the station lies, two spaces between them.
pub open spec fn details_text(station: Station) -> Seq<char> {
    match station.loc {
        Some(l) => station.id@ + "  "@ + l.text(),
        None => station.id@,
    }
}

/// The line under the name of a station: see [`details_text`].
pub fn describe_station_details(station: &Station) -> (s: String)
    ensures
        s@ == details_text(*station),
{
    let mut s = String::from_str(station.id());
    match station.location() {
        Some(l) => {
            s.append("  ");
            let place = l.to_string();
            s.append(place.as_str());
        },
        None => {},
    }
    s
}

} // verus!
