//! Reading the fields of a record of the global summary of the day.

use crate::gsod::{
    agrees, count, count_of, quantity, quantity_of, Day, DeterminedVia, Distance, Elevation, Fault,
    GsodError, MeanDistance, MeanPressure, MeanTemperature, MeanWindSpeed, Precipitation,
    PrecipitationAttr, Pressure, SnowDepth, Temperature, TemperatureExtremity, WindSpeed,
};
use crate::time::{iso_date_of_text, Date};
use vstd::prelude::*;
use vstd::string::*;

verus! {

impl Temperature {
    /// What the field `s` holds: nothing if it holds `9999.9`, which stands
    /// for what was not measured, and else the number it stands for.
    pub open spec fn of_gsod(s: Seq<char>) -> Result<Option<Temperature>, Fault> {
        match quantity_of(s, "9999.9"@) {
            Ok(Some(v)) => Ok(Some(Temperature { f: v })),
            Ok(None) => Ok(None),
            Err(e) => Err(e),
        }
    }

    /// What the field `s` holds: see [`Temperature::of_gsod`].
    pub fn from_gsod(s: &str) -> (r: Result<Option<Temperature>, GsodError>)
        ensures
            agrees(r, Self::of_gsod(s@)),
    {
        match quantity(s, "9999.9") {
            Ok(Some(v)) => Ok(Some(Temperature::from_fahrenheit(v))),
            Ok(None) => Ok(None),
            Err(e) => Err(e),
        }
    }
}

impl Pressure {
    /// What the field `s` holds: nothing if it holds `9999.9`, which stands
    /// for what was not measured, and else the number it stands for.
    pub open spec fn of_gsod(s: Seq<char>) -> Result<Option<Pressure>, Fault> {
        match quantity_of(s, "9999.9"@) {
            Ok(Some(v)) => Ok(Some(Pressure { p: v })),
            Ok(None) => Ok(None),
            Err(e) => Err(e),
        }
    }

    /// What the field `s` holds: see [`Pressure::of_gsod`].
    pub fn from_gsod(s: &str) -> (r: Result<Option<Pressure>, GsodError>)
        ensures
            agrees(r, Self::of_gsod(s@)),
    {
        match quantity(s, "9999.9") {
            Ok(Some(v)) => Ok(Some(Pressure::from_millibars(v))),
            Ok(None) => Ok(None),
            Err(e) => Err(e),
        }
    }
}

impl Distance {
    /// What the field `s` holds: nothing if it holds `999.9`, which stands
    /// for what was not measured, and else the number it stands for.
    pub open spec fn of_gsod(s: Seq<char>) -> Result<Option<Distance>, Fault> {
        match quantity_of(s, "999.9"@) {
            Ok(Some(v)) => Ok(Some(Distance { m: v })),
            Ok(None) => Ok(None),
            Err(e) => Err(e),
        }
    }

    /// What the field `s` holds: see [`Distance::of_gsod`].
    pub fn from_gsod(s: &str) -> (r: Result<Option<Distance>, GsodError>)
        ensures
            agrees(r, Self::of_gsod(s@)),
    {
        match quantity(s, "999.9") {
            Ok(Some(v)) => Ok(Some(Distance::from_miles(v))),
            Ok(None) => Ok(None),
            Err(e) => Err(e),
        }
    }
}

impl WindSpeed {
    /// What the field `s` holds: nothing if it holds `999.9`, which stands
    /// for what was not measured, and else the number it stands for.
    pub open spec fn of_gsod(s: Seq<char>) -> Result<Option<WindSpeed>, Fault> {
        match quantity_of(s, "999.9"@) {
            Ok(Some(v)) => Ok(Some(WindSpeed { s: v })),
            Ok(None) => Ok(None),
            Err(e) => Err(e),
        }
    }

    /// What the field `s` holds: see [`WindSpeed::of_gsod`].
    pub fn from_gsod(s: &str) -> (r: Result<Option<WindSpeed>, GsodError>)
        ensures
            agrees(r, Self::of_gsod(s@)),
    {
        match quantity(s, "999.9") {
            Ok(Some(v)) => Ok(Some(WindSpeed::from_knots(v))),
            Ok(None) => Ok(None),
            Err(e) => Err(e),
        }
    }
}

impl Elevation {
    /// What the field `s` holds: nothing if it holds ``, which stands
    /// for what was not measured, and else the number it stands for.
    pub open spec fn of_gsod(s: Seq<char>) -> Result<Option<Elevation>, Fault> {
        match quantity_of(s, ""@) {
            Ok(Some(v)) => Ok(Some(Elevation { m: v })),
            Ok(None) => Ok(None),
            Err(e) => Err(e),
        }
    }

    /// What the field `s` holds: see [`Elevation::of_gsod`].
    pub fn from_gsod(s: &str) -> (r: Result<Option<Elevation>, GsodError>)
        ensures
            agrees(r, Self::of_gsod(s@)),
    {
        match quantity(s, "") {
            Ok(Some(v)) => Ok(Some(Elevation::new(v))),
            Ok(None) => Ok(None),
            Err(e) => Err(e),
        }
    }
}

impl SnowDepth {
    /// What the field `s` holds: nothing if it holds `999.9`, which stands
    /// for what was not measured, and else the number it stands for.
    pub open spec fn of_gsod(s: Seq<char>) -> Result<Option<SnowDepth>, Fault> {
        match quantity_of(s, "999.9"@) {
            Ok(Some(v)) => Ok(Some(SnowDepth { d: v })),
            Ok(None) => Ok(None),
            Err(e) => Err(e),
        }
    }

    /// What the field `s` holds: see [`SnowDepth::of_gsod`].
    pub fn from_gsod(s: &str) -> (r: Result<Option<SnowDepth>, GsodError>)
        ensures
            agrees(r, Self::of_gsod(s@)),
    {
        match quantity(s, "999.9") {
            Ok(Some(v)) => Ok(Some(SnowDepth { d: v })),
            Ok(None) => Ok(None),
            Err(e) => Err(e),
        }
    }
}

impl MeanTemperature {
    /// What the fields `v` and `n` hold: nothing if `v` holds none, and else
    /// the mean that `v` holds with the number of observations that `n`
    /// holds.
    pub open spec fn of_gsod(v: Seq<char>, n: Seq<char>) -> Result<Option<MeanTemperature>, Fault> {
        match Temperature::of_gsod(v) {
            Ok(Some(x)) => match count_of(n) {
                Ok(c) => Ok(Some(MeanTemperature { t: x, n: c })),
                Err(e) => Err(e),
            },
            Ok(None) => Ok(None),
            Err(e) => Err(e),
        }
    }

    /// What the fields `v` and `n` hold: see [`MeanTemperature::of_gsod`].
    pub fn from_gsod(v: &str, n: &str) -> (r: Result<Option<MeanTemperature>, GsodError>)
        ensures
            agrees(r, Self::of_gsod(v@, n@)),
    {
        match Temperature::from_gsod(v) {
            Ok(Some(x)) => match count(n) {
                Ok(c) => Ok(Some(MeanTemperature::new(x, c))),
                Err(e) => Err(e),
            },
            Ok(None) => Ok(None),
            Err(e) => Err(e),
        }
    }
}

impl MeanPressure {
    /// What the fields `v` and `n` hold: nothing if `v` holds none, and else
    /// the mean that `v` holds with the number of observations that `n`
    /// holds.
    pub open spec fn of_gsod(v: Seq<char>, n: Seq<char>) -> Result<Option<MeanPressure>, Fault> {
        match Pressure::of_gsod(v) {
            Ok(Some(x)) => match count_of(n) {
                Ok(c) => Ok(Some(MeanPressure { p: x, n: c })),
                Err(e) => Err(e),
            },
            Ok(None) => Ok(None),
            Err(e) => Err(e),
        }
    }

    /// What the fields `v` and `n` hold: see [`MeanPressure::of_gsod`].
    pub fn from_gsod(v: &str, n: &str) -> (r: Result<Option<MeanPressure>, GsodError>)
        ensures
            agrees(r, Self::of_gsod(v@, n@)),
    {
        match Pressure::from_gsod(v) {
            Ok(Some(x)) => match count(n) {
                Ok(c) => Ok(Some(MeanPressure::new(x, c))),
                Err(e) => Err(e),
            },
            Ok(None) => Ok(None),
            Err(e) => Err(e),
        }
    }
}

impl MeanDistance {
    /// What the fields `v` and `n` hold: nothing if `v` holds none, and else
    /// the mean that `v` holds with the number of observations that `n`
    /// holds.
    pub open spec fn of_gsod(v: Seq<char>, n: Seq<char>) -> Result<Option<MeanDistance>, Fault> {
        match Distance::of_gsod(v) {
            Ok(Some(x)) => match count_of(n) {
                Ok(c) => Ok(Some(MeanDistance { d: x, n: c })),
                Err(e) => Err(e),
            },
            Ok(None) => Ok(None),
            Err(e) => Err(e),
        }
    }

    /// What the fields `v` and `n` hold: see [`MeanDistance::of_gsod`].
    pub fn from_gsod(v: &str, n: &str) -> (r: Result<Option<MeanDistance>, GsodError>)
        ensures
            agrees(r, Self::of_gsod(v@, n@)),
    {
        match Distance::from_gsod(v) {
            Ok(Some(x)) => match count(n) {
                Ok(c) => Ok(Some(MeanDistance::new(x, c))),
                Err(e) => Err(e),
            },
            Ok(None) => Ok(None),
            Err(e) => Err(e),
        }
    }
}

impl MeanWindSpeed {
    /// What the fields `v` and `n` hold: nothing if `v` holds none, and else
    /// the mean that `v` holds with the number of observations that `n`
    /// holds.
    pub open spec fn of_gsod(v: Seq<char>, n: Seq<char>) -> Result<Option<MeanWindSpeed>, Fault> {
        match WindSpeed::of_gsod(v) {
            Ok(Some(x)) => match count_of(n) {
                Ok(c) => Ok(Some(MeanWindSpeed { s: x, n: c })),
                Err(e) => Err(e),
            },
            Ok(None) => Ok(None),
            Err(e) => Err(e),
        }
    }

    /// What the fields `v` and `n` hold: see [`MeanWindSpeed::of_gsod`].
    pub fn from_gsod(v: &str, n: &str) -> (r: Result<Option<MeanWindSpeed>, GsodError>)
        ensures
            agrees(r, Self::of_gsod(v@, n@)),
    {
        match WindSpeed::from_gsod(v) {
            Ok(Some(x)) => match count(n) {
                Ok(c) => Ok(Some(MeanWindSpeed::new(x, c))),
                Err(e) => Err(e),
            },
            Ok(None) => Ok(None),
            Err(e) => Err(e),
        }
    }
}

impl TemperatureExtremity {
    /// What the fields `t` and `d` hold: nothing if `t` holds none, and else
    /// the temperature that `t` holds, determined in the way that `d` names.
    pub open spec fn of_gsod(t: Seq<char>, d: Seq<char>) -> Result<
        Option<TemperatureExtremity>,
        Fault,
    > {
        match Temperature::of_gsod(t) {
            Ok(Some(x)) => match DeterminedVia::of_gsod(d) {
                Ok(via) => Ok(Some(TemperatureExtremity { t: x, d: via })),
                Err(e) => Err(e),
            },
            Ok(None) => Ok(None),
            Err(e) => Err(e),
        }
    }

    /// What the fields `t` and `d` hold: see
    /// [`TemperatureExtremity::of_gsod`].
    pub fn from_gsod(t: &str, d: &str) -> (r: Result<Option<TemperatureExtremity>, GsodError>)
        ensures
            agrees(r, Self::of_gsod(t@, d@)),
    {
        match Temperature::from_gsod(t) {
            Ok(Some(x)) => match DeterminedVia::from_gsod(d) {
                Ok(via) => Ok(Some(TemperatureExtremity::new(x, via))),
                Err(e) => Err(e),
            },
            Ok(None) => Ok(None),
            Err(e) => Err(e),
        }
    }
}

impl Precipitation {
    /// What the fields `p` and `a` hold: nothing if `p` holds `99.99`, which
    /// stands for what was not measured, and else the amount that `p` holds,
    /// arrived at in the way that `a` names.
    pub open spec fn of_gsod(p: Seq<char>, a: Seq<char>) -> Result<Option<Precipitation>, Fault> {
        match quantity_of(p, "99.99"@) {
            Ok(Some(v)) => match PrecipitationAttr::of_gsod(a) {
                Ok(attr) => Ok(Some(Precipitation { p: v, attr })),
                Err(e) => Err(e),
            },
            Ok(None) => Ok(None),
            Err(e) => Err(e),
        }
    }

    /// What the fields `p` and `a` hold: see [`Precipitation::of_gsod`].
    pub fn from_gsod(p: &str, a: &str) -> (r: Result<Option<Precipitation>, GsodError>)
        ensures
            agrees(r, Self::of_gsod(p@, a@)),
    {
        match quantity(p, "99.99") {
            Ok(Some(v)) => match PrecipitationAttr::from_gsod(a) {
                Ok(attr) => Ok(Some(Precipitation { p: v, attr })),
                Err(e) => Err(e),
            },
            Ok(None) => Ok(None),
            Err(e) => Err(e),
        }
    }
}

/// The fields of a record as sequences of characters.
pub open spec fn texts(rec: Seq<String>) -> Seq<Seq<char>> {
    Seq::new(rec.len(), |i: int| rec[i]@)
}

/// Field `ix` of the record `f`.
pub open spec fn field_of(f: Seq<Seq<char>>, ix: int) -> Result<Seq<char>, Fault> {
    if 0 <= ix < f.len() {
        Ok(f[ix])
    } else {
        Err(Fault::MissingField(ix))
    }
}

/// What `read` makes of field `a` of the record `f`.
pub open spec fn one<T>(
    f: Seq<Seq<char>>,
    a: int,
    read: spec_fn(Seq<char>) -> Result<T, Fault>,
) -> Result<T, Fault> {
    match field_of(f, a) {
        Ok(x) => read(x),
        Err(e) => Err(e),
    }
}

/// What `read` makes of the fields `a` and `b` of the record `f`. Both
/// fields are looked for before either is read.
pub open spec fn two<T>(
    f: Seq<Seq<char>>,
    a: int,
    b: int,
    read: spec_fn(Seq<char>, Seq<char>) -> Result<T, Fault>,
) -> Result<T, Fault> {
    match field_of(f, a) {
        Ok(x) => match field_of(f, b) {
            Ok(y) => read(x, y),
            Err(e) => Err(e),
        },
        Err(e) => Err(e),
    }
}

/// Field `ix` of the record `rec`.
pub fn from_record(rec: &[String], ix: usize) -> (r: Result<&str, GsodError>)
    ensures
        match r {
            Ok(t) => field_of(texts(rec@), ix as int) == Ok::<Seq<char>, Fault>(t@),
            Err(e) => field_of(texts(rec@), ix as int) == Err::<Seq<char>, Fault>(e@),
        },
{
    if ix < rec.len() {
        Ok(rec[ix].as_str())
    } else {
        Err(GsodError::MissingField(ix))
    }
}

impl MeanTemperature {
    /// What the fields `a` and `b` of the record `rec` hold.
    pub fn at(rec: &[String], a: usize, b: usize) -> (r: Result<Option<MeanTemperature>, GsodError>)
        ensures
            agrees(
                r,
                two(
                    texts(rec@),
                    a as int,
                    b as int,
                    |x: Seq<char>, y: Seq<char>| MeanTemperature::of_gsod(x, y),
                ),
            ),
    {
        let x = match from_record(rec, a) {
            Ok(x) => x,
            Err(e) => {
                return Err(e);
            },
        };
        let y = match from_record(rec, b) {
            Ok(y) => y,
            Err(e) => {
                return Err(e);
            },
        };
        MeanTemperature::from_gsod(x, y)
    }
}

impl MeanPressure {
    /// What the fields `a` and `b` of the record `rec` hold.
    pub fn at(rec: &[String], a: usize, b: usize) -> (r: Result<Option<MeanPressure>, GsodError>)
        ensures
            agrees(
                r,
                two(
                    texts(rec@),
                    a as int,
                    b as int,
                    |x: Seq<char>, y: Seq<char>| MeanPressure::of_gsod(x, y),
                ),
            ),
    {
        let x = match from_record(rec, a) {
            Ok(x) => x,
            Err(e) => {
                return Err(e);
            },
        };
        let y = match from_record(rec, b) {
            Ok(y) => y,
            Err(e) => {
                return Err(e);
            },
        };
        MeanPressure::from_gsod(x, y)
    }
}

impl MeanDistance {
    /// What the fields `a` and `b` of the record `rec` hold.
    pub fn at(rec: &[String], a: usize, b: usize) -> (r: Result<Option<MeanDistance>, GsodError>)
        ensures
            agrees(
                r,
                two(
                    texts(rec@),
                    a as int,
                    b as int,
                    |x: Seq<char>, y: Seq<char>| MeanDistance::of_gsod(x, y),
                ),
            ),
    {
        let x = match from_record(rec, a) {
            Ok(x) => x,
            Err(e) => {
                return Err(e);
            },
        };
        let y = match from_record(rec, b) {
            Ok(y) => y,
            Err(e) => {
                return Err(e);
            },
        };
        MeanDistance::from_gsod(x, y)
    }
}

impl MeanWindSpeed {
    /// What the fields `a` and `b` of the record `rec` hold.
    pub fn at(rec: &[String], a: usize, b: usize) -> (r: Result<Option<MeanWindSpeed>, GsodError>)
        ensures
            agrees(
                r,
                two(
                    texts(rec@),
                    a as int,
                    b as int,
                    |x: Seq<char>, y: Seq<char>| MeanWindSpeed::of_gsod(x, y),
                ),
            ),
    {
        let x = match from_record(rec, a) {
            Ok(x) => x,
            Err(e) => {
                return Err(e);
            },
        };
        let y = match from_record(rec, b) {
            Ok(y) => y,
            Err(e) => {
                return Err(e);
            },
        };
        MeanWindSpeed::from_gsod(x, y)
    }
}

impl TemperatureExtremity {
    /// What the fields `a` and `b` of the record `rec` hold.
    pub fn at(rec: &[String], a: usize, b: usize) -> (r: Result<Option<TemperatureExtremity>, GsodError>)
        ensures
            agrees(
                r,
                two(
                    texts(rec@),
                    a as int,
                    b as int,
                    |x: Seq<char>, y: Seq<char>| TemperatureExtremity::of_gsod(x, y),
                ),
            ),
    {
        let x = match from_record(rec, a) {
            Ok(x) => x,
            Err(e) => {
                return Err(e);
            },
        };
        let y = match from_record(rec, b) {
            Ok(y) => y,
            Err(e) => {
                return Err(e);
            },
        };
        TemperatureExtremity::from_gsod(x, y)
    }
}

impl Precipitation {
    /// What the fields `a` and `b` of the record `rec` hold.
    pub fn at(rec: &[String], a: usize, b: usize) -> (r: Result<Option<Precipitation>, GsodError>)
        ensures
            agrees(
                r,
                two(
                    texts(rec@),
                    a as int,
                    b as int,
                    |x: Seq<char>, y: Seq<char>| Precipitation::of_gsod(x, y),
                ),
            ),
    {
        let x = match from_record(rec, a) {
            Ok(x) => x,
            Err(e) => {
                return Err(e);
            },
        };
        let y = match from_record(rec, b) {
            Ok(y) => y,
            Err(e) => {
                return Err(e);
            },
        };
        Precipitation::from_gsod(x, y)
    }
}

impl WindSpeed {
    /// What the field `a` of the record `rec` holds.
    pub fn at(rec: &[String], a: usize) -> (r: Result<Option<WindSpeed>, GsodError>)
        ensures
            agrees(r, one(texts(rec@), a as int, |x: Seq<char>| WindSpeed::of_gsod(x))),
    {
        let x = match from_record(rec, a) {
            Ok(x) => x,
            Err(e) => {
                return Err(e);
            },
        };
        WindSpeed::from_gsod(x)
    }
}

impl SnowDepth {
    /// What the field `a` of the record `rec` holds.
    pub fn at(rec: &[String], a: usize) -> (r: Result<Option<SnowDepth>, GsodError>)
        ensures
            agrees(r, one(texts(rec@), a as int, |x: Seq<char>| SnowDepth::of_gsod(x))),
    {
        let x = match from_record(rec, a) {
            Ok(x) => x,
            Err(e) => {
                return Err(e);
            },
        };
        SnowDepth::from_gsod(x)
    }
}

impl Elevation {
    /// What the field `a` of the record `rec` holds.
    pub fn at(rec: &[String], a: usize) -> (r: Result<Option<Elevation>, GsodError>)
        ensures
            agrees(r, one(texts(rec@), a as int, |x: Seq<char>| Elevation::of_gsod(x))),
    {
        let x = match from_record(rec, a) {
            Ok(x) => x,
            Err(e) => {
                return Err(e);
            },
        };
        Elevation::from_gsod(x)
    }
}

/// The summary of the day `date` that the record `f` holds, from its
/// seventh field on: the quantities are read in the order of their fields,
/// and the first that cannot be read is why there is no summary.
pub open spec fn day_of_fields(date: Date, f: Seq<Seq<char>>) -> Result<Day, Fault> {
    let mean_temperature = two(f, 6, 7, |x: Seq<char>, y: Seq<char>| MeanTemperature::of_gsod(x, y));
    let mean_dewpoint = two(f, 8, 9, |x: Seq<char>, y: Seq<char>| MeanTemperature::of_gsod(x, y));
    let mean_sea_level_pressure = two(f, 10, 11, |x: Seq<char>, y: Seq<char>| MeanPressure::of_gsod(x, y));
    let mean_station_pressure = two(f, 12, 13, |x: Seq<char>, y: Seq<char>| MeanPressure::of_gsod(x, y));
    let mean_visibility = two(f, 14, 15, |x: Seq<char>, y: Seq<char>| MeanDistance::of_gsod(x, y));
    let mean_wind = two(f, 16, 17, |x: Seq<char>, y: Seq<char>| MeanWindSpeed::of_gsod(x, y));
    let max_sustained_wind = one(f, 18, |x: Seq<char>| WindSpeed::of_gsod(x));
    let max_wind_gust = one(f, 19, |x: Seq<char>| WindSpeed::of_gsod(x));
    let max_temperature = two(f, 20, 21, |x: Seq<char>, y: Seq<char>| TemperatureExtremity::of_gsod(x, y));
    let min_temperature = two(f, 22, 23, |x: Seq<char>, y: Seq<char>| TemperatureExtremity::of_gsod(x, y));
    let precipitation = two(f, 24, 25, |x: Seq<char>, y: Seq<char>| Precipitation::of_gsod(x, y));
    let snow_depth = one(f, 26, |x: Seq<char>| SnowDepth::of_gsod(x));
    if mean_temperature is Err {
        Err(mean_temperature->Err_0)
    } else if mean_dewpoint is Err {
        Err(mean_dewpoint->Err_0)
    } else if mean_sea_level_pressure is Err {
        Err(mean_sea_level_pressure->Err_0)
    } else if mean_station_pressure is Err {
        Err(mean_station_pressure->Err_0)
    } else if mean_visibility is Err {
        Err(mean_visibility->Err_0)
    } else if mean_wind is Err {
        Err(mean_wind->Err_0)
    } else if max_sustained_wind is Err {
        Err(max_sustained_wind->Err_0)
    } else if max_wind_gust is Err {
        Err(max_wind_gust->Err_0)
    } else if max_temperature is Err {
        Err(max_temperature->Err_0)
    } else if min_temperature is Err {
        Err(min_temperature->Err_0)
    } else if precipitation is Err {
        Err(precipitation->Err_0)
    } else if snow_depth is Err {
        Err(snow_depth->Err_0)
    } else {
        Ok(
            Day {
                day: date,
                mean_temperature: mean_temperature->Ok_0,
                mean_dewpoint: mean_dewpoint->Ok_0,
                mean_sea_level_pressure: mean_sea_level_pressure->Ok_0,
                mean_station_pressure: mean_station_pressure->Ok_0,
                mean_visibility: mean_visibility->Ok_0,
                mean_wind: mean_wind->Ok_0,
                max_sustained_wind: max_sustained_wind->Ok_0,
                max_wind_gust: max_wind_gust->Ok_0,
                max_temperature: max_temperature->Ok_0,
                min_temperature: min_temperature->Ok_0,
                precipitation: precipitation->Ok_0,
                snow_depth: snow_depth->Ok_0,
            },
        )
    }
}

/// The summary that the record `f` holds: the summary of
/// [`day_of_fields`] for the date that its second field holds.
pub open spec fn day_of_record(f: Seq<Seq<char>>) -> Result<Day, Fault> {
    match field_of(f, 1) {
        Ok(t) => match iso_date_of_text(t) {
            Some((y, m, d)) => day_of_fields(Date::of(y, m, d), f),
            None => Err(Fault::InvalidDate(t)),
        },
        Err(e) => Err(e),
    }
}

impl Day {
    /// The summary of the day `date` that the record `rec` holds, from its
    /// seventh field on.
    pub fn from_fields(date: Date, rec: &[String]) -> (r: Result<Day, GsodError>)
        ensures
            agrees(r, day_of_fields(date, texts(rec@))),
    {
        let mean_temperature = match MeanTemperature::at(rec, 6, 7) {
            Ok(v) => v,
            Err(e) => {
                return Err(e);
            },
        };
        let mean_dewpoint = match MeanTemperature::at(rec, 8, 9) {
            Ok(v) => v,
            Err(e) => {
                return Err(e);
            },
        };
        let mean_sea_level_pressure = match MeanPressure::at(rec, 10, 11) {
            Ok(v) => v,
            Err(e) => {
                return Err(e);
            },
        };
        let mean_station_pressure = match MeanPressure::at(rec, 12, 13) {
            Ok(v) => v,
            Err(e) => {
                return Err(e);
            },
        };
        let mean_visibility = match MeanDistance::at(rec, 14, 15) {
            Ok(v) => v,
            Err(e) => {
                return Err(e);
            },
        };
        let mean_wind = match MeanWindSpeed::at(rec, 16, 17) {
            Ok(v) => v,
            Err(e) => {
                return Err(e);
            },
        };
        let max_sustained_wind = match WindSpeed::at(rec, 18) {
            Ok(v) => v,
            Err(e) => {
                return Err(e);
            },
        };
        let max_wind_gust = match WindSpeed::at(rec, 19) {
            Ok(v) => v,
            Err(e) => {
                return Err(e);
            },
        };
        let max_temperature = match TemperatureExtremity::at(rec, 20, 21) {
            Ok(v) => v,
            Err(e) => {
                return Err(e);
            },
        };
        let min_temperature = match TemperatureExtremity::at(rec, 22, 23) {
            Ok(v) => v,
            Err(e) => {
                return Err(e);
            },
        };
        let precipitation = match Precipitation::at(rec, 24, 25) {
            Ok(v) => v,
            Err(e) => {
                return Err(e);
            },
        };
        let snow_depth = match SnowDepth::at(rec, 26) {
            Ok(v) => v,
            Err(e) => {
                return Err(e);
            },
        };
        Ok(
            Day {
                day: date,
                mean_temperature,
                mean_dewpoint,
                mean_sea_level_pressure,
                mean_station_pressure,
                mean_visibility,
                mean_wind,
                max_sustained_wind,
                max_wind_gust,
                max_temperature,
                min_temperature,
                precipitation,
                snow_depth,
            },
        )
    }

    /// The summary that the record `rec` holds. Its second field holds the
    /// date, as `2023-01-31`.
    pub fn from_record(rec: &[String]) -> (r: Result<Day, GsodError>)
        ensures
            agrees(r, day_of_record(texts(rec@))),
    {
        let t = match from_record(rec, 1) {
            Ok(t) => t,
            Err(e) => {
                return Err(e);
            },
        };
        match Date::parse(t) {
            Some(date) => Day::from_fields(date, rec),
            None => Err(GsodError::InvalidDate(String::from_str(t))),
        }
    }
}

} // verus!
