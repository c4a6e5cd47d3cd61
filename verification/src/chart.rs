//! The three charts of a station-year: which series each is made of, how
//! they are thinned out for drawing, and what a chart consists of.

use crate::gsod::Day;
use crate::range::{Range, ONE};
use crate::render::{
    months_of, render_months, render_radial_range, render_radial_series, render_radial_spokes,
    render_scales, return_path, rings_of, series_path, spokes_path, MonthWedge, PathOp, ScaleRing,
};
use crate::scale::{scale_failure, Scale, ScaleError};
use crate::series::{
    aggregates, aligned, block, filled, last_for, lemma_block_in_bounds, running_max,
    running_max_index, running_min, running_min_index, Series,
};
use crate::text::{decimal_text, decimal_to_string, int_text, int_to_string};
use crate::time::{days_in_year, lemma_ordinal_bounds, Year, MAX_YEAR};
use vstd::prelude::*;
use vstd::string::*;

verus! {

/// The least of `values`, and `i32::MAX` if there are none.
pub open spec fn seq_min(values: Seq<i32>) -> i32
    decreases values.len(),
{
    if values.len() == 0 {
        i32::MAX
    } else {
        let m = seq_min(values.drop_last());
        if values.last() < m {
            values.last()
        } else {
            m
        }
    }
}

/// The greatest of `values`, and `i32::MIN` if there are none.
pub open spec fn seq_max(values: Seq<i32>) -> i32
    decreases values.len(),
{
    if values.len() == 0 {
        i32::MIN
    } else {
        let m = seq_max(values.drop_last());
        if values.last() > m {
            values.last()
        } else {
            m
        }
    }
}

/// The sum of `values`.
pub open spec fn seq_sum(values: Seq<i32>) -> int
    decreases values.len(),
{
    if values.len() == 0 {
        0
    } else {
        seq_sum(values.drop_last()) + values.last()
    }
}

/// The number of `values` above zero.
pub open spec fn seq_positive(values: Seq<i32>) -> int
    decreases values.len(),
{
    if values.len() == 0 {
        0
    } else {
        seq_positive(values.drop_last()) + if values.last() > 0 {
            1int
        } else {
            0int
        }
    }
}

/// The mean of `values`, rounded down to a whole number of thousandths.
pub open spec fn seq_mean(values: Seq<i32>) -> int {
    seq_sum(values) / (values.len() as int)
}

/// The sum of `n` values lies between `n` times the least and `n` times the
/// greatest value there is.
pub proof fn lemma_sum_bounds(values: Seq<i32>)
    ensures
        values.len() * (i32::MIN as int) <= seq_sum(values) <= values.len() * (i32::MAX as int),
        0 <= seq_positive(values) <= values.len(),
    decreases values.len(),
{
    if values.len() > 0 {
        lemma_sum_bounds(values.drop_last());
        let n = values.len() as int;
        assert((n - 1) * (i32::MIN as int) + (i32::MIN as int) == n * (i32::MIN as int))
            by (nonlinear_arith);
        assert((n - 1) * (i32::MAX as int) + (i32::MAX as int) == n * (i32::MAX as int))
            by (nonlinear_arith);
    } else {
        assert(0 * (i32::MIN as int) == 0) by (nonlinear_arith);
        assert(0 * (i32::MAX as int) == 0) by (nonlinear_arith);
    }
}

/// The least of `values`, and `i32::MAX` if there are none.
pub fn block_min(values: &[i32]) -> (m: i32)
    ensures
        m == seq_min(values@),
{
    let mut m: i32 = i32::MAX;
    let mut i: usize = 0;
    while i < values.len()
        invariant
            i <= values@.len(),
            m == seq_min(values@.subrange(0, i as int)),
        decreases values@.len() - i,
    {
        assert(values@.subrange(0, i + 1).drop_last() =~= values@.subrange(0, i as int));
        if values[i] < m {
            m = values[i];
        }
        i += 1;
    }
    assert(values@.subrange(0, i as int) =~= values@);
    m
}

/// The greatest of `values`, and `i32::MIN` if there are none.
pub fn block_max(values: &[i32]) -> (m: i32)
    ensures
        m == seq_max(values@),
{
    let mut m: i32 = i32::MIN;
    let mut i: usize = 0;
    while i < values.len()
        invariant
            i <= values@.len(),
            m == seq_max(values@.subrange(0, i as int)),
        decreases values@.len() - i,
    {
        assert(values@.subrange(0, i + 1).drop_last() =~= values@.subrange(0, i as int));
        if values[i] > m {
            m = values[i];
        }
        i += 1;
    }
    assert(values@.subrange(0, i as int) =~= values@);
    m
}

/// The sum of `values`.
pub fn sum(values: &[i32]) -> (total: i128)
    ensures
        total == seq_sum(values@),
{
    let mut total: i128 = 0;
    let mut i: usize = 0;
    while i < values.len()
        invariant
            i <= values@.len(),
            total == seq_sum(values@.subrange(0, i as int)),
        decreases values@.len() - i,
    {
        assert(values@.subrange(0, i + 1).drop_last() =~= values@.subrange(0, i as int));
        proof {
            lemma_sum_bounds(values@.subrange(0, i as int));
            assert(i * (i32::MIN as int) >= usize::MAX * (i32::MIN as int)) by (nonlinear_arith)
                requires
                    0 <= i <= usize::MAX,
            ;
            assert(i * (i32::MAX as int) <= usize::MAX * (i32::MAX as int)) by (nonlinear_arith)
                requires
                    0 <= i <= usize::MAX,
            ;
        }
        total = total + values[i] as i128;
        i += 1;
    }
    assert(values@.subrange(0, i as int) =~= values@);
    total
}

/// The number of `values` above zero.
pub fn count_positive(values: &[i32]) -> (n: usize)
    ensures
        n == seq_positive(values@),
{
    let mut n: usize = 0;
    let mut i: usize = 0;
    while i < values.len()
        invariant
            i <= values@.len(),
            n <= i,
            n == seq_positive(values@.subrange(0, i as int)),
        decreases values@.len() - i,
    {
        assert(values@.subrange(0, i + 1).drop_last() =~= values@.subrange(0, i as int));
        if values[i] > 0 {
            n += 1;
        }
        i += 1;
    }
    assert(values@.subrange(0, i as int) =~= values@);
    n
}

/// The mean of `values`, rounded down to a whole number of thousandths.
pub fn block_mean(values: &[i32]) -> (m: i32)
    requires
        values@.len() > 0,
    ensures
        m == seq_mean(values@),
{
    let total: i128 = sum(values);
    let n: i128 = values.len() as i128;
    proof {
        lemma_sum_bounds(values@);
        lemma_mean_bounds(seq_sum(values@), n as int);
    }
    crate::arith::floor_div(total, n) as i32
}

/// A mean lies between the bounds that each of the values lies between.
pub proof fn lemma_mean_bounds(total: int, n: int)
    requires
        n > 0,
        n * (i32::MIN as int) <= total <= n * (i32::MAX as int),
    ensures
        i32::MIN <= total / n <= i32::MAX,
{
    vstd::arithmetic::div_mod::lemma_fundamental_div_mod(total, n);
    let q = total / n;
    let r = total % n;
    assert(i32::MIN <= q <= i32::MAX) by (nonlinear_arith)
        requires
            total == n * q + r,
            0 <= r < n,
            n * (i32::MIN as int) <= total <= n * (i32::MAX as int),
    ;
}

/// What a chart shows of a day's minimum temperature: thousandths of a
/// degree Fahrenheit.
pub open spec fn min_temperature_value(day: Day) -> Option<i32> {
    match day.min_temperature {
        Some(t) => Some(t.t.f),
        None => None,
    }
}

/// What a chart shows of a day's maximum temperature: thousandths of a
/// degree Fahrenheit.
pub open spec fn max_temperature_value(day: Day) -> Option<i32> {
    match day.max_temperature {
        Some(t) => Some(t.t.f),
        None => None,
    }
}

/// What a chart shows of a day's mean temperature: thousandths of a degree
/// Fahrenheit.
pub open spec fn mean_temperature_value(day: Day) -> Option<i32> {
    match day.mean_temperature {
        Some(t) => Some(t.t.f),
        None => None,
    }
}

/// What a chart shows of a day's mean wind speed: thousandths of a knot.
pub open spec fn mean_wind_value(day: Day) -> Option<i32> {
    match day.mean_wind {
        Some(w) => Some(w.s.s),
        None => None,
    }
}

/// What a chart shows of a day's greatest sustained wind speed: thousandths
/// of a knot.
pub open spec fn max_sustained_wind_value(day: Day) -> Option<i32> {
    match day.max_sustained_wind {
        Some(w) => Some(w.s),
        None => None,
    }
}

/// What a chart shows of a day's precipitation: thousandths of an inch, and
/// none where none was reported.
pub open spec fn precipitation_value(day: Day) -> Option<i32> {
    match day.precipitation {
        Some(p) => Some(p.p),
        None => Some(0i32),
    }
}

/// What a chart shows of a day's minimum temperature.
pub fn min_temperature_of(day: &Day) -> (v: Option<i32>)
    ensures
        v == min_temperature_value(*day),
{
    match day.min_temperature() {
        Some(t) => Some(t.in_fahrenheit()),
        None => None,
    }
}

/// What a chart shows of a day's maximum temperature.
pub fn max_temperature_of(day: &Day) -> (v: Option<i32>)
    ensures
        v == max_temperature_value(*day),
{
    match day.max_temperature() {
        Some(t) => Some(t.in_fahrenheit()),
        None => None,
    }
}

/// What a chart shows of a day's mean temperature.
pub fn mean_temperature_of(day: &Day) -> (v: Option<i32>)
    ensures
        v == mean_temperature_value(*day),
{
    match day.mean_temperature() {
        Some(t) => Some(t.in_fahrenheit()),
        None => None,
    }
}

/// What a chart shows of a day's mean wind speed.
pub fn mean_wind_of(day: &Day) -> (v: Option<i32>)
    ensures
        v == mean_wind_value(*day),
{
    match day.mean_wind() {
        Some(w) => Some(w.in_knots()),
        None => None,
    }
}

/// What a chart shows of a day's greatest sustained wind speed.
pub fn max_sustained_wind_of(day: &Day) -> (v: Option<i32>)
    ensures
        v == max_sustained_wind_value(*day),
{
    match day.max_sustained_wind() {
        Some(w) => Some(w.in_knots()),
        None => None,
    }
}

/// What a chart shows of a day's precipitation.
pub fn precipitation_of(day: &Day) -> (v: Option<i32>)
    ensures
        v == precipitation_value(*day),
{
    match day.precipitation() {
        Some(p) => Some(p.in_inches()),
        None => Some(0),
    }
}

/// What `extract` gives for each day of `year`, in calendar order: for the
/// last summary in `days` that has the day's day of the year, and nothing
/// where there is none.
pub open spec fn day_items(
    year: Year,
    days: Seq<Day>,
    extract: spec_fn(Day) -> Option<i32>,
) -> Seq<Option<i32>> {
    Seq::new(
        (days_in_year(year.ordinal() as int) - year.start().spec_ordinal() + 1) as nat,
        |k: int|
            match last_for(days, days.len() as int, year.start().spec_ordinal() + k) {
                Some(j) => extract(days[j]),
                None => None,
            },
    )
}

/// The series has the values and the places of the extremes that
/// [`Series::from_iterator`] gives for `items`, and the range `rng`.
pub open spec fn holds(series: Series, items: Seq<Option<i32>>, rng: Range) -> bool {
    &&& series@.len() == items.len()
    &&& forall|i: int| 0 <= i < items.len() ==> series@[i] == filled(items, i)
    &&& *series.range() == rng
    &&& series.min_index() == running_min_index(items, items.len() as int)
    &&& series.max_index() == running_max_index(items, items.len() as int)
}

/// The range from the least to the greatest value present in `items`.
pub open spec fn present_range(items: Seq<Option<i32>>, rng: Range) -> bool {
    &&& rng.min() == running_min(items, items.len() as int)
    &&& rng.max() == running_max(items, items.len() as int)
}

/// The range `both` runs from the least to the greatest value present in
/// `a` or in `b`.
pub open spec fn spans(both: Range, a: Seq<Option<i32>>, b: Seq<Option<i32>>) -> bool {
    let a_min = running_min(a, a.len() as int);
    let b_min = running_min(b, b.len() as int);
    let a_max = running_max(a, a.len() as int);
    let b_max = running_max(b, b.len() as int);
    &&& both.min() == if a_min <= b_min {
        a_min
    } else {
        b_min
    }
    &&& both.max() == if a_max >= b_max {
        a_max
    } else {
        b_max
    }
}

/// The series of what `f` gives for each day of `year`, where `f` computes
/// `extract`.
fn extract_series<F: Fn(&Day) -> Option<i32>>(
    year: Year,
    days: &[Day],
    f: F,
    Ghost(extract): Ghost<spec_fn(Day) -> Option<i32>>,
) -> (s: Series)
    requires
        year.ordinal() < MAX_YEAR,
        forall|d: &Day| f.requires((d,)),
        forall|d: &Day, v: Option<i32>| f.ensures((d,), v) ==> v == extract(*d),
    ensures
        holds(s, day_items(year, days@, extract), *s.range()),
        present_range(day_items(year, days@, extract), *s.range()),
{
    let s = Series::for_each_day(year, days, f);
    proof {
        let items = choose|items: Seq<Option<i32>>|
            {
                &&& items.len() == days_in_year(year.ordinal() as int)
                    - year.start().spec_ordinal() + 1
                &&& aligned(f, days@, year.start().spec_ordinal(), items)
                &&& #[trigger] s.built_from(items)
            };
        let wanted = day_items(year, days@, extract);
        assert forall|k: int| 0 <= k < items.len() implies items[k] == wanted[k] by {
            let found = last_for(days@, days@.len() as int, year.start().spec_ordinal() + k);
            if found.is_some() {
                crate::series::lemma_last_for(
                    days@,
                    days@.len() as int,
                    year.start().spec_ordinal() + k,
                );
                assert(f.ensures((&days@[found.unwrap()],), items[k]));
            }
        }
        assert(items =~= wanted);
    }
    s
}

/// The three temperature series of a year, on one range.
#[derive(Debug)]
pub struct TemperatureSeries {
    min: Series,
    max: Series,
    mean: Series,
}

impl TemperatureSeries {
    /// The series of the minimum temperatures.
    pub closed spec fn spec_min(&self) -> &Series {
        &self.min
    }

    /// The series of the greatest values.
    pub closed spec fn spec_max(&self) -> &Series {
        &self.max
    }

    /// The series of the means.
    pub closed spec fn spec_mean(&self) -> &Series {
        &self.mean
    }

    /// The three series have one value for each day of one year, and the
    /// same range.
    #[verifier::type_invariant]
    pub open spec fn wf(&self) -> bool {
        &&& self.min()@.len() > 0
        &&& self.max()@.len() == self.min()@.len()
        &&& self.mean()@.len() == self.min()@.len()
        &&& *self.max().range() == *self.min().range()
        &&& *self.mean().range() == *self.min().range()
    }

    /// The minimum temperature of each day.
    #[verifier::when_used_as_spec(spec_min)]
    pub fn min(&self) -> (s: &Series)
        ensures
            s == self.spec_min(),
    {
        &self.min
    }

    /// The maximum temperature of each day.
    #[verifier::when_used_as_spec(spec_max)]
    pub fn max(&self) -> (s: &Series)
        ensures
            s == self.spec_max(),
    {
        &self.max
    }

    /// The mean temperature of each day.
    #[verifier::when_used_as_spec(spec_mean)]
    pub fn mean(&self) -> (s: &Series)
        ensures
            s == self.spec_mean(),
    {
        &self.mean
    }
}

/// The temperature series of `year` from the summaries `days`. All three
/// have the range that spans the minimum and the maximum temperatures that
/// are present, so that they share one scale.
pub fn temperature_series(year: Year, days: &[Day]) -> (ts: TemperatureSeries)
    requires
        year.ordinal() < MAX_YEAR,
    ensures
        ts.wf(),
        spans(
            *ts.min().range(),
            day_items(year, days@, |d: Day| max_temperature_value(d)),
            day_items(year, days@, |d: Day| min_temperature_value(d)),
        ),
        holds(*ts.min(), day_items(year, days@, |d: Day| min_temperature_value(d)), *ts.min().range()),
        holds(*ts.max(), day_items(year, days@, |d: Day| max_temperature_value(d)), *ts.min().range()),
        holds(
            *ts.mean(),
            day_items(year, days@, |d: Day| mean_temperature_value(d)),
            *ts.min().range(),
        ),
{
    let min = extract_series(year, days, min_temperature_of, Ghost(|d: Day| min_temperature_value(d)));
    let max = extract_series(year, days, max_temperature_of, Ghost(|d: Day| max_temperature_value(d)));
    let mean = extract_series(
        year,
        days,
        mean_temperature_of,
        Ghost(|d: Day| mean_temperature_value(d)),
    );
    let range = Range::intersect(max.range(), min.range());
    let min = min.with_range(&range);
    let max = max.with_range(&range);
    let mean = mean.with_range(&range);
    let start = year.start();
    proof {
        use_type_invariant(&start);
        lemma_ordinal_bounds(start);
    }
    TemperatureSeries { min, max, mean }
}

/// The two wind series of a year, on one range.
#[derive(Debug)]
pub struct WindSeries {
    mean: Series,
    max: Series,
}

impl WindSeries {
    /// The series of the means.
    pub closed spec fn spec_mean(&self) -> &Series {
        &self.mean
    }

    /// The series of the greatest values.
    pub closed spec fn spec_max(&self) -> &Series {
        &self.max
    }

    /// The two series have one value for each day of one year, and the same
    /// range.
    #[verifier::type_invariant]
    pub open spec fn wf(&self) -> bool {
        &&& self.mean()@.len() > 0
        &&& self.max()@.len() == self.mean()@.len()
        &&& *self.max().range() == *self.mean().range()
    }

    /// The mean wind speed of each day.
    #[verifier::when_used_as_spec(spec_mean)]
    pub fn mean(&self) -> (s: &Series)
        ensures
            s == self.spec_mean(),
    {
        &self.mean
    }

    /// The greatest sustained wind speed of each day.
    #[verifier::when_used_as_spec(spec_max)]
    pub fn max(&self) -> (s: &Series)
        ensures
            s == self.spec_max(),
    {
        &self.max
    }
}

/// The wind series of `year` from the summaries `days`. Both have the range
/// that spans the mean and the greatest speeds that are present.
pub fn wind_series(year: Year, days: &[Day]) -> (ws: WindSeries)
    requires
        year.ordinal() < MAX_YEAR,
    ensures
        ws.wf(),
        spans(
            *ws.mean().range(),
            day_items(year, days@, |d: Day| mean_wind_value(d)),
            day_items(year, days@, |d: Day| max_sustained_wind_value(d)),
        ),
        holds(*ws.mean(), day_items(year, days@, |d: Day| mean_wind_value(d)), *ws.mean().range()),
        holds(
            *ws.max(),
            day_items(year, days@, |d: Day| max_sustained_wind_value(d)),
            *ws.mean().range(),
        ),
{
    let mean = extract_series(year, days, mean_wind_of, Ghost(|d: Day| mean_wind_value(d)));
    let max = extract_series(
        year,
        days,
        max_sustained_wind_of,
        Ghost(|d: Day| max_sustained_wind_value(d)),
    );
    let range = Range::intersect(mean.range(), max.range());
    let mean = mean.with_range(&range);
    let max = max.with_range(&range);
    let start = year.start();
    proof {
        use_type_invariant(&start);
        lemma_ordinal_bounds(start);
    }
    WindSeries { mean, max }
}

/// The precipitation series of `year` from the summaries `days`, with the
/// range of the amounts that are present. A summary without an amount counts
/// as a day without precipitation; only a day without a summary is missing.
pub fn precipitation_series(year: Year, days: &[Day]) -> (s: Series)
    requires
        year.ordinal() < MAX_YEAR,
    ensures
        s@.len() > 0,
        holds(s, day_items(year, days@, |d: Day| precipitation_value(d)), *s.range()),
        present_range(day_items(year, days@, |d: Day| precipitation_value(d)), *s.range()),
{
    let start = year.start();
    proof {
        use_type_invariant(&start);
        lemma_ordinal_bounds(start);
    }
    extract_series(year, days, precipitation_of, Ghost(|d: Day| precipitation_value(d)))
}

/// How a chart is to be drawn.
#[derive(Debug, Clone, Copy)]
pub struct Options {
    /// Whether to show the construction of the layout.
    pub debug: bool,
    /// How many days in a row are drawn as one sample; 0 and 1 both draw
    /// every day.
    pub downsample_by: u32,
    /// Whether samples are joined by curves, not by straight lines.
    pub smooth: bool,
}

/// Why a chart cannot be drawn.
#[derive(Debug, Clone, Copy, PartialEq, Eq)]
pub enum ChartError {
    /// No scale fits the range of the values.
    Scale(ScaleError),
    /// There are fewer days than go into one sample, so that nothing is left
    /// to draw.
    NoSamples,
}

/// How the days that go into one sample are made into one value.
#[derive(Debug, Clone, Copy, PartialEq, Eq)]
pub enum Aggregate {
    /// The least value: [`block_min`].
    Min,
    /// The greatest value: [`block_max`].
    Max,
    /// The mean of the values: [`block_mean`].
    Mean,
}

impl Aggregate {
    /// The one value made of `values`.
    pub open spec fn of(self, values: Seq<i32>) -> i32 {
        match self {
            Aggregate::Min => seq_min(values),
            Aggregate::Max => seq_max(values),
            Aggregate::Mean => seq_mean(values) as i32,
        }
    }
}

/// The values of a series as they are drawn with `k` days to a sample, each
/// sample made by `agg`: the values themselves unless `k` is above 1.
pub open spec fn thinned_values(values: Seq<i32>, k: int, agg: Aggregate) -> Seq<i32> {
    if k > 1 {
        Seq::new((values.len() as int / k) as nat, |i: int| agg.of(block(values, k, i)))
    } else {
        values
    }
}

/// `thin` is `series` as it is drawn with `k` days to a sample: see
/// [`thinned_values`] and [`Series::downsample_by`].
pub open spec fn thinned(thin: Series, series: Series, k: int, agg: Aggregate) -> bool {
    &&& thin@ == thinned_values(series@, k, agg)
    &&& *thin.range() == *series.range()
    &&& thin.min_index() == if k > 1 {
        (series.min_index() as int) / k
    } else {
        series.min_index() as int
    }
    &&& thin.max_index() == if k > 1 {
        (series.max_index() as int) / k
    } else {
        series.max_index() as int
    }
}

/// `series` as it is drawn with `k` days to a sample.
fn thin<F: Fn(&[i32]) -> i32>(
    series: Series,
    k: u32,
    agg: F,
    Ghost(value): Ghost<Aggregate>,
) -> (t: Series)
    requires
        forall|b: &[i32]| b@.len() > 0 ==> agg.requires((b,)),
        forall|b: &[i32], v: i32| agg.ensures((b,), v) ==> v == value.of(b@),
    ensures
        thinned(t, series, k as int, value),
{
    if k > 1 {
        proof {
            assert forall|i: int, b: &[i32]|
                #![trigger block(series@, k as int, i), agg.requires((b,))]
                0 <= i < (series@.len() as int) / (k as int) && b@ == block(
                    series@,
                    k as int,
                    i,
                ) implies agg.requires((b,)) by {
                lemma_block_in_bounds(series@.len() as int, k as int, i);
            }
        }
        let t = series.downsample_by(k as usize, agg);
        proof {
            assert forall|i: int| 0 <= i < t@.len() implies t@[i] == thinned_values(
                series@,
                k as int,
                value,
            )[i] by {
                assert(aggregates(agg, block(series@, k as int, i), t@[i]));
            }
            assert(t@ =~= thinned_values(series@, k as int, value));
        }
        t
    } else {
        series
    }
}

/// What there is to draw of one chart.
#[derive(Debug)]
pub struct Chart {
    /// The wedges of the months, in calendar order.
    pub months: Vec<MonthWedge>,
    /// The rings of the scale, from the innermost on.
    pub rings: Vec<ScaleRing>,
    /// The number of samples around the circle: the number of slots that
    /// make a full turn.
    pub slots: usize,
    /// The path around the band between two series; empty in a chart
    /// without a band.
    pub band: Vec<PathOp>,
    /// The path of the curve or of the spokes of one series; empty in a
    /// chart that has only a band.
    pub curve: Vec<PathOp>,
    /// The lines of the summary in the middle of the chart, each a caption
    /// and a value.
    pub summary: Vec<(String, String)>,
}

/// The line of a summary with the caption `key` and, as its value, the
/// fraction `num / den` with one digit after the point, followed by `units`.
pub open spec fn is_entry(
    entry: (String, String),
    key: Seq<char>,
    num: int,
    den: int,
    units: Seq<char>,
) -> bool {
    entry.0@ == key && entry.1@ == decimal_text(num, den, 1) + units
}

fn entry(key: &str, num: i128, den: i128, units: &str) -> (e: (String, String))
    requires
        den > 0,
        -0x1_0000_0000_0000_0000_0000_0000 <= num <= 0x1_0000_0000_0000_0000_0000_0000,
    ensures
        is_entry(e, key@, num as int, den as int, units@),
{
    let mut value = decimal_to_string(num, den, 1);
    value.append(units);
    (String::from_str(key), value)
}

/// The sum of the values of a series is small enough to be written out.
proof fn lemma_sum_fits(values: Seq<i32>)
    requires
        values.len() <= isize::MAX,
    ensures
        -0x1_0000_0000_0000_0000_0000_0000 <= seq_sum(values) <= 0x1_0000_0000_0000_0000_0000_0000,
{
    lemma_sum_bounds(values);
    let n = values.len() as int;
    assert(n * (i32::MIN as int) >= -0x1_0000_0000_0000_0000_0000_0000) by (nonlinear_arith)
        requires
            0 <= n <= 0x7fff_ffff_ffff_ffff,
    ;
    assert(n * (i32::MAX as int) <= 0x1_0000_0000_0000_0000_0000_0000) by (nonlinear_arith)
        requires
            0 <= n <= 0x7fff_ffff_ffff_ffff,
    ;
}

/// The number of samples that thinning by `k` leaves of `len` values.
pub open spec fn thinned_len(len: int, k: int) -> int {
    if k > 1 {
        len / k
    } else {
        len
    }
}

/// The chart of the temperatures of a year, drawn into `rrange`: the band
/// between the minimum and the maximum temperatures and the curve of the
/// mean temperature, with the scale of the range that the three share and
/// with the greatest, the average mean and the least temperature as its
/// summary. The series are thinned out as `opts` asks; scale and summary are
/// those of the series before that.
pub fn render_temperature(year: Year, ts: TemperatureSeries, rrange: &Range, opts: &Options) -> (res:
    Result<Chart, ChartError>)
    requires
        year.ordinal() < MAX_YEAR,
    ensures
        match res {
            Err(ChartError::Scale(e)) => scale_failure(*ts.min().range(), 5) == Some(e),
            Err(ChartError::NoSamples) => scale_failure(*ts.min().range(), 5).is_none()
                && thinned_len(ts.min()@.len() as int, opts.downsample_by as int) == 0,
            Ok(chart) => {
                &&& scale_failure(*ts.min().range(), 5).is_none()
                &&& chart.slots == thinned_len(ts.min()@.len() as int, opts.downsample_by as int)
                &&& chart.slots > 0
                &&& months_of(chart.months@, year)
                &&& exists|sc: Scale| #[trigger]
                    sc.fitted(*ts.min().range(), 5) && rings_of(
                        chart.rings@,
                        sc,
                        *ts.min().range(),
                        *rrange,
                        "°F"@,
                    )
                &&& exists|lo: Series, hi: Series, mid: Series|
                    #![trigger thinned(lo, *ts.min(), opts.downsample_by as int, Aggregate::Min), thinned(hi, *ts.max(), opts.downsample_by as int, Aggregate::Max), thinned(mid, *ts.mean(), opts.downsample_by as int, Aggregate::Mean)]
                    {
                        &&& thinned(lo, *ts.min(), opts.downsample_by as int, Aggregate::Min)
                        &&& thinned(hi, *ts.max(), opts.downsample_by as int, Aggregate::Max)
                        &&& thinned(mid, *ts.mean(), opts.downsample_by as int, Aggregate::Mean)
                        &&& chart.band@ == series_path(hi, *rrange, opts.smooth) + return_path(
                            lo,
                            *rrange,
                            opts.smooth,
                        )
                        &&& chart.curve@ == series_path(mid, *rrange, opts.smooth)
                    }
                &&& chart.summary@.len() == 3
                &&& is_entry(chart.summary@[0], "MAX"@, ts.min().range().max() as int, ONE as int, "°F"@)
                &&& is_entry(
                    chart.summary@[1],
                    "AVG"@,
                    seq_sum(ts.mean()@),
                    ts.mean()@.len() * ONE,
                    "°F"@,
                )
                &&& is_entry(chart.summary@[2], "MIN"@, ts.min().range().min() as int, ONE as int, "°F"@)
            },
        },
{
    proof {
        use_type_invariant(&ts);
        use_type_invariant(&ts.mean);
        lemma_sum_fits(ts.mean@);
    }
    let range: Range = *ts.min.range();
    let scale = match Scale::from_range(&range, 5) {
        Ok(scale) => scale,
        Err(e) => {
            return Err(ChartError::Scale(e));
        },
    };
    let total: i128 = sum(ts.mean.values());
    let count: i128 = ts.mean.values().len() as i128;
    let mut summary: Vec<(String, String)> = Vec::new();
    summary.push(entry("MAX", range.max() as i128, ONE as i128, "°F"));
    summary.push(entry("AVG", total, count * (ONE as i128), "°F"));
    summary.push(entry("MIN", range.min() as i128, ONE as i128, "°F"));
    let ghost before = ts;
    let TemperatureSeries { min, max, mean } = ts;
    let lo = thin(min, opts.downsample_by, block_min, Ghost(Aggregate::Min));
    let hi = thin(max, opts.downsample_by, block_max, Ghost(Aggregate::Max));
    let mid = thin(mean, opts.downsample_by, block_mean, Ghost(Aggregate::Mean));
    let slots: usize = lo.values().len();
    if slots == 0 {
        return Err(ChartError::NoSamples);
    }
    let months = render_months(year);
    let rings = render_scales(&scale, &range, rrange, "°F");
    let band = render_radial_range(&lo, &hi, rrange, opts.smooth);
    let curve = render_radial_series(&mid, rrange, opts.smooth);
    let chart = Chart { months, rings, slots, band, curve, summary };
    proof {
        assert(scale.fitted(*before.min().range(), 5) && rings_of(
            chart.rings@,
            scale,
            *before.min().range(),
            *rrange,
            "°F"@,
        ));
        assert(thinned(lo, *before.min(), opts.downsample_by as int, Aggregate::Min) && thinned(
            hi,
            *before.max(),
            opts.downsample_by as int,
            Aggregate::Max,
        ) && thinned(mid, *before.mean(), opts.downsample_by as int, Aggregate::Mean));
    }
    Ok(chart)
}

/// The chart of the wind of a year, drawn into `rrange`: the band between the
/// mean and the greatest sustained wind speed, with the scale of the range
/// that the two share and with the greatest speed and the average mean speed
/// as its summary. The series are thinned out as `opts` asks; scale and
/// summary are those of the series before that.
pub fn render_wind(year: Year, ws: WindSeries, rrange: &Range, opts: &Options) -> (res: Result<
    Chart,
    ChartError,
>)
    requires
        year.ordinal() < MAX_YEAR,
    ensures
        match res {
            Err(ChartError::Scale(e)) => scale_failure(*ws.mean().range(), 5) == Some(e),
            Err(ChartError::NoSamples) => scale_failure(*ws.mean().range(), 5).is_none()
                && thinned_len(ws.mean()@.len() as int, opts.downsample_by as int) == 0,
            Ok(chart) => {
                &&& scale_failure(*ws.mean().range(), 5).is_none()
                &&& chart.slots == thinned_len(ws.mean()@.len() as int, opts.downsample_by as int)
                &&& chart.slots > 0
                &&& months_of(chart.months@, year)
                &&& exists|sc: Scale| #[trigger]
                    sc.fitted(*ws.mean().range(), 5) && rings_of(
                        chart.rings@,
                        sc,
                        *ws.mean().range(),
                        *rrange,
                        " kts"@,
                    )
                &&& exists|lo: Series, hi: Series|
                    #![trigger thinned(lo, *ws.mean(), opts.downsample_by as int, Aggregate::Mean), thinned(hi, *ws.max(), opts.downsample_by as int, Aggregate::Max)]
                    {
                        &&& thinned(lo, *ws.mean(), opts.downsample_by as int, Aggregate::Mean)
                        &&& thinned(hi, *ws.max(), opts.downsample_by as int, Aggregate::Max)
                        &&& chart.band@ == series_path(hi, *rrange, opts.smooth) + return_path(
                            lo,
                            *rrange,
                            opts.smooth,
                        )
                    }
                &&& chart.curve@.len() == 0
                &&& chart.summary@.len() == 2
                &&& is_entry(
                    chart.summary@[0],
                    "MAX"@,
                    ws.mean().range().max() as int,
                    ONE as int,
                    " kts"@,
                )
                &&& is_entry(
                    chart.summary@[1],
                    "AVG"@,
                    seq_sum(ws.mean()@),
                    ws.mean()@.len() * ONE,
                    " kts"@,
                )
            },
        },
{
    proof {
        use_type_invariant(&ws);
        use_type_invariant(&ws.mean);
        lemma_sum_fits(ws.mean@);
    }
    let range: Range = *ws.mean.range();
    let scale = match Scale::from_range(&range, 5) {
        Ok(scale) => scale,
        Err(e) => {
            return Err(ChartError::Scale(e));
        },
    };
    let total: i128 = sum(ws.mean.values());
    let count: i128 = ws.mean.values().len() as i128;
    let mut summary: Vec<(String, String)> = Vec::new();
    summary.push(entry("MAX", range.max() as i128, ONE as i128, " kts"));
    summary.push(entry("AVG", total, count * (ONE as i128), " kts"));
    let ghost before = ws;
    let WindSeries { mean, max } = ws;
    let lo = thin(mean, opts.downsample_by, block_mean, Ghost(Aggregate::Mean));
    let hi = thin(max, opts.downsample_by, block_max, Ghost(Aggregate::Max));
    let slots: usize = lo.values().len();
    if slots == 0 {
        return Err(ChartError::NoSamples);
    }
    let months = render_months(year);
    let rings = render_scales(&scale, &range, rrange, " kts");
    let band = render_radial_range(&lo, &hi, rrange, opts.smooth);
    let chart = Chart { months, rings, slots, band, curve: Vec::new(), summary };
    proof {
        assert(scale.fitted(*before.mean().range(), 5) && rings_of(
            chart.rings@,
            scale,
            *before.mean().range(),
            *rrange,
            " kts"@,
        ));
        assert(thinned(lo, *before.mean(), opts.downsample_by as int, Aggregate::Mean) && thinned(
            hi,
            *before.max(),
            opts.downsample_by as int,
            Aggregate::Max,
        ));
    }
    Ok(chart)
}

/// The chart of the precipitation of a year, drawn into `rrange`: a spoke
/// for every day, with the scale of the range of the series and with the
/// number of days with precipitation and the total amount as its summary.
/// Nothing is thinned out.
pub fn render_precipitation(year: Year, series: &Series, rrange: &Range) -> (res: Result<
    Chart,
    ChartError,
>)
    requires
        year.ordinal() < MAX_YEAR,
    ensures
        match res {
            Err(ChartError::Scale(e)) => scale_failure(*series.range(), 4) == Some(e),
            Err(ChartError::NoSamples) => false,
            Ok(chart) => {
                &&& scale_failure(*series.range(), 4).is_none()
                &&& chart.slots == series@.len()
                &&& months_of(chart.months@, year)
                &&& exists|sc: Scale| #[trigger]
                    sc.fitted(*series.range(), 4) && rings_of(
                        chart.rings@,
                        sc,
                        *series.range(),
                        *rrange,
                        " in"@,
                    )
                &&& chart.band@.len() == 0
                &&& chart.curve@ == spokes_path(*series, *rrange)
                &&& chart.summary@.len() == 2
                &&& chart.summary@[0].0@ == "DAYS"@
                &&& chart.summary@[0].1@ == int_text(seq_positive(series@))
                &&& is_entry(chart.summary@[1], "TOTAL"@, seq_sum(series@), ONE as int, " in"@)
            },
        },
{
    proof {
        use_type_invariant(series);
        lemma_sum_fits(series@);
    }
    let range: Range = *series.range();
    let scale = match Scale::from_range(&range, 4) {
        Ok(scale) => scale,
        Err(e) => {
            return Err(ChartError::Scale(e));
        },
    };
    let days: usize = count_positive(series.values());
    let total: i128 = sum(series.values());
    let mut summary: Vec<(String, String)> = Vec::new();
    summary.push((String::from_str("DAYS"), int_to_string(days as i128)));
    summary.push(entry("TOTAL", total, ONE as i128, " in"));
    let months = render_months(year);
    let rings = render_scales(&scale, &range, rrange, " in");
    let curve = render_radial_spokes(series, rrange);
    let chart = Chart {
        months,
        rings,
        slots: series.values().len(),
        band: Vec::new(),
        curve,
        summary,
    };
    proof {
        assert(scale.fitted(*series.range(), 4) && rings_of(
            chart.rings@,
            scale,
            *series.range(),
            *rrange,
            " in"@,
        ));
    }
    Ok(chart)
}

/// Where the three charts lie on a canvas. Lengths are thousandths of the
/// unit of the canvas, and points are given by their distance from the left
/// and from the top.
#[derive(Debug, Clone, Copy)]
pub struct Layout {
    /// The centre of the temperature chart, in the left third.
    pub left: (i64, i64),
    /// The centre of the wind chart, in the middle third.
    pub center: (i64, i64),
    /// The centre of the precipitation chart, in the right third.
    pub right: (i64, i64),
    /// The radii between which the values of a chart are drawn.
    pub rrange: Range,
    /// The radii between which the wedges of the months lie, inside the
    /// values.
    pub months: Range,
    /// How far above the centre of a chart its title stands.
    pub title_rise: i64,
}

/// The greatest radius of a chart on a canvas of this size: a sixth of the
/// width, or half of the height below the header if that is less.
pub open spec fn chart_radius(width: int, height: int, header: int) -> int {
    if width / 6 <= (height - header) / 2 {
        width / 6
    } else {
        (height - header) / 2
    }
}

/// The layout of the three charts on a canvas `width` wide and `height`
/// high whose upper `header` are taken by the header: the charts lie side by
/// side in the middle of the height below the header, each in the middle of
/// its third of the width. Values are drawn between six and nine tenths of
/// [`chart_radius`], the months between 40 and 5 inside of that, and the
/// title 10 outside of it.
pub fn layout(width: i32, height: i32, header: i32) -> (l: Layout)
    ensures
        l.left.0 == (width as int) / 6,
        l.center.0 == (width as int) / 2,
        l.right.0 == (5 * width) / 6,
        l.left.1 == header + (height - header) / 2,
        l.center.1 == l.left.1,
        l.right.1 == l.left.1,
        l.rrange.min() == (6 * chart_radius(width as int, height as int, header as int)) / 10,
        l.rrange.max() == (9 * chart_radius(width as int, height as int, header as int)) / 10,
        l.months.min() == l.rrange.min() - 40 * ONE,
        l.months.max() == l.rrange.min() - 5 * ONE,
        l.title_rise == l.rrange.max() + 10 * ONE,
{
    let w: i128 = width as i128;
    let body: i128 = height as i128 - header as i128;
    let y: i64 = (header as i128 + crate::arith::floor_div(body, 2)) as i64;
    let lx: i128 = crate::arith::floor_div(w, 6);
    let half: i128 = crate::arith::floor_div(body, 2);
    let r: i128 = if lx <= half {
        lx
    } else {
        half
    };
    let inner: i32 = crate::arith::floor_div(6 * r, 10) as i32;
    let outer: i32 = crate::arith::floor_div(9 * r, 10) as i32;
    Layout {
        left: (lx as i64, y),
        center: (crate::arith::floor_div(w, 2) as i64, y),
        right: (crate::arith::floor_div(5 * w, 6) as i64, y),
        rrange: Range::new(inner, outer),
        months: Range::new(inner - 40 * ONE, inner - 5 * ONE),
        title_rise: outer as i64 + 10 * (ONE as i64),
    }
}

} // verus!
