//! The layout of a radial chart of one year: where the samples of a series
//! lie around the circle, how they are joined into paths, where the months
//! and the rings of the scale lie.
//!
//! Angles are kept as slots: slot `i` of `n` lies `i / n` of a full turn
//! clockwise from the top of the circle. Radii are values of the range that
//! the chart is drawn into.

use crate::range::{Range, Unit, ONE};
use crate::scale::{label_text, Scale};
use crate::series::{circular, Series};
use crate::time::{
    days_before_month, days_in_month, days_in_year, lemma_ordinal_bounds, Year, MAX_YEAR,
};
use vstd::prelude::*;
use vstd::string::*;

verus! {

/// The side of the chart on which the labels of the scale stand.
#[derive(Debug, Clone, Copy, PartialEq, Eq)]
pub enum Direction {
    Right,
    Left,
}

/// A point of a radial chart.
#[derive(Debug, Clone, Copy, PartialEq, Eq)]
pub struct PolarPoint {
    /// The distance from the centre.
    pub radius: i128,
    /// The angle, as a slot.
    pub slot: isize,
}

/// One step of a path.
#[derive(Debug, Clone, Copy, PartialEq, Eq)]
pub enum PathOp {
    /// Start a new part of the path at the point.
    MoveTo(PolarPoint),
    /// Go on to the point in a straight line.
    LineTo(PolarPoint),
    /// Go on from `from` to `to` in a smooth curve that leaves and arrives
    /// along the circles through the two points, in the direction in which
    /// the path runs around the centre.
    CurveTo { from: PolarPoint, to: PolarPoint, clockwise: bool },
}

/// The radius at which the value of `series` at index `i` lies in a chart
/// drawn into `rrange`. Indices wrap around.
pub open spec fn radius_at(series: Series, rrange: Range, i: int) -> int {
    rrange.spec_project(
        series.range().normal_num(series@[circular(i, series@.len() as int)] as int),
        series.range().normal_den(),
    )
}

/// The point at which the value of `series` at index `i` lies.
pub open spec fn point_at(series: Series, rrange: Range, i: int) -> PolarPoint {
    PolarPoint { radius: radius_at(series, rrange, i) as i128, slot: i as isize }
}

/// The step of a path that joins the sample at index `from` to the one at
/// index `to`.
pub open spec fn segment(
    series: Series,
    rrange: Range,
    from: int,
    to: int,
    smooth: bool,
    clockwise: bool,
) -> PathOp {
    if smooth {
        PathOp::CurveTo {
            from: point_at(series, rrange, from),
            to: point_at(series, rrange, to),
            clockwise,
        }
    } else {
        PathOp::LineTo(point_at(series, rrange, to))
    }
}

/// The closed path around the circle through the samples of `series`: from
/// sample 0 at the top clockwise through every sample in order, and from the
/// last on to sample 0 again.
pub open spec fn series_path(series: Series, rrange: Range, smooth: bool) -> Seq<PathOp> {
    Seq::new(
        (series@.len() + 1) as nat,
        |k: int|
            if k == 0 {
                PathOp::MoveTo(point_at(series, rrange, 0))
            } else {
                segment(series, rrange, k - 1, k, smooth, true)
            },
    )
}

/// The path back around the circle through the samples of `series`: from the
/// last sample counter-clockwise through every sample in falling order down
/// to sample 0, and from there on to the last sample, where it began.
pub open spec fn return_path(series: Series, rrange: Range, smooth: bool) -> Seq<PathOp> {
    let n = series@.len() as int;
    Seq::new(
        (n + 1) as nat,
        |k: int|
            if k == 0 {
                PathOp::MoveTo(point_at(series, rrange, n - 1))
            } else {
                segment(series, rrange, n - k, n - k - 1, smooth, false)
            },
    )
}

/// The point at which the value of `series` at index `i` lies.
fn point(series: &Series, rrange: &Range, i: isize) -> (p: PolarPoint)
    requires
        series@.len() > 0,
        series.range().min() != series.range().max(),
    ensures
        p == point_at(*series, *rrange, i as int),
        p.radius == radius_at(*series, *rrange, i as int),
{
    let u: Unit = series.get_normalized(i);
    PolarPoint { radius: rrange.project(u), slot: i }
}

/// The step of a path that joins the sample at index `from` to the one at
/// index `to`.
fn join(series: &Series, rrange: &Range, from: isize, to: isize, smooth: bool, clockwise: bool) -> (op:
    PathOp)
    requires
        series@.len() > 0,
        series.range().min() != series.range().max(),
    ensures
        op == segment(*series, *rrange, from as int, to as int, smooth, clockwise),
{
    let b = point(series, rrange, to);
    if smooth {
        let a = point(series, rrange, from);
        PathOp::CurveTo { from: a, to: b, clockwise }
    } else {
        PathOp::LineTo(b)
    }
}

/// The path of the curve of `series` in a chart drawn into `rrange`:
/// [`series_path`]. The steps are curves if `smooth` is set and straight
/// lines if not.
pub fn render_radial_series(series: &Series, rrange: &Range, smooth: bool) -> (ops: Vec<PathOp>)
    requires
        series@.len() > 0,
        series.range().min() != series.range().max(),
    ensures
        ops@ == series_path(*series, *rrange, smooth),
{
    proof {
        use_type_invariant(series);
    }
    let n: usize = series.values().len();
    let mut ops: Vec<PathOp> = Vec::new();
    ops.push(PathOp::MoveTo(point(series, rrange, 0)));
    let mut i: usize = 1;
    while i <= n
        invariant
            n == series@.len(),
            n <= isize::MAX,
            n > 0,
            series.range().min() != series.range().max(),
            1 <= i <= n + 1,
            ops@.len() == i,
            forall|k: int| 0 <= k < i ==> ops@[k] == series_path(*series, *rrange, smooth)[k],
        decreases n + 1 - i,
    {
        ops.push(join(series, rrange, i as isize - 1, i as isize, smooth, true));
        i += 1;
    }
    assert(ops@ =~= series_path(*series, *rrange, smooth));
    ops
}

/// The path around the band between two series in a chart drawn into
/// `rrange`: [`series_path`] of `max`, then [`return_path`] of `min`.
pub fn render_radial_range(min: &Series, max: &Series, rrange: &Range, smooth: bool) -> (ops: Vec<
    PathOp,
>)
    requires
        max@.len() == min@.len(),
        max@.len() > 0,
        min.range().min() != min.range().max(),
        max.range().min() != max.range().max(),
    ensures
        ops@ == series_path(*max, *rrange, smooth) + return_path(*min, *rrange, smooth),
{
    proof {
        use_type_invariant(min);
    }
    let n: usize = max.values().len();
    let mut ops = render_radial_series(max, rrange, smooth);
    let ghost forward = ops@;
    ops.push(PathOp::MoveTo(point(min, rrange, n as isize - 1)));
    let mut j: usize = 0;
    while j < n
        invariant
            n == min@.len(),
            0 < n <= isize::MAX,
            min.range().min() != min.range().max(),
            forward.len() == n + 1,
            j <= n,
            ops@.len() == forward.len() + j + 1,
            forall|k: int| 0 <= k < forward.len() ==> ops@[k] == forward[k],
            forall|k: int|
                0 <= k <= j ==> ops@[forward.len() + k] == return_path(*min, *rrange, smooth)[k],
        decreases n - j,
    {
        let i: isize = n as isize - j as isize - 1;
        ops.push(join(min, rrange, i, i - 1, smooth, false));
        j += 1;
    }
    assert(ops@ =~= forward + return_path(*min, *rrange, smooth));
    ops
}

/// The part of the circle that belongs to one month of a year.
#[derive(Debug, Clone, Copy, PartialEq, Eq)]
pub struct MonthWedge {
    /// The number of the month, from 1 for January.
    pub month: u32,
    /// The number of days from the start of the year to the start of the
    /// month.
    pub start: i64,
    /// The number of days from the start of the year to the end of the month,
    /// which is the start of the next.
    pub end: i64,
}

/// The wedge of month `m` of year `y`, in a year counted from the day of the
/// year `first`, which lies in or before that month.
pub open spec fn month_wedge(y: int, first: int, m: int) -> MonthWedge {
    let opens = if days_before_month(y, m) + 1 < first {
        first
    } else {
        days_before_month(y, m) + 1
    };
    MonthWedge {
        month: m as u32,
        start: (opens - first) as i64,
        end: (days_before_month(y, m) + days_in_month(y, m) + 1 - first) as i64,
    }
}

/// The wedges of a year lie side by side and end with the year: a month ends
/// where the next starts, and December ends after the last day of the year.
pub proof fn lemma_wedges_adjoin(y: int, first: int, m: int)
    requires
        1 <= m <= 12,
        1 <= first <= days_before_month(y, m) + days_in_month(y, m),
    ensures
        0 <= month_wedge(y, first, m).start < month_wedge(y, first, m).end,
        m < 12 ==> month_wedge(y, first, m).end == month_wedge(y, first, m + 1).start,
        m == 12 ==> month_wedge(y, first, m).end == days_in_year(y) - first + 1,
{
}

/// `wedges` are the wedges of the months of `year`, from the month that the
/// year is counted from up to December.
pub open spec fn months_of(wedges: Seq<MonthWedge>, year: Year) -> bool {
    &&& wedges.len() == 13 - year.start().month()
    &&& forall|k: int|
        0 <= k < wedges.len() ==> #[trigger] wedges[k] == month_wedge(
            year.ordinal() as int,
            year.start().spec_ordinal(),
            year.start().month() + k,
        )
}

/// The wedges of the months of `year`, from the month that the year is
/// counted from up to December: twelve for a year counted from its first of
/// January. Together they cover the days of the year without a gap.
pub fn render_months(year: Year) -> (wedges: Vec<MonthWedge>)
    requires
        year.ordinal() < MAX_YEAR,
    ensures
        months_of(wedges@, year),
{
    let start = year.start();
    let ghost y = year.ordinal() as int;
    let ghost first = start.spec_ordinal();
    let ghost m0 = start.month() as int;
    let mut wedges: Vec<MonthWedge> = Vec::new();
    let mut it = year.months();
    let mut next = it.next();
    proof {
        use_type_invariant(&start);
        lemma_ordinal_bounds(start);
    }
    while next.is_some()
        invariant
            start == year.start(),
            start.wf(),
            y == year.ordinal(),
            y < MAX_YEAR,
            first == start.spec_ordinal(),
            m0 == start.month(),
            it.wf(),
            it.spec_end().start().is_new_year(),
            it.spec_end().start().year() == y + 1,
            wedges@.len() <= 13 - m0,
            next matches Some(month) ==> {
                &&& month.start().wf()
                &&& month.start().year() == y
                &&& month.start().month() == m0 + wedges@.len()
                &&& (wedges@.len() == 0 ==> month.start() == start)
                &&& (wedges@.len() > 0 ==> month.start().day() == 1)
                &&& it.spec_cur().succeeds(month)
                &&& it.remaining() == 12 - month.start().month()
            },
            next.is_none() ==> wedges@.len() == 13 - m0,
            forall|k: int|
                0 <= k < wedges@.len() ==> #[trigger] wedges@[k] == month_wedge(y, first, m0 + k),
        decreases 13 - m0 - wedges@.len(),
    {
        let month = next.unwrap();
        let opens = month.start();
        let closes = month.end();
        let wedge = MonthWedge {
            month: opens.month(),
            start: opens.days_since(&start),
            end: closes.days_since(&start),
        };
        assert(wedge == month_wedge(y, first, m0 + wedges@.len()));
        wedges.push(wedge);
        next = it.next();
        proof {
            if next.is_some() {
                use_type_invariant(&it);
            }
        }
    }
    wedges
}

/// One ring of the scale of a chart.
#[derive(Debug, Clone, PartialEq, Eq)]
pub struct ScaleRing {
    /// The radius of the ring.
    pub radius: i128,
    /// The text that names the value of the ring.
    pub label: String,
}

/// The numerator of the position of the tick `t` of `scale` relative to
/// `trange`, over the denominator [`tick_den`].
pub open spec fn tick_num(scale: Scale, trange: Range, t: int) -> int {
    if trange.spec_width() > 0 {
        t - scale.counted(trange.min() as int)
    } else {
        scale.counted(trange.min() as int) - t
    }
}

/// The denominator of the positions of the ticks of `scale` relative to
/// `trange`: the absolute width of the range in the counting of the scale.
pub open spec fn tick_den(scale: Scale, trange: Range) -> int {
    if trange.spec_width() > 0 {
        scale.counted(trange.spec_width())
    } else {
        -scale.counted(trange.spec_width())
    }
}

/// `rings` are the rings of `scale` in a chart of values of `trange` drawn
/// into `rrange`, with labels that end in `units`.
pub open spec fn rings_of(
    rings: Seq<ScaleRing>,
    scale: Scale,
    trange: Range,
    rrange: Range,
    units: Seq<char>,
) -> bool {
    &&& rings.len() == scale@.len()
    &&& forall|i: int|
        0 <= i < rings.len() ==> (#[trigger] rings[i]).radius == rrange.spec_project(
            tick_num(scale, trange, scale@[i] as int),
            tick_den(scale, trange),
        ) && rings[i].label@ == label_text(
            scale@[i] as int,
            scale.step() as int,
            scale.resolution() as int,
        ) + units
}

/// The rings of `scale` in a chart of values of `trange` drawn into `rrange`,
/// one for each tick, from the innermost on. The radius of a ring is where a
/// value equal to the tick would lie, and its label is the label of the tick
/// followed by `units`.
pub fn render_scales(scale: &Scale, trange: &Range, rrange: &Range, units: &str) -> (rings: Vec<
    ScaleRing,
>)
    requires
        trange.min() != trange.max(),
    ensures
        rings_of(rings@, *scale, *trange, *rrange, units@),
{
    proof {
        use_type_invariant(scale);
    }
    let coarse: bool = scale.resolution() == ONE as i64;
    let base: i64 = if coarse {
        trange.min() as i64
    } else {
        10 * (trange.min() as i64)
    };
    let width: i64 = if coarse {
        trange.width()
    } else {
        10 * trange.width()
    };
    let ticks = scale.steps();
    let mut rings: Vec<ScaleRing> = Vec::new();
    let mut i: usize = 0;
    while i < ticks.len()
        invariant
            scale.wf(),
            ticks@ == scale@,
            width != 0,
            base == scale.counted(trange.min() as int),
            width == scale.counted(trange.spec_width()),
            i <= ticks@.len(),
            rings@.len() == i,
            forall|j: int|
                0 <= j < i ==> (#[trigger] rings@[j]).radius == rrange.spec_project(
                    tick_num(*scale, *trange, scale@[j] as int),
                    tick_den(*scale, *trange),
                ) && rings@[j].label@ == label_text(
                    scale@[j] as int,
                    scale.step() as int,
                    scale.resolution() as int,
                ) + units@,
        decreases ticks@.len() - i,
    {
        let t: i64 = ticks[i];
        let u = if width > 0 {
            Unit::new(t - base, width)
        } else {
            Unit::new(base - t, -width)
        };
        let mut label = scale.label_for(i);
        label.append(units);
        rings.push(ScaleRing { radius: rrange.project(u), label });
        i += 1;
    }
    rings
}

/// The spokes of `series` in a chart drawn into `rrange`: for each sample in
/// order, a line from the inner end of `rrange` out to where the sample lies.
pub open spec fn spokes_path(series: Series, rrange: Range) -> Seq<PathOp> {
    Seq::new(
        (2 * series@.len()) as nat,
        |k: int|
            if k % 2 == 0 {
                PathOp::MoveTo(
                    PolarPoint { radius: rrange.spec_project(0, 1) as i128, slot: (k / 2) as isize },
                )
            } else {
                PathOp::LineTo(point_at(series, rrange, k / 2))
            },
    )
}

/// The path of the spokes of `series` in a chart drawn into `rrange`:
/// [`spokes_path`].
pub fn render_radial_spokes(series: &Series, rrange: &Range) -> (ops: Vec<PathOp>)
    requires
        series.range().min() != series.range().max(),
    ensures
        ops@ == spokes_path(*series, *rrange),
{
    proof {
        use_type_invariant(series);
    }
    let n: usize = series.values().len();
    let inner: i128 = rrange.project(Unit::zero());
    let mut ops: Vec<PathOp> = Vec::new();
    let mut i: usize = 0;
    while i < n
        invariant
            n == series@.len(),
            n <= isize::MAX,
            series.range().min() != series.range().max(),
            inner == rrange.spec_project(0, 1),
            i <= n,
            ops@.len() == 2 * i,
            forall|k: int| 0 <= k < 2 * i ==> ops@[k] == spokes_path(*series, *rrange)[k],
        decreases n - i,
    {
        ops.push(PathOp::MoveTo(PolarPoint { radius: inner, slot: i as isize }));
        ops.push(PathOp::LineTo(point(series, rrange, i as isize)));
        i += 1;
    }
    assert(ops@ =~= spokes_path(*series, *rrange));
    ops
}

} // verus!
