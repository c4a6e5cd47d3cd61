//! Tick scales: round step sizes for a range, the ticks they give, and the
//! labels of the ticks.

use crate::arith::{floor_div, lemma_product_fits, lemma_quotient_bounded};
use crate::range::{Range, ONE};
use crate::text::{decimal_text, decimal_to_string, int_text, int_to_string};
use vstd::arithmetic::div_mod::{
    lemma_fundamental_div_mod,
    lemma_fundamental_div_mod_converse,
};
use vstd::prelude::*;

verus! {

/// The greatest power of ten that is not above `w`, for `w` from 1 on.
pub open spec fn magnitude_of(w: int) -> int
    decreases w,
{
    if w < 10 {
        1
    } else {
        10 * magnitude_of(w / 10)
    }
}

/// Steps of size `step` across `width` come to fewer than `lim`.
pub open spec fn fits(width: int, lim: int, step: int) -> bool {
    width < lim * step
}

/// The first of the factors 1, 2, 3, 5, 10, 20, 30 and 50 whose multiple of
/// `mag` is a step that fits; `None` where none of them does.
pub open spec fn chosen_factor(width: int, mag: int, lim: int) -> Option<int> {
    if fits(width, lim, 1 * mag) {
        Some(1)
    } else if fits(width, lim, 2 * mag) {
        Some(2)
    } else if fits(width, lim, 3 * mag) {
        Some(3)
    } else if fits(width, lim, 5 * mag) {
        Some(5)
    } else if fits(width, lim, 10 * mag) {
        Some(10)
    } else if fits(width, lim, 20 * mag) {
        Some(20)
    } else if fits(width, lim, 30 * mag) {
        Some(30)
    } else if fits(width, lim, 50 * mag) {
        Some(50)
    } else {
        None
    }
}

/// The least multiple of `step` that is greater than `lo`.
pub open spec fn first_tick(lo: int, step: int) -> int {
    (lo / step + 1) * step
}

/// Tick number `k`, counted from 0, of the multiples of `step` above `lo`.
pub open spec fn tick(lo: int, step: int, k: int) -> int {
    first_tick(lo, step) + k * step
}

/// The number of multiples of `step` that lie strictly between `lo` and `hi`.
pub open spec fn tick_count(lo: int, hi: int, step: int) -> int {
    if first_tick(lo, step) >= hi {
        0
    } else {
        (hi - 1 - first_tick(lo, step)) / step + 1
    }
}

/// How much finer than the values the ticks of the scale that fits `r` are
/// counted: ten times for a range narrower than ten thousandths, whose steps
/// may be tenths of a thousandth, and the same otherwise.
pub open spec fn refinement(r: Range) -> int {
    if r.spec_width() < 10 {
        10
    } else {
        1
    }
}

/// The tenth part of the greatest power of ten not above the width of `r`, in
/// the counting of the ticks: the unit of which the steps tried are
/// multiples.
pub open spec fn step_unit(r: Range) -> int {
    magnitude_of(r.spec_width() * refinement(r)) / 10
}

/// `a / b` rounded towards zero, for a positive `b`.
pub open spec fn toward_zero(a: int, b: int) -> int {
    if a >= 0 {
        a / b
    } else {
        -((-a) / b)
    }
}

/// The number of digits after the point that a label shows for a step below
/// 1: as many as it takes to reach the first digit of the step that is not
/// zero, so one for a step of a tenth.
pub open spec fn label_places(step: int, resolution: int) -> nat {
    if step * 10 >= resolution {
        1
    } else if step * 100 >= resolution {
        2
    } else if step * 1000 >= resolution {
        3
    } else {
        4
    }
}

/// The label of the tick `t` of a scale with step `step`: the whole number
/// that `t` stands for, rounded towards zero, if the step stands for 1 or
/// more, and else the number with [`label_places`] digits after the point.
pub open spec fn label_text(t: int, step: int, resolution: int) -> Seq<char> {
    if step >= resolution {
        int_text(toward_zero(t, resolution))
    } else {
        decimal_text(t, resolution, label_places(step, resolution))
    }
}

/// Why [`Scale::from_range`] gives no scale for `r` and `lim`, if it gives
/// none: the range has no width, or none of the steps tried fits.
pub open spec fn scale_failure(r: Range, lim: int) -> Option<ScaleError> {
    if r.spec_width() <= 0 {
        Some(ScaleError::EmptyRange)
    } else if chosen_factor(r.spec_width() * refinement(r), step_unit(r), lim).is_none() {
        Some(ScaleError::NoStep)
    } else {
        None
    }
}

/// Why no scale fits a range.
#[derive(Debug, Clone, Copy, PartialEq, Eq)]
pub enum ScaleError {
    /// The range is degenerate or inverted: it has no width to divide.
    EmptyRange,
    /// None of the steps tried gives fewer ticks than asked for.
    NoStep,
}

/// The ticks of an axis: the multiples of a step that lie strictly inside a
/// range, in rising order.
///
/// Step and ticks are whole numbers of which [`Scale::resolution`] make 1.
#[derive(Debug)]
pub struct Scale {
    step: i64,
    steps: Vec<i64>,
    resolution: i64,
}

impl View for Scale {
    type V = Seq<i64>;

    /// The ticks, in rising order.
    closed spec fn view(&self) -> Seq<i64> {
        self.steps@
    }
}

impl Scale {
    /// The distance between two ticks.
    pub closed spec fn spec_step(&self) -> i64 {
        self.step
    }

    /// How many of the whole numbers that step and ticks are given in make 1.
    pub closed spec fn spec_resolution(&self) -> i64 {
        self.resolution
    }

    /// The step is positive, and ticks count thousandths or tenths of
    /// thousandths.
    #[verifier::type_invariant]
    pub open spec fn wf(&self) -> bool {
        &&& self.step() > 0
        &&& (self.resolution() == ONE || self.resolution() == 10 * ONE)
        &&& forall|k: int|
            0 <= k < self@.len() ==> -0x100_0000_0000 < #[trigger] self@[k] < 0x100_0000_0000
    }

    /// The scale of a round step for `r` that has fewer than `lim` steps
    /// across the range. The steps tried are 1, 2, 3, 5, 10, 20, 30 and 50
    /// times [`step_unit`], in this order, and the first that fits is taken.
    /// The ticks are the multiples of the step strictly inside the range.
    pub fn from_range(r: &Range, lim: i64) -> (res: Result<Scale, ScaleError>)
        ensures
            match res {
                Ok(sc) => scale_failure(*r, lim as int).is_none() && sc.fitted(*r, lim as int)
                    && sc.rises_within(*r),
                Err(e) => scale_failure(*r, lim as int) == Some(e),
            },
    {
        let w: i64 = r.width();
        if w <= 0 {
            return Err(ScaleError::EmptyRange);
        }
        let refine: i64 = if w < 10 {
            10
        } else {
            1
        };
        let width: i64 = w * refine;
        let unit: i64 = magnitude(width) / 10;
        proof {
            lemma_magnitude(width as int);
        }
        match choose_step(width, unit, lim) {
            Some(step) => Ok(
                if w < 10 {
                    Scale::from_range_with_fine_step(r, step)
                } else {
                    Scale::from_range_with_step(r, step)
                },
            ),
            None => Err(ScaleError::NoStep),
        }
    }

    /// The scale is the one that [`Scale::from_range`] gives for `r` and
    /// `lim`: its step is the first of the steps tried that fits, and its
    /// ticks are the multiples of the step strictly inside the range.
    pub open spec fn fitted(&self, r: Range, lim: int) -> bool {
        &&& self.resolution() == ONE * refinement(r)
        &&& Some(self.step() as int) == match chosen_factor(
            r.spec_width() * refinement(r),
            step_unit(r),
            lim,
        ) {
            Some(f) => Some(f * step_unit(r)),
            None => None,
        }
        &&& self.ticks_of(r)
    }

    /// The scale of the multiples of `step` strictly inside `r`. The smallest
    /// tick is the least multiple above the lower end of the range, and no
    /// tick reaches its upper end.
    pub fn from_range_with_step(r: &Range, step: i64) -> (sc: Scale)
        requires
            step > 0,
        ensures
            sc.step() == step,
            sc.resolution() == ONE,
            sc.ticks_of(*r),
            sc.rises_within(*r),
    {
        let steps = make_ticks(r.min() as i64, r.max() as i64, step);
        let sc = Scale { step, steps, resolution: ONE as i64 };
        proof {
            lemma_ticks_rise_within(sc, *r);
        }
        sc
    }

    /// The scale of the multiples of `step` tenths of a thousandth strictly
    /// inside `r`: [`Scale::from_range_with_step`] for a step that no whole
    /// number of thousandths makes, as a range narrower than ten thousandths
    /// asks for. Step and ticks count tenths of thousandths.
    pub fn from_range_with_fine_step(r: &Range, step: i64) -> (sc: Scale)
        requires
            step > 0,
        ensures
            sc.step() == step,
            sc.resolution() == 10 * ONE,
            sc.ticks_of(*r),
            sc.rises_within(*r),
    {
        let steps = make_ticks(r.min() as i64 * 10, r.max() as i64 * 10, step);
        let sc = Scale { step, steps, resolution: ONE as i64 * 10 };
        proof {
            lemma_ticks_rise_within(sc, *r);
        }
        sc
    }

    /// The ticks of the scale are the multiples of its step strictly inside
    /// `r`, in rising order, in the counting of the scale.
    pub open spec fn ticks_of(&self, r: Range) -> bool {
        let lo = self.counted(r.min() as int);
        let hi = self.counted(r.max() as int);
        &&& self@.len() == tick_count(lo, hi, self.step() as int)
        &&& forall|k: int|
            0 <= k < self@.len() ==> #[trigger] self@[k] == tick(lo, self.step() as int, k)
    }

    /// The value `v` in the counting of the scale, which counts thousandths as
    /// the values do, or tenths of thousandths.
    pub open spec fn counted(&self, v: int) -> int {
        if self.resolution() == ONE {
            v
        } else {
            10 * v
        }
    }

    /// The ticks rise strictly, and each lies strictly between the ends of
    /// `r`, in the counting of the scale.
    pub open spec fn rises_within(&self, r: Range) -> bool {
        &&& forall|k: int|
            0 <= k < self@.len() ==> self.counted(r.min() as int) < #[trigger] self@[k]
                < self.counted(r.max() as int)
        &&& forall|j: int, k: int| 0 <= j < k < self@.len() ==> self@[j] < self@[k]
    }

    /// The label of tick `i`.
    pub fn label_for(&self, i: usize) -> (s: String)
        requires
            i < self@.len(),
        ensures
            s@ == label_text(self@[i as int] as int, self.step() as int, self.resolution() as int),
    {
        proof {
            use_type_invariant(self);
        }
        let t: i64 = self.steps[i];
        if self.step >= self.resolution {
            int_to_string((t / self.resolution) as i128)
        } else {
            let places: u8 = if self.step >= self.resolution / 10 {
                1
            } else if self.step >= self.resolution / 100 {
                2
            } else if self.step >= self.resolution / 1000 {
                3
            } else {
                4
            };
            decimal_to_string(t as i128, self.resolution as i128, places)
        }
    }

    /// The ticks, in rising order.
    pub fn steps(&self) -> (v: &[i64])
        ensures
            v@ == self@,
    {
        self.steps.as_slice()
    }

    /// The distance between two ticks.
    #[verifier::when_used_as_spec(spec_step)]
    pub fn step(&self) -> (s: i64)
        ensures
            s == self.spec_step(),
            s > 0,
    {
        proof {
            use_type_invariant(self);
        }
        self.step
    }

    /// How many of the whole numbers that step and ticks are given in make 1:
    /// a thousand, or ten thousand in the scale of a range narrower than ten
    /// thousandths.
    #[verifier::when_used_as_spec(spec_resolution)]
    pub fn resolution(&self) -> (n: i64)
        ensures
            n == self.spec_resolution(),
            n == ONE || n == 10 * ONE,
    {
        proof {
            use_type_invariant(self);
        }
        self.resolution
    }
}

/// The greatest power of ten that is not above `w`.
fn magnitude(w: i64) -> (m: i64)
    requires
        w >= 1,
    ensures
        m == magnitude_of(w as int),
{
    let mut m: i64 = 1;
    let mut x: i64 = w;
    while x >= 10
        invariant
            1 <= x <= w,
            m >= 1,
            m * x <= w,
            magnitude_of(w as int) == m * magnitude_of(x as int),
        decreases x,
    {
        proof {
            let y = (x / 10) as int;
            lemma_fundamental_div_mod(x as int, 10);
            assert(m * 10 * y <= m * x) by (nonlinear_arith)
                requires
                    10 * y <= x,
                    m >= 1,
            ;
            assert(m * (10 * magnitude_of(y)) == (m * 10) * magnitude_of(y)) by (nonlinear_arith);
            assert(m * 10 <= m * 10 * y) by (nonlinear_arith)
                requires
                    y >= 1,
                    m >= 1,
            ;
        }
        m = m * 10;
        x = x / 10;
    }
    assert(m * 1 == m) by (nonlinear_arith);
    m
}

/// The first of the steps 1, 2, 3, 5, 10, 20, 30 and 50 times `unit` that
/// fits.
fn choose_step(width: i64, unit: i64, lim: i64) -> (r: Option<i64>)
    requires
        1 <= unit <= 0x1_0000_0000,
    ensures
        r.is_some() == chosen_factor(width as int, unit as int, lim as int).is_some(),
        r matches Some(s) ==> s == chosen_factor(width as int, unit as int, lim as int).unwrap()
            * unit && s > 0,
{
    let factors: [i64; 8] = [1, 2, 3, 5, 10, 20, 30, 50];
    let mut k: usize = 0;
    while k < 8
        invariant
            k <= 8,
            1 <= unit <= 0x1_0000_0000,
            factors@ == seq![1i64, 2i64, 3i64, 5i64, 10i64, 20i64, 30i64, 50i64],
            forall|j: int| 0 <= j < k ==> !fits(width as int, lim as int, #[trigger] factors@[j] * unit),
        decreases 8 - k,
    {
        let step: i64 = factors[k] * unit;
        proof {
            lemma_product_fits(lim as int, step as int);
        }
        if (width as i128) < (lim as i128) * (step as i128) {
            return Some(step);
        }
        k += 1;
    }
    proof {
        assert(!fits(width as int, lim as int, factors@[0] * unit));
        assert(!fits(width as int, lim as int, factors@[1] * unit));
        assert(!fits(width as int, lim as int, factors@[2] * unit));
        assert(!fits(width as int, lim as int, factors@[3] * unit));
        assert(!fits(width as int, lim as int, factors@[4] * unit));
        assert(!fits(width as int, lim as int, factors@[5] * unit));
        assert(!fits(width as int, lim as int, factors@[6] * unit));
        assert(!fits(width as int, lim as int, factors@[7] * unit));
    }
    None
}

/// The multiples of `step` strictly between `lo` and `hi`, in rising order.
fn make_ticks(lo: i64, hi: i64, step: i64) -> (v: Vec<i64>)
    requires
        step > 0,
        -0x100_0000_0000 <= lo <= 0x100_0000_0000,
        -0x100_0000_0000 <= hi <= 0x100_0000_0000,
    ensures
        v@.len() == tick_count(lo as int, hi as int, step as int),
        forall|k: int| 0 <= k < v@.len() ==> #[trigger] v@[k] == tick(lo as int, step as int, k),
        forall|k: int| 0 <= k < v@.len() ==> lo < #[trigger] v@[k] < hi,
{
    let q: i128 = floor_div(lo as i128, step as i128);
    proof {
        lemma_first_tick(lo as int, step as int);
        lemma_quotient_bounded(lo as int, step as int);
    }
    let first: i128 = (q + 1) * (step as i128);
    let mut v: Vec<i64> = Vec::new();
    let mut t: i128 = first;
    while t < hi as i128
        invariant
            step > 0,
            first == first_tick(lo as int, step as int),
            lo < first,
            -0x100_0000_0000 <= lo,
            hi <= 0x100_0000_0000,
            t == first + v@.len() * step,
            first <= t,
            forall|k: int|
                0 <= k < v@.len() ==> #[trigger] v@[k] == first + k * step && lo < v@[k] < hi,
        decreases hi - t + step,
    {
        proof {
            assert(first + (v@.len() + 1) * step == first + v@.len() * step + step)
                by (nonlinear_arith);
        }
        v.push(t as i64);
        t = t + step as i128;
    }
    proof {
        let n = v@.len() as int;
        if n > 0 {
            let last = first + (n - 1) * step;
            assert(v@[n - 1] == last);
            assert(first + n * step == last + step) by (nonlinear_arith)
                requires
                    last == first + (n - 1) * step,
            ;
            assert(hi - 1 - first == (n - 1) * step + (hi - 1 - last)) by (nonlinear_arith)
                requires
                    last == first + (n - 1) * step,
            ;
            lemma_fundamental_div_mod_converse(hi - 1 - first, step as int, n - 1, hi - 1 - last);
        } else {
            assert(first + 0 * step == first) by (nonlinear_arith);
        }
    }
    v
}

/// The least multiple of `step` above `lo` lies no more than `step` above it.
pub proof fn lemma_first_tick(lo: int, step: int)
    requires
        step > 0,
    ensures
        lo < first_tick(lo, step) <= lo + step,
        first_tick(lo, step) % step == 0,
{
    lemma_fundamental_div_mod(lo, step);
    let q = lo / step;
    assert((q + 1) * step == step * q + step) by (nonlinear_arith);
    lemma_fundamental_div_mod_converse((q + 1) * step, step, q + 1, 0);
}

/// The greatest power of ten not above `w` is at most `w`, and ten times it
/// is above `w`.
pub proof fn lemma_magnitude(w: int)
    requires
        w >= 1,
    ensures
        1 <= magnitude_of(w) <= w < 10 * magnitude_of(w),
        w >= 10 ==> magnitude_of(w) % 10 == 0,
    decreases w,
{
    if w >= 10 {
        lemma_magnitude(w / 10);
        lemma_fundamental_div_mod(w, 10);
        lemma_fundamental_div_mod_converse(10 * magnitude_of(w / 10), 10, magnitude_of(w / 10), 0);
    }
}

/// Every tick is a multiple of the step and lies strictly between the two
/// ends.
pub proof fn lemma_tick_within(lo: int, hi: int, step: int, k: int)
    requires
        step > 0,
        0 <= k < tick_count(lo, hi, step),
    ensures
        lo < tick(lo, step, k) < hi,
        tick(lo, step, k) % step == 0,
{
    lemma_first_tick(lo, step);
    let first = first_tick(lo, step);
    let n = tick_count(lo, hi, step);
    lemma_fundamental_div_mod(hi - 1 - first, step);
    assert(first + k * step < hi && first + k * step > lo) by (nonlinear_arith)
        requires
            0 <= k <= n - 1,
            hi - 1 - first == step * (n - 1) + (hi - 1 - first) % step,
            0 <= (hi - 1 - first) % step,
            step > 0,
            lo < first,
    ;
    let q = lo / step;
    assert(first + k * step == (q + 1 + k) * step) by (nonlinear_arith)
        requires
            first == (q + 1) * step,
    ;
    lemma_fundamental_div_mod_converse(tick(lo, step, k), step, q + 1 + k, 0);
}

/// The ticks rise strictly.
pub proof fn lemma_ticks_rise(lo: int, step: int, j: int, k: int)
    requires
        step > 0,
        j < k,
    ensures
        tick(lo, step, j) < tick(lo, step, k),
{
    assert(j * step < k * step) by (nonlinear_arith)
        requires
            j < k,
            step > 0,
    ;
}

/// No multiple of the step strictly between the two ends is left out.
pub proof fn lemma_ticks_complete(lo: int, hi: int, step: int, m: int)
    requires
        step > 0,
        lo < m < hi,
        m % step == 0,
    ensures
        exists|k: int| 0 <= k < tick_count(lo, hi, step) && tick(lo, step, k) == m,
{
    lemma_first_tick(lo, step);
    lemma_fundamental_div_mod(lo, step);
    lemma_fundamental_div_mod(m, step);
    let first = first_tick(lo, step);
    let q = lo / step;
    let p = m / step;
    assert(p >= q + 1) by (nonlinear_arith)
        requires
            m == step * p,
            lo == step * q + lo % step,
            0 <= lo % step < step,
            lo < m,
            step > 0,
    ;
    let k = p - q - 1;
    assert(first + k * step == m) by (nonlinear_arith)
        requires
            first == (q + 1) * step,
            m == step * p,
            k == p - q - 1,
    ;
    lemma_fundamental_div_mod(hi - 1 - first, step);
    let n = tick_count(lo, hi, step);
    assert(first < hi);
    assert(k < n) by (nonlinear_arith)
        requires
            first + k * step == m,
            m < hi,
            hi - 1 - first == step * (n - 1) + (hi - 1 - first) % step,
            (hi - 1 - first) % step < step,
            step > 0,
    ;
    assert(0 <= k < tick_count(lo, hi, step) && tick(lo, step, k) == m);
}

/// The ticks of a scale rise strictly, and each lies strictly inside the
/// range that the scale was made for.
pub proof fn lemma_ticks_rise_within(sc: Scale, r: Range)
    requires
        sc.wf(),
        sc.ticks_of(r),
    ensures
        sc.rises_within(r),
{
    let lo = sc.counted(r.min() as int);
    let hi = sc.counted(r.max() as int);
    let step = sc.step() as int;
    assert forall|k: int| 0 <= k < sc@.len() implies lo < #[trigger] sc@[k] < hi by {
        lemma_tick_within(lo, hi, step, k);
    }
    assert forall|j: int, k: int| 0 <= j < k < sc@.len() implies sc@[j] < sc@[k] by {
        lemma_ticks_rise(lo, step, j, k);
    }
}

/// Range, step and resolution make the scale: two scales of the same step
/// and resolution whose ticks are the multiples of the step inside `r` have
/// the same ticks. So the scale that [`Scale::from_range`] gives is the one
/// that [`Scale::from_range_with_step`], or for a range narrower than ten
/// thousandths [`Scale::from_range_with_fine_step`], gives for the step that
/// it chose.
pub proof fn lemma_step_makes_scale(a: Scale, b: Scale, r: Range)
    requires
        a.step() == b.step(),
        a.resolution() == b.resolution(),
        a.ticks_of(r),
        b.ticks_of(r),
    ensures
        a@ == b@,
{
    assert(a@ =~= b@);
}

} // verus!
