//! Linear maps between a value domain and the unit interval.
//!
//! A value is a whole number of thousandths of the quantity it measures, so
//! [`ONE`] stands for 1. A position relative to a range is kept as an exact
//! fraction.

use crate::arith::{floor_div, lemma_product_fits, lemma_quotient_bounded};
use vstd::arithmetic::div_mod::{lemma_div_is_ordered, lemma_div_multiples_vanish};
use vstd::prelude::*;

verus! {

/// The value that stands for 1: values count thousandths.
pub const ONE: i32 = 1000;

/// A position relative to a [`Range`]: the fraction `num / den`, which is 0 at
/// the range's lower end and 1 at its upper end. Fractions below 0 and above 1
/// are positions outside the range.
#[derive(Debug, Copy, Clone)]
pub struct Unit {
    num: i64,
    den: i64,
}

impl Unit {
    /// The numerator of the fraction.
    pub closed spec fn num(&self) -> int {
        self.num as int
    }

    /// The denominator of the fraction.
    pub closed spec fn den(&self) -> int {
        self.den as int
    }

    /// The denominator is positive.
    #[verifier::type_invariant]
    pub open spec fn wf(&self) -> bool {
        self.den() > 0
    }

    /// The numerator and the denominator.
    pub open spec fn spec_value(&self) -> (i64, i64) {
        (self.num() as i64, self.den() as i64)
    }

    /// The fraction `num / den`.
    pub fn new(num: i64, den: i64) -> (u: Unit)
        requires
            den > 0,
        ensures
            u.num() == num,
            u.den() == den,
    {
        Unit { num, den }
    }

    /// The position of the lower end of a range.
    pub fn zero() -> (u: Unit)
        ensures
            u.num() == 0,
            u.den() == 1,
    {
        Unit { num: 0, den: 1 }
    }

    /// The numerator and the denominator of the fraction; the denominator is
    /// positive.
    #[verifier::when_used_as_spec(spec_value)]
    pub fn value(&self) -> (r: (i64, i64))
        ensures
            r == self.spec_value(),
            r.0 == self.num(),
            r.1 == self.den(),
            r.1 > 0,
    {
        proof {
            use_type_invariant(self);
        }
        (self.num, self.den)
    }
}

/// The closed interval of values from `min` to `max`. Nothing keeps `min` from
/// being the larger of the two: such a range is inverted, and one whose ends
/// are equal is degenerate.
#[derive(Debug, Clone, Copy)]
pub struct Range {
    min: i32,
    max: i32,
}

impl Range {
    /// The lower end.
    pub closed spec fn spec_min(&self) -> i32 {
        self.min
    }

    /// The upper end.
    pub closed spec fn spec_max(&self) -> i32 {
        self.max
    }

    /// The distance from the lower to the upper end; negative for an inverted
    /// range.
    pub open spec fn spec_width(&self) -> int {
        self.max() - self.min()
    }

    /// The numerator of the position of `v`, over the denominator
    /// [`Range::normal_den`].
    pub open spec fn normal_num(&self, v: int) -> int {
        if self.spec_width() > 0 {
            v - self.min()
        } else {
            self.min() - v
        }
    }

    /// The denominator of every position that [`Range::normalize`] computes:
    /// the absolute width of the range.
    pub open spec fn normal_den(&self) -> int {
        if self.spec_width() > 0 {
            self.spec_width()
        } else {
            -self.spec_width()
        }
    }

    /// The value at the position `num / den`, rounded down to a whole number
    /// of thousandths: `min + num / den * (max - min)`.
    pub open spec fn spec_project(&self, num: int, den: int) -> int {
        self.min() + (num * self.spec_width()) / den
    }

    /// The range from `min` to `max`.
    pub fn new(min: i32, max: i32) -> (r: Range)
        ensures
            r.min() == min,
            r.max() == max,
    {
        Range { min, max }
    }

    /// The lower end.
    #[verifier::when_used_as_spec(spec_min)]
    pub fn min(&self) -> (v: i32)
        ensures
            v == self.spec_min(),
    {
        self.min
    }

    /// The upper end.
    #[verifier::when_used_as_spec(spec_max)]
    pub fn max(&self) -> (v: i32)
        ensures
            v == self.spec_max(),
    {
        self.max
    }

    /// The distance from the lower to the upper end: zero for a degenerate
    /// range, negative for an inverted one.
    pub fn width(&self) -> (w: i64)
        ensures
            w == self.spec_width(),
    {
        self.max as i64 - self.min as i64
    }

    /// Whether the ends of the range are equal, so that no value has a
    /// position relative to it.
    pub fn is_degenerate(&self) -> (b: bool)
        ensures
            b == (self.min() == self.max()),
    {
        self.min == self.max
    }

    /// The position of `v` relative to the range, as [`Range::normalize`]
    /// gives it, and `None` for a degenerate range.
    pub fn checked_normalize(&self, v: i32) -> (r: Option<Unit>)
        ensures
            r.is_some() == (self.min() != self.max()),
            r matches Some(u) ==> u.num() == self.normal_num(v as int) && u.den()
                == self.normal_den(),
    {
        if self.is_degenerate() {
            None
        } else {
            Some(self.normalize(v))
        }
    }

    /// The position of `v` relative to the range: `(v - min) / (max - min)`.
    /// A degenerate range gives no position to any value.
    pub fn normalize(&self, v: i32) -> (u: Unit)
        requires
            self.min() != self.max(),
        ensures
            u.num() == self.normal_num(v as int),
            u.den() == self.normal_den(),
    {
        let w: i64 = self.max as i64 - self.min as i64;
        let n: i64 = v as i64 - self.min as i64;
        if w > 0 {
            Unit { num: n, den: w }
        } else {
            Unit { num: -n, den: -w }
        }
    }

    /// The value at position `u`: `min + u * (max - min)`, rounded down.
    pub fn project(&self, u: Unit) -> (v: i128)
        ensures
            v == self.spec_project(u.num(), u.den()),
    {
        proof {
            use_type_invariant(u);
            lemma_product_fits(u.num(), self.spec_width());
        }
        let w: i128 = self.max as i128 - self.min as i128;
        let p: i128 = (u.num as i128) * w;
        let q: i128 = floor_div(p, u.den as i128);
        proof {
            lemma_quotient_bounded(p as int, u.den());
        }
        self.min as i128 + q
    }

    /// The smallest range that holds both `a` and `b`: from the lesser of the
    /// lower ends to the greater of the upper ends. For two ranges that
    /// overlap this is their union, not the part they share.
    pub fn intersect(a: &Range, b: &Range) -> (r: Range)
        ensures
            r.min() == if a.min() <= b.min() { a.min() } else { b.min() },
            r.max() == if a.max() >= b.max() { a.max() } else { b.max() },
    {
        Range {
            min: if a.min <= b.min { a.min } else { b.min },
            max: if a.max >= b.max { a.max } else { b.max },
        }
    }
}

/// Normalizing a value and projecting the position back gives the value
/// again, on every range that is not degenerate.
pub proof fn lemma_project_normalize(r: Range, v: int)
    requires
        r.min() != r.max(),
    ensures
        r.spec_project(r.normal_num(v), r.normal_den()) == v,
{
    let w = r.spec_width();
    if w > 0 {
        lemma_div_multiples_vanish(v - r.min(), w);
        assert((v - r.min()) * w == w * (v - r.min())) by (nonlinear_arith);
    } else {
        lemma_div_multiples_vanish(v - r.min(), -w);
        assert((r.min() - v) * w == (-w) * (v - r.min())) by (nonlinear_arith);
    }
}

/// A larger value lies at least as far out: on a range `from` that is neither
/// degenerate nor inverted, the position of a larger value projects into a
/// range `to` that is not inverted to a value that is not smaller.
pub proof fn lemma_project_monotonic(from: Range, to: Range, v1: int, v2: int)
    requires
        from.min() < from.max(),
        to.min() <= to.max(),
        v1 <= v2,
    ensures
        to.spec_project(from.normal_num(v1), from.normal_den()) <= to.spec_project(
            from.normal_num(v2),
            from.normal_den(),
        ),
{
    let w = to.spec_width();
    assert((v1 - from.min()) * w <= (v2 - from.min()) * w) by (nonlinear_arith)
        requires
            v1 <= v2,
            w >= 0,
    ;
    lemma_div_is_ordered((v1 - from.min()) * w, (v2 - from.min()) * w, from.spec_width());
}

/// The ends of a range project to the ends of the range projected into.
pub proof fn lemma_project_ends(from: Range, to: Range)
    requires
        from.min() < from.max(),
    ensures
        to.spec_project(from.normal_num(from.min() as int), from.normal_den()) == to.min(),
        to.spec_project(from.normal_num(from.max() as int), from.normal_den()) == to.max(),
{
    let w = from.spec_width();
    lemma_div_multiples_vanish(to.spec_width(), w);
    assert(w * to.spec_width() == to.spec_width() * w) by (nonlinear_arith);
    assert(0 * to.spec_width() == 0) by (nonlinear_arith);
}

} // verus!
