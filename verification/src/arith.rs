//! Integer helpers shared by the other modules.

use vstd::arithmetic::div_mod::{lemma_fundamental_div_mod, lemma_fundamental_div_mod_converse};
use vstd::prelude::*;

verus! {

/// The quotient of `a` by `b`, rounded down.
pub fn floor_div(a: i128, b: i128) -> (q: i128)
    requires
        b > 0,
    ensures
        q == a / b,
{
    if a >= 0 {
        a / b
    } else {
        let m: i128 = -1 - a;
        let t: i128 = m / b;
        proof {
            let r = (m as int) % (b as int);
            lemma_fundamental_div_mod(m as int, b as int);
            assert(a as int == (-1 - t) * b + (b - 1 - r)) by (nonlinear_arith)
                requires
                    m as int == b * t + r,
                    m == -1 - a,
            ;
            lemma_fundamental_div_mod_converse(a as int, b as int, -1 - t as int, b - 1 - r);
        }
        -1 - t
    }
}

/// A product of a 64-bit and a 41-bit number fits in 128 bits.
pub proof fn lemma_product_fits(a: int, b: int)
    requires
        -0x8000_0000_0000_0000 <= a <= 0x8000_0000_0000_0000,
        -0x100_0000_0000 <= b <= 0x100_0000_0000,
    ensures
        -0x8000_0000_0000_0000_0000_0000_0000 <= a * b <= 0x8000_0000_0000_0000_0000_0000_0000,
{
    assert(-0x8000_0000_0000_0000_0000_0000_0000 <= a * b <= 0x8000_0000_0000_0000_0000_0000_0000)
        by (nonlinear_arith)
        requires
            -0x8000_0000_0000_0000 <= a <= 0x8000_0000_0000_0000,
            -0x100_0000_0000 <= b <= 0x100_0000_0000,
    ;
}

/// Dividing by a positive number brings a number no further from zero, but
/// for the rounding down of a negative quotient.
pub proof fn lemma_quotient_bounded(p: int, d: int)
    requires
        d > 0,
    ensures
        p >= 0 ==> 0 <= p / d <= p,
        p < 0 ==> p <= p / d < 0,
{
    lemma_fundamental_div_mod(p, d);
    let q = p / d;
    let r = p % d;
    if p >= 0 {
        assert(0 <= q <= p) by (nonlinear_arith)
            requires
                p == d * q + r,
                0 <= r < d,
                p >= 0,
                d > 0,
        ;
    } else {
        assert(p <= q < 0) by (nonlinear_arith)
            requires
                p == d * q + r,
                0 <= r < d,
                p < 0,
                d > 0,
        ;
    }
}

} // verus!
