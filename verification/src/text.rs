//! Decimal text of whole numbers and of fractions.

use vstd::prelude::*;

verus! {

/// The character of the decimal digit `d`.
pub open spec fn digit_char(d: int) -> char {
    if d == 0 {
        '0'
    } else if d == 1 {
        '1'
    } else if d == 2 {
        '2'
    } else if d == 3 {
        '3'
    } else if d == 4 {
        '4'
    } else if d == 5 {
        '5'
    } else if d == 6 {
        '6'
    } else if d == 7 {
        '7'
    } else if d == 8 {
        '8'
    } else {
        '9'
    }
}

/// The decimal digits of `n`, without leading zeros; one `0` for zero.
pub open spec fn nat_text(n: nat) -> Seq<char>
    decreases n,
{
    if n < 10 {
        seq![digit_char(n as int)]
    } else {
        nat_text(n / 10).push(digit_char((n % 10) as int))
    }
}

/// The decimal text of `i`: a minus sign before the digits of a negative
/// number.
pub open spec fn int_text(i: int) -> Seq<char> {
    if i < 0 {
        seq!['-'] + nat_text((-i) as nat)
    } else {
        nat_text(i as nat)
    }
}

/// The last `width` decimal digits of `n`, with zeros where `n` has fewer.
pub open spec fn padded_text(n: nat, width: nat) -> Seq<char>
    decreases width,
{
    if width == 0 {
        Seq::<char>::empty()
    } else {
        padded_text(n / 10, (width - 1) as nat).push(digit_char((n % 10) as int))
    }
}

/// Ten to the power `e`.
pub open spec fn pow10(e: nat) -> nat
    decreases e,
{
    if e == 0 {
        1
    } else {
        10 * pow10((e - 1) as nat)
    }
}

/// The whole number nearest to `n / d`; where two are equally near, the even
/// one.
pub open spec fn rounded_quotient(n: nat, d: nat) -> nat {
    let q = n / d;
    let r = n % d;
    if 2 * r > d || (2 * r == d && q % 2 == 1) {
        q + 1
    } else {
        q
    }
}

/// The fraction `num / den` in decimal notation with `places` digits after
/// the point, rounded to the nearest such number ([`rounded_quotient`]). There
/// is no point when `places` is 0, and a negative fraction keeps its minus
/// sign even where it rounds to zero.
pub open spec fn decimal_text(num: int, den: int, places: nat) -> Seq<char> {
    let size: nat = if num < 0 {
        (-num) as nat
    } else {
        num as nat
    };
    let scaled = rounded_quotient(size * pow10(places), den as nat);
    let sign = if num < 0 {
        seq!['-']
    } else {
        Seq::<char>::empty()
    };
    let whole = nat_text(scaled / pow10(places));
    if places == 0 {
        sign + whole
    } else {
        sign + whole + seq!['.'] + padded_text(scaled % pow10(places), places)
    }
}

/// `String::push`: the string with `c` added at its end.
#[verifier::external_body]
pub(crate) fn push_char(s: &mut String, c: char)
    ensures
        final(s)@ == old(s)@.push(c),
{
    s.push(c)
}

/// The character of the decimal digit `d`.
fn digit(d: u8) -> (c: char)
    requires
        d < 10,
    ensures
        c == digit_char(d as int),
{
    match d {
        0 => '0',
        1 => '1',
        2 => '2',
        3 => '3',
        4 => '4',
        5 => '5',
        6 => '6',
        7 => '7',
        8 => '8',
        _ => '9',
    }
}

/// Adds the decimal digits of `n` to the end of `s`.
pub fn push_nat(s: &mut String, n: u128)
    ensures
        final(s)@ == old(s)@ + nat_text(n as nat),
    decreases n,
{
    if n >= 10 {
        push_nat(s, n / 10);
    }
    push_char(s, digit((n % 10) as u8));
    proof {
        if n >= 10 {
            assert(final(s)@ =~= old(s)@ + nat_text(n as nat));
        } else {
            assert(final(s)@ =~= old(s)@ + nat_text(n as nat));
        }
    }
}

/// Adds the last `width` decimal digits of `n` to the end of `s`, with zeros
/// where `n` has fewer.
pub fn push_padded(s: &mut String, n: u128, width: u8)
    ensures
        final(s)@ == old(s)@ + padded_text(n as nat, width as nat),
    decreases width,
{
    if width > 0 {
        push_padded(s, n / 10, width - 1);
        push_char(s, digit((n % 10) as u8));
    }
    assert(final(s)@ =~= old(s)@ + padded_text(n as nat, width as nat));
}

/// Adds the decimal text of `i` to the end of `s`.
pub fn push_int(s: &mut String, i: i128)
    ensures
        final(s)@ == old(s)@ + int_text(i as int),
{
    if i < 0 {
        push_char(s, '-');
        let m: u128 = ((-1 - i) as u128) + 1;
        push_nat(s, m);
        assert(final(s)@ =~= old(s)@ + int_text(i as int));
    } else {
        push_nat(s, i as u128);
    }
}

/// The decimal text of `i`.
pub fn int_to_string(i: i128) -> (s: String)
    ensures
        s@ == int_text(i as int),
{
    let mut s = String::new();
    push_int(&mut s, i);
    assert(s@ =~= int_text(i as int));
    s
}

/// The powers of ten grow, and the eighteenth is a one with eighteen zeros.
pub proof fn lemma_pow10_grows(a: nat, b: nat)
    requires
        a <= b,
    ensures
        1 <= pow10(a) <= pow10(b),
        pow10(18) == 1_000_000_000_000_000_000,
    decreases b,
{
    reveal_with_fuel(pow10, 19);
    if a < b {
        lemma_pow10_grows(a, (b - 1) as nat);
    } else if a > 0 {
        lemma_pow10_grows((a - 1) as nat, (a - 1) as nat);
    }
}

/// Ten to the power `e`.
pub fn power_of_ten(e: u8) -> (p: u128)
    requires
        e <= 18,
    ensures
        p == pow10(e as nat),
        1 <= p <= 1_000_000_000_000_000_000,
    decreases e,
{
    proof {
        lemma_pow10_grows(e as nat, 18);
    }
    if e == 0 {
        1
    } else {
        10 * power_of_ten(e - 1)
    }
}

/// Adds to the end of `s` the fraction `num / den` in decimal notation with
/// `places` digits after the point.
pub fn push_decimal(s: &mut String, num: i128, den: i128, places: u8)
    requires
        den > 0,
        places <= 9,
        -0x1_0000_0000_0000_0000_0000_0000 <= num <= 0x1_0000_0000_0000_0000_0000_0000,
    ensures
        final(s)@ == old(s)@ + decimal_text(num as int, den as int, places as nat),
{
    let size: u128 = if num < 0 {
        ((-1 - num) as u128) + 1
    } else {
        num as u128
    };
    let unit: u128 = power_of_ten(places);
    proof {
        lemma_pow10_grows(places as nat, 9);
        reveal_with_fuel(pow10, 10);
    }
    let d: u128 = den as u128;
    assert(size * unit <= 0x1_0000_0000_0000_0000_0000_0000 * 1_000_000_000) by (nonlinear_arith)
        requires
            size <= 0x1_0000_0000_0000_0000_0000_0000,
            unit <= 1_000_000_000,
    ;
    let n: u128 = size * unit;
    let q: u128 = n / d;
    let r: u128 = n % d;
    proof {
        crate::arith::lemma_quotient_bounded(n as int, d as int);
    }
    let scaled: u128 = if 2 * r > d || (2 * r == d && q % 2 == 1) {
        q + 1
    } else {
        q
    };
    if num < 0 {
        push_char(s, '-');
    }
    push_nat(s, scaled / unit);
    if places > 0 {
        push_char(s, '.');
        push_padded(s, scaled % unit, places);
    }
    assert(final(s)@ =~= old(s)@ + decimal_text(num as int, den as int, places as nat));
}

/// The fraction `num / den` in decimal notation with `places` digits after
/// the point.
pub fn decimal_to_string(num: i128, den: i128, places: u8) -> (s: String)
    requires
        den > 0,
        places <= 9,
        -0x1_0000_0000_0000_0000_0000_0000 <= num <= 0x1_0000_0000_0000_0000_0000_0000,
    ensures
        s@ == decimal_text(num as int, den as int, places as nat),
{
    let mut s = String::new();
    push_decimal(&mut s, num, den, places);
    assert(s@ =~= decimal_text(num as int, den as int, places as nat));
    s
}

/// The decimal digits of `n`, with zeros before them where they are fewer
/// than `width`.
pub open spec fn at_least(n: nat, width: nat) -> Seq<char> {
    if nat_text(n).len() >= width {
        nat_text(n)
    } else {
        Seq::new((width - nat_text(n).len()) as nat, |i: int| '0') + nat_text(n)
    }
}

/// The number of decimal digits of `n`.
pub fn digits(n: u128) -> (len: usize)
    ensures
        len == nat_text(n as nat).len(),
        1 <= len <= 39,
    decreases n,
{
    if n < 10 {
        1
    } else {
        proof {
            lemma_short(n / 10);
        }
        digits(n / 10) + 1
    }
}

/// A number below ten to the `k` has at most `k` digits, so that a tenth of
/// any number that 128 bits hold has at most 38.
proof fn lemma_short(n: u128)
    requires
        n <= 34_028_236_692_093_846_346_337_460_743_176_821_145,
    ensures
        nat_text(n as nat).len() <= 38,
{
    reveal_with_fuel(nat_text, 40);
}

/// Adds the decimal digits of `n` to the end of `s`, with zeros before them
/// where they are fewer than `width`.
pub fn push_at_least(s: &mut String, n: u128, width: usize)
    ensures
        final(s)@ == old(s)@ + at_least(n as nat, width as nat),
{
    let len = digits(n);
    if len < width {
        let ghost zeros = Seq::new((width - len) as nat, |i: int| '0');
        let mut k: usize = len;
        while k < width
            invariant
                len <= k <= width,
                s@ == old(s)@ + zeros.subrange(0, k - len),
                zeros.len() == width - len,
                forall|i: int| 0 <= i < zeros.len() ==> zeros[i] == '0',
            decreases width - k,
        {
            push_char(s, '0');
            proof {
                assert(zeros.subrange(0, k + 1 - len) =~= zeros.subrange(0, k - len).push('0'));
            }
            k += 1;
        }
        proof {
            assert(zeros.subrange(0, width - len) =~= zeros);
        }
    }
    push_nat(s, n);
    assert(final(s)@ =~= old(s)@ + at_least(n as nat, width as nat));
}

} // verus!
