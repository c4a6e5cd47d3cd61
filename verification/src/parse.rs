//! Reading whole numbers and decimal fractions from text.

use crate::text::pow10;
use vstd::prelude::*;
use vstd::string::*;

verus! {

/// The greatest magnitude that [`parse_fixed`] reads.
pub const FIXED_LIMIT: i64 = 1_000_000_000_000_000;

/// The value of the decimal digit `c`, if it is one.
pub open spec fn digit_of(c: char) -> Option<int> {
    if c == '0' {
        Some(0)
    } else if c == '1' {
        Some(1)
    } else if c == '2' {
        Some(2)
    } else if c == '3' {
        Some(3)
    } else if c == '4' {
        Some(4)
    } else if c == '5' {
        Some(5)
    } else if c == '6' {
        Some(6)
    } else if c == '7' {
        Some(7)
    } else if c == '8' {
        Some(8)
    } else if c == '9' {
        Some(9)
    } else {
        None
    }
}

/// Every character of `s` is a decimal digit.
pub open spec fn all_digits(s: Seq<char>) -> bool {
    forall|i: int| 0 <= i < s.len() ==> digit_of(#[trigger] s[i]).is_some()
}

/// The number that the decimal digits `s` stand for; 0 for no digits.
pub open spec fn digits_value(s: Seq<char>) -> int
    decreases s.len(),
{
    if s.len() == 0 {
        0
    } else {
        10 * digits_value(s.drop_last()) + match digit_of(s.last()) {
            Some(d) => d,
            None => 0,
        }
    }
}

/// The index of the first character of `s` from `from` on that is not a
/// digit; the length of `s` if there is none.
pub open spec fn digits_end(s: Seq<char>, from: int) -> int
    decreases s.len() - from,
{
    if from < 0 || from >= s.len() {
        s.len() as int
    } else if digit_of(s[from]).is_none() {
        from
    } else {
        digits_end(s, from + 1)
    }
}

/// `s` without its sign, if it starts with one.
pub open spec fn unsigned(s: Seq<char>) -> Seq<char> {
    if s.len() > 0 && (s[0] == '-' || s[0] == '+') {
        s.drop_first()
    } else {
        s
    }
}

/// The whole number that `s` stands for: digits, with or without a sign
/// before them, and nothing else.
pub open spec fn int_of_text(s: Seq<char>) -> Option<int> {
    let body = unsigned(s);
    if body.len() == 0 || !all_digits(body) {
        None
    } else if s[0] == '-' {
        Some(-digits_value(body))
    } else {
        Some(digits_value(body))
    }
}

/// The first `places` digits of `frac`, with zeros for those that `frac`
/// does not have.
pub open spec fn padded(frac: Seq<char>, places: nat) -> Seq<char> {
    Seq::new(
        places,
        |k: int|
            if k < frac.len() {
                frac[k]
            } else {
                '0'
            },
    )
}

/// The magnitude of the decimal numeral with the digits `whole` before and
/// `frac` after the point, counted in units of which ten to the `places`
/// make 1, to the nearest unit: a digit of 5 or more after the last place
/// rounds up.
pub open spec fn fixed_magnitude(whole: Seq<char>, frac: Seq<char>, places: nat) -> int {
    digits_value(whole) * pow10(places) + digits_value(padded(frac, places)) + if frac.len()
        > places && digit_of(frac[places as int]).unwrap() >= 5 {
        1int
    } else {
        0int
    }
}

/// The number that the decimal numeral `s` stands for, in units of which ten
/// to the `places` make 1: digits with at most one point among them, with or
/// without a sign before them. There is no number where `s` is anything else,
/// has no digit, or stands for more than [`FIXED_LIMIT`] units.
pub open spec fn fixed_of_text(s: Seq<char>, places: nat) -> Option<int> {
    let body = unsigned(s);
    let split = digits_end(body, 0);
    let whole = body.take(split);
    let frac = if split < body.len() {
        body.skip(split + 1)
    } else {
        Seq::<char>::empty()
    };
    if (split < body.len() && body[split] != '.') || !all_digits(frac) || whole.len() + frac.len()
        == 0 {
        None
    } else {
        let m = fixed_magnitude(whole, frac, places);
        if m > FIXED_LIMIT {
            None
        } else if s[0] == '-' {
            Some(-m)
        } else {
            Some(m)
        }
    }
}

/// The value of the decimal digit `c`, if it is one.
pub fn digit(c: char) -> (d: Option<u8>)
    ensures
        d.is_some() == digit_of(c).is_some(),
        d matches Some(v) ==> digit_of(c) == Some(v as int) && v <= 9,
{
    match c {
        '0' => Some(0),
        '1' => Some(1),
        '2' => Some(2),
        '3' => Some(3),
        '4' => Some(4),
        '5' => Some(5),
        '6' => Some(6),
        '7' => Some(7),
        '8' => Some(8),
        '9' => Some(9),
        _ => None,
    }
}

/// Whether the two texts are the same.
pub fn same_text(a: &str, b: &str) -> (same: bool)
    ensures
        same == (a@ == b@),
{
    let n = a.unicode_len();
    if n != b.unicode_len() {
        return false;
    }
    let mut i: usize = 0;
    while i < n
        invariant
            n == a@.len(),
            n == b@.len(),
            i <= n,
            forall|k: int| 0 <= k < i ==> a@[k] == b@[k],
        decreases n - i,
    {
        if a.get_char(i) != b.get_char(i) {
            return false;
        }
        i += 1;
    }
    assert(a@ =~= b@);
    true
}

/// The index of the first character of `s` from `from` on that is not a
/// digit.
fn scan_digits(s: &str, from: usize) -> (end: usize)
    requires
        from <= s@.len(),
    ensures
        end == digits_end(s@, from as int),
        from <= end <= s@.len(),
        forall|k: int| from <= k < end ==> digit_of(#[trigger] s@[k]).is_some(),
        end < s@.len() ==> digit_of(s@[end as int]).is_none(),
{
    let n = s.unicode_len();
    let mut i: usize = from;
    let mut open: bool = true;
    while open && i < n
        invariant
            n == s@.len(),
            from <= i <= n,
            digits_end(s@, from as int) == digits_end(s@, i as int),
            forall|k: int| from <= k < i ==> digit_of(#[trigger] s@[k]).is_some(),
            !open ==> i < n && digit_of(s@[i as int]).is_none(),
        decreases n - i + if open {
            1int
        } else {
            0int
        },
    {
        if digit(s.get_char(i)).is_some() {
            i += 1;
        } else {
            open = false;
        }
    }
    i
}

/// The number that the digits of `s` from `from` up to `to` stand for, if it
/// is at most [`FIXED_LIMIT`].
fn digits_between(s: &str, from: usize, to: usize) -> (v: Option<u64>)
    requires
        from <= to <= s@.len(),
        all_digits(s@.subrange(from as int, to as int)),
    ensures
        v matches Some(n) ==> n == digits_value(s@.subrange(from as int, to as int)) && n
            <= FIXED_LIMIT,
        v.is_none() ==> digits_value(s@.subrange(from as int, to as int)) > FIXED_LIMIT,
{
    let ghost all = s@.subrange(from as int, to as int);
    let mut acc: u64 = 0;
    let mut over: bool = false;
    let mut i: usize = from;
    while i < to
        invariant
            from <= i <= to <= s@.len(),
            all == s@.subrange(from as int, to as int),
            all_digits(all),
            !over ==> acc == digits_value(all.subrange(0, i - from)) && acc <= FIXED_LIMIT,
            over ==> digits_value(all.subrange(0, i - from)) > FIXED_LIMIT,
        decreases to - i,
    {
        let c = s.get_char(i);
        assert(all[i - from] == c);
        assert(all.subrange(0, i + 1 - from).drop_last() =~= all.subrange(0, i - from));
        let d = digit(c).unwrap();
        if !over {
            acc = acc * 10 + d as u64;
            if acc > FIXED_LIMIT as u64 {
                over = true;
            }
        }
        i += 1;
    }
    assert(all.subrange(0, to - from) =~= all);
    if over {
        None
    } else {
        Some(acc)
    }
}

/// The whole number that `s` stands for, if it is one that an `i32` holds.
pub fn parse_i32(s: &str) -> (r: Option<i32>)
    ensures
        r == match int_of_text(s@) {
            Some(v) => if i32::MIN <= v <= i32::MAX {
                Some(v as i32)
            } else {
                None
            },
            None => None,
        },
{
    let n = s.unicode_len();
    if n == 0 {
        return None;
    }
    let first = s.get_char(0);
    let start: usize = if first == '-' || first == '+' {
        1
    } else {
        0
    };
    let end = scan_digits(s, start);
    proof {
        assert(unsigned(s@) =~= s@.subrange(start as int, n as int));
        if end < n {
            assert(unsigned(s@)[end - start] == s@[end as int]);
        }
    }
    if end < n || start == n {
        return None;
    }
    match digits_between(s, start, n) {
        Some(m) => {
            if first == '-' {
                if m <= 0x8000_0000 {
                    Some((-(m as i64)) as i32)
                } else {
                    None
                }
            } else if m <= 0x7fff_ffff {
                Some(m as i32)
            } else {
                None
            }
        },
        None => None,
    }
}

/// The number that the first `places` digits of `s` from `mark` on stand
/// for, with zeros for the digits that `s` does not have.
fn fraction_part(s: &str, mark: usize, places: u8) -> (part: u64)
    requires
        mark <= s@.len(),
        places <= 9,
        all_digits(s@.subrange(mark as int, s@.len() as int)),
    ensures
        part == digits_value(padded(s@.subrange(mark as int, s@.len() as int), places as nat)),
        part < 1_000_000_000,
{
    let n = s.unicode_len();
    let ghost frac = s@.subrange(mark as int, n as int);
    let ghost shown = padded(frac, places as nat);
    let mut part: u64 = 0;
    let mut bound: u64 = 1;
    let mut k: u8 = 0;
    while k < places
        invariant
            k <= places <= 9,
            mark <= n,
            n == s@.len(),
            frac == s@.subrange(mark as int, n as int),
            all_digits(frac),
            shown == padded(frac, places as nat),
            part == digits_value(shown.subrange(0, k as int)),
            part < bound,
            bound == pow10(k as nat),
            bound <= 1_000_000_000,
        decreases places - k,
    {
        let d: u8 = if (k as usize) < n - mark {
            let c = s.get_char(mark + k as usize);
            assert(frac[k as int] == c);
            digit(c).unwrap()
        } else {
            0
        };
        proof {
            assert(shown.subrange(0, k + 1).drop_last() =~= shown.subrange(0, k as int));
            assert(digit_of(shown[k as int]) == Some(d as int));
            crate::text::lemma_pow10_grows((k + 1) as nat, 9);
            reveal_with_fuel(pow10, 10);
        }
        part = part * 10 + d as u64;
        bound = bound * 10;
        k += 1;
    }
    assert(shown.subrange(0, places as int) =~= shown);
    part
}

/// Whether the digit of `s` that stands `places` after `mark` is 5 or more.
fn rounds_up(s: &str, mark: usize, places: u8) -> (up: bool)
    requires
        mark <= s@.len(),
        all_digits(s@.subrange(mark as int, s@.len() as int)),
    ensures
        up == (s@.len() - mark > places && digit_of(
            s@.subrange(mark as int, s@.len() as int)[places as int],
        ).unwrap() >= 5),
{
    let n = s.unicode_len();
    if (places as usize) < n - mark {
        let c = s.get_char(mark + places as usize);
        assert(s@.subrange(mark as int, n as int)[places as int] == c);
        digit(c).unwrap() >= 5
    } else {
        false
    }
}

/// Where the parts of the decimal numeral `s` lie: the index of its first
/// digit, the index at which its whole part ends, and the index at which its
/// fraction starts, if `s` is a numeral.
fn parts(s: &str) -> (r: Option<(usize, usize, usize)>)
    ensures
        match r {
            Some((start, split, mark)) => {
                let body = unsigned(s@);
                &&& start <= split <= mark <= s@.len()
                &&& body == s@.subrange(start as int, s@.len() as int)
                &&& split - start == digits_end(body, 0)
                &&& body.take(split - start) == s@.subrange(start as int, split as int)
                &&& all_digits(s@.subrange(start as int, split as int))
                &&& all_digits(s@.subrange(mark as int, s@.len() as int))
                &&& (split < s@.len() ==> body[split - start] == '.' && mark == split + 1
                    && body.skip(split - start + 1) == s@.subrange(mark as int, s@.len() as int))
                &&& (split == s@.len() ==> mark == split)
                &&& (split - start) + (s@.len() - mark) > 0
            },
            None => {
                let body = unsigned(s@);
                let split = digits_end(body, 0);
                let frac = if split < body.len() {
                    body.skip(split + 1)
                } else {
                    Seq::<char>::empty()
                };
                (split < body.len() && body[split] != '.') || !all_digits(frac) || body.take(
                    split,
                ).len() + frac.len() == 0
            },
        },
{
    let n = s.unicode_len();
    let start: usize = if n > 0 && (s.get_char(0) == '-' || s.get_char(0) == '+') {
        1
    } else {
        0
    };
    let ghost body = unsigned(s@);
    let split = scan_digits(s, start);
    proof {
        assert(body =~= s@.subrange(start as int, n as int));
        lemma_digits_end_shift(s@, start as int, start as int);
        if split < n {
            assert(body[split - start] == s@[split as int]);
        }
        assert(body.take(split - start) =~= s@.subrange(start as int, split as int));
    }
    if split < n && s.get_char(split) != '.' {
        return None;
    }
    let mark: usize = if split < n {
        split + 1
    } else {
        n
    };
    let ghost frac = if split < n {
        body.skip(split - start + 1)
    } else {
        Seq::<char>::empty()
    };
    assert(frac =~= s@.subrange(mark as int, n as int));
    let end = scan_digits(s, mark);
    if end < n {
        proof {
            assert(frac[end - mark] == s@[end as int]);
        }
        return None;
    }
    assert(all_digits(frac)) by {
        assert forall|i: int| 0 <= i < frac.len() implies digit_of(#[trigger] frac[i]).is_some() by {
            assert(frac[i] == s@[mark + i]);
        }
    }
    assert(all_digits(s@.subrange(start as int, split as int))) by {
        assert forall|i: int| 0 <= i < split - start implies digit_of(
            #[trigger] s@.subrange(start as int, split as int)[i],
        ).is_some() by {
            assert(s@.subrange(start as int, split as int)[i] == s@[start + i]);
        }
    }
    if (split - start) + (n - mark) == 0 {
        return None;
    }
    Some((start, split, mark))
}

/// The number that the decimal numeral `s` stands for, in units of which ten
/// to the `places` make 1.
pub fn parse_fixed(s: &str, places: u8) -> (r: Option<i64>)
    requires
        places <= 9,
    ensures
        r.is_some() == fixed_of_text(s@, places as nat).is_some(),
        r matches Some(v) ==> fixed_of_text(s@, places as nat) == Some(v as int),
{
    let (start, split, mark) = match parts(s) {
        Some(found) => found,
        None => {
            return None;
        },
    };
    let n = s.unicode_len();
    let negative: bool = s.get_char(0) == '-';
    let ghost body = unsigned(s@);
    let ghost whole = body.take(split - start);
    let ghost frac = s@.subrange(mark as int, n as int);
    let part: u64 = fraction_part(s, mark, places);
    let up: u64 = if rounds_up(s, mark, places) {
        1
    } else {
        0
    };
    let unit: u128 = crate::text::power_of_ten(places);
    proof {
        crate::text::lemma_pow10_grows(places as nat, 9);
        reveal_with_fuel(pow10, 10);
        let sp = digits_end(body, 0);
        let fr = if sp < body.len() {
            body.skip(sp + 1)
        } else {
            Seq::<char>::empty()
        };
        assert(sp == split - start);
        assert(body.len() == n - start);
        assert(fr =~= frac);
        assert(body.take(sp) == whole);
        assert(!(sp < body.len() && body[sp] != '.'));
        assert(whole.len() + fr.len() > 0);
        assert(fixed_of_text(s@, places as nat) == if fixed_magnitude(whole, frac, places as nat)
            > FIXED_LIMIT {
            None
        } else if s@[0] == '-' {
            Some(-fixed_magnitude(whole, frac, places as nat))
        } else {
            Some(fixed_magnitude(whole, frac, places as nat))
        });
    }
    match digits_between(s, start, split) {
        Some(w) => {
            assert((w as int) * (unit as int) <= 1_000_000_000_000_000 * 1_000_000_000)
                by (nonlinear_arith)
                requires
                    0 <= w <= 1_000_000_000_000_000,
                    0 <= unit <= 1_000_000_000,
            ;
            let m: u128 = (w as u128) * unit + part as u128 + up as u128;
            if m > FIXED_LIMIT as u128 {
                None
            } else if negative {
                Some(-(m as i64))
            } else {
                Some(m as i64)
            }
        },
        None => {
            proof {
                let big = digits_value(whole);
                assert(big * pow10(places as nat) >= big) by (nonlinear_arith)
                    requires
                        big >= 0,
                        pow10(places as nat) >= 1,
                ;
            }
            None
        },
    }
}

/// The end of the digits of a text is found the same from the start of the
/// digits as from any digit among them, and does not move with what stands
/// before.
proof fn lemma_digits_end_shift(s: Seq<char>, start: int, from: int)
    requires
        0 <= start <= from <= s.len(),
    ensures
        digits_end(s.subrange(start, s.len() as int), from - start) == digits_end(s, from) - start,
    decreases s.len() - from,
{
    let tail = s.subrange(start, s.len() as int);
    if from < s.len() {
        assert(tail[from - start] == s[from]);
        if digit_of(s[from]).is_some() {
            lemma_digits_end_shift(s, start, from + 1);
        }
    }
}

} // verus!
