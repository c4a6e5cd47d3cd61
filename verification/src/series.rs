//! A dense series of values, one per calendar day or per block of days, with
//! the range of the values that were observed.

use crate::gsod::Day;
use crate::range::{Range, Unit};
use crate::time::{days_in_year, lemma_follows_day_number, lemma_ordinal_bounds, Year, MAX_YEAR};
use std::collections::HashMap;
use vstd::arithmetic::div_mod::{lemma_fundamental_div_mod, lemma_mod_multiples_vanish};
use vstd::prelude::*;
use vstd::slice::slice_subrange;

verus! {

/// The dense value at index `i` of a series built from `items`: the value of
/// the last item present at or before `i`, and 0 where none is.
pub open spec fn filled(items: Seq<Option<i32>>, i: int) -> i32
    decreases i + 1,
{
    if i < 0 {
        0
    } else {
        match items[i] {
            Some(v) => v,
            None => filled(items, i - 1),
        }
    }
}

/// The greatest value present among the first `n` of `items`, and `i32::MIN`
/// where none is present.
pub open spec fn running_max(items: Seq<Option<i32>>, n: int) -> i32
    decreases n,
{
    if n <= 0 {
        i32::MIN
    } else {
        let m = running_max(items, n - 1);
        match items[n - 1] {
            Some(v) => if v > m {
                v
            } else {
                m
            },
            None => m,
        }
    }
}

/// The index at which [`running_max`] was first seen among the first `n` of
/// `items`: the running maximum moves only to a strictly greater value. It is
/// 0 as long as no value above `i32::MIN` is present.
pub open spec fn running_max_index(items: Seq<Option<i32>>, n: int) -> int
    decreases n,
{
    if n <= 0 {
        0
    } else {
        match items[n - 1] {
            Some(v) => if v > running_max(items, n - 1) {
                n - 1
            } else {
                running_max_index(items, n - 1)
            },
            None => running_max_index(items, n - 1),
        }
    }
}

/// The least value present among the first `n` of `items`, and `i32::MAX`
/// where none is present.
pub open spec fn running_min(items: Seq<Option<i32>>, n: int) -> i32
    decreases n,
{
    if n <= 0 {
        i32::MAX
    } else {
        let m = running_min(items, n - 1);
        match items[n - 1] {
            Some(v) => if v < m {
                v
            } else {
                m
            },
            None => m,
        }
    }
}

/// The index at which [`running_min`] was first seen among the first `n` of
/// `items`: the running minimum moves only to a strictly smaller value. It is
/// 0 as long as no value below `i32::MAX` is present.
pub open spec fn running_min_index(items: Seq<Option<i32>>, n: int) -> int
    decreases n,
{
    if n <= 0 {
        0
    } else {
        match items[n - 1] {
            Some(v) => if v < running_min(items, n - 1) {
                n - 1
            } else {
                running_min_index(items, n - 1)
            },
            None => running_min_index(items, n - 1),
        }
    }
}

/// The index between 0 and `n - 1` that `i` stands for when indices wrap
/// around a series of length `n`: the remainder of `i` by `n` that is never
/// negative.
pub open spec fn circular(i: int, n: int) -> int {
    i % n
}

/// The `k` values of block `i` of `values`, when it is cut into blocks of `k`.
pub open spec fn block(values: Seq<i32>, k: int, i: int) -> Seq<i32> {
    values.subrange(i * k, i * k + k)
}

/// `out` is a result that `agg` may give for a slice that holds `values`.
pub open spec fn aggregates<F: Fn(&[i32]) -> i32>(agg: F, values: Seq<i32>, out: i32) -> bool {
    exists|b: &[i32]| b@ == values && #[trigger] agg.ensures((b,), out)
}

/// The index of the last of the first `n` of `days` that has `o` as its day of
/// the year.
pub open spec fn last_for(days: Seq<Day>, n: int, o: int) -> Option<int>
    decreases n,
{
    if n <= 0 {
        None
    } else if days[n - 1].day.spec_ordinal() == o {
        Some(n - 1)
    } else {
        last_for(days, n - 1, o)
    }
}

/// `items` holds, for each day of the year counted from the day of the year
/// `first`, what `f` may give for the summary of that day: for the last one
/// in `days`, if there are several, and nothing where `days` has none.
pub open spec fn aligned<F: Fn(&Day) -> Option<i32>>(
    f: F,
    days: Seq<Day>,
    first: int,
    items: Seq<Option<i32>>,
) -> bool {
    forall|k: int|
        0 <= k < items.len() ==> match last_for(days, days.len() as int, first + k) {
            Some(j) => f.ensures((&days[j],), #[trigger] items[k]),
            None => items[k].is_none(),
        }
}

/// A dense series of values with a display range and the places of its
/// extremes.
///
/// A series never changes: [`Series::with_range`] and
/// [`Series::downsample_by`] make new ones.
#[derive(Debug)]
pub struct Series {
    vals: Vec<i32>,
    rng: Range,
    min_index: isize,
    max_index: isize,
}

impl View for Series {
    type V = Seq<i32>;

    /// The values of the series, in order.
    closed spec fn view(&self) -> Seq<i32> {
        self.vals@
    }
}

impl Series {
    /// The range of the series.
    pub closed spec fn spec_range(&self) -> &Range {
        &self.rng
    }

    /// The index at which the least value was first seen.
    pub closed spec fn spec_min_index(&self) -> isize {
        self.min_index
    }

    /// The index at which the greatest value was first seen.
    pub closed spec fn spec_max_index(&self) -> isize {
        self.max_index
    }

    /// The indices of the extremes are not negative, and the length of the
    /// series can be counted by an index.
    #[verifier::type_invariant]
    pub open spec fn wf(&self) -> bool {
        &&& self@.len() <= isize::MAX
        &&& self.min_index() >= 0
        &&& self.max_index() >= 0
    }

    /// The series of the values of `items`, in order, where each missing item
    /// takes the value of the last one present before it, and 0 if there is
    /// none. The range runs from the least to the greatest value that is
    /// present, missing items left aside, and the indices are those at which
    /// the two were first seen. With no value present the range is inverted:
    /// from `i32::MAX` down to `i32::MIN`.
    pub fn from_iterator(items: Vec<Option<i32>>) -> (s: Series)
        requires
            items.len() <= isize::MAX,
        ensures
            s@.len() == items.len(),
            forall|i: int| 0 <= i < items.len() ==> s@[i] == filled(items@, i),
            s.range().min() == running_min(items@, items.len() as int),
            s.range().max() == running_max(items@, items.len() as int),
            s.min_index() == running_min_index(items@, items.len() as int),
            s.max_index() == running_max_index(items@, items.len() as int),
    {
        let mut vals: Vec<i32> = Vec::new();
        let mut prev: i32 = 0;
        let mut max: i32 = i32::MIN;
        let mut min: i32 = i32::MAX;
        let mut max_index: usize = 0;
        let mut min_index: usize = 0;
        let mut i: usize = 0;
        while i < items.len()
            invariant
                i <= items.len(),
                vals.len() == i,
                forall|j: int| 0 <= j < i ==> vals[j] == filled(items@, j),
                prev == filled(items@, i - 1),
                max == running_max(items@, i as int),
                min == running_min(items@, i as int),
                max_index == running_max_index(items@, i as int),
                min_index == running_min_index(items@, i as int),
                max_index <= i,
                min_index <= i,
            decreases items.len() - i,
        {
            match items[i] {
                Some(val) => {
                    if val > max {
                        max = val;
                        max_index = i;
                    }
                    if val < min {
                        min = val;
                        min_index = i;
                    }
                    vals.push(val);
                    prev = val;
                },
                None => {
                    vals.push(prev);
                },
            }
            i += 1;
        }
        Series {
            vals,
            rng: Range::new(min, max),
            min_index: min_index as isize,
            max_index: max_index as isize,
        }
    }

    /// The series is the one that [`Series::from_iterator`] builds from
    /// `items`.
    pub open spec fn built_from(&self, items: Seq<Option<i32>>) -> bool {
        &&& self@.len() == items.len()
        &&& forall|i: int| 0 <= i < items.len() ==> self@[i] == filled(items, i)
        &&& self.range().min() == running_min(items, items.len() as int)
        &&& self.range().max() == running_max(items, items.len() as int)
        &&& self.min_index() == running_min_index(items, items.len() as int)
        &&& self.max_index() == running_max_index(items, items.len() as int)
    }

    /// The series of one value for each day of `year`, from the day the year
    /// is counted from to its last, in calendar order. The value of a day is
    /// what `f` gives for the summary in `days` that has the day's day of the
    /// year: for the last such summary, if there are several. A day is
    /// missing where `days` has no summary for it or `f` gives nothing; what
    /// becomes of missing days and of the range is said at
    /// [`Series::from_iterator`].
    pub fn for_each_day<F: Fn(&Day) -> Option<i32>>(year: Year, days: &[Day], f: F) -> (s: Series)
        requires
            year.ordinal() < MAX_YEAR,
            forall|j: int| 0 <= j < days@.len() ==> f.requires((&#[trigger] days@[j],)),
        ensures
            exists|items: Seq<Option<i32>>|
                {
                    &&& items.len() == days_in_year(year.ordinal() as int)
                        - year.start().spec_ordinal() + 1
                    &&& aligned(f, days@, year.start().spec_ordinal(), items)
                    &&& #[trigger] s.built_from(items)
                },
    {
        let mut idx: HashMap<u32, usize> = HashMap::new();
        let mut j: usize = 0;
        while j < days.len()
            invariant
                j <= days@.len(),
                forall|o: u32|
                    match #[trigger] last_for(days@, j as int, o as int) {
                        Some(i) => idx@.contains_key(o) && idx@[o] == i,
                        None => !idx@.contains_key(o),
                    },
            decreases days@.len() - j,
        {
            let o: u32 = days[j].date().ordinal();
            let ghost before = idx@;
            idx.insert(o, j);
            proof {
                assert(idx@ == before.insert(o, j));
                assert forall|p: u32|
                    match #[trigger] last_for(days@, j + 1, p as int) {
                        Some(i) => idx@.contains_key(p) && idx@[p] == i,
                        None => !idx@.contains_key(p),
                    } by {
                    if p != o {
                        assert(last_for(days@, j + 1, p as int) == last_for(days@, j as int, p as int));
                    }
                }
            }
            j += 1;
        }
        let ghost first = year.start().spec_ordinal();
        let ghost length = days_in_year(year.ordinal() as int);
        let mut items: Vec<Option<i32>> = Vec::new();
        let mut it = year.days();
        proof {
            let start = year.start();
            lemma_ordinal_bounds(it.spec_cur().date());
        }
        let mut next = it.next();
        while next.is_some()
            invariant
                1 <= first <= length,
                length <= 366,
                length == days_in_year(year.ordinal() as int),
                forall|j: int| 0 <= j < days@.len() ==> f.requires((&#[trigger] days@[j],)),
                forall|o: u32|
                    match #[trigger] last_for(days@, days@.len() as int, o as int) {
                        Some(i) => idx@.contains_key(o) && idx@[o] == i,
                        None => !idx@.contains_key(o),
                    },
                it.wf(),
                it.spec_end().date().is_new_year(),
                it.spec_end().date().year() == year.ordinal() + 1,
                next matches Some(day) ==> {
                    &&& day.date().wf()
                    &&& day.date().year() == year.ordinal()
                    &&& day.date().spec_ordinal() == first + items@.len()
                    &&& it.remaining() == length - day.date().spec_ordinal()
                    &&& it.spec_cur().date().follows(day.date())
                },
                next.is_none() ==> items@.len() == length - first + 1,
                items@.len() <= length - first + 1,
                aligned(f, days@, first, items@),
            decreases length - first + 1 - items@.len(),
        {
            let day = next.unwrap();
            let o: u32 = day.ordinal();
            let item: Option<i32> = match idx.get(&o) {
                Some(i) => {
                    proof {
                        lemma_last_for(days@, days@.len() as int, o as int);
                    }
                    f(&days[*i])
                },
                None => None,
            };
            let ghost before = items@;
            items.push(item);
            proof {
                assert forall|k: int| 0 <= k < items@.len() implies match last_for(
                    days@,
                    days@.len() as int,
                    first + k,
                ) {
                    Some(j) => f.ensures((&days@[j],), #[trigger] items@[k]),
                    None => items@[k].is_none(),
                } by {
                    if k < before.len() {
                        assert(items@[k] == before[k]);
                    }
                }
            }
            next = it.next();
            proof {
                if next.is_some() {
                    lemma_follows_day_number(day.date(), next.unwrap().date());
                    lemma_ordinal_bounds(next.unwrap().date());
                }
            }
        }
        let s = Series::from_iterator(items);
        assert(s.built_from(items@));
        s
    }

    /// The same series with `rng` as its range.
    pub fn with_range(self, rng: &Range) -> (s: Series)
        ensures
            s@ == self@,
            *s.range() == *rng,
            s.min_index() == self.min_index(),
            s.max_index() == self.max_index(),
    {
        proof {
            use_type_invariant(&self);
        }
        Series {
            vals: self.vals,
            rng: rng.clone(),
            min_index: self.min_index,
            max_index: self.max_index,
        }
    }

    /// The position of each value relative to the range of the series.
    pub fn normalize(&self) -> (units: Vec<Unit>)
        requires
            self.range().min() != self.range().max(),
        ensures
            units.len() == self@.len(),
            forall|i: int|
                0 <= i < self@.len() ==> (#[trigger] units[i]).num() == self.range().normal_num(
                    self@[i] as int,
                ) && units[i].den() == self.range().normal_den(),
    {
        let mut units: Vec<Unit> = Vec::new();
        let mut i: usize = 0;
        while i < self.vals.len()
            invariant
                i <= self.vals.len(),
                units.len() == i,
                self.range().min() != self.range().max(),
                forall|j: int|
                    0 <= j < i ==> (#[trigger] units[j]).num() == self.range().normal_num(
                        self@[j] as int,
                    ) && units[j].den() == self.range().normal_den(),
            decreases self.vals.len() - i,
        {
            units.push(self.rng.normalize(self.vals[i]));
            i += 1;
        }
        units
    }

    /// The values of the series, in order.
    pub fn values(&self) -> (v: &[i32])
        ensures
            v@ == self@,
    {
        self.vals.as_slice()
    }

    /// The range of the series.
    #[verifier::when_used_as_spec(spec_range)]
    pub fn range(&self) -> (r: &Range)
        ensures
            r == self.spec_range(),
    {
        &self.rng
    }

    /// The value at index `i`, where indices wrap around: below 0 they count
    /// back from the end, and from the length on they start again at the
    /// front. An empty series has no value to give.
    pub fn get(&self, i: isize) -> (v: i32)
        requires
            self@.len() > 0,
        ensures
            v == self@[circular(i as int, self@.len() as int)],
            0 <= circular(i as int, self@.len() as int) < self@.len(),
    {
        proof {
            use_type_invariant(self);
        }
        let n: isize = self.vals.len() as isize;
        let r: isize = i % n;
        let k: isize = if r < 0 {
            r + n
        } else {
            r
        };
        proof {
            lemma_truncated_remainder(i as int, n as int);
        }
        self.vals[k as usize]
    }

    /// The position of the value at index `i` relative to the range of the
    /// series; indices wrap around as in [`Series::get`].
    pub fn get_normalized(&self, i: isize) -> (u: Unit)
        requires
            self@.len() > 0,
            self.range().min() != self.range().max(),
        ensures
            u.num() == self.range().normal_num(
                self@[circular(i as int, self@.len() as int)] as int,
            ),
            u.den() == self.range().normal_den(),
    {
        self.rng.normalize(self.get(i))
    }

    /// The index at which the least value was first seen.
    #[verifier::when_used_as_spec(spec_min_index)]
    pub fn min_index(&self) -> (i: isize)
        ensures
            i == self.spec_min_index(),
            i >= 0,
    {
        proof {
            use_type_invariant(self);
        }
        self.min_index
    }

    /// The index at which the greatest value was first seen.
    #[verifier::when_used_as_spec(spec_max_index)]
    pub fn max_index(&self) -> (i: isize)
        ensures
            i == self.spec_max_index(),
            i >= 0,
    {
        proof {
            use_type_invariant(self);
        }
        self.max_index
    }

    /// The series of one value for each block of `n` values in a row: the
    /// values are cut into as many whole blocks as there are, what is left
    /// over at the end is dropped, and `agg` gives the value of each block.
    /// The range stays. The indices of the extremes are divided by `n`, which
    /// is where the blocks that held the extremes now stand, whatever `agg`
    /// made of them; the extremes are not looked for again.
    pub fn downsample_by<F: Fn(&[i32]) -> i32>(&self, n: usize, agg: F) -> (s: Series)
        requires
            n > 0,
            forall|i: int, b: &[i32]|
                #![trigger block(self@, n as int, i), agg.requires((b,))]
                0 <= i < (self@.len() as int) / (n as int) && b@ == block(self@, n as int, i)
                    ==> agg.requires((b,)),
        ensures
            s@.len() == (self@.len() as int) / (n as int),
            forall|i: int|
                0 <= i < s@.len() ==> aggregates(agg, block(self@, n as int, i), #[trigger] s@[i]),
            *s.range() == *self.range(),
            s.min_index() == (self.min_index() as int) / (n as int),
            s.max_index() == (self.max_index() as int) / (n as int),
    {
        proof {
            use_type_invariant(self);
        }
        let m: usize = self.vals.len() / n;
        let mut vals: Vec<i32> = Vec::new();
        let mut i: usize = 0;
        while i < m
            invariant
                n > 0,
                self@ == self.vals@,
                m == (self@.len() as int) / (n as int),
                i <= m,
                vals.len() == i,
                forall|i: int, b: &[i32]|
                    #![trigger block(self@, n as int, i), agg.requires((b,))]
                    0 <= i < (self@.len() as int) / (n as int) && b@ == block(self@, n as int, i)
                        ==> agg.requires((b,)),
                forall|j: int|
                    0 <= j < i ==> aggregates(agg, block(self@, n as int, j), #[trigger] vals[j]),
            decreases m - i,
        {
            proof {
                lemma_block_in_bounds(self@.len() as int, n as int, i as int);
                assert(0 <= (i as int) * (n as int));
                assert((i as int) * (n as int) + n <= self.vals.len());
            }
            let j: usize = i * n;
            let b = slice_subrange(self.vals.as_slice(), j, j + n);
            assert(b@ == block(self@, n as int, i as int));
            let v: i32 = agg(b);
            vals.push(v);
            i += 1;
        }
        let k: isize = if n > isize::MAX as usize {
            0
        } else {
            n as isize
        };
        proof {
            if n > isize::MAX {
                vstd::arithmetic::div_mod::lemma_basic_div(self.min_index() as int, n as int);
                vstd::arithmetic::div_mod::lemma_basic_div(self.max_index() as int, n as int);
            }
            vstd::arithmetic::div_mod::lemma_div_pos_is_pos(self.min_index() as int, n as int);
            vstd::arithmetic::div_mod::lemma_div_pos_is_pos(self.max_index() as int, n as int);
        }
        Series {
            vals,
            rng: self.rng.clone(),
            min_index: if k == 0 {
                0
            } else {
                self.min_index / k
            },
            max_index: if k == 0 {
                0
            } else {
                self.max_index / k
            },
        }
    }
}

/// The remainder that leaves the sign of the dividend, moved up by the
/// divisor where it is negative, is the remainder that is never negative.
proof fn lemma_truncated_remainder(i: int, n: int)
    requires
        n > 0,
    ensures
        0 <= i % n < n,
        i >= 0 ==> i % n == i - n * (i / n),
        i < 0 ==> ((-i) % n == 0 ==> i % n == 0) && ((-i) % n != 0 ==> i % n == n - (-i) % n),
{
    lemma_fundamental_div_mod(i, n);
    if i < 0 {
        lemma_fundamental_div_mod(-i, n);
        let q = (-i) / n;
        let r = (-i) % n;
        if r == 0 {
            assert(i == (-q) * n + 0) by (nonlinear_arith)
                requires
                    -i == n * q + r,
                    r == 0,
            ;
            vstd::arithmetic::div_mod::lemma_fundamental_div_mod_converse(i, n, -q, 0);
        } else {
            assert(i == (-q - 1) * n + (n - r)) by (nonlinear_arith)
                requires
                    -i == n * q + r,
            ;
            vstd::arithmetic::div_mod::lemma_fundamental_div_mod_converse(i, n, -q - 1, n - r);
        }
    }
}

/// The last summary for a day of the year, if there is one, is one of the
/// summaries and has that day of the year.
pub proof fn lemma_last_for(days: Seq<Day>, n: int, o: int)
    requires
        0 <= n <= days.len(),
    ensures
        last_for(days, n, o) matches Some(i) ==> 0 <= i < n && days[i].day.spec_ordinal() == o
            && forall|j: int| i < j < n ==> days[j].day.spec_ordinal() != o,
        last_for(days, n, o).is_none() ==> forall|j: int|
            0 <= j < n ==> days[j].day.spec_ordinal() != o,
    decreases n,
{
    if n > 0 {
        lemma_last_for(days, n - 1, o);
    }
}

/// Block `i` of the whole blocks of `k` values lies within the values.
pub proof fn lemma_block_in_bounds(len: int, k: int, i: int)
    requires
        k > 0,
        len >= 0,
        0 <= i < len / k,
    ensures
        0 <= i * k,
        i * k + k <= len,
{
    lemma_fundamental_div_mod(len, k);
    assert(i * k + k <= len && 0 <= i * k) by (nonlinear_arith)
        requires
            len == k * (len / k) + len % k,
            0 <= len % k,
            0 <= i < len / k,
            k > 0,
    ;
}

/// Indices that differ by a whole number of lengths stand for the same
/// place, so [`Series::get`] gives the same value for both.
pub proof fn lemma_circular_period(i: int, k: int, n: int)
    requires
        n > 0,
    ensures
        circular(i + k * n, n) == circular(i, n),
        0 <= circular(i, n) < n,
{
    lemma_mod_multiples_vanish(k, i, n);
    assert(n * k + i == i + k * n) by (nonlinear_arith);
    lemma_fundamental_div_mod(i, n);
}

/// An index within the series stands for itself.
pub proof fn lemma_circular_within(i: int, n: int)
    requires
        0 <= i < n,
    ensures
        circular(i, n) == i,
{
    vstd::arithmetic::div_mod::lemma_small_mod(i as nat, n as nat);
}

/// A series gives the same value at two indices that differ by a whole
/// number of its lengths, and the value at an index within the series is
/// the value that stands there.
pub proof fn lemma_get_wraps(s: Series, i: int, k: int)
    requires
        s@.len() > 0,
    ensures
        s@[circular(i + k * s@.len(), s@.len() as int)] == s@[circular(i, s@.len() as int)],
        0 <= i < s@.len() ==> s@[circular(i, s@.len() as int)] == s@[i],
{
    lemma_circular_period(i, k, s@.len() as int);
    if 0 <= i < s@.len() {
        lemma_circular_within(i, s@.len() as int);
    }
}

/// What the running maximum is, and where it was first seen: no value that is
/// present lies above it; if a value above `i32::MIN` is present, then the
/// maximum is present at its index and every value present before that index
/// is smaller; otherwise the maximum is `i32::MIN` and its index 0.
pub proof fn lemma_running_max(items: Seq<Option<i32>>, n: int)
    requires
        0 <= n <= items.len(),
    ensures
        forall|j: int| 0 <= j < n && items[j].is_some() ==> items[j].unwrap() <= running_max(items, n),
        0 <= running_max_index(items, n) <= n,
        n > 0 ==> running_max_index(items, n) < n,
        running_max(items, n) > i32::MIN ==> items[running_max_index(items, n)] == Some(
            running_max(items, n),
        ),
        forall|j: int|
            0 <= j < running_max_index(items, n) && items[j].is_some() ==> items[j].unwrap()
                < running_max(items, n),
        running_max(items, n) == i32::MIN ==> running_max_index(items, n) == 0,
    decreases n,
{
    if n > 0 {
        lemma_running_max(items, n - 1);
    }
}

/// What the running minimum is, and where it was first seen: no value that is
/// present lies below it; if a value below `i32::MAX` is present, then the
/// minimum is present at its index and every value present before that index
/// is greater; otherwise the minimum is `i32::MAX` and its index 0.
pub proof fn lemma_running_min(items: Seq<Option<i32>>, n: int)
    requires
        0 <= n <= items.len(),
    ensures
        forall|j: int| 0 <= j < n && items[j].is_some() ==> items[j].unwrap() >= running_min(items, n),
        0 <= running_min_index(items, n) <= n,
        n > 0 ==> running_min_index(items, n) < n,
        running_min(items, n) < i32::MAX ==> items[running_min_index(items, n)] == Some(
            running_min(items, n),
        ),
        forall|j: int|
            0 <= j < running_min_index(items, n) && items[j].is_some() ==> items[j].unwrap()
                > running_min(items, n),
        running_min(items, n) == i32::MAX ==> running_min_index(items, n) == 0,
    decreases n,
{
    if n > 0 {
        lemma_running_min(items, n - 1);
    }
}

/// Sequences that agree on their first `n` items have the same running
/// extremes there.
proof fn lemma_running_agree(a: Seq<Option<i32>>, b: Seq<Option<i32>>, n: int)
    requires
        0 <= n <= a.len(),
        n <= b.len(),
        forall|j: int| 0 <= j < n ==> a[j] == b[j],
    ensures
        running_max(a, n) == running_max(b, n),
        running_min(a, n) == running_min(b, n),
    decreases n,
{
    if n > 0 {
        lemma_running_agree(a, b, n - 1);
    }
}

/// A missing item leaves the range as it is: with the missing item at index
/// `k` taken out, the items have the same running extremes. So the values that
/// stand in for missing items never widen or narrow the range.
pub proof fn lemma_missing_leaves_range(items: Seq<Option<i32>>, k: int, n: int)
    requires
        0 <= k < n <= items.len(),
        items[k].is_none(),
    ensures
        running_max(items.remove(k), n - 1) == running_max(items, n),
        running_min(items.remove(k), n - 1) == running_min(items, n),
    decreases n,
{
    let rest = items.remove(k);
    if n == k + 1 {
        lemma_running_agree(rest, items, k);
    } else {
        lemma_missing_leaves_range(items, k, n - 1);
        assert(rest[n - 2] == items[n - 1]);
    }
}

} // verus!
