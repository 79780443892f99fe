//! Extreme values of x/y data, found as `Iterator::max_by` and `min_by`
//! find them with binary64 comparison: a later value replaces the running
//! maximum unless the maximum is greater than it; a later value replaces the
//! running minimum only when the minimum is greater than it.
use vstd::prelude::*;
use crate::binary64::{abs, absolute, greater_than, gt, is_nan, lemma_lt_is_key_order, lt, value_key};
use crate::data::RealData;
use crate::grid::rectangular;

verus! {

/// Index of the maximum among the first `n` values, by the `max_by` rule.
pub open spec fn max_index(v: Seq<u64>, n: nat) -> nat
    decreases n,
{
    if n <= 1 {
        0
    } else {
        let b = max_index(v, (n - 1) as nat);
        if gt(v[b as int], v[n - 1]) { b } else { (n - 1) as nat }
    }
}

/// Index of the minimum among the first `n` values, by the `min_by` rule.
pub open spec fn min_index(v: Seq<u64>, n: nat) -> nat
    decreases n,
{
    if n <= 1 {
        0
    } else {
        let b = min_index(v, (n - 1) as nat);
        if gt(v[b as int], v[n - 1]) { (n - 1) as nat } else { b }
    }
}

/// The magnitudes of a row of values.
pub open spec fn abs_row(v: Seq<u64>) -> Seq<u64> {
    v.map_values(|x: u64| abs(x))
}

/// The second parts of a list of pairs.
pub open spec fn seconds(p: Seq<(u64, u64)>) -> Seq<u64> {
    p.map_values(|x: (u64, u64)| x.1)
}

/// (x, y) of the maximum of each channel.
pub open spec fn max_pairs(x: Seq<u64>, y: Seq<Seq<u64>>) -> Seq<(u64, u64)> {
    y.map_values(|row: Seq<u64>| (x[max_index(row, row.len()) as int], row[max_index(row, row.len()) as int]))
}

/// (x, |y|) of the largest magnitude of each channel.
pub open spec fn max_abs_pairs(x: Seq<u64>, y: Seq<Seq<u64>>) -> Seq<(u64, u64)> {
    y.map_values(
        |row: Seq<u64>| (x[max_index(abs_row(row), row.len()) as int], abs_row(row)[max_index(abs_row(row), row.len()) as int]),
    )
}

/// (x, y) of the minimum of each channel.
pub open spec fn min_pairs(x: Seq<u64>, y: Seq<Seq<u64>>) -> Seq<(u64, u64)> {
    y.map_values(|row: Seq<u64>| (x[min_index(row, row.len()) as int], row[min_index(row, row.len()) as int]))
}

/// Finds the `max_by` index of the first `n` values of `v`.
fn find_max(v: &Vec<u64>, n: usize) -> (i: usize)
    requires
        1 <= n <= v@.len(),
    ensures
        i == max_index(v@, n as nat),
        i < n,
{
    let mut best: usize = 0;
    let mut k: usize = 1;
    while k < n
        invariant
            1 <= k <= n,
            n <= v@.len(),
            best == max_index(v@, k as nat),
            best < k,
        decreases n - k,
    {
        if !greater_than(v[best], v[k]) {
            best = k;
        }
        k = k + 1;
    }
    best
}

/// Finds the `min_by` index of the first `n` values of `v`.
fn find_min(v: &Vec<u64>, n: usize) -> (i: usize)
    requires
        1 <= n <= v@.len(),
    ensures
        i == min_index(v@, n as nat),
        i < n,
{
    let mut best: usize = 0;
    let mut k: usize = 1;
    while k < n
        invariant
            1 <= k <= n,
            n <= v@.len(),
            best == min_index(v@, k as nat),
            best < k,
        decreases n - k,
    {
        if greater_than(v[best], v[k]) {
            best = k;
        }
        k = k + 1;
    }
    best
}

/// The magnitudes of a row.
fn abs_values(v: &Vec<u64>) -> (a: Vec<u64>)
    ensures
        a@ == abs_row(v@),
{
    let mut a: Vec<u64> = Vec::new();
    let mut k: usize = 0;
    while k < v.len()
        invariant
            k <= v@.len(),
            a@ == abs_row(v@).take(k as int),
        decreases v@.len() - k,
    {
        a.push(absolute(v[k]));
        k = k + 1;
        assert(a@ =~= abs_row(v@).take(k as int));
    }
    assert(abs_row(v@).take(v@.len() as int) =~= abs_row(v@));
    a
}

/// The second parts of pairs.
fn second_values(p: &Vec<(u64, u64)>) -> (s: Vec<u64>)
    ensures
        s@ == seconds(p@),
{
    let mut s: Vec<u64> = Vec::new();
    let mut k: usize = 0;
    while k < p.len()
        invariant
            k <= p@.len(),
            s@ == seconds(p@).take(k as int),
        decreases p@.len() - k,
    {
        s.push(p[k].1);
        k = k + 1;
        assert(s@ =~= seconds(p@).take(k as int));
    }
    assert(seconds(p@).take(p@.len() as int) =~= seconds(p@));
    s
}

/// Which extreme of a channel is picked.
enum Pick {
    Max,
    MaxAbs,
    Min,
}

impl RealData {
    /// Per channel, the (x, y) pair of the largest y value. Channels with no
    /// data points have no maximum, so data points are required when there
    /// are channels.
    pub fn max_per_channel(&self) -> (r: Vec<(u64, u64)>)
        requires
            self@.y.len() > 0 ==> self@.x.len() > 0,
        ensures
            r@ == max_pairs(self@.x, self@.y),
    {
        self.pick_per_channel(Pick::Max)
    }

    /// Per channel, the (x, |y|) pair of the largest magnitude.
    pub fn max_abs_per_channel(&self) -> (r: Vec<(u64, u64)>)
        requires
            self@.y.len() > 0 ==> self@.x.len() > 0,
        ensures
            r@ == max_abs_pairs(self@.x, self@.y),
    {
        self.pick_per_channel(Pick::MaxAbs)
    }

    /// The pair of each channel for one kind of extreme.
    fn pick_per_channel(&self, pick: Pick) -> (r: Vec<(u64, u64)>)
        requires
            self@.y.len() > 0 ==> self@.x.len() > 0,
        ensures
            pick is Max ==> r@ == max_pairs(self@.x, self@.y),
            pick is MaxAbs ==> r@ == max_abs_pairs(self@.x, self@.y),
            pick is Min ==> r@ == min_pairs(self@.x, self@.y),
    {
        let channels = self.num_channels();
        let n = self.num_data_points();
        let x = self.x_data().to_vec();
        let mut out: Vec<(u64, u64)> = Vec::new();
        let mut c: usize = 0;
        while c < channels
            invariant
                channels == self@.y.len(),
                n == self@.x.len(),
                x@ == self@.x,
                rectangular(self@.y, n as nat),
                channels > 0 ==> n > 0,
                c <= channels,
                out@.len() == c,
                pick is Max ==> forall|k: int| 0 <= k < c ==> #[trigger] out@[k] == max_pairs(self@.x, self@.y)[k],
                pick is MaxAbs ==> forall|k: int| 0 <= k < c ==> #[trigger] out@[k] == max_abs_pairs(self@.x, self@.y)[k],
                pick is Min ==> forall|k: int| 0 <= k < c ==> #[trigger] out@[k] == min_pairs(self@.x, self@.y)[k],
            decreases channels - c,
        {
            let row = self.channel(c);
            match pick {
                Pick::Max => {
                    let i = find_max(&row, n);
                    out.push((x[i], row[i]));
                },
                Pick::MaxAbs => {
                    let a = abs_values(&row);
                    let i = find_max(&a, n);
                    out.push((x[i], a[i]));
                },
                Pick::Min => {
                    let i = find_min(&row, n);
                    out.push((x[i], row[i]));
                },
            }
            c = c + 1;
        }
        proof {
            if pick is Max { assert(out@ =~= max_pairs(self@.x, self@.y)); }
            if pick is MaxAbs { assert(out@ =~= max_abs_pairs(self@.x, self@.y)); }
            if pick is Min { assert(out@ =~= min_pairs(self@.x, self@.y)); }
        }
        out
    }

    /// The (x, y) pair of the largest value over all channels: among the
    /// channel maxima, by the `max_by` rule. There must be a value.
    pub fn max_overall(&self) -> (r: (u64, u64))
        requires
            self@.y.len() > 0,
            self@.x.len() > 0,
        ensures
            r == max_pairs(self@.x, self@.y)[
                max_index(seconds(max_pairs(self@.x, self@.y)), self@.y.len()) as int],
    {
        let per = self.max_per_channel();
        let values = second_values(&per);
        let i = find_max(&values, per.len());
        per[i]
    }

    /// The (x, |y|) pair of the largest magnitude over all channels.
    pub fn max_abs_overall(&self) -> (r: (u64, u64))
        requires
            self@.y.len() > 0,
            self@.x.len() > 0,
        ensures
            r == max_abs_pairs(self@.x, self@.y)[
                max_index(seconds(max_abs_pairs(self@.x, self@.y)), self@.y.len()) as int],
    {
        let per = self.max_abs_per_channel();
        let values = second_values(&per);
        let i = find_max(&values, per.len());
        per[i]
    }

    /// Per channel, the (x, y) pairs of the smallest and of the largest value.
    pub fn min_max_per_channel(&self) -> (r: Vec<((u64, u64), (u64, u64))>)
        requires
            self@.y.len() > 0 ==> self@.x.len() > 0,
        ensures
            r@.len() == self@.y.len(),
            forall|c: int| 0 <= c < r@.len() ==> #[trigger] r@[c] == (
                min_pairs(self@.x, self@.y)[c],
                max_pairs(self@.x, self@.y)[c],
            ),
    {
        let mins = self.pick_per_channel(Pick::Min);
        let maxs = self.pick_per_channel(Pick::Max);
        let mut out: Vec<((u64, u64), (u64, u64))> = Vec::new();
        let mut c: usize = 0;
        while c < mins.len()
            invariant
                mins@ == min_pairs(self@.x, self@.y),
                maxs@ == max_pairs(self@.x, self@.y),
                c <= mins@.len(),
                out@.len() == c,
                forall|k: int| 0 <= k < c ==> #[trigger] out@[k] == (mins@[k], maxs@[k]),
            decreases mins@.len() - c,
        {
            out.push((mins[c], maxs[c]));
            c = c + 1;
        }
        out
    }

    /// The (x, y) pairs of the smallest and of the largest value over all
    /// channels: the `min_by` of the channel minima and the `max_by` of the
    /// channel maxima. There must be a value.
    pub fn min_max_overall(&self) -> (r: ((u64, u64), (u64, u64)))
        requires
            self@.y.len() > 0,
            self@.x.len() > 0,
        ensures
            r.0 == min_pairs(self@.x, self@.y)[
                min_index(seconds(min_pairs(self@.x, self@.y)), self@.y.len()) as int],
            r.1 == max_pairs(self@.x, self@.y)[
                max_index(seconds(max_pairs(self@.x, self@.y)), self@.y.len()) as int],
    {
        let mins = self.pick_per_channel(Pick::Min);
        let maxs = self.pick_per_channel(Pick::Max);
        let min_values = second_values(&mins);
        let max_values = second_values(&maxs);
        let i = find_min(&min_values, mins.len());
        let j = find_max(&max_values, maxs.len());
        (mins[i], maxs[j])
    }
}

/// Among values that are not NaNs, the `max_by` pick is not below any value,
/// and no later value equals it in order: it is the last maximum.
pub proof fn lemma_max_index_is_last_maximum(v: Seq<u64>, n: nat)
    requires
        1 <= n <= v.len(),
        forall|i: int| 0 <= i < n ==> !is_nan(#[trigger] v[i]),
    ensures
        max_index(v, n) < n,
        forall|j: int| 0 <= j < n ==> !lt(v[max_index(v, n) as int], #[trigger] v[j]),
        forall|j: int| max_index(v, n) < j < n ==> lt(#[trigger] v[j], v[max_index(v, n) as int]),
    decreases n,
{
    if n > 1 {
        lemma_max_index_is_last_maximum(v, (n - 1) as nat);
        let b = max_index(v, (n - 1) as nat);
        assert forall|j: int| 0 <= j < n implies !#[trigger] lt(v[j], v[j]) by {
            lemma_lt_is_key_order(v[j], v[j]);
        }
        assert forall|i: int, j: int| 0 <= i < n && 0 <= j < n implies
            (#[trigger] lt(v[i], v[j]) <==> value_key(v[i]) < value_key(v[j])) by {
            lemma_lt_is_key_order(v[i], v[j]);
        }
    }
}

/// Among values that are not NaNs, the `min_by` pick is not above any value,
/// and no earlier value equals it in order: it is the first minimum.
pub proof fn lemma_min_index_is_first_minimum(v: Seq<u64>, n: nat)
    requires
        1 <= n <= v.len(),
        forall|i: int| 0 <= i < n ==> !is_nan(#[trigger] v[i]),
    ensures
        min_index(v, n) < n,
        forall|j: int| 0 <= j < n ==> !lt(#[trigger] v[j], v[min_index(v, n) as int]),
        forall|j: int| 0 <= j < min_index(v, n) ==> lt(v[min_index(v, n) as int], #[trigger] v[j]),
    decreases n,
{
    if n > 1 {
        lemma_min_index_is_first_minimum(v, (n - 1) as nat);
        assert forall|i: int, j: int| 0 <= i < n && 0 <= j < n implies
            (#[trigger] lt(v[i], v[j]) <==> value_key(v[i]) < value_key(v[j])) by {
            lemma_lt_is_key_order(v[i], v[j]);
        }
    }
}

} // verus!
