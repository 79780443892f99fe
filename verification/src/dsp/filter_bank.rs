//! Fractional-octave filter banks: input checks, band supports and lengths.
use vstd::prelude::*;
use crate::binary64::{half, halve, le, less_or_equal, less_than, lt};
use crate::signal::SignalError;

verus! {

/// Why a filter bank could not be designed or applied; values are binary64
/// bit patterns.
#[derive(Debug, Clone, Copy, PartialEq, Eq, Structural)]
pub enum FilterError {
    InvalidOverlap(u64),
    InvalidNSamples,
    NoBandsInRange(u64, u64),
    Signal(SignalError),
}

/// The bit pattern of 1.0.
pub const ONE: u64 = 0x3FF0_0000_0000_0000;

/// Checks a filter bank's overlap (within `0..=1`, compared as binary64
/// values) and length (at least 2), and gives the number of one-sided bins of
/// the design, `n_samples / 2 + 1`.
pub fn check_design(overlap: u64, n_samples: usize) -> (r: Result<usize, FilterError>)
    ensures
        !(le(0, overlap) && le(overlap, ONE)) ==> r == Err::<usize, FilterError>(
            FilterError::InvalidOverlap(overlap),
        ),
        le(0, overlap) && le(overlap, ONE) && n_samples < 2 ==> r == Err::<usize, FilterError>(
            FilterError::InvalidNSamples,
        ),
        r is Ok <==> le(0, overlap) && le(overlap, ONE) && n_samples >= 2,
        r matches Ok(n) ==> n == n_samples / 2 + 1,
{
    if !(less_or_equal(0, overlap) && less_or_equal(overlap, ONE)) {
        return Err(FilterError::InvalidOverlap(overlap));
    }
    if n_samples < 2 {
        return Err(FilterError::InvalidNSamples);
    }
    Ok(n_samples / 2 + 1)
}

/// Bins `low..high` a band's transition around bin `k1` with half-width `p`
/// leaves non-zero, clipped to `n_bins` bins: the next lower band keeps
/// `..high`, the band itself keeps `low..`.
pub open spec fn support(k1: nat, p: nat, n_bins: nat) -> (nat, nat) {
    let top = if k1 + p <= n_bins - 1 { k1 + p } else { (n_bins - 1) as nat };
    let low = if k1 >= p { (k1 - p) as nat } else { 0 };
    (low, top + 1)
}

/// A transition around bin `k1` of half-width `p` reaches exactly `p` bins to
/// each side, cut at the ends of the spectrum: below `k1 - p` (or below bin 0)
/// the upper band is zeroed, and from `k1 + p + 1` (or the end) on the lower
/// band is zeroed.
pub proof fn law_transition_reaches_p_bins_each_side(k1: nat, p: nat, n_bins: nat)
    requires
        n_bins >= 1,
        k1 < n_bins,
    ensures
        support(k1, p, n_bins).0 <= k1 < support(k1, p, n_bins).1 <= n_bins,
        support(k1, p, n_bins).0 + p >= k1,
        k1 >= p ==> support(k1, p, n_bins).0 == k1 - p,
        k1 < p ==> support(k1, p, n_bins).0 == 0,
        k1 + p < n_bins ==> support(k1, p, n_bins).1 == k1 + p + 1,
        k1 + p >= n_bins ==> support(k1, p, n_bins).1 == n_bins,
{
}

/// Computes a transition's support.
pub fn transition_support(k1: usize, p: usize, n_bins: usize) -> (r: (usize, usize))
    requires
        n_bins >= 1,
        k1 < n_bins,
        p < n_bins,
    ensures
        (r.0 as nat, r.1 as nat) == support(k1 as nat, p as nat, n_bins as nat),
        r.1 <= n_bins,
        r.0 <= k1,
        k1 < r.1,
        r.0 + p >= k1,
        k1 >= p ==> r.0 == k1 - p,
        k1 < p ==> r.0 == 0,
        k1 + p < n_bins ==> r.1 == k1 + p + 1,
        k1 + p >= n_bins ==> r.1 == n_bins,
{
    let top = if k1 <= n_bins - 1 - p { k1 + p } else { n_bins - 1 };
    let low = if k1 >= p { k1 - p } else { 0 };
    (low, top + 1)
}

/// The smallest power of two not below `n` (1 for 0).
pub open spec fn is_next_power_of_two(n: nat, m: nat) -> bool {
    &&& m >= n
    &&& m >= 1
    &&& exists|k: nat| m == vstd::arithmetic::power2::pow2(k)
    &&& (m > 1 ==> m / 2 < n)
}

/// The smallest power of two that is at least `n` (1 when `n` is 0); it
/// must fit in `usize`.
pub fn next_power_of_two(n: usize) -> (m: usize)
    requires
        n <= usize::MAX / 2 + 1,
    ensures
        is_next_power_of_two(n as nat, m as nat),
{
    let mut m: usize = 1;
    let ghost mut k: nat = 0;
    proof { vstd::arithmetic::power::lemma_pow0(2); }
    while m < n
        invariant
            m >= 1,
            m == vstd::arithmetic::power2::pow2(k),
            m > 1 ==> m / 2 < n,
            n <= usize::MAX / 2 + 1,
            m <= 2 * n + 1,
        decreases 2 * n + 1 - m,
    {
        m = m * 2;
        proof {
            k = k + 1;
            vstd::arithmetic::power2::lemma_pow2_unfold(k);
        }
    }
    m
}

/// The lengths of applying a filter bank of `n_filt`-tap filters to an
/// `n_sig`-sample signal by FFT convolution.
#[derive(Debug, Clone, Copy, PartialEq, Eq, Structural)]
pub struct ApplyLengths {
    /// Length of each band's output: `n_sig + n_filt - 1`.
    pub n_out: usize,
    /// FFT length: the next power of two of `n_out`.
    pub fft_size: usize,
    /// One-sided bins of that FFT.
    pub n_freq: usize,
}

/// The lengths used when a bank of `n_filt`-tap filters is applied to an
/// `n_sig`-sample signal.
pub fn apply_lengths(n_sig: usize, n_filt: usize) -> (r: ApplyLengths)
    requires
        n_filt >= 1,
        n_sig + n_filt - 1 <= usize::MAX / 2 + 1,
    ensures
        r.n_out == n_sig + n_filt - 1,
        is_next_power_of_two(r.n_out as nat, r.fft_size as nat),
        r.n_freq == r.fft_size / 2 + 1,
{
    let n_out = n_sig + n_filt - 1;
    let fft_size = next_power_of_two(n_out);
    ApplyLengths { n_out, fft_size, n_freq: fft_size / 2 + 1 }
}

/// The indices, in ascending order, of the first `n` centre frequencies that
/// lie below `limit` (compared as binary64 values; a NaN is below nothing).
pub open spec fn indices_below(centres: Seq<u64>, limit: u64, n: nat) -> Seq<usize>
    decreases n,
{
    if n == 0 {
        seq![]
    } else {
        let earlier = indices_below(centres, limit, (n - 1) as nat);
        if lt(centres[n - 1], limit) { earlier.push((n - 1) as usize) } else { earlier }
    }
}

/// A bank keeps a band exactly when its centre lies below the limit: every
/// kept index is one of the first `n` whose centre is below `limit`, every
/// such index is kept, and the kept indices ascend without repeats.
pub proof fn law_kept_bands_are_those_below(centres: Seq<u64>, limit: u64, n: nat)
    requires
        n <= centres.len(),
        n <= usize::MAX,
    ensures
        forall|j: int| 0 <= j < indices_below(centres, limit, n).len() ==> {
            let i = #[trigger] indices_below(centres, limit, n)[j];
            &&& i < n
            &&& lt(centres[i as int], limit)
        },
        forall|i: int| 0 <= i < n && lt(centres[i], limit) ==> indices_below(centres, limit, n).contains(
            i as usize,
        ),
        forall|a: int, b: int| 0 <= a < b < indices_below(centres, limit, n).len() ==> indices_below(
            centres,
            limit,
            n,
        )[a] < indices_below(centres, limit, n)[b],
    decreases n,
{
    if n > 0 {
        let m = (n - 1) as nat;
        law_kept_bands_are_those_below(centres, limit, m);
        let earlier = indices_below(centres, limit, m);
        let res = indices_below(centres, limit, n);
        assert forall|i: int| 0 <= i < n && lt(centres[i], limit) implies res.contains(i as usize) by {
            if i < m {
                let j = choose|j: int| 0 <= j < earlier.len() && earlier[j] == i as usize;
                assert(res[j] == i as usize);
            } else {
                assert(res[res.len() - 1] == i as usize);
            }
        }
    }
}

/// The bands a bank keeps: those whose centre frequency lies below the
/// Nyquist frequency `sample_rate / 2`, as indices into `centres` in
/// ascending order. Fails with `NoBandsInRange(low, high)` when none is left.
pub fn bands_below(centres: &Vec<u64>, sample_rate: u64, low: u64, high: u64) -> (r: Result<Vec<usize>, FilterError>)
    ensures
        ({
            let kept = indices_below(centres@, half(sample_rate), centres@.len());
            &&& r is Err <==> kept.len() == 0
            &&& r matches Err(e) ==> e == FilterError::NoBandsInRange(low, high)
            &&& r matches Ok(v) ==> v@ == kept
        }),
{
    let nyquist = halve(sample_rate);
    let n = centres.len();
    let mut kept: Vec<usize> = Vec::new();
    let mut i: usize = 0;
    while i < n
        invariant
            n == centres@.len(),
            nyquist == half(sample_rate),
            i <= n,
            kept@ == indices_below(centres@, nyquist, i as nat),
        decreases n - i,
    {
        if less_than(centres[i], nyquist) {
            kept.push(i);
        }
        i = i + 1;
    }
    if kept.len() == 0 {
        return Err(FilterError::NoBandsInRange(low, high));
    }
    Ok(kept)
}

} // verus!
