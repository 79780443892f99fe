//! Length relations between a real signal and its one-sided spectrum.
use vstd::prelude::*;

verus! {

/// Number of one-sided spectrum bins of a real signal of `t` samples.
pub open spec fn freq_bins_for(t: nat) -> nat {
    t / 2 + 1
}

/// Number of time samples assumed for a one-sided spectrum of `f` bins when
/// the length is not given: `2 * (f - 1)`, and 0 for no bins.
pub open spec fn time_steps_for(f: nat) -> nat {
    if f == 0 { 0 } else { ((f - 1) * 2) as nat }
}

/// The number of frequency bins of the real FFT of `t` samples: `t / 2 + 1`.
pub fn f_from_t(t: usize) -> (f: usize)
    ensures
        f == freq_bins_for(t as nat),
{
    t / 2 + 1
}

/// The even number of time samples whose real FFT has `f` bins:
/// `2 * (f - 1)`, or 0 when `f` is 0. The doubling must fit in `usize`.
pub fn t_from_f(f: usize) -> (t: usize)
    requires
        f == 0 || (f - 1) * 2 <= usize::MAX,
    ensures
        t == time_steps_for(f as nat),
{
    if f == 0 { 0 } else { (f - 1) * 2 }
}

/// Going from bins to samples and back gives the same number of bins, for
/// every non-empty spectrum.
pub proof fn lemma_bins_samples_bins(f: nat)
    requires
        f >= 1,
    ensures
        freq_bins_for(time_steps_for(f)) == f,
{
}

/// Going from samples to bins and back gives the sample count rounded down to
/// an even number: an odd length loses its last sample unless it is kept
/// alongside the spectrum.
pub proof fn lemma_samples_bins_samples(t: nat)
    ensures
        time_steps_for(freq_bins_for(t)) == t - t % 2,
        t % 2 == 0 ==> time_steps_for(freq_bins_for(t)) == t,
{
}

} // verus!
