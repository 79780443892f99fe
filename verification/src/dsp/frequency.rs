//! Checks on the frequency axis of a spectrum.
use vstd::prelude::*;
use crate::binary64::{le, less_or_equal};

verus! {

/// Why a group delay could not be computed.
#[derive(Debug, Clone, Copy, PartialEq, Eq, Structural)]
pub enum FrequencyError {
    TooFewFrequencyBins,
    NonIncreasingFrequencyBins,
}

/// Some neighbouring bins fail to increase: `bins[i + 1] <= bins[i]` in
/// binary64 arithmetic (false when either is a NaN).
pub open spec fn some_step_not_increasing(bins: Seq<u64>) -> bool {
    exists|i: int| 0 <= i < bins.len() - 1 && #[trigger] le(bins[i + 1], bins[i])
}

/// Checks a frequency axis (binary64 bit patterns) before a group delay is
/// computed. Fails with `TooFewFrequencyBins` below two bins, else with
/// `NonIncreasingFrequencyBins` when a bin is not above its predecessor.
pub fn check_frequency_bins(bins: &Vec<u64>) -> (r: Result<(), FrequencyError>)
    ensures
        bins@.len() < 2 ==> r == Err::<(), FrequencyError>(FrequencyError::TooFewFrequencyBins),
        bins@.len() >= 2 && some_step_not_increasing(bins@) ==> r == Err::<(), FrequencyError>(
            FrequencyError::NonIncreasingFrequencyBins,
        ),
        r is Ok <==> bins@.len() >= 2 && !some_step_not_increasing(bins@),
{
    let n = bins.len();
    if n < 2 {
        return Err(FrequencyError::TooFewFrequencyBins);
    }
    let mut i: usize = 0;
    while i < n - 1
        invariant
            n == bins@.len(),
            n >= 2,
            i <= n - 1,
            forall|k: int| 0 <= k < i ==> !#[trigger] le(bins@[k + 1], bins@[k]),
        decreases n - 1 - i,
    {
        if less_or_equal(bins[i + 1], bins[i]) {
            return Err(FrequencyError::NonIncreasingFrequencyBins);
        }
        i = i + 1;
    }
    Ok(())
}

} // verus!
