//! Fractional-octave smoothing: settings, input checks and index rules.
use vstd::prelude::*;
use crate::binary64::{le, less_or_equal};
use crate::dsp::window::WindowFn;
use crate::signal::FreqSignal;

verus! {

/// Why a spectrum could not be smoothed; the fraction is a binary64 bit pattern.
#[derive(Debug, Clone, Copy, PartialEq, Eq, Structural)]
pub enum FractionalOctaveSmoothingError {
    InvalidNumFractions(u64),
    TooFewBins,
    BelowFrequencyResolution,
}

/// Which part of the spectrum is smoothed.
#[derive(Debug, Clone, Copy, PartialEq, Eq, Structural)]
pub enum FractionalOctaveSmoothingMode {
    /// Smooth the magnitude and keep each bin's phase.
    Magnitude,
    /// Smooth the magnitude and drop the phase.
    MagnitudeZeroPhase,
}

impl Default for FractionalOctaveSmoothingMode {
    /// Magnitude smoothing.
    fn default() -> (m: FractionalOctaveSmoothingMode)
        ensures
            m == FractionalOctaveSmoothingMode::Magnitude,
    {
        FractionalOctaveSmoothingMode::Magnitude
    }
}

/// Settings of fractional-octave smoothing; the fraction of an octave the
/// smoothing window spans is a binary64 bit pattern.
#[derive(Debug, Clone, Copy, PartialEq, Eq, Structural)]
pub struct FractionalOctaveSmoothingConfig {
    pub num_fractions: u64,
    pub mode: FractionalOctaveSmoothingMode,
    pub window_fn: WindowFn,
}

impl FractionalOctaveSmoothingConfig {
    /// Magnitude smoothing over `1 / num_fractions` octave with a rectangular window.
    pub fn new(num_fractions: u64) -> (c: FractionalOctaveSmoothingConfig)
        ensures
            c.num_fractions == num_fractions,
            c.mode == FractionalOctaveSmoothingMode::Magnitude,
            c.window_fn == WindowFn::Rectangular,
    {
        FractionalOctaveSmoothingConfig {
            num_fractions,
            mode: FractionalOctaveSmoothingMode::Magnitude,
            window_fn: WindowFn::Rectangular,
        }
    }
}

/// What a smoothing reports: the window length used, and the fraction of an
/// octave it actually spans (a binary64 bit pattern).
#[derive(Debug, Clone, Copy, PartialEq, Eq, Structural)]
pub struct FractionalOctaveSmoothingStats {
    pub window_len: usize,
    pub actual_num_fractions: u64,
}

/// Checks the settings and the spectrum before smoothing and gives the number
/// of bins. Fails with `InvalidNumFractions` exactly when the fraction is less
/// than or equal to zero (a NaN is not, and passes on to the window length
/// check), then with `TooFewBins` below two bins.
pub fn check_smoothing_input(signal: &FreqSignal, config: &FractionalOctaveSmoothingConfig) -> (r: Result<
    usize,
    FractionalOctaveSmoothingError,
>)
    ensures
        le(config.num_fractions, 0) ==> r == Err::<usize, FractionalOctaveSmoothingError>(
            FractionalOctaveSmoothingError::InvalidNumFractions(config.num_fractions),
        ),
        !le(config.num_fractions, 0) && signal@.num_freq_bins < 2 ==> r == Err::<
            usize,
            FractionalOctaveSmoothingError,
        >(FractionalOctaveSmoothingError::TooFewBins),
        r is Ok <==> !le(config.num_fractions, 0) && signal@.num_freq_bins >= 2,
        r matches Ok(n) ==> n == signal@.num_freq_bins,
{
    if less_or_equal(config.num_fractions, 0) {
        return Err(FractionalOctaveSmoothingError::InvalidNumFractions(config.num_fractions));
    }
    let num_bins = signal.num_freq_bins();
    if num_bins < 2 {
        return Err(FractionalOctaveSmoothingError::TooFewBins);
    }
    Ok(num_bins)
}

/// Checks the smoothing window length derived from the settings: a window of
/// one sample or less is finer than the spectrum's resolution.
pub fn check_window_len(window_len: usize) -> (r: Result<usize, FractionalOctaveSmoothingError>)
    ensures
        r is Ok <==> window_len > 1,
        r matches Ok(n) ==> n == window_len,
        r matches Err(e) ==> e == FractionalOctaveSmoothingError::BelowFrequencyResolution,
{
    if window_len <= 1 {
        return Err(FractionalOctaveSmoothingError::BelowFrequencyResolution);
    }
    Ok(window_len)
}

/// The sample a smoothing window centred at `center` reads at `offset`: the
/// position `center + offset - radius`, clamped to `0..len`.
pub open spec fn clamped_position(center: int, offset: int, radius: int, len: int) -> int {
    let p = center + offset - radius;
    if p < 0 { 0 } else if p > len - 1 { len - 1 } else { p }
}

/// The smoothing window is centred on its bin: tap `offset` of a window of
/// radius `radius` around bin `center` reads bin `center + offset - radius`
/// when that lies inside the spectrum, the first bin when it falls before it
/// and the last bin when it falls after it; the middle tap reads the centre.
pub proof fn law_smoothing_window_is_centred(center: int, offset: int, radius: int, len: int)
    requires
        len > 0,
    ensures
        0 <= clamped_position(center, offset, radius, len) < len,
        0 <= center + offset - radius < len ==> clamped_position(center, offset, radius, len)
            == center + offset - radius,
        center + offset - radius < 0 ==> clamped_position(center, offset, radius, len) == 0,
        center + offset - radius >= len ==> clamped_position(center, offset, radius, len) == len - 1,
        0 <= center < len ==> clamped_position(center, radius, radius, len) == center,
{
}

/// Computes the clamped sample position of a smoothing window's tap.
pub fn clamped_index(center: usize, offset: usize, radius: usize, len: usize) -> (i: usize)
    requires
        len > 0,
        center + offset <= usize::MAX,
    ensures
        i == clamped_position(center as int, offset as int, radius as int, len as int),
        i < len,
        radius <= center + offset && center + offset - radius < len ==> i == center + offset - radius,
        center + offset < radius ==> i == 0,
        center + offset >= radius + len ==> i == len - 1,
        offset == radius && center < len ==> i == center,
{
    let p = center + offset;
    if p < radius {
        0
    } else if p - radius > len - 1 {
        len - 1
    } else {
        p - radius
    }
}

/// The bins a real signal's spectrum holds as real numbers: the first bin,
/// and the last one when the time length is even and there are two bins or more.
pub open spec fn real_bins(num_bins: nat, num_time_steps: nat) -> Seq<nat> {
    if num_bins == 0 {
        seq![]
    } else if num_time_steps % 2 == 0 && num_bins > 1 {
        seq![0, (num_bins - 1) as nat]
    } else {
        seq![0]
    }
}

/// The DC bin of a non-empty spectrum is always forced real; the last bin is
/// forced real too exactly when the time length is even and it is not the
/// DC bin itself (for a spectrum of `t / 2 + 1` bins of an even `t`, that
/// is the Nyquist bin `t / 2`); no other bin is.
pub proof fn law_real_bins_are_dc_and_nyquist(num_bins: nat, num_time_steps: nat, k: nat)
    ensures
        real_bins(num_bins, num_time_steps).contains(k) <==> (k < num_bins && (k == 0 || (
        num_time_steps % 2 == 0 && k + 1 == num_bins))),
        num_time_steps % 2 == 0 && num_time_steps > 0 ==> real_bins(num_time_steps / 2 + 1, num_time_steps)
            =~= seq![0nat, num_time_steps / 2],
{
    let r = real_bins(num_bins, num_time_steps);
    if k < num_bins && (k == 0 || (num_time_steps % 2 == 0 && k + 1 == num_bins)) {
        if k == 0 {
            assert(r[0] == k);
        } else {
            assert(r[1] == k);
        }
    }
}

/// Lists the bins that are forced to real values after smoothing.
pub fn real_endpoint_bins(num_bins: usize, num_time_steps: usize) -> (b: Vec<usize>)
    ensures
        b@.map_values(|i: usize| i as nat) == real_bins(num_bins as nat, num_time_steps as nat),
        forall|k: usize| b@.contains(k) <==> (k < num_bins && (k == 0 || (num_time_steps % 2 == 0
            && k + 1 == num_bins))),
{
    let mut b: Vec<usize> = Vec::new();
    if num_bins == 0 {
        assert(b@.map_values(|i: usize| i as nat) =~= real_bins(num_bins as nat, num_time_steps as nat));
        assert(b@ =~= Seq::<usize>::empty());
        return b;
    }
    b.push(0);
    if num_time_steps % 2 == 0 && num_bins > 1 {
        b.push(num_bins - 1);
    }
    assert(b@.map_values(|i: usize| i as nat) =~= real_bins(num_bins as nat, num_time_steps as nat));
    assert forall|k: usize| b@.contains(k) <==> (k < num_bins && (k == 0 || (num_time_steps % 2 == 0
        && k + 1 == num_bins))) by {
        if k < num_bins && (k == 0 || (num_time_steps % 2 == 0 && k + 1 == num_bins)) {
            if k == 0 { assert(b@[0] == k); } else { assert(b@[1] == k); }
        }
    }
    b
}

} // verus!
