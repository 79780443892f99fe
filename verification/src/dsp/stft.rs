//! Dimensions of the short-time Fourier transform.
use vstd::prelude::*;
use crate::dsp::window::WindowFn;
use crate::signal::TimeSignal;
use crate::signal::utils::freq_bins_for;

verus! {

/// Why a short-time Fourier transform could not be computed.
#[derive(Debug, Clone, Copy, PartialEq, Eq, Structural)]
pub enum StftError {
    WindowSizeZero,
    HopSizeZero,
    WindowLargerThanSignal { window_size: usize, signal_length: usize },
}

/// Settings of a short-time Fourier transform.
#[derive(Debug, Clone, Copy, PartialEq, Eq, Structural)]
pub struct StftConfig {
    /// FFT window length in samples.
    pub window_size: usize,
    /// Step between successive frames in samples.
    pub hop_size: usize,
    /// Tapering window applied to each frame before the FFT.
    pub window_fn: WindowFn,
}

impl StftConfig {
    /// A Hann-windowed transform of `window_size` samples with 75 % overlap
    /// (a hop of a quarter window).
    pub fn new(window_size: usize) -> (c: StftConfig)
        ensures
            c.window_size == window_size,
            c.hop_size == window_size / 4,
            c.window_fn == WindowFn::Hann,
    {
        StftConfig { window_size, hop_size: window_size / 4, window_fn: WindowFn::Hann }
    }
}

impl Default for StftConfig {
    /// A Hann-windowed transform of 1024 samples with a hop of 256.
    fn default() -> (c: StftConfig)
        ensures
            c.window_size == 1024,
            c.hop_size == 256,
            c.window_fn == WindowFn::Hann,
    {
        StftConfig::new(1024)
    }
}

/// How many frames and bins a transform has.
#[derive(Debug, Clone, Copy, PartialEq, Eq, Structural)]
pub struct StftLayout {
    /// Frames that fit without padding: `(num_samples - window_size) / hop_size + 1`.
    pub num_frames: usize,
    /// One-sided bins per frame: `window_size / 2 + 1`.
    pub num_freq_bins: usize,
}

/// Checks the settings against a signal and gives the transform's dimensions.
/// Fails with `WindowSizeZero`, then `HopSizeZero`, then
/// `WindowLargerThanSignal`.
pub fn stft_layout(signal: &TimeSignal, config: &StftConfig) -> (r: Result<StftLayout, StftError>)
    ensures
        config.window_size == 0 ==> r == Err::<StftLayout, StftError>(StftError::WindowSizeZero),
        config.window_size > 0 && config.hop_size == 0 ==> r == Err::<StftLayout, StftError>(
            StftError::HopSizeZero,
        ),
        config.window_size > 0 && config.hop_size > 0 && config.window_size > signal@.num_time_steps
            ==> r == Err::<StftLayout, StftError>(StftError::WindowLargerThanSignal {
                window_size: config.window_size,
                signal_length: signal@.num_time_steps as usize,
            }),
        r is Ok <==> config.window_size > 0 && config.hop_size > 0
            && config.window_size <= signal@.num_time_steps,
        r matches Ok(l) ==> l.num_frames == (signal@.num_time_steps - config.window_size)
            / (config.hop_size as int) + 1
            && l.num_freq_bins == freq_bins_for(config.window_size as nat),
        r matches Ok(l) ==> l.num_frames >= 1
            && (l.num_frames - 1) * config.hop_size + config.window_size <= signal@.num_time_steps
            && l.num_frames * config.hop_size + config.window_size > signal@.num_time_steps
            && l.num_freq_bins == config.window_size / 2 + 1,
{
    if config.window_size == 0 {
        return Err(StftError::WindowSizeZero);
    }
    if config.hop_size == 0 {
        return Err(StftError::HopSizeZero);
    }
    let num_samples = signal.num_time_steps();
    if config.window_size > num_samples {
        return Err(StftError::WindowLargerThanSignal {
            window_size: config.window_size,
            signal_length: num_samples,
        });
    }
    let num_frames = (num_samples - config.window_size) / config.hop_size + 1;
    proof { lemma_frames_fit(num_samples as nat, config.window_size as nat, config.hop_size as nat); }
    Ok(StftLayout { num_frames, num_freq_bins: config.window_size / 2 + 1 })
}

/// Every frame lies inside the signal, and one frame more would not: the
/// transform covers as many frames as fit without padding.
pub proof fn lemma_frames_fit(num_samples: nat, window_size: nat, hop_size: nat)
    requires
        window_size > 0,
        hop_size > 0,
        window_size <= num_samples,
    ensures
        ({
            let num_frames = (num_samples - window_size) / (hop_size as int) + 1;
            &&& num_frames >= 1
            &&& (num_frames - 1) * hop_size + window_size <= num_samples
            &&& num_frames * hop_size + window_size > num_samples
        }),
{
    let d: int = num_samples - window_size;
    let h: int = hop_size as int;
    let q: int = d / h;
    assert(q * h <= d && d < q * h + h) by (nonlinear_arith)
        requires d >= 0, h > 0, q == d / h;
    assert((q + 1) * h == q * h + h) by (nonlinear_arith);
}

/// The sample at the centre of each frame: `f * hop_size + window_size / 2`.
pub fn frame_centers(layout: &StftLayout, config: &StftConfig, num_samples: usize) -> (c: Vec<usize>)
    requires
        config.window_size > 0,
        config.hop_size > 0,
        config.window_size <= num_samples,
        layout.num_frames == (num_samples - config.window_size) / (config.hop_size as int) + 1,
    ensures
        c@.len() == layout.num_frames,
        forall|f: int| 0 <= f < c@.len() ==> #[trigger] c@[f] == f * config.hop_size + config.window_size / 2,
{
    proof { lemma_frames_fit(num_samples as nat, config.window_size as nat, config.hop_size as nat); }
    let mut out: Vec<usize> = Vec::new();
    let mut f: usize = 0;
    while f < layout.num_frames
        invariant
            f <= layout.num_frames,
            (layout.num_frames - 1) * config.hop_size + config.window_size <= num_samples,
            out@.len() == f,
            forall|g: int| 0 <= g < f ==> #[trigger] out@[g] == g * config.hop_size + config.window_size / 2,
        decreases layout.num_frames - f,
    {
        assert(f * config.hop_size <= (layout.num_frames - 1) * config.hop_size) by (nonlinear_arith)
            requires f <= layout.num_frames - 1;
        out.push(f * config.hop_size + config.window_size / 2);
        f = f + 1;
    }
    out
}

} // verus!
