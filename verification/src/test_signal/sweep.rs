//! Settings and checks of sine sweeps.
use vstd::prelude::*;
use crate::binary64::{half, le, less_or_equal, halve};
use crate::signal::SignalError;
use crate::test_signal::{DEFAULT_SAMPLE_RATE, UNIT_AMPLITUDE};

verus! {

/// How the frequency moves over time.
#[derive(Clone, Copy, Debug, PartialEq, Eq, Structural)]
pub enum SweepType {
    Linear,
    Exponential,
}

impl SweepType {
    /// The sweep type's name as `{:?}` writes it.
    pub fn name(&self) -> (s: &'static str)
        ensures
            s@ == sweep_type_name(*self),
    {
        proof {
            reveal_strlit("Linear");
            reveal_strlit("Exponential");
        }
        match self {
            SweepType::Linear => "Linear",
            SweepType::Exponential => "Exponential",
        }
    }
}

/// The name of a sweep type.
pub open spec fn sweep_type_name(t: SweepType) -> Seq<char> {
    match t {
        SweepType::Linear => "Linear"@,
        SweepType::Exponential => "Exponential"@,
    }
}

/// Why a sweep could not be generated.
#[derive(Debug, Clone, Copy, PartialEq, Eq, Structural)]
pub enum SweepError {
    Nyquist,
    FreqRange,
    FadeOut,
    Signal(SignalError),
}

/// Settings of a sweep; amplitude and sample rate are binary64 bit patterns.
#[derive(Debug, Clone, Copy, PartialEq, Eq, Structural)]
pub struct SweepConfig {
    pub amplitude: u64,
    pub sample_rate: u64,
    pub num_channels: usize,
    /// Samples at the end faded out with a raised-cosine half.
    pub fade_out: usize,
    pub sweep_type: SweepType,
}

impl Default for SweepConfig {
    /// Amplitude 1, 48 kHz, one channel, a 90-sample fade-out, exponential.
    fn default() -> (c: SweepConfig)
        ensures
            c.amplitude == UNIT_AMPLITUDE,
            c.sample_rate == DEFAULT_SAMPLE_RATE,
            c.num_channels == 1,
            c.fade_out == 90,
            c.sweep_type == SweepType::Exponential,
    {
        SweepConfig {
            amplitude: UNIT_AMPLITUDE,
            sample_rate: DEFAULT_SAMPLE_RATE,
            num_channels: 1,
            fade_out: 90,
            sweep_type: SweepType::Exponential,
        }
    }
}

/// Checks a sweep's settings: fails with `FreqRange` when the end frequency
/// is not above the start, then `Nyquist` when the end reaches half the
/// sample rate, then `FadeOut` when the fade is longer than the sweep. Values
/// are binary64 bit patterns compared as binary64 numbers.
pub fn check_sweep(num_time_steps: usize, freq_start: u64, freq_end: u64, config: &SweepConfig) -> (r: Result<
    (),
    SweepError,
>)
    ensures
        le(freq_end, freq_start) ==> r == Err::<(), SweepError>(SweepError::FreqRange),
        !le(freq_end, freq_start) && le(half(config.sample_rate), freq_end) ==> r == Err::<(), SweepError>(
            SweepError::Nyquist,
        ),
        !le(freq_end, freq_start) && !le(half(config.sample_rate), freq_end) && config.fade_out
            > num_time_steps ==> r == Err::<(), SweepError>(SweepError::FadeOut),
        r is Ok <==> !le(freq_end, freq_start) && !le(half(config.sample_rate), freq_end)
            && config.fade_out <= num_time_steps,
{
    if less_or_equal(freq_end, freq_start) {
        return Err(SweepError::FreqRange);
    }
    if less_or_equal(halve(config.sample_rate), freq_end) {
        return Err(SweepError::Nyquist);
    }
    if config.fade_out > num_time_steps {
        return Err(SweepError::FadeOut);
    }
    Ok(())
}

/// The frames a fade-out of `fade_out` samples scales, in order: the last
/// `fade_out` frames of an `n`-frame sweep.
pub fn fade_out_frames(n: usize, fade_out: usize) -> (f: Vec<usize>)
    requires
        fade_out <= n,
    ensures
        f@.len() == fade_out,
        forall|i: int| 0 <= i < fade_out ==> #[trigger] f@[i] == n - fade_out + i,
{
    let mut f: Vec<usize> = Vec::new();
    let mut i: usize = 0;
    while i < fade_out
        invariant
            i <= fade_out,
            fade_out <= n,
            f@.len() == i,
            forall|k: int| 0 <= k < i ==> #[trigger] f@[k] == n - fade_out + k,
        decreases fade_out - i,
    {
        f.push(n - fade_out + i);
        i = i + 1;
    }
    f
}

} // verus!
