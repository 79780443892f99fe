//! Settings of sine tones.
use vstd::prelude::*;
use crate::test_signal::{DEFAULT_SAMPLE_RATE, UNIT_AMPLITUDE};

verus! {

/// Settings of a sine tone; amplitude and sample rate are binary64 bit patterns.
#[derive(Debug, Clone, Copy, PartialEq, Eq, Structural)]
pub struct SineConfig {
    pub amplitude: u64,
    pub sample_rate: u64,
    pub num_channels: usize,
}

impl Default for SineConfig {
    /// Amplitude 1, 48 kHz, one channel.
    fn default() -> (c: SineConfig)
        ensures
            c.amplitude == UNIT_AMPLITUDE,
            c.sample_rate == DEFAULT_SAMPLE_RATE,
            c.num_channels == 1,
    {
        SineConfig { amplitude: UNIT_AMPLITUDE, sample_rate: DEFAULT_SAMPLE_RATE, num_channels: 1 }
    }
}

} // verus!
