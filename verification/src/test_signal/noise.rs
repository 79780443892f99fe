//! Settings of random noise.
use vstd::prelude::*;
use crate::signal::SignalError;
use crate::test_signal::{DEFAULT_SAMPLE_RATE, UNIT_AMPLITUDE};

verus! {

/// The spectral shape of noise.
#[derive(Clone, Copy, Debug, PartialEq, Eq, Structural)]
pub enum Spectrum {
    White,
    Pink,
}

impl Spectrum {
    /// The spectrum's name as `{:?}` writes it.
    pub fn name(&self) -> (s: &'static str)
        ensures
            s@ == spectrum_name(*self),
    {
        proof {
            reveal_strlit("White");
            reveal_strlit("Pink");
        }
        match self {
            Spectrum::White => "White",
            Spectrum::Pink => "Pink",
        }
    }
}

/// The name of a spectrum.
pub open spec fn spectrum_name(s: Spectrum) -> Seq<char> {
    match s {
        Spectrum::White => "White"@,
        Spectrum::Pink => "Pink"@,
    }
}

/// Why noise could not be generated.
#[derive(Debug, Clone, Copy, PartialEq, Eq, Structural)]
pub enum NoiseError {
    Signal(SignalError),
}

/// Settings of noise; amplitude and sample rate are binary64 bit patterns.
#[derive(Debug, Clone, Copy, PartialEq, Eq, Structural)]
pub struct NoiseConfig {
    pub spectrum: Spectrum,
    pub amplitude: u64,
    pub sample_rate: u64,
    pub num_channels: usize,
    /// Seed of the random generator; `None` takes a random seed.
    pub seed: Option<u64>,
}

impl Default for NoiseConfig {
    /// White, amplitude 1, 48 kHz, one channel, random seed.
    fn default() -> (c: NoiseConfig)
        ensures
            c.spectrum == Spectrum::White,
            c.amplitude == UNIT_AMPLITUDE,
            c.sample_rate == DEFAULT_SAMPLE_RATE,
            c.num_channels == 1,
            c.seed is None,
    {
        NoiseConfig {
            spectrum: Spectrum::White,
            amplitude: UNIT_AMPLITUDE,
            sample_rate: DEFAULT_SAMPLE_RATE,
            num_channels: 1,
            seed: None,
        }
    }
}

} // verus!
