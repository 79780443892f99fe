//! Signal containers and operations over several signals.
use vstd::prelude::*;

pub mod utils;
pub mod combine;
pub mod join;
pub mod time_signal;
pub mod freq_signal;
pub mod spectrogram;
pub mod interleave;

pub use time_signal::TimeSignal;
pub use freq_signal::FreqSignal;
pub use spectrogram::{Spectrogram, SpectrogramNormalization};

verus! {

/// Why a signal could not be built or combined.
#[derive(Debug, Clone, Copy, PartialEq, Eq, Structural)]
pub enum SignalError {
    SampleRateZeroOrNeg,
    EmptySignalList,
    SampleRateMismatch,
    TimeStepMismatch,
    FrequencyBinMismatch,
    ChannelMismatch,
}

/// The message of each signal error.
pub open spec fn signal_error_text(e: SignalError) -> Seq<char> {
    match e {
        SignalError::SampleRateZeroOrNeg => "Sample Rate must be > 0"@,
        SignalError::EmptySignalList => "At least one signal is required"@,
        SignalError::SampleRateMismatch => "All signals must have the same sample rate"@,
        SignalError::TimeStepMismatch => "All signals must have the same number of time steps"@,
        SignalError::FrequencyBinMismatch => "All frequency signals must have the same number of bins"@,
        SignalError::ChannelMismatch => "All signals must have the same number of channels"@,
    }
}

impl SignalError {
    /// The error's message.
    pub fn message(&self) -> (m: &'static str)
        ensures
            m@ == signal_error_text(*self),
    {
        proof {
            reveal_strlit("Sample Rate must be > 0");
            reveal_strlit("At least one signal is required");
            reveal_strlit("All signals must have the same sample rate");
            reveal_strlit("All signals must have the same number of time steps");
            reveal_strlit("All frequency signals must have the same number of bins");
            reveal_strlit("All signals must have the same number of channels");
        }
        match self {
            SignalError::SampleRateZeroOrNeg => "Sample Rate must be > 0",
            SignalError::EmptySignalList => "At least one signal is required",
            SignalError::SampleRateMismatch => "All signals must have the same sample rate",
            SignalError::TimeStepMismatch => "All signals must have the same number of time steps",
            SignalError::FrequencyBinMismatch => "All frequency signals must have the same number of bins",
            SignalError::ChannelMismatch => "All signals must have the same number of channels",
        }
    }
}

} // verus!
