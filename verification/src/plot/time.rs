//! Settings of waveform plots.
use vstd::prelude::*;

verus! {

/// What a waveform plot shows on its y axis.
#[derive(Clone, Copy, Debug, PartialEq, Eq, Structural)]
pub enum TimeValue {
    Amplitude,
    AmplitudeDb,
}

/// The y-axis label for each kind of value.
pub open spec fn time_value_label(v: TimeValue) -> Seq<char> {
    match v {
        TimeValue::Amplitude => "Amplitude"@,
        TimeValue::AmplitudeDb => "Amplitude (dB)"@,
    }
}

impl TimeValue {
    /// The y-axis label: `Amplitude` or `Amplitude (dB)`.
    pub fn y_label(&self) -> (s: &'static str)
        ensures
            s@ == time_value_label(*self),
    {
        proof {
            reveal_strlit("Amplitude");
            reveal_strlit("Amplitude (dB)");
        }
        match self {
            TimeValue::Amplitude => "Amplitude",
            TimeValue::AmplitudeDb => "Amplitude (dB)",
        }
    }
}

/// Settings of a waveform plot.
#[derive(Clone, Copy, Debug, PartialEq, Eq, Structural)]
pub struct TimePlotOptions {
    pub value: TimeValue,
}

impl Default for TimePlotOptions {
    /// Plain amplitude.
    fn default() -> (o: TimePlotOptions)
        ensures
            o.value == TimeValue::Amplitude,
    {
        TimePlotOptions { value: TimeValue::Amplitude }
    }
}

} // verus!
