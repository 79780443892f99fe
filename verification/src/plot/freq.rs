//! Settings of spectrum plots.
use vstd::prelude::*;

verus! {

/// What a spectrum plot shows on its y axis.
#[derive(Clone, Copy, Debug, PartialEq, Eq, Structural)]
pub enum FreqValue {
    Magnitude,
    MagnitudeDb,
    PhaseRadians,
    PhaseDegrees,
}

/// The y-axis label for each kind of value.
pub open spec fn freq_value_label(v: FreqValue) -> Seq<char> {
    match v {
        FreqValue::MagnitudeDb => "Magnitude (dB)"@,
        FreqValue::Magnitude => "Magnitude"@,
        FreqValue::PhaseRadians => "Phase (rad)"@,
        FreqValue::PhaseDegrees => "Phase (deg)"@,
    }
}

impl FreqValue {
    /// The y-axis label of the value shown.
    pub fn y_label(&self) -> (s: &'static str)
        ensures
            s@ == freq_value_label(*self),
    {
        proof {
            reveal_strlit("Magnitude (dB)");
            reveal_strlit("Magnitude");
            reveal_strlit("Phase (rad)");
            reveal_strlit("Phase (deg)");
        }
        match self {
            FreqValue::MagnitudeDb => "Magnitude (dB)",
            FreqValue::Magnitude => "Magnitude",
            FreqValue::PhaseRadians => "Phase (rad)",
            FreqValue::PhaseDegrees => "Phase (deg)",
        }
    }

    /// Whether the value is a phase, in either unit.
    pub fn is_phase(&self) -> (b: bool)
        ensures
            b <==> (*self == FreqValue::PhaseRadians || *self == FreqValue::PhaseDegrees),
    {
        match self {
            FreqValue::PhaseRadians | FreqValue::PhaseDegrees => true,
            _ => false,
        }
    }
}

/// Settings of a spectrum plot.
#[derive(Clone, Copy, Debug, PartialEq, Eq, Structural)]
pub struct FreqPlotOptions {
    /// Logarithmic frequency axis.
    pub log_freq: bool,
    pub value: FreqValue,
}

impl Default for FreqPlotOptions {
    /// Logarithmic frequency axis, magnitude in dB.
    fn default() -> (o: FreqPlotOptions)
        ensures
            o.log_freq,
            o.value == FreqValue::MagnitudeDb,
    {
        FreqPlotOptions { log_freq: true, value: FreqValue::MagnitudeDb }
    }
}

} // verus!
