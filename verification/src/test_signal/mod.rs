//! Layouts, settings and checks of synthetic test signals. Sample values
//! come from elsewhere; this module places them and names them.
use vstd::prelude::*;

pub mod impulse;
pub mod noise;
pub mod pulsed_noise;

pub mod sine;
pub mod sweep;

verus! {

/// The bit pattern of 1.0, the default amplitude.
pub const UNIT_AMPLITUDE: u64 = 0x3FF0_0000_0000_0000;

/// The bit pattern of 48000.0, the default sample rate.
pub const DEFAULT_SAMPLE_RATE: u64 = 0x40E7_7000_0000_0000;

} // verus!
