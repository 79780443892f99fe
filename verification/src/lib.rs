//! Verified core of an offline audio research toolkit: signal containers,
//! channel and block layout, trimming and padding, transform dimensioning,
//! test-signal layout and plot legend labels.
use vstd::prelude::*;

pub mod text;
pub mod binary64;
pub mod grid;
pub mod signal;
pub mod data;
pub mod dsp;
pub mod blocks;
pub mod test_signal;
pub mod plot;

verus! {

} // verus!
