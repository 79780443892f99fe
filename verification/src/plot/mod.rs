//! Plot settings and legend labels. Drawing happens elsewhere.
use vstd::prelude::*;

pub mod legend;
pub mod time;
pub mod freq;
pub mod data;
pub mod spectrogram;

verus! {

} // verus!
