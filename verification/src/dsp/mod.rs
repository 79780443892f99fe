//! Generic DSP and measurement building blocks: the parts that decide
//! shapes, ranges and layouts.
use vstd::prelude::*;

pub mod pad;
pub mod time;
pub mod convolve;
pub mod deconvolution;
pub mod window;
pub mod stft;
pub mod fractional_octave;
pub mod frequency;
pub mod filter_bank;

verus! {

} // verus!
