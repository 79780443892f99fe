//! Checks and lengths of regularized deconvolution.
use vstd::prelude::*;
use crate::binary64::{eq, equal, half, halve, lt, le, less_or_equal, less_than};
use crate::signal::{SignalError, TimeSignal};

verus! {

/// Why a deconvolution could not be computed. Rates and frequencies are
/// binary64 bit patterns.
#[derive(Debug, Clone, Copy, PartialEq, Eq, Structural)]
#[allow(inconsistent_fields)]
pub enum DeconvolutionError {
    SampleRateMismatch { output: u64, input: u64 },
    ChannelMismatch { output: usize, input: usize },
    FftLengthTooShort { fft_len: usize, output_len: usize, input_len: usize },
    InvalidFrequencyRange { start: u64, end: u64, nyquist: u64 },
    EmptySignal,
    Signal(SignalError),
}

/// The bit pattern of 1.0, the regularization outside the band by default.
pub const ONE: u64 = 0x3FF0_0000_0000_0000;

/// The bit pattern of 1e-10 (-200 dB as an amplitude), the regularization
/// inside the band by default.
pub const MINUS_200_DB: u64 = 0x3DDB_7CDF_D9D7_BDBB;

/// A frequency band in Hz, its bounds as binary64 bit patterns.
#[derive(Debug, Clone, Copy, PartialEq, Eq, Structural)]
pub struct FrequencyBand {
    pub start: u64,
    pub end: u64,
}

/// Settings of a deconvolution; frequencies and weights are binary64 bit
/// patterns.
#[derive(Debug, Clone, Copy, PartialEq, Eq, Structural)]
pub struct DeconvolutionConfig {
    /// FFT length; the longer input's length when not set.
    pub fft_len: Option<usize>,
    /// Band (start, end) in Hz where the inversion is barely regularized; the
    /// whole range up to Nyquist when not set.
    pub regularized_band: Option<FrequencyBand>,
    /// Regularization weight outside the band.
    pub regularization_outside_band: u64,
    /// Regularization weight inside the band.
    pub regularization_inside_band: u64,
}

impl Default for DeconvolutionConfig {
    /// No FFT length, no band, weight 1 outside and -200 dB inside.
    fn default() -> (c: DeconvolutionConfig)
        ensures
            c.fft_len is None,
            c.regularized_band is None,
            c.regularization_outside_band == ONE,
            c.regularization_inside_band == MINUS_200_DB,
    {
        DeconvolutionConfig {
            fft_len: None,
            regularized_band: None,
            regularization_outside_band: ONE,
            regularization_inside_band: MINUS_200_DB,
        }
    }
}

impl DeconvolutionConfig {
    /// The same settings with the FFT length set.
    pub fn with_fft_len(self, fft_len: usize) -> (c: DeconvolutionConfig)
        ensures
            c == (DeconvolutionConfig { fft_len: Some(fft_len), ..self }),
    {
        DeconvolutionConfig { fft_len: Some(fft_len), ..self }
    }

    /// The same settings with the regularized band set.
    pub fn with_regularized_band(self, start: u64, end: u64) -> (c: DeconvolutionConfig)
        ensures
            c == (DeconvolutionConfig { regularized_band: Some(FrequencyBand { start, end }), ..self }),
    {
        DeconvolutionConfig { regularized_band: Some(FrequencyBand { start, end }), ..self }
    }

    /// Another name for setting the regularized band.
    pub fn with_frequency_range(self, start: u64, end: u64) -> (c: DeconvolutionConfig)
        ensures
            c == (DeconvolutionConfig { regularized_band: Some(FrequencyBand { start, end }), ..self }),
    {
        self.with_regularized_band(start, end)
    }

    /// The same settings with both regularization weights set.
    pub fn with_regularization(self, outside_band: u64, inside_band: u64) -> (c: DeconvolutionConfig)
        ensures
            c == (DeconvolutionConfig {
                regularization_outside_band: outside_band,
                regularization_inside_band: inside_band,
                ..self
            }),
    {
        DeconvolutionConfig {
            regularization_outside_band: outside_band,
            regularization_inside_band: inside_band,
            ..self
        }
    }
}

/// The FFT length a deconvolution of these lengths uses.
pub open spec fn chosen_fft_len(fft_len: Option<usize>, output_len: nat, input_len: nat) -> nat {
    match fft_len {
        Some(n) => n as nat,
        None => if output_len >= input_len { output_len } else { input_len },
    }
}

/// Without a configured FFT length a deconvolution uses the longer of its two
/// signals' lengths, whichever signal that is, so it never is too short for
/// either; a configured length is used as it is.
pub proof fn law_default_fft_len_covers_both(fft_len: Option<usize>, output_len: nat, input_len: nat)
    ensures
        fft_len is None ==> chosen_fft_len(fft_len, output_len, input_len) >= output_len
            && chosen_fft_len(fft_len, output_len, input_len) >= input_len,
        fft_len is None ==> chosen_fft_len(fft_len, output_len, input_len) == output_len
            || chosen_fft_len(fft_len, output_len, input_len) == input_len,
        fft_len is None ==> chosen_fft_len(fft_len, output_len, input_len) == chosen_fft_len(
            fft_len,
            input_len,
            output_len,
        ),
        fft_len matches Some(n) ==> chosen_fft_len(fft_len, output_len, input_len) == n,
{
}

/// Checks the two signals of a deconvolution and gives the FFT length to use.
/// Fails with `SampleRateMismatch` when the rates do not compare equal (a NaN
/// rate equals none), then `ChannelMismatch`, then `EmptySignal`
/// when either has no samples, then `FftLengthTooShort` when a set FFT length
/// is shorter than either signal.
pub fn deconvolution_fft_len(
    system_output: &TimeSignal,
    system_input: &TimeSignal,
    config: &DeconvolutionConfig,
) -> (r: Result<usize, DeconvolutionError>)
    ensures
        ({
            let out = system_output@;
            let inp = system_input@;
            let fft = chosen_fft_len(config.fft_len, out.num_time_steps, inp.num_time_steps);
            &&& !eq(out.sample_rate, inp.sample_rate) ==> r == Err::<usize, DeconvolutionError>(
                DeconvolutionError::SampleRateMismatch { output: out.sample_rate, input: inp.sample_rate },
            )
            &&& eq(out.sample_rate, inp.sample_rate) && out.samples.len() != inp.samples.len()
                ==> r == Err::<usize, DeconvolutionError>(DeconvolutionError::ChannelMismatch {
                    output: out.samples.len() as usize,
                    input: inp.samples.len() as usize,
                })
            &&& eq(out.sample_rate, inp.sample_rate) && out.samples.len() == inp.samples.len()
                && (out.num_time_steps == 0 || inp.num_time_steps == 0)
                ==> r == Err::<usize, DeconvolutionError>(DeconvolutionError::EmptySignal)
            &&& eq(out.sample_rate, inp.sample_rate) && out.samples.len() == inp.samples.len()
                && out.num_time_steps > 0 && inp.num_time_steps > 0
                && (fft < out.num_time_steps || fft < inp.num_time_steps)
                ==> r == Err::<usize, DeconvolutionError>(DeconvolutionError::FftLengthTooShort {
                    fft_len: fft as usize,
                    output_len: out.num_time_steps as usize,
                    input_len: inp.num_time_steps as usize,
                })
            &&& r is Ok <==> eq(out.sample_rate, inp.sample_rate) && out.samples.len() == inp.samples.len()
                && out.num_time_steps > 0 && inp.num_time_steps > 0
                && fft >= out.num_time_steps && fft >= inp.num_time_steps
            &&& r matches Ok(n) ==> n == fft
            &&& config.fft_len is None && eq(out.sample_rate, inp.sample_rate)
                && out.samples.len() == inp.samples.len() && out.num_time_steps > 0
                && inp.num_time_steps > 0 ==> r is Ok
            &&& r matches Ok(v) ==> (config.fft_len is None ==> v >= out.num_time_steps
                && v >= inp.num_time_steps && (v == out.num_time_steps || v == inp.num_time_steps))
            &&& r matches Ok(v) ==> (config.fft_len == Some(v))
                || config.fft_len is None
        }),
{
    let rate_out = system_output.sample_rate();
    let rate_in = system_input.sample_rate();
    if !equal(rate_out, rate_in) {
        return Err(DeconvolutionError::SampleRateMismatch { output: rate_out, input: rate_in });
    }
    let c_out = system_output.num_channels();
    let c_in = system_input.num_channels();
    if c_out != c_in {
        return Err(DeconvolutionError::ChannelMismatch { output: c_out, input: c_in });
    }
    let output_len = system_output.num_time_steps();
    let input_len = system_input.num_time_steps();
    if output_len == 0 || input_len == 0 {
        return Err(DeconvolutionError::EmptySignal);
    }
    let fft_len = match config.fft_len {
        Some(n) => n,
        None => if output_len >= input_len { output_len } else { input_len },
    };
    if fft_len < output_len || fft_len < input_len {
        return Err(DeconvolutionError::FftLengthTooShort { fft_len, output_len, input_len });
    }
    Ok(fft_len)
}

/// Checks a regularization band against the Nyquist frequency (all binary64
/// bit patterns). Fails with `InvalidFrequencyRange` when `start < 0`,
/// `start >= end` or `end > nyquist`, each compared as binary64 values (a
/// comparison with a NaN is false).
pub fn validate_frequency_range(start: u64, end: u64, nyquist: u64) -> (r: Result<(), DeconvolutionError>)
    ensures
        r is Ok <==> !(lt(start, 0) || le(end, start) || lt(nyquist, end)),
        r matches Err(e) ==> e == (DeconvolutionError::InvalidFrequencyRange { start, end, nyquist }),
{
    if less_than(start, 0) || less_or_equal(end, start) || less_than(nyquist, end) {
        return Err(DeconvolutionError::InvalidFrequencyRange { start, end, nyquist });
    }
    Ok(())
}

/// The band whose regularization is the inside weight, checked against the
/// Nyquist frequency `sample_rate / 2`: the configured band, or `0 ..
/// sample_rate / 2` when none is set. Fails with `InvalidFrequencyRange`
/// when its start is negative, not below its end, or its end is above the
/// Nyquist frequency.
pub fn regularized_band_checked(band: Option<FrequencyBand>, sample_rate: u64) -> (r: Result<
    FrequencyBand,
    DeconvolutionError,
>)
    ensures
        ({
            let nyquist = half(sample_rate);
            let chosen = match band {
                Some(b) => b,
                None => FrequencyBand { start: 0, end: nyquist },
            };
            &&& r is Ok <==> !(lt(chosen.start, 0) || le(chosen.end, chosen.start) || lt(nyquist, chosen.end))
            &&& r matches Ok(b) ==> b == chosen
            &&& r matches Err(e) ==> e == (DeconvolutionError::InvalidFrequencyRange {
                start: chosen.start,
                end: chosen.end,
                nyquist,
            })
        }),
{
    let nyquist = halve(sample_rate);
    let chosen = match band {
        Some(b) => b,
        None => FrequencyBand { start: 0, end: nyquist },
    };
    match validate_frequency_range(chosen.start, chosen.end, nyquist) {
        Ok(()) => Ok(chosen),
        Err(e) => Err(e),
    }
}

} // verus!
