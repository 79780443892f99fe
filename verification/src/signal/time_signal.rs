//! Real-valued multichannel signals sampled in time.
use vstd::prelude::*;
use vstd::string::*;

use crate::binary64::{POSITIVE_INFINITY, is_nan, le, less_or_equal};
use crate::grid::{SampleGrid, grid_rows, grid_width, rectangular, shape_fits, zero_rows};
use crate::signal::SignalError;
use crate::signal::utils::{f_from_t, freq_bins_for};

verus! {

/// The text of an optional `String`.
pub open spec fn opt_string_view(o: Option<String>) -> Option<Seq<char>> {
    match o {
        Some(s) => Some(s@),
        None => None,
    }
}

/// The text of an optional `&str`.
pub open spec fn opt_str_view(o: Option<&str>) -> Option<Seq<char>> {
    match o {
        Some(s) => Some(s@),
        None => None,
    }
}

/// Copies an optional text into an owned one.
pub fn owned_comment(comment: Option<&str>) -> (r: Option<String>)
    ensures
        opt_string_view(r) == opt_str_view(comment),
{
    match comment {
        Some(text) => Some(String::from_str(text)),
        None => None,
    }
}

/// Whether `steps` evenly spaced axis points (times or frequencies) laid out
/// from `sample_rate` can come out strictly increasing, as far as the rate
/// alone decides it: from two points on, a NaN rate makes every point NaN
/// and an infinite one makes them collapse, so the axis cannot be built.
pub open spec fn rate_spaces_steps(sample_rate: u64, steps: nat) -> bool {
    steps <= 1 || (!is_nan(sample_rate) && sample_rate != POSITIVE_INFINITY)
}

/// A time-domain signal: one row of samples per channel (binary64 bit
/// patterns), a sample rate (a binary64 bit pattern) that is not less than
/// or equal to zero, and an optional comment.
#[derive(Debug)]
pub struct TimeSignal {
    data: SampleGrid,
    sample_rate: u64,
    comment: Option<String>,
}

/// What a time signal holds.
pub struct TimeSignalModel {
    /// One sequence of samples per channel.
    pub samples: Seq<Seq<u64>>,
    /// Number of samples per channel.
    pub num_time_steps: nat,
    /// The sample rate's bit pattern.
    pub sample_rate: u64,
    /// The comment's text.
    pub comment: Option<Seq<char>>,
}

impl View for TimeSignal {
    type V = TimeSignalModel;

    closed spec fn view(&self) -> TimeSignalModel {
        TimeSignalModel {
            samples: grid_rows(self.data),
            num_time_steps: grid_width(self.data),
            sample_rate: self.sample_rate,
            comment: opt_string_view(self.comment),
        }
    }
}

impl TimeSignal {
    #[verifier::type_invariant]
    spec fn rate_is_valid(&self) -> bool {
        !le(self.sample_rate, 0) && rate_spaces_steps(self.sample_rate, grid_width(self.data))
    }

    /// A signal holding `data` (one row per channel) at `sample_rate`, without
    /// comment. Fails with `SampleRateZeroOrNeg` exactly when the rate is less
    /// than or equal to zero; a NaN rate is no such value and is taken. The
    /// time axis of the samples must be possible: a NaN or infinite rate only
    /// with at most one sample.
    pub fn new(data: SampleGrid, sample_rate: u64) -> (r: Result<TimeSignal, SignalError>)
        requires
            rate_spaces_steps(sample_rate, grid_width(data)),
        ensures
            r is Err <==> le(sample_rate, 0),
            r matches Err(e) ==> e == SignalError::SampleRateZeroOrNeg,
            r matches Ok(s) ==> s@.samples == grid_rows(data) && s@.num_time_steps == grid_width(data)
                && s@.sample_rate == sample_rate && s@.comment is None,
    {
        if less_or_equal(sample_rate, 0) {
            return Err(SignalError::SampleRateZeroOrNeg);
        }
        Ok(TimeSignal { data, sample_rate, comment: None })
    }

    /// A silent signal of `num_channels` channels of `num_time_steps` zero
    /// samples. Fails with `SampleRateZeroOrNeg` exactly when the rate is less
    /// than or equal to zero; a NaN or infinite rate is taken with at most
    /// one sample.
    pub fn zeros(num_channels: usize, num_time_steps: usize, sample_rate: u64) -> (r: Result<
        TimeSignal,
        SignalError,
    >)
        requires
            shape_fits(num_channels as nat, num_time_steps as nat),
            rate_spaces_steps(sample_rate, num_time_steps as nat),
        ensures
            r is Err <==> le(sample_rate, 0),
            r matches Err(e) ==> e == SignalError::SampleRateZeroOrNeg,
            r matches Ok(s) ==> s@.samples == zero_rows(num_channels as nat, num_time_steps as nat)
                && s@.num_time_steps == num_time_steps && s@.sample_rate == sample_rate
                && s@.comment is None,
    {
        if less_or_equal(sample_rate, 0) {
            return Err(SignalError::SampleRateZeroOrNeg);
        }
        Ok(TimeSignal { data: SampleGrid::zeros(num_channels, num_time_steps), sample_rate, comment: None })
    }

    /// The signal with the given comment in place of its own.
    pub fn with_comment(self, comment: Option<&str>) -> (s: TimeSignal)
        ensures
            s@.samples == self@.samples,
            s@.num_time_steps == self@.num_time_steps,
            s@.sample_rate == self@.sample_rate,
            s@.comment == opt_str_view(comment),
    {
        proof { use_type_invariant(&self); }
        TimeSignal { data: self.data, sample_rate: self.sample_rate, comment: owned_comment(comment) }
    }

    /// The comment, if any.
    pub fn comment(&self) -> (c: Option<&str>)
        ensures
            opt_str_view(c) == self@.comment,
    {
        match &self.comment {
            Some(c) => Some(c.as_str()),
            None => None,
        }
    }

    /// Replaces the comment.
    pub fn set_comment(&mut self, comment: Option<&str>)
        ensures
            final(self)@.samples == old(self)@.samples,
            final(self)@.num_time_steps == old(self)@.num_time_steps,
            final(self)@.sample_rate == old(self)@.sample_rate,
            final(self)@.comment == opt_str_view(comment),
    {
        proof { use_type_invariant(&*self); }
        self.comment = owned_comment(comment);
    }

    /// The sample rate's bit pattern. It is never less than or equal to zero,
    /// and it is a finite number whenever the signal has two samples or more.
    pub fn sample_rate(&self) -> (r: u64)
        ensures
            r == self@.sample_rate,
            !le(r, 0),
            rate_spaces_steps(r, self@.num_time_steps),
    {
        proof { use_type_invariant(self); }
        self.sample_rate
    }

    /// The number of channels.
    pub fn num_channels(&self) -> (n: usize)
        ensures
            n == self@.samples.len(),
    {
        self.data.nrows()
    }

    /// The number of samples per channel; every channel has that many.
    pub fn num_time_steps(&self) -> (n: usize)
        ensures
            n == self@.num_time_steps,
            rectangular(self@.samples, n as nat),
            shape_fits(self@.samples.len(), n as nat),
    {
        self.data.ncols()
    }

    /// The number of bins of this signal's one-sided spectrum.
    pub fn num_freq_bins(&self) -> (n: usize)
        ensures
            n == freq_bins_for(self@.num_time_steps),
    {
        f_from_t(self.data.ncols())
    }

    /// The samples of channel `ch`.
    pub fn channel(&self, ch: usize) -> (c: Vec<u64>)
        requires
            ch < self@.samples.len(),
        ensures
            c@ == self@.samples[ch as int],
    {
        self.data.row(ch)
    }

    /// The signal itself, as a time signal.
    pub fn into_time(self) -> (s: TimeSignal)
        ensures
            s@ == self@,
    {
        self
    }

    /// The samples, one row per channel.
    pub fn time_data(&self) -> (g: &SampleGrid)
        ensures
            grid_rows(*g) == self@.samples,
            grid_width(*g) == self@.num_time_steps,
    {
        &self.data
    }
}

impl Clone for TimeSignal {
    /// A copy of this signal.
    fn clone(&self) -> (s: TimeSignal)
        ensures
            s@ == self@,
    {
        proof { use_type_invariant(self); }
        TimeSignal {
            data: self.data.clone(),
            sample_rate: self.sample_rate,
            comment: match &self.comment {
                Some(c) => Some(String::from_str(c.as_str())),
                None => None,
            },
        }
    }
}

} // verus!
