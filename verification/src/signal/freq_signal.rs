//! One-sided complex spectra of real multichannel signals.
use vstd::prelude::*;
use vstd::string::*;
use crate::binary64::{half, halve, le, less_or_equal};
use crate::grid::{ComplexGrid, lemma_shape_fits_axes, rectangular, shape_fits, zero_rows};
use crate::signal::SignalError;
use crate::signal::time_signal::{opt_str_view, opt_string_view, owned_comment, rate_spaces_steps};
use crate::signal::utils::{t_from_f, time_steps_for};

verus! {

/// A frequency-domain signal: one row of complex bins per channel (binary64
/// bit patterns of the real and imaginary parts), a sample rate that is not
/// less than or equal to zero, the
/// number of time samples the spectrum stands for, and an optional comment.
#[derive(Debug)]
pub struct FreqSignal {
    data: ComplexGrid,
    sample_rate: u64,
    n_samples: usize,
    comment: Option<String>,
}

/// What a frequency signal holds.
pub struct FreqSignalModel {
    /// Real parts, one sequence of bins per channel.
    pub re: Seq<Seq<u64>>,
    /// Imaginary parts, one sequence of bins per channel.
    pub im: Seq<Seq<u64>>,
    /// Number of bins per channel.
    pub num_freq_bins: nat,
    /// The sample rate's bit pattern.
    pub sample_rate: u64,
    /// Number of time samples of the signal this spectrum belongs to.
    pub n_samples: nat,
    /// The comment's text.
    pub comment: Option<Seq<char>>,
}

impl View for FreqSignal {
    type V = FreqSignalModel;

    closed spec fn view(&self) -> FreqSignalModel {
        FreqSignalModel {
            re: self.data@.re,
            im: self.data@.im,
            num_freq_bins: self.data@.width,
            sample_rate: self.sample_rate,
            n_samples: self.n_samples as nat,
            comment: opt_string_view(self.comment),
        }
    }
}

/// The time length a spectrum of `num_freq_bins` bins stands for, when given
/// or else assumed.
pub open spec fn n_samples_or_default(n_samples: Option<usize>, num_freq_bins: nat) -> nat {
    match n_samples {
        Some(n) => n as nat,
        None => time_steps_for(num_freq_bins),
    }
}

impl FreqSignal {
    #[verifier::type_invariant]
    spec fn rate_is_valid(&self) -> bool {
        !le(self.sample_rate, 0) && rate_spaces_steps(self.sample_rate, self.data@.width)
    }

    /// A spectrum holding `data` at `sample_rate`, standing for `n_samples`
    /// time samples, or `2 * (bins - 1)` when not given. Fails with
    /// `SampleRateZeroOrNeg` exactly when the rate is less than or equal to
    /// zero; a NaN or infinite rate, which leaves no frequency axis to lay
    /// out, is taken with at most one bin.
    pub fn new(data: ComplexGrid, sample_rate: u64, n_samples: Option<usize>) -> (r: Result<
        FreqSignal,
        SignalError,
    >)
        requires
            rate_spaces_steps(sample_rate, data@.width),
        ensures
            r is Err <==> le(sample_rate, 0),
            r matches Err(e) ==> e == SignalError::SampleRateZeroOrNeg,
            r matches Ok(s) ==> s@.re == data@.re && s@.im == data@.im
                && s@.num_freq_bins == data@.width && s@.sample_rate == sample_rate
                && s@.n_samples == n_samples_or_default(n_samples, data@.width)
                && s@.comment is None,
    {
        if less_or_equal(sample_rate, 0) {
            return Err(SignalError::SampleRateZeroOrNeg);
        }
        let bins = data.ncols();
        proof { lemma_shape_fits_axes(data@.re.len(), bins as nat); }
        let n = match n_samples {
            Some(n) => n,
            None => t_from_f(bins),
        };
        Ok(FreqSignal { data, sample_rate, n_samples: n, comment: None })
    }

    /// A spectrum of zeros. Fails with `SampleRateZeroOrNeg` exactly when the
    /// rate is less than or equal to zero; a NaN or infinite rate is taken
    /// with at most one bin.
    pub fn zeros(
        num_channels: usize,
        num_freq_bins: usize,
        sample_rate: u64,
        n_samples: Option<usize>,
    ) -> (r: Result<FreqSignal, SignalError>)
        requires
            shape_fits(num_channels as nat, num_freq_bins as nat),
            rate_spaces_steps(sample_rate, num_freq_bins as nat),
        ensures
            r is Err <==> le(sample_rate, 0),
            r matches Err(e) ==> e == SignalError::SampleRateZeroOrNeg,
            r matches Ok(s) ==> s@.re == zero_rows(num_channels as nat, num_freq_bins as nat)
                && s@.im == zero_rows(num_channels as nat, num_freq_bins as nat)
                && s@.num_freq_bins == num_freq_bins && s@.sample_rate == sample_rate
                && s@.n_samples == n_samples_or_default(n_samples, num_freq_bins as nat)
                && s@.comment is None,
    {
        FreqSignal::new(ComplexGrid::zeros(num_channels, num_freq_bins), sample_rate, n_samples)
    }

    /// The spectrum with the given comment in place of its own.
    pub fn with_comment(self, comment: Option<&str>) -> (s: FreqSignal)
        ensures
            s@.re == self@.re,
            s@.im == self@.im,
            s@.num_freq_bins == self@.num_freq_bins,
            s@.sample_rate == self@.sample_rate,
            s@.n_samples == self@.n_samples,
            s@.comment == opt_str_view(comment),
    {
        proof { use_type_invariant(&self); }
        FreqSignal {
            data: self.data,
            sample_rate: self.sample_rate,
            n_samples: self.n_samples,
            comment: owned_comment(comment),
        }
    }

    /// The comment, if any.
    pub fn comment(&self) -> (c: Option<&str>)
        ensures
            opt_str_view(c) == self@.comment,
    {
        match &self.comment {
            Some(c) => Some(c.as_str()),
            None => None,
        }
    }

    /// Replaces the comment.
    pub fn set_comment(&mut self, comment: Option<&str>)
        ensures
            final(self)@.re == old(self)@.re,
            final(self)@.im == old(self)@.im,
            final(self)@.num_freq_bins == old(self)@.num_freq_bins,
            final(self)@.sample_rate == old(self)@.sample_rate,
            final(self)@.n_samples == old(self)@.n_samples,
            final(self)@.comment == opt_str_view(comment),
    {
        proof { use_type_invariant(&*self); }
        self.comment = owned_comment(comment);
    }

    /// The sample rate's bit pattern. It is never less than or equal to zero,
    /// and it is a finite number whenever the spectrum has two bins or more.
    pub fn sample_rate(&self) -> (r: u64)
        ensures
            r == self@.sample_rate,
            !le(r, 0),
            rate_spaces_steps(r, self@.num_freq_bins),
    {
        proof { use_type_invariant(self); }
        self.sample_rate
    }

    /// The Nyquist frequency, half the sample rate (a binary64 bit pattern).
    pub fn nyquist(&self) -> (f: u64)
        ensures
            f == half(self@.sample_rate),
    {
        halve(self.sample_rate)
    }

    /// The number of channels.
    pub fn num_channels(&self) -> (n: usize)
        ensures
            n == self@.re.len(),
            n == self@.im.len(),
    {
        let _ = self.data.ncols();
        self.data.nrows()
    }

    /// The number of time samples this spectrum stands for.
    pub fn n_samples(&self) -> (n: usize)
        ensures
            n == self@.n_samples,
    {
        self.n_samples
    }

    /// The number of time samples this spectrum stands for.
    pub fn num_time_steps(&self) -> (n: usize)
        ensures
            n == self@.n_samples,
    {
        self.n_samples
    }

    /// The number of bins per channel; every channel has that many.
    pub fn num_freq_bins(&self) -> (n: usize)
        ensures
            n == self@.num_freq_bins,
            rectangular(self@.re, n as nat),
            rectangular(self@.im, n as nat),
            shape_fits(self@.re.len(), n as nat),
            self@.im.len() == self@.re.len(),
    {
        self.data.ncols()
    }

    /// The bins of channel `ch`, as (real, imaginary) pairs.
    pub fn channel(&self, ch: usize) -> (c: Vec<(u64, u64)>)
        requires
            ch < self@.re.len(),
        ensures
            c@.len() == self@.num_freq_bins,
            forall|k: int| 0 <= k < c@.len() ==> #[trigger] c@[k] == (self@.re[ch as int][k], self@.im[ch as int][k]),
    {
        let n = self.data.ncols();
        let mut out: Vec<(u64, u64)> = Vec::new();
        let mut k: usize = 0;
        while k < n
            invariant
                n == self@.num_freq_bins,
                ch < self@.re.len(),
                k <= n,
                out@.len() == k,
                forall|j: int| 0 <= j < k ==> #[trigger] out@[j] == (self@.re[ch as int][j], self@.im[ch as int][j]),
            decreases n - k,
        {
            out.push(self.data.get(ch, k).unwrap());
            k = k + 1;
        }
        out
    }

    /// The spectrum itself, as a frequency signal.
    pub fn into_freq(self) -> (s: FreqSignal)
        ensures
            s@ == self@,
    {
        self
    }

    /// The complex bins, one row per channel.
    pub fn freq_data(&self) -> (g: &ComplexGrid)
        ensures
            g@.re == self@.re,
            g@.im == self@.im,
            g@.width == self@.num_freq_bins,
    {
        &self.data
    }
}

impl Clone for FreqSignal {
    /// A copy of this spectrum.
    fn clone(&self) -> (s: FreqSignal)
        ensures
            s@ == self@,
    {
        proof { use_type_invariant(self); }
        FreqSignal {
            data: self.data.clone(),
            sample_rate: self.sample_rate,
            n_samples: self.n_samples,
            comment: match &self.comment {
                Some(c) => Some(String::from_str(c.as_str())),
                None => None,
            },
        }
    }
}

} // verus!
