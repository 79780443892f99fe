//! Shapes of the linear, truncated and cyclic convolution of two signals.
use vstd::prelude::*;
use crate::binary64::{eq, equal};
use crate::grid::lemma_shape_fits_axes;
use crate::signal::{SignalError, TimeSignal};

verus! {

/// Why two signals could not be convolved. Sample rates are binary64 bit
/// patterns.
#[derive(Debug, Clone, Copy, PartialEq, Eq, Structural)]
#[allow(inconsistent_fields)]
pub enum ConvolveError {
    SampleRateMismatch { left: u64, right: u64 },
    ChannelMismatch { left: usize, right: usize },
    EmptySignal,
    Signal(SignalError),
}

/// Which part of the linear convolution is returned.
#[derive(Clone, Copy, Debug, PartialEq, Eq, Structural)]
pub enum ConvolveMode {
    /// All `n1 + n2 - 1` samples.
    Full,
    /// The first `max(n1, n2)` samples.
    Cut,
    /// The first `max(n1, n2)` samples, with the tail beyond them added onto the start.
    Cyclic,
}

/// The lengths that define a convolution of an `n1`-sample signal with an
/// `n2`-sample signal.
#[derive(Clone, Copy, Debug, PartialEq, Eq, Structural)]
pub struct ConvolutionLayout {
    /// Length of the linear convolution: `n1 + n2 - 1`.
    pub conv_len: usize,
    /// Length of the result in the requested mode.
    pub output_len: usize,
    /// Number of tail samples added onto the start (cyclic mode only).
    pub wrap_len: usize,
}

/// The lengths of the convolution of lengths `n1` and `n2` (both non-zero) in `mode`.
pub open spec fn layout_for(n1: nat, n2: nat, mode: ConvolveMode) -> (nat, nat, nat) {
    let conv_len = (n1 + n2 - 1) as nat;
    let longer = if n1 >= n2 { n1 } else { n2 };
    let shorter = if n1 <= n2 { n1 } else { n2 };
    match mode {
        ConvolveMode::Full => (conv_len, conv_len, 0),
        ConvolveMode::Cut => (conv_len, longer, 0),
        ConvolveMode::Cyclic => (conv_len, longer, (shorter - 1) as nat),
    }
}

/// What each mode keeps of the convolution of an `n1`-sample and an
/// `n2`-sample signal: the linear convolution has `n1 + n2 - 1` samples; the
/// full mode keeps them all; the cut mode keeps as many as the longer input
/// has, whichever input that is; the cyclic mode keeps as many and folds
/// the whole remaining tail onto the start. Swapping the inputs changes none
/// of these lengths.
pub proof fn law_convolution_lengths(n1: nat, n2: nat, mode: ConvolveMode)
    requires
        n1 > 0,
        n2 > 0,
    ensures
        layout_for(n1, n2, mode).0 == n1 + n2 - 1,
        layout_for(n1, n2, mode) == layout_for(n2, n1, mode),
        mode == ConvolveMode::Full ==> layout_for(n1, n2, mode).1 == n1 + n2 - 1
            && layout_for(n1, n2, mode).2 == 0,
        mode != ConvolveMode::Full ==> {
            &&& layout_for(n1, n2, mode).1 >= n1
            &&& layout_for(n1, n2, mode).1 >= n2
            &&& (layout_for(n1, n2, mode).1 == n1 || layout_for(n1, n2, mode).1 == n2)
        },
        mode == ConvolveMode::Cut ==> layout_for(n1, n2, mode).2 == 0,
        mode == ConvolveMode::Cyclic ==> layout_for(n1, n2, mode).1 + layout_for(n1, n2, mode).2
            == n1 + n2 - 1,
{
}

/// Checks two signals for convolution and gives the lengths involved. Fails
/// with `SampleRateMismatch` when the sample rates do not compare equal (a
/// NaN rate equals none), then
/// `ChannelMismatch`, then `EmptySignal` when either has no samples.
pub fn convolution_layout(signal1: &TimeSignal, signal2: &TimeSignal, mode: ConvolveMode) -> (r: Result<
    ConvolutionLayout,
    ConvolveError,
>)
    ensures
        !eq(signal1@.sample_rate, signal2@.sample_rate) ==> r == Err::<ConvolutionLayout, ConvolveError>(
            ConvolveError::SampleRateMismatch { left: signal1@.sample_rate, right: signal2@.sample_rate },
        ),
        eq(signal1@.sample_rate, signal2@.sample_rate) && signal1@.samples.len() != signal2@.samples.len()
            ==> r == Err::<ConvolutionLayout, ConvolveError>(ConvolveError::ChannelMismatch {
                left: signal1@.samples.len() as usize,
                right: signal2@.samples.len() as usize,
            }),
        eq(signal1@.sample_rate, signal2@.sample_rate) && signal1@.samples.len() == signal2@.samples.len()
            && (signal1@.num_time_steps == 0 || signal2@.num_time_steps == 0)
            ==> r == Err::<ConvolutionLayout, ConvolveError>(ConvolveError::EmptySignal),
        r is Ok <==> eq(signal1@.sample_rate, signal2@.sample_rate)
            && signal1@.samples.len() == signal2@.samples.len()
            && signal1@.num_time_steps > 0 && signal2@.num_time_steps > 0,
        r matches Ok(l) ==> layout_for(signal1@.num_time_steps, signal2@.num_time_steps, mode)
            == (l.conv_len as nat, l.output_len as nat, l.wrap_len as nat),
        r matches Ok(l) ==> l.conv_len == signal1@.num_time_steps + signal2@.num_time_steps - 1,
        r matches Ok(l) ==> (mode == ConvolveMode::Full ==> l.output_len == l.conv_len && l.wrap_len == 0),
        r matches Ok(l) ==> (mode != ConvolveMode::Full ==> l.output_len >= signal1@.num_time_steps
            && l.output_len >= signal2@.num_time_steps && (l.output_len == signal1@.num_time_steps
            || l.output_len == signal2@.num_time_steps)),
        r matches Ok(l) ==> (mode == ConvolveMode::Cut ==> l.wrap_len == 0),
        r matches Ok(l) ==> (mode == ConvolveMode::Cyclic ==> l.output_len + l.wrap_len == l.conv_len),
{
    let rate1 = signal1.sample_rate();
    let rate2 = signal2.sample_rate();
    if !equal(rate1, rate2) {
        return Err(ConvolveError::SampleRateMismatch { left: rate1, right: rate2 });
    }
    let c1 = signal1.num_channels();
    let c2 = signal2.num_channels();
    if c1 != c2 {
        return Err(ConvolveError::ChannelMismatch { left: c1, right: c2 });
    }
    let n1 = signal1.num_time_steps();
    let n2 = signal2.num_time_steps();
    if n1 == 0 || n2 == 0 {
        return Err(ConvolveError::EmptySignal);
    }
    proof {
        lemma_shape_fits_axes(signal1@.samples.len(), n1 as nat);
        lemma_shape_fits_axes(signal2@.samples.len(), n2 as nat);
    }
    let conv_len = n1 + n2 - 1;
    let longer = if n1 >= n2 { n1 } else { n2 };
    let shorter = if n1 <= n2 { n1 } else { n2 };
    let layout = match mode {
        ConvolveMode::Full => ConvolutionLayout { conv_len, output_len: conv_len, wrap_len: 0 },
        ConvolveMode::Cut => ConvolutionLayout { conv_len, output_len: longer, wrap_len: 0 },
        ConvolveMode::Cyclic => ConvolutionLayout { conv_len, output_len: longer, wrap_len: shorter - 1 },
    };
    Ok(layout)
}

/// The cyclic fold never reaches past the start of the result nor past the
/// end of the linear convolution: the tail it adds lies behind the kept part.
pub proof fn lemma_cyclic_wrap_in_range(n1: nat, n2: nat)
    requires
        n1 > 0,
        n2 > 0,
    ensures
        ({
            let (conv_len, output_len, wrap_len) = layout_for(n1, n2, ConvolveMode::Cyclic);
            &&& wrap_len <= output_len
            &&& output_len <= conv_len
            &&& conv_len - wrap_len == output_len
        }),
{
}

} // verus!
