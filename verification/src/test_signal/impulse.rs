//! Unit impulses.
use vstd::prelude::*;
use vstd::string::*;
use crate::binary64::le;
use crate::grid::{SampleGrid, rows_view, shape_fits};
use crate::signal::{SignalError, TimeSignal};
use crate::signal::time_signal::rate_spaces_steps;
use crate::test_signal::{DEFAULT_SAMPLE_RATE, UNIT_AMPLITUDE};
use crate::text::{decimal, decimal_string};

verus! {

/// Why an impulse could not be generated.
#[derive(Debug, Clone, Copy, PartialEq, Eq, Structural)]
pub enum ImpulseError {
    DelayOutOfRange { delay: usize, num_time_steps: usize },
    Signal(SignalError),
}

/// Settings of an impulse; amplitude and sample rate are binary64 bit patterns.
#[derive(Debug, Clone, Copy, PartialEq, Eq, Structural)]
pub struct ImpulseConfig {
    pub delay: usize,
    pub amplitude: u64,
    pub sample_rate: u64,
    pub num_channels: usize,
}

impl Default for ImpulseConfig {
    /// No delay, amplitude 1, 48 kHz, one channel.
    fn default() -> (c: ImpulseConfig)
        ensures
            c.delay == 0,
            c.amplitude == UNIT_AMPLITUDE,
            c.sample_rate == DEFAULT_SAMPLE_RATE,
            c.num_channels == 1,
    {
        ImpulseConfig { delay: 0, amplitude: UNIT_AMPLITUDE, sample_rate: DEFAULT_SAMPLE_RATE, num_channels: 1 }
    }
}

/// A channel of `n` samples that is zero except for `amplitude` at `delay`.
pub open spec fn impulse_row(n: nat, delay: nat, amplitude: u64) -> Seq<u64> {
    Seq::new(n, |t: int| if t == delay { amplitude } else { 0u64 })
}

/// An impulse of `num_time_steps` samples in every channel, without comment.
/// Fails with `DelayOutOfRange` unless the delay lies inside the signal, then
/// with `SampleRateZeroOrNeg` exactly when the rate is less than or equal to
/// zero (a NaN rate is not). A NaN or infinite rate leaves no time axis for
/// two samples or more, so it is taken only with one sample.
pub fn impulse_signal(num_time_steps: usize, config: ImpulseConfig) -> (r: Result<TimeSignal, ImpulseError>)
    requires
        shape_fits(config.num_channels as nat, num_time_steps as nat),
        config.delay < num_time_steps ==> rate_spaces_steps(config.sample_rate, num_time_steps as nat),
    ensures
        config.delay >= num_time_steps ==> r == Err::<TimeSignal, ImpulseError>(
            ImpulseError::DelayOutOfRange { delay: config.delay, num_time_steps },
        ),
        config.delay < num_time_steps && le(config.sample_rate, 0) ==> r == Err::<
            TimeSignal,
            ImpulseError,
        >(ImpulseError::Signal(SignalError::SampleRateZeroOrNeg)),
        r is Ok <==> config.delay < num_time_steps && !le(config.sample_rate, 0),
        r matches Ok(s) ==> {
            &&& s@.samples == Seq::new(
                config.num_channels as nat,
                |_c: int| impulse_row(num_time_steps as nat, config.delay as nat, config.amplitude),
            )
            &&& s@.num_time_steps == num_time_steps
            &&& s@.sample_rate == config.sample_rate
            &&& s@.comment is None
        },
{
    if config.delay >= num_time_steps {
        return Err(ImpulseError::DelayOutOfRange { delay: config.delay, num_time_steps });
    }
    let ghost row_spec = impulse_row(num_time_steps as nat, config.delay as nat, config.amplitude);
    let mut row: Vec<u64> = Vec::new();
    let mut t: usize = 0;
    while t < num_time_steps
        invariant
            t <= num_time_steps,
            row@ == row_spec.take(t as int),
            row_spec == impulse_row(num_time_steps as nat, config.delay as nat, config.amplitude),
        decreases num_time_steps - t,
    {
        row.push(if t == config.delay { config.amplitude } else { 0 });
        t = t + 1;
        assert(row@ =~= row_spec.take(t as int));
    }
    assert(row_spec.take(num_time_steps as int) =~= row_spec);
    let mut rows: Vec<Vec<u64>> = Vec::new();
    let mut c: usize = 0;
    while c < config.num_channels
        invariant
            c <= config.num_channels,
            row@ == row_spec,
            row_spec.len() == num_time_steps,
            rows@.len() == c,
            forall|k: int| 0 <= k < c ==> #[trigger] rows@[k]@ == row_spec,
        decreases config.num_channels - c,
    {
        rows.push(row.clone());
        c = c + 1;
    }
    assert(rows_view(rows@) =~= Seq::new(config.num_channels as nat, |_c: int| row_spec));
    let grid = SampleGrid::from_rows(&rows, num_time_steps).unwrap();
    match TimeSignal::new(grid, config.sample_rate) {
        Ok(s) => Ok(s),
        Err(e) => Err(ImpulseError::Signal(e)),
    }
}

/// The comment of an impulse whose amplitude reads `amplitude_text`.
pub open spec fn impulse_comment_text(delay: nat, amplitude_text: Seq<char>) -> Seq<char> {
    "Impulse signal (delay = "@ + decimal(delay) + " samples, amplitude = "@ + amplitude_text + ")"@
}

/// Builds the comment of an impulse: `Impulse signal (delay = <delay>
/// samples, amplitude = <amplitude>)`, the amplitude as written by the caller.
pub fn impulse_comment(delay: usize, amplitude_text: &str) -> (c: String)
    ensures
        c@ == impulse_comment_text(delay as nat, amplitude_text@),
{
    proof {
        reveal_strlit("Impulse signal (delay = ");
        reveal_strlit(" samples, amplitude = ");
        reveal_strlit(")");
    }
    let number = decimal_string(delay);
    String::from_str("Impulse signal (delay = ")
        .concat(number.as_str())
        .concat(" samples, amplitude = ")
        .concat(amplitude_text)
        .concat(")")
}

/// An impulse has exactly one non-zero sample per channel when its amplitude
/// pattern is not zero: all energy sits at the delay.
pub proof fn lemma_impulse_single_sample(n: nat, delay: nat, amplitude: u64, t: int)
    requires
        delay < n,
        0 <= t < n,
    ensures
        impulse_row(n, delay, amplitude)[t] == (if t == delay { amplitude } else { 0u64 }),
{
}

} // verus!
