//! Pulsed noise: bursts of noise separated by silence.
use vstd::prelude::*;
use vstd::string::*;
use crate::grid::{SampleGrid, rectangular, rows_view, shape_fits};
use crate::signal::{SignalError, TimeSignal};
use crate::signal::time_signal::rate_spaces_steps;
use crate::test_signal::{DEFAULT_SAMPLE_RATE, UNIT_AMPLITUDE};
use crate::test_signal::noise::{NoiseError, Spectrum, spectrum_name};
use crate::text::{decimal, decimal_string};

verus! {

/// Why pulsed noise could not be generated.
#[derive(Debug, Clone, Copy, PartialEq, Eq, Structural)]
pub enum PulsedNoiseError {
    FadeTooLarge,
    Noise(NoiseError),
}

/// Settings of pulsed noise; amplitude and sample rate are binary64 bit patterns.
#[derive(Debug, Clone, Copy, PartialEq, Eq, Structural)]
pub struct PulsedNoiseConfig {
    /// Samples faded in and out at each pulse's edges.
    pub fade_length: usize,
    pub spectrum: Spectrum,
    pub amplitude: u64,
    /// Every pulse repeats the same noise.
    pub frozen: bool,
    pub sample_rate: u64,
    pub num_channels: usize,
    /// Seed of the random generator; `None` takes a random seed.
    pub seed: Option<u64>,
}

impl Default for PulsedNoiseConfig {
    /// No fades, white, amplitude 1, fresh noise per pulse, 48 kHz, one channel, random seed.
    fn default() -> (c: PulsedNoiseConfig)
        ensures
            c.fade_length == 0,
            c.spectrum == Spectrum::White,
            c.amplitude == UNIT_AMPLITUDE,
            !c.frozen,
            c.sample_rate == DEFAULT_SAMPLE_RATE,
            c.num_channels == 1,
            c.seed is None,
    {
        PulsedNoiseConfig {
            fade_length: 0,
            spectrum: Spectrum::White,
            amplitude: UNIT_AMPLITUDE,
            frozen: false,
            sample_rate: DEFAULT_SAMPLE_RATE,
            num_channels: 1,
            seed: None,
        }
    }
}

/// Length of a pulse train: `repetitions` periods of pulse and pause, without
/// the last pause (0 for no repetitions).
pub open spec fn train_length(pulse: nat, pause: nat, repetitions: nat) -> nat {
    let whole = repetitions * (pulse + pause);
    if whole >= pause { (whole - pause) as nat } else { 0 }
}

/// The number of noise samples a train draws: one pulse when frozen, else one per pulse.
pub open spec fn noise_length(pulse: nat, repetitions: nat, frozen: bool) -> nat {
    if frozen { pulse } else { pulse * repetitions }
}

/// Sample `t` of a pulse train built from a noise channel `source`: inside
/// pulse `r` at offset `k`, the noise sample `k` (frozen) or `r * pulse + k`;
/// zero in the pauses.
pub open spec fn train_sample(source: Seq<u64>, pulse: nat, pause: nat, frozen: bool, t: int) -> u64 {
    let period = pulse + pause;
    if period > 0 && t % (period as int) < pulse {
        let r = t / (period as int);
        let k = t % (period as int);
        source[(if frozen { 0 } else { r * pulse }) + k]
    } else {
        0u64
    }
}

/// A train ends with its last pulse: `repetitions` pulses with a pause
/// between each two, so the last pulse ends exactly at the train's end; and
/// the noise drawn holds every sample a pulse reads.
pub proof fn law_train_ends_with_last_pulse(pulse: nat, pause: nat, repetitions: nat, frozen: bool, r: nat, k: nat)
    ensures
        repetitions >= 1 ==> train_length(pulse, pause, repetitions) == (repetitions - 1) * (pulse + pause)
            + pulse,
        repetitions == 0 ==> train_length(pulse, pause, repetitions) == 0,
        r < repetitions && k < pulse ==> (if frozen { 0 } else { r * pulse }) + k < noise_length(
            pulse,
            repetitions,
            frozen,
        ),
{
    if repetitions >= 1 {
        assert(repetitions * (pulse + pause) == (repetitions - 1) * (pulse + pause) + (pulse + pause))
            by (nonlinear_arith) requires repetitions >= 1;
    }
    if r < repetitions && k < pulse && !frozen {
        assert(r * pulse + k < pulse * repetitions) by (nonlinear_arith)
            requires r < repetitions, k < pulse;
    }
}

/// Pulse `r` of a train starts at `r * (pulse + pause)`: its `k`-th sample is
/// noise sample `k` (frozen) or `r * pulse + k`, and the `pause` samples after
/// it are silent.
pub proof fn law_pulse_placement(source: Seq<u64>, pulse: nat, pause: nat, frozen: bool, r: nat, k: nat)
    ensures
        k < pulse ==> train_sample(source, pulse, pause, frozen, (r * (pulse + pause) + k) as int)
            == source[(if frozen { 0int } else { (r * pulse) as int }) + k],
        pulse <= k < pulse + pause ==> train_sample(source, pulse, pause, frozen, (r * (pulse + pause) + k) as int)
            == 0u64,
{
    let period = pulse + pause;
    if k < period {
        let t = r * period + k;
        vstd::arithmetic::div_mod::lemma_fundamental_div_mod_converse(t as int, period as int, r as int, k as int);
    }
}

/// A pulse train channel.
pub open spec fn train_row(source: Seq<u64>, pulse: nat, pause: nat, repetitions: nat, frozen: bool) -> Seq<u64> {
    Seq::new(train_length(pulse, pause, repetitions), |t: int| train_sample(source, pulse, pause, frozen, t))
}

/// Checks the fade against the pulse: fails with `FadeTooLarge` when the
/// fade-in and fade-out together are longer than a pulse.
pub fn check_fade(pulse_length: usize, fade_length: usize) -> (r: Result<(), PulsedNoiseError>)
    requires
        fade_length * 2 <= usize::MAX,
    ensures
        r is Err <==> fade_length * 2 > pulse_length,
        r matches Err(e) ==> e == PulsedNoiseError::FadeTooLarge,
{
    if fade_length * 2 > pulse_length {
        return Err(PulsedNoiseError::FadeTooLarge);
    }
    Ok(())
}

/// The number of noise samples a pulse train draws.
pub fn noise_samples_needed(pulse_length: usize, repetitions: usize, frozen: bool) -> (n: usize)
    requires
        pulse_length * repetitions <= usize::MAX,
    ensures
        n == noise_length(pulse_length as nat, repetitions as nat, frozen),
{
    if frozen { pulse_length } else { pulse_length * repetitions }
}

/// Places the noise of `source` into `repetitions` pulses of `pulse_length`
/// samples separated by `pause_length` zero samples, each channel alike. A
/// frozen train repeats the first pulse's noise; otherwise pulse `r` takes the
/// noise samples `r * pulse_length ..`. The result has no comment. A source
/// at a NaN or infinite rate (at most one sample) cannot make a longer train.
pub fn arrange_pulses(
    source: &TimeSignal,
    pulse_length: usize,
    pause_length: usize,
    repetitions: usize,
    frozen: bool,
) -> (r: TimeSignal)
    requires
        pulse_length + pause_length <= usize::MAX,
        repetitions * (pulse_length + pause_length) <= usize::MAX,
        source@.num_time_steps >= noise_length(pulse_length as nat, repetitions as nat, frozen),
        shape_fits(source@.samples.len(), train_length(pulse_length as nat, pause_length as nat, repetitions as nat)),
        rate_spaces_steps(
            source@.sample_rate,
            train_length(pulse_length as nat, pause_length as nat, repetitions as nat),
        ),
    ensures
        r@.samples == source@.samples.map_values(
            |row: Seq<u64>| train_row(row, pulse_length as nat, pause_length as nat, repetitions as nat, frozen),
        ),
        r@.num_time_steps == train_length(pulse_length as nat, pause_length as nat, repetitions as nat),
        r@.sample_rate == source@.sample_rate,
        r@.comment is None,
{
    let p = pulse_length;
    let q = pause_length;
    let period = p + q;
    let whole = repetitions * period;
    let total = if whole >= q { whole - q } else { 0 };
    let channels = source.num_channels();
    let n = source.num_time_steps();
    let rate = source.sample_rate();
    let ghost spec_rows = source@.samples.map_values(
        |row: Seq<u64>| train_row(row, p as nat, q as nat, repetitions as nat, frozen),
    );
    let mut rows: Vec<Vec<u64>> = Vec::new();
    let mut c: usize = 0;
    while c < channels
        invariant
            channels == source@.samples.len(),
            n == source@.num_time_steps,
            rectangular(source@.samples, n as nat),
            period == p + q,
            whole == repetitions * period,
            total == train_length(p as nat, q as nat, repetitions as nat),
            n >= noise_length(p as nat, repetitions as nat, frozen),
            spec_rows == source@.samples.map_values(
                |row: Seq<u64>| train_row(row, p as nat, q as nat, repetitions as nat, frozen),
            ),
            c <= channels,
            rows@.len() == c,
            forall|k: int| 0 <= k < c ==> #[trigger] rows@[k]@ == spec_rows[k],
            forall|k: int| 0 <= k < c ==> #[trigger] rows@[k]@.len() == total,
        decreases channels - c,
    {
        let src = source.channel(c);
        let mut row: Vec<u64> = Vec::new();
        let mut t: usize = 0;
        while t < total
            invariant
                src@ == source@.samples[c as int],
                src@.len() == n,
                c < channels,
                channels == source@.samples.len(),
                period == p + q,
                whole == repetitions * period,
                total == train_length(p as nat, q as nat, repetitions as nat),
                n >= noise_length(p as nat, repetitions as nat, frozen),
                t <= total,
                row@.len() == t,
                forall|k: int| 0 <= k < t ==> #[trigger] row@[k] == train_sample(src@, p as nat, q as nat, frozen, k),
            decreases total - t,
        {
            if period > 0 && t % period < p {
                let r = t / period;
                let k = t % period;
                assert(r < repetitions) by (nonlinear_arith)
                    requires period > 0, t < total, r == t / period, whole == repetitions * period,
                        total == (if whole >= q { whole - q } else { 0 }), period == p + q;
                assert(r * p + k < p * repetitions) by (nonlinear_arith)
                    requires r < repetitions, k < p;
                let idx = if frozen { k } else { r * p + k };
                row.push(src[idx]);
            } else {
                row.push(0);
            }
            t = t + 1;
        }
        assert(row@ =~= spec_rows[c as int]);
        rows.push(row);
        c = c + 1;
    }
    assert(rows_view(rows@) =~= spec_rows);
    TimeSignal::new(SampleGrid::from_rows(&rows, total).unwrap(), rate).unwrap()
}

/// The comment of pulsed noise whose amplitude reads `amplitude_text`.
pub open spec fn pulsed_noise_comment_text(
    frozen: bool,
    spectrum: Spectrum,
    amplitude_text: Seq<char>,
    repetitions: nat,
    pulse_length: nat,
    pause_length: nat,
    fade_length: nat,
) -> Seq<char> {
    (if frozen { "frozen "@ } else { ""@ }) + spectrum_name(spectrum) + " pulsed noise signal (amplitude = "@
        + amplitude_text + ", "@ + decimal(repetitions) + " repetitions, "@ + decimal(pulse_length)
        + " samples pulse duration, "@ + decimal(pause_length) + " samples pauses, and "@
        + decimal(fade_length) + " samples fades)"@
}

/// Builds the comment of pulsed noise, the amplitude as written by the caller.
pub fn pulsed_noise_comment(
    frozen: bool,
    spectrum: Spectrum,
    amplitude_text: &str,
    repetitions: usize,
    pulse_length: usize,
    pause_length: usize,
    fade_length: usize,
) -> (c: String)
    ensures
        c@ == pulsed_noise_comment_text(
            frozen,
            spectrum,
            amplitude_text@,
            repetitions as nat,
            pulse_length as nat,
            pause_length as nat,
            fade_length as nat,
        ),
{
    proof {
        reveal_strlit("frozen ");
        reveal_strlit("");
        reveal_strlit(" pulsed noise signal (amplitude = ");
        reveal_strlit(", ");
        reveal_strlit(" repetitions, ");
        reveal_strlit(" samples pulse duration, ");
        reveal_strlit(" samples pauses, and ");
        reveal_strlit(" samples fades)");
    }
    let prefix = if frozen { "frozen " } else { "" };
    let reps = decimal_string(repetitions);
    let pulse = decimal_string(pulse_length);
    let pause = decimal_string(pause_length);
    let fade = decimal_string(fade_length);
    String::from_str(prefix)
        .concat(spectrum.name())
        .concat(" pulsed noise signal (amplitude = ")
        .concat(amplitude_text)
        .concat(", ")
        .concat(reps.as_str())
        .concat(" repetitions, ")
        .concat(pulse.as_str())
        .concat(" samples pulse duration, ")
        .concat(pause.as_str())
        .concat(" samples pauses, and ")
        .concat(fade.as_str())
        .concat(" samples fades)")
}

/// The sample ranges of the `repetition`-th pulse that a fade of
/// `fade_length` scales: the attack at the pulse's start and the release at
/// its end, both inside the pulse and apart when the fade is valid.
pub open spec fn fade_ranges(pulse: nat, pause: nat, repetition: nat, fade: nat) -> ((nat, nat), (nat, nat)) {
    let start = repetition * (pulse + pause);
    ((start, start + fade), ((start + pulse - fade) as nat, start + pulse))
}

/// With a valid fade the attack ends before the release starts and both lie
/// inside the train.
pub proof fn lemma_fades_inside_pulse(pulse: nat, pause: nat, repetitions: nat, repetition: nat, fade: nat)
    requires
        fade * 2 <= pulse,
        repetition < repetitions,
    ensures
        ({
            let ((a0, a1), (r0, r1)) = fade_ranges(pulse, pause, repetition, fade);
            &&& a1 <= r0
            &&& r1 <= train_length(pulse, pause, repetitions)
            &&& a0 == repetition * (pulse + pause)
        }),
{
    let per = pulse + pause;
    assert(repetition * per + per <= repetitions * per) by (nonlinear_arith)
        requires repetition < repetitions;
}

} // verus!
