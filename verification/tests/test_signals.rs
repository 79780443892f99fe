use audio_lab::grid::SampleGrid;
use audio_lab::signal::TimeSignal;
use audio_lab::test_signal::impulse::{impulse_comment, impulse_signal, ImpulseConfig, ImpulseError};
use audio_lab::test_signal::noise::{NoiseConfig, Spectrum};
use audio_lab::test_signal::pulsed_noise::{
    arrange_pulses, check_fade, noise_samples_needed, pulsed_noise_comment, PulsedNoiseConfig, PulsedNoiseError,
};
use audio_lab::test_signal::sine::SineConfig;
use audio_lab::test_signal::sweep::{check_sweep, fade_out_frames, SweepConfig, SweepError, SweepType};
use audio_lab::test_signal::{DEFAULT_SAMPLE_RATE, UNIT_AMPLITUDE};

fn value(b: u64) -> f64 {
    f64::from_bits(b)
}

#[test]
fn generates_impulse_at_zero() {
    let signal = impulse_signal(8, ImpulseConfig::default()).unwrap();
    assert_eq!(value(signal.channel(0)[0]), 1.0);
    assert_eq!(value(signal.channel(0)[1]), 0.0);
}

#[test]
fn generates_impulse_with_delay() {
    let signal = impulse_signal(
        8,
        ImpulseConfig { delay: 3, amplitude: 0.5f64.to_bits(), num_channels: 2, ..Default::default() },
    )
    .unwrap();
    assert_eq!(value(signal.channel(0)[3]), 0.5);
    assert_eq!(value(signal.channel(1)[3]), 0.5);
    assert_eq!(value(signal.channel(0)[0]), 0.0);
}

#[test]
fn validates_delay() {
    assert!(matches!(
        impulse_signal(8, ImpulseConfig { delay: 8, ..Default::default() }),
        Err(ImpulseError::DelayOutOfRange { .. })
    ));
}

#[test]
fn impulse_has_one_non_zero_sample_per_channel() {
    let signal = impulse_signal(16, ImpulseConfig { delay: 5, num_channels: 3, ..Default::default() }).unwrap();
    for c in 0..3 {
        let row = signal.channel(c);
        assert_eq!(row.iter().filter(|&&b| b != 0).count(), 1);
        assert_eq!(value(row[5]), 1.0);
    }
    assert_eq!(signal.comment(), None);
    assert_eq!(value(signal.sample_rate()), 48_000.0);
    assert!(matches!(
        impulse_signal(4, ImpulseConfig { sample_rate: 0.0f64.to_bits(), ..Default::default() }),
        Err(ImpulseError::Signal(_))
    ));
    assert_eq!(impulse_comment(3, "0.5"), "Impulse signal (delay = 3 samples, amplitude = 0.5)");
}

#[test]
fn validates_fade_length() {
    let config = PulsedNoiseConfig {
        fade_length: 5,
        spectrum: Spectrum::White,
        frozen: true,
        seed: Some(7),
        ..Default::default()
    };
    assert!(matches!(check_fade(8, config.fade_length), Err(PulsedNoiseError::FadeTooLarge)));
}

#[test]
fn fades_that_fit_a_pulse_pass() {
    assert_eq!(check_fade(8, 4), Ok(()));
    assert_eq!(check_fade(8, 0), Ok(()));
    assert_eq!(noise_samples_needed(8, 3, true), 8);
    assert_eq!(noise_samples_needed(8, 3, false), 24);
}

fn one_channel(values: &[f64], rate: f64) -> TimeSignal {
    let bits = vec![values.iter().map(|v| v.to_bits()).collect::<Vec<u64>>()];
    TimeSignal::new(SampleGrid::from_rows(&bits, values.len()).unwrap(), rate.to_bits()).unwrap()
}

#[test]
fn pulses_are_separated_by_pauses() {
    let source = one_channel(&[1.0, 2.0, 3.0, 4.0], 8.0);
    let frozen = arrange_pulses(&source, 2, 1, 2, true);
    let got: Vec<f64> = frozen.channel(0).into_iter().map(value).collect();
    assert_eq!(got, vec![1.0, 2.0, 0.0, 1.0, 2.0]);
    let fresh = arrange_pulses(&source, 2, 1, 2, false);
    let got: Vec<f64> = fresh.channel(0).into_iter().map(value).collect();
    assert_eq!(got, vec![1.0, 2.0, 0.0, 3.0, 4.0]);
    assert_eq!(value(fresh.sample_rate()), 8.0);
    assert_eq!(
        pulsed_noise_comment(true, Spectrum::Pink, "0.2", 3, 100, 50, 10),
        "frozen Pink pulsed noise signal (amplitude = 0.2, 3 repetitions, 100 samples pulse duration, 50 samples pauses, and 10 samples fades)"
    );
    assert_eq!(
        pulsed_noise_comment(false, Spectrum::White, "1", 1, 2, 3, 0),
        "White pulsed noise signal (amplitude = 1, 1 repetitions, 2 samples pulse duration, 3 samples pauses, and 0 samples fades)"
    );
}

#[test]
fn validates_sweep_range() {
    assert!(matches!(
        check_sweep(128, 1_000.0f64.to_bits(), 500.0f64.to_bits(), &SweepConfig::default()),
        Err(SweepError::FreqRange)
    ));
}

#[test]
fn sweep_checks_nyquist_then_fade() {
    let config = SweepConfig::default();
    assert_eq!(check_sweep(128, 20.0f64.to_bits(), 24_000.0f64.to_bits(), &config), Err(SweepError::Nyquist));
    assert_eq!(check_sweep(89, 20.0f64.to_bits(), 20_000.0f64.to_bits(), &config), Err(SweepError::FadeOut));
    assert_eq!(check_sweep(90, 20.0f64.to_bits(), 20_000.0f64.to_bits(), &config), Ok(()));
    assert_eq!(check_sweep(90, 20.0f64.to_bits(), f64::NAN.to_bits(), &config), Ok(()));
    assert_eq!(fade_out_frames(10, 3), vec![7, 8, 9]);
    assert_eq!(SweepType::Linear.name(), "Linear");
    assert_eq!(SweepType::Exponential.name(), "Exponential");
}

#[test]
fn generator_defaults() {
    assert_eq!(value(UNIT_AMPLITUDE), 1.0);
    assert_eq!(value(DEFAULT_SAMPLE_RATE), 48_000.0);
    let noise = NoiseConfig::default();
    assert_eq!((noise.spectrum, noise.num_channels, noise.seed), (Spectrum::White, 1, None));
    let sine = SineConfig::default();
    assert_eq!((value(sine.amplitude), value(sine.sample_rate), sine.num_channels), (1.0, 48_000.0, 1));
    let sweep = SweepConfig::default();
    assert_eq!((sweep.fade_out, sweep.sweep_type), (90, SweepType::Exponential));
    assert_eq!(Spectrum::Pink.name(), "Pink");
}

#[test]
fn frozen_pulse_train_repeats_its_first_pulse() {
    let source = one_channel(&[0.3, -0.7, 0.1, 0.9], 48_000.0);
    let train = arrange_pulses(&source, 4, 2, 3, true);
    let row = train.channel(0);
    assert_eq!(train.num_time_steps(), 16);
    assert_eq!(value(row[4]), 0.0);
    assert_eq!(value(row[5]), 0.0);
    assert_eq!(row[0..4], row[6..10]);
    assert_eq!(row[0..4], row[12..16]);
}

#[test]
fn fresh_pulse_train_takes_new_noise() {
    let source = one_channel(&[0.3, -0.7, 0.1, 0.9, -0.2, 0.4, 0.6, -0.8], 48_000.0);
    let train = arrange_pulses(&source, 4, 1, 2, false);
    let row = train.channel(0);
    assert_eq!(train.num_time_steps(), 9);
    assert_ne!(row[0..4], row[5..9]);
    assert_eq!(value(row[4]), 0.0);
}

#[test]
fn impulse_of_one_sample_takes_a_nan_rate() {
    let config = ImpulseConfig { delay: 0, amplitude: 1.0f64.to_bits(), sample_rate: f64::NAN.to_bits(), num_channels: 2 };
    let signal = impulse_signal(1, config).unwrap();
    assert_eq!(signal.channel(1), vec![1.0f64.to_bits()]);
    let config = ImpulseConfig { sample_rate: (-1.0f64).to_bits(), ..config };
    assert_eq!(impulse_signal(1, config).unwrap_err(), ImpulseError::Signal(audio_lab::signal::SignalError::SampleRateZeroOrNeg));
}
