use audio_lab::dsp::convolve::{convolution_layout, ConvolveError, ConvolveMode};
use audio_lab::dsp::deconvolution::{
    deconvolution_fft_len, regularized_band_checked, validate_frequency_range, DeconvolutionConfig,
    DeconvolutionError, FrequencyBand,
};
use audio_lab::dsp::filter_bank::{apply_lengths, bands_below, check_design, next_power_of_two, FilterError};
use audio_lab::dsp::fractional_octave::{
    check_smoothing_input, check_window_len, FractionalOctaveSmoothingConfig, FractionalOctaveSmoothingError,
};
use audio_lab::dsp::pad::{pad_zeros, PadMode};
use audio_lab::dsp::stft::{frame_centers, stft_layout, StftConfig, StftError};
use audio_lab::dsp::time::{trim_samples, truncate, TimeError};
use audio_lab::dsp::window::WindowFn;
use audio_lab::grid::SampleGrid;
use audio_lab::signal::{FreqSignal, TimeSignal};

fn signal_of(rows: &[&[f64]], rate: f64) -> TimeSignal {
    let width = rows.first().map_or(0, |r| r.len());
    let bits: Vec<Vec<u64>> = rows.iter().map(|r| r.iter().map(|v| v.to_bits()).collect()).collect();
    TimeSignal::new(SampleGrid::from_rows(&bits, width).unwrap(), rate.to_bits()).unwrap()
}

fn values(v: Vec<u64>) -> Vec<f64> {
    v.into_iter().map(f64::from_bits).collect()
}

#[test]
fn pad_zeros_before_and_after() {
    let signal = signal_of(&[&[0.0, 1.0], &[2.0, 3.0]], 8.0);

    let after = pad_zeros(&signal, 2, PadMode::After).unwrap();
    assert_eq!(values(after.channel(0)), vec![0.0, 1.0, 0.0, 0.0]);
    assert_eq!(values(after.channel(1)), vec![2.0, 3.0, 0.0, 0.0]);

    let before = pad_zeros(&signal, 2, PadMode::Before).unwrap();
    assert_eq!(values(before.channel(0)), vec![0.0, 0.0, 0.0, 1.0]);
    assert_eq!(values(before.channel(1)), vec![0.0, 0.0, 2.0, 3.0]);
}

#[test]
fn trimming_undoes_padding() {
    let signal = signal_of(&[&[0.5, 1.5, 2.5]], 8.0);
    let after = pad_zeros(&signal, 4, PadMode::After).unwrap();
    let back = trim_samples(&after, 0, 3).unwrap();
    assert_eq!(values(back.channel(0)), vec![0.5, 1.5, 2.5]);
    let before = pad_zeros(&signal, 4, PadMode::Before).unwrap();
    let back = trim_samples(&before, 4, 7).unwrap();
    assert_eq!(values(back.channel(0)), vec![0.5, 1.5, 2.5]);
    assert_eq!(f64::from_bits(back.sample_rate()), 8.0);
    let unchanged = pad_zeros(&signal, 0, PadMode::After).unwrap();
    assert_eq!(values(unchanged.channel(0)), vec![0.5, 1.5, 2.5]);
}

#[test]
fn trim_samples_accepts_positive_and_negative_end() {
    let signal = signal_of(&[&[0.0, 1.0, 2.0, 3.0, 4.0]], 10.0);

    let trimmed = trim_samples(&signal, 1, 4).unwrap();
    assert_eq!(trimmed.num_time_steps(), 3);
    assert!((f64::from_bits(trimmed.channel(0)[0]) - 1.0).abs() <= 1e-12);

    let trimmed = trim_samples(&signal, 1, -1).unwrap();
    assert_eq!(trimmed.num_time_steps(), 3);
    assert!((f64::from_bits(trimmed.channel(0)[2]) - 3.0).abs() <= 1e-12);
}

#[test]
fn trim_rejects_invalid_ranges() {
    let signal = signal_of(&[&[0.0, 1.0, 2.0]], 1.0);
    let result = trim_samples(&signal, 2, 2);

    assert!(matches!(result, Err(TimeError::InvalidTrimRange { .. })));
}

#[test]
fn trim_errors_report_the_resolved_range() {
    let signal = signal_of(&[&[0.0, 1.0, 2.0]], 1.0);
    assert_eq!(
        trim_samples(&signal, 0, 4).err(),
        Some(TimeError::InvalidTrimRange { start: 0, end: 4, signal_len: 3 })
    );
    assert_eq!(
        trim_samples(&signal, 0, -5).err(),
        Some(TimeError::InvalidTrimRange { start: 0, end: 0, signal_len: 3 })
    );
    let whole = trim_samples(&signal, 0, 3).unwrap();
    assert_eq!(values(whole.channel(0)), vec![0.0, 1.0, 2.0]);
    let twice = trim_samples(&trim_samples(&signal, 1, 3).unwrap(), 1, 2).unwrap();
    assert_eq!(values(twice.channel(0)), vec![2.0]);
    assert_eq!(values(truncate(&signal, 2).channel(0)), vec![0.0, 1.0]);
}

#[test]
fn stft_errors() {
    let signal = signal_of(&[&[0.0; 16]], 16.0);

    assert!(matches!(
        stft_layout(&signal, &StftConfig { window_size: 0, hop_size: 4, window_fn: WindowFn::Hann }),
        Err(StftError::WindowSizeZero)
    ));
    assert!(matches!(
        stft_layout(&signal, &StftConfig { window_size: 8, hop_size: 0, window_fn: WindowFn::Hann }),
        Err(StftError::HopSizeZero)
    ));
    assert!(matches!(
        stft_layout(&signal, &StftConfig { window_size: 32, hop_size: 8, window_fn: WindowFn::Hann }),
        Err(StftError::WindowLargerThanSignal { .. })
    ));
}

#[test]
fn stft_dimensions() {
    // 32 samples, window=8, hop=4 -> (32-8)/4+1 = 7 frames, 5 freq bins
    let signal = signal_of(&[&[1.0; 32]], 16.0);
    let config = StftConfig { window_size: 8, hop_size: 4, window_fn: WindowFn::Rectangular };
    let layout = stft_layout(&signal, &config).unwrap();

    assert_eq!(layout.num_frames, 7);
    assert_eq!(layout.num_freq_bins, 5);
}

#[test]
fn stft_frame_centres_are_hops_apart() {
    let signal = signal_of(&[&[0.0; 16]], 8.0);
    let config = StftConfig { window_size: 8, hop_size: 4, window_fn: WindowFn::Rectangular };
    let layout = stft_layout(&signal, &config).unwrap();
    assert_eq!(layout.num_frames, 3);
    assert_eq!(frame_centers(&layout, &config, 16), vec![4, 8, 12]);
    let default = StftConfig::default();
    assert_eq!((default.window_size, default.hop_size, default.window_fn), (1024, 256, WindowFn::Hann));
    assert_eq!(StftConfig::new(10).hop_size, 2);
}

#[test]
fn convolve_rejects_sample_rate_mismatch() {
    let s1 = signal_of(&[&[1.0, 2.0]], 44_100.0);
    let s2 = signal_of(&[&[1.0, 1.0]], 48_000.0);

    let result = convolution_layout(&s1, &s2, ConvolveMode::Full);

    assert!(matches!(
        result,
        Err(ConvolveError::SampleRateMismatch { left, right })
            if f64::from_bits(left) == 44_100.0 && f64::from_bits(right) == 48_000.0
    ));
}

#[test]
fn convolve_rejects_channel_mismatch() {
    let mono = signal_of(&[&[1.0, 2.0]], 1.0);
    let stereo = signal_of(&[&[1.0, 2.0], &[3.0, 4.0]], 1.0);

    let result = convolution_layout(&mono, &stereo, ConvolveMode::Full);

    assert!(matches!(result, Err(ConvolveError::ChannelMismatch { left: 1, right: 2 })));
}

#[test]
fn convolve_rejects_empty_input() {
    let empty = TimeSignal::zeros(1, 0, 1.0f64.to_bits()).unwrap();
    let signal = signal_of(&[&[1.0, 2.0]], 1.0);

    let result = convolution_layout(&empty, &signal, ConvolveMode::Full);

    assert!(matches!(result, Err(ConvolveError::EmptySignal)));
}

#[test]
fn convolution_lengths_per_mode() {
    let a = signal_of(&[&[1.0, 2.0, 3.0]], 1.0);
    let b = signal_of(&[&[1.0, 1.0]], 1.0);
    let full = convolution_layout(&a, &b, ConvolveMode::Full).unwrap();
    assert_eq!((full.conv_len, full.output_len, full.wrap_len), (4, 4, 0));
    let cut = convolution_layout(&a, &b, ConvolveMode::Cut).unwrap();
    assert_eq!((cut.conv_len, cut.output_len, cut.wrap_len), (4, 3, 0));
    let cyclic = convolution_layout(&b, &a, ConvolveMode::Cyclic).unwrap();
    assert_eq!((cyclic.conv_len, cyclic.output_len, cyclic.wrap_len), (4, 3, 1));
}

#[test]
fn deconvolve_rejects_sample_rate_mismatch() {
    let system_output = TimeSignal::zeros(1, 16, 44_100.0f64.to_bits()).unwrap();
    let system_input = TimeSignal::zeros(1, 16, 48_000.0f64.to_bits()).unwrap();

    let result = deconvolution_fft_len(&system_output, &system_input, &DeconvolutionConfig::default());

    assert!(matches!(
        result,
        Err(DeconvolutionError::SampleRateMismatch { output, input })
            if f64::from_bits(output) == 44_100.0 && f64::from_bits(input) == 48_000.0
    ));
}

#[test]
fn deconvolve_rejects_channel_mismatch() {
    let system_output = TimeSignal::zeros(2, 16, 48_000.0f64.to_bits()).unwrap();
    let system_input = TimeSignal::zeros(1, 16, 48_000.0f64.to_bits()).unwrap();

    let result = deconvolution_fft_len(&system_output, &system_input, &DeconvolutionConfig::default());

    assert!(matches!(result, Err(DeconvolutionError::ChannelMismatch { output: 2, input: 1 })));
}

#[test]
fn deconvolve_rejects_fft_lengths_shorter_than_inputs() {
    let system_output = TimeSignal::zeros(1, 16, 48_000.0f64.to_bits()).unwrap();
    let system_input = TimeSignal::zeros(1, 8, 48_000.0f64.to_bits()).unwrap();

    let result = deconvolution_fft_len(
        &system_output,
        &system_input,
        &DeconvolutionConfig::default().with_fft_len(15),
    );

    assert!(matches!(
        result,
        Err(DeconvolutionError::FftLengthTooShort { fft_len: 15, output_len: 16, input_len: 8 })
    ));
}

#[test]
fn deconvolve_rejects_invalid_frequency_ranges() {
    let system_output = TimeSignal::zeros(1, 16, 48_000.0f64.to_bits()).unwrap();
    let system_input = TimeSignal::zeros(1, 16, 48_000.0f64.to_bits()).unwrap();

    let config = DeconvolutionConfig::default().with_regularized_band(2_000.0f64.to_bits(), 1_000.0f64.to_bits());
    assert_eq!(deconvolution_fft_len(&system_output, &system_input, &config), Ok(16));
    let result = regularized_band_checked(config.regularized_band, system_input.sample_rate());
    assert!(matches!(result, Err(DeconvolutionError::InvalidFrequencyRange { .. })));

    let config = DeconvolutionConfig::default().with_regularized_band(100.0f64.to_bits(), 30_000.0f64.to_bits());
    let result = regularized_band_checked(config.regularized_band, system_input.sample_rate());
    assert!(matches!(result, Err(DeconvolutionError::InvalidFrequencyRange { .. })));
}

#[test]
fn deconvolution_defaults_and_band_choice() {
    let config = DeconvolutionConfig::default();
    assert_eq!(config.fft_len, None);
    assert_eq!(config.regularized_band, None);
    assert_eq!(config.regularization_outside_band, 1.0f64.to_bits());
    assert_eq!(config.regularization_inside_band, 10f64.powf(-200.0 / 20.0).to_bits());

    let band = regularized_band_checked(None, 48_000.0f64.to_bits()).unwrap();
    assert_eq!((f64::from_bits(band.start), f64::from_bits(band.end)), (0.0, 24_000.0));
    let set = FrequencyBand { start: 20.0f64.to_bits(), end: 20_000.0f64.to_bits() };
    assert_eq!(regularized_band_checked(Some(set), 48_000.0f64.to_bits()), Ok(set));
    assert_eq!(
        validate_frequency_range((-1.0f64).to_bits(), 5.0f64.to_bits(), 10.0f64.to_bits()),
        Err(DeconvolutionError::InvalidFrequencyRange {
            start: (-1.0f64).to_bits(),
            end: 5.0f64.to_bits(),
            nyquist: 10.0f64.to_bits()
        })
    );
    assert_eq!(validate_frequency_range(0.0f64.to_bits(), 10.0f64.to_bits(), 10.0f64.to_bits()), Ok(()));

    let a = TimeSignal::zeros(1, 10, 8.0f64.to_bits()).unwrap();
    let b = TimeSignal::zeros(1, 6, 8.0f64.to_bits()).unwrap();
    assert_eq!(deconvolution_fft_len(&a, &b, &DeconvolutionConfig::default()), Ok(10));
    let empty = TimeSignal::zeros(1, 0, 8.0f64.to_bits()).unwrap();
    assert_eq!(deconvolution_fft_len(&a, &empty, &config), Err(DeconvolutionError::EmptySignal));
}

#[test]
fn fractional_octave_smoothing_rejects_invalid_inputs() {
    let signal = FreqSignal::zeros(1, 8, 48_000.0f64.to_bits(), Some(14)).unwrap();

    let error = check_smoothing_input(&signal, &FractionalOctaveSmoothingConfig::new(0.0f64.to_bits())).unwrap_err();
    assert!(matches!(error, FractionalOctaveSmoothingError::InvalidNumFractions(f) if f64::from_bits(f) == 0.0));

    // With 100 fractions of an octave over 8 bins the window is one bin wide.
    assert_eq!(check_smoothing_input(&signal, &FractionalOctaveSmoothingConfig::new(100.0f64.to_bits())), Ok(8));
    let error = check_window_len(1).unwrap_err();
    assert!(matches!(error, FractionalOctaveSmoothingError::BelowFrequencyResolution));

    let too_short = FreqSignal::zeros(1, 1, 48_000.0f64.to_bits(), Some(1)).unwrap();
    let error = check_smoothing_input(&too_short, &FractionalOctaveSmoothingConfig::new(1.0f64.to_bits())).unwrap_err();
    assert!(matches!(error, FractionalOctaveSmoothingError::TooFewBins));
}

#[test]
fn filter_bank_checks_and_lengths() {
    assert_eq!(check_design(0.5f64.to_bits(), 256), Ok(129));
    assert_eq!(check_design(1.5f64.to_bits(), 256), Err(FilterError::InvalidOverlap(1.5f64.to_bits())));
    assert_eq!(check_design(f64::NAN.to_bits(), 256), Err(FilterError::InvalidOverlap(f64::NAN.to_bits())));
    assert_eq!(check_design(0.0f64.to_bits(), 1), Err(FilterError::InvalidNSamples));
    assert_eq!(next_power_of_two(0), 1);
    assert_eq!(next_power_of_two(1), 1);
    assert_eq!(next_power_of_two(5), 8);
    assert_eq!(next_power_of_two(1024), 1024);
    let lengths = apply_lengths(100, 29);
    assert_eq!((lengths.n_out, lengths.fft_size, lengths.n_freq), (128, 128, 65));
    let lengths = apply_lengths(100, 30);
    assert_eq!((lengths.n_out, lengths.fft_size, lengths.n_freq), (129, 256, 129));
}

#[test]
fn nan_fraction_of_an_octave_passes_the_first_check() {
    let signal = FreqSignal::zeros(1, 8, 48_000.0f64.to_bits(), Some(14)).unwrap();
    assert_eq!(check_smoothing_input(&signal, &FractionalOctaveSmoothingConfig::new(f64::NAN.to_bits())), Ok(8));
    let error = check_smoothing_input(&signal, &FractionalOctaveSmoothingConfig::new((-3.0f64).to_bits())).unwrap_err();
    assert!(matches!(error, FractionalOctaveSmoothingError::InvalidNumFractions(_)));
    let one_bin = FreqSignal::zeros(1, 1, 48_000.0f64.to_bits(), None).unwrap();
    assert_eq!(
        check_smoothing_input(&one_bin, &FractionalOctaveSmoothingConfig::new(f64::NAN.to_bits())),
        Err(FractionalOctaveSmoothingError::TooFewBins)
    );
}

#[test]
fn bands_at_or_above_nyquist_are_dropped() {
    let centres: Vec<u64> = [125.0f64, 1_000.0, 8_000.0, 22_050.0, 30_000.0].iter().map(|f| f.to_bits()).collect();
    let (low, high) = (125.0f64.to_bits(), 32_000.0f64.to_bits());
    assert_eq!(bands_below(&centres, 44_100.0f64.to_bits(), low, high), Ok(vec![0, 1, 2]));
    assert_eq!(bands_below(&centres, 100.0f64.to_bits(), low, high), Err(FilterError::NoBandsInRange(low, high)));
    let with_nan: Vec<u64> = [f64::NAN, 500.0].iter().map(|f| f.to_bits()).collect();
    assert_eq!(bands_below(&with_nan, 48_000.0f64.to_bits(), low, high), Ok(vec![1]));
    assert_eq!(bands_below(&Vec::new(), 48_000.0f64.to_bits(), low, high), Err(FilterError::NoBandsInRange(low, high)));
}

#[test]
fn nan_rates_do_not_match_for_convolution() {
    let a = TimeSignal::zeros(1, 1, f64::NAN.to_bits()).unwrap();
    let b = TimeSignal::zeros(1, 1, f64::NAN.to_bits()).unwrap();
    assert!(matches!(convolution_layout(&a, &b, ConvolveMode::Full), Err(ConvolveError::SampleRateMismatch { .. })));
    assert!(matches!(
        deconvolution_fft_len(&a, &b, &DeconvolutionConfig::default()),
        Err(DeconvolutionError::SampleRateMismatch { .. })
    ));
    let c = TimeSignal::zeros(1, 1, f64::INFINITY.to_bits()).unwrap();
    let d = TimeSignal::zeros(1, 1, f64::INFINITY.to_bits()).unwrap();
    assert!(convolution_layout(&c, &d, ConvolveMode::Full).is_ok());
}
