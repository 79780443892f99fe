use audio_lab::grid::{ComplexGrid, SampleGrid, SampleLine};
use audio_lab::plot::spectrogram::{interpolation_span, positive_freq_bins};
use audio_lab::signal::spectrogram::one_sided_scale;
use audio_lab::signal::combine::combine_comments;
use audio_lab::signal::interleave::{deinterleave, interleave};
use audio_lab::signal::join::{check_mixable, join_freq_signals, join_signals};
use audio_lab::signal::utils::{f_from_t, t_from_f};
use audio_lab::signal::{FreqSignal, SignalError, Spectrogram, SpectrogramNormalization, TimeSignal};

fn sample_grid(rows: &[&[f64]]) -> SampleGrid {
    let width = rows.first().map_or(0, |r| r.len());
    let bits: Vec<Vec<u64>> = rows.iter().map(|r| r.iter().map(|v| v.to_bits()).collect()).collect();
    SampleGrid::from_rows(&bits, width).unwrap()
}

fn complex_grid(rows: &[&[(f64, f64)]]) -> ComplexGrid {
    let re: Vec<Vec<f64>> = rows.iter().map(|r| r.iter().map(|c| c.0).collect()).collect();
    let im: Vec<Vec<f64>> = rows.iter().map(|r| r.iter().map(|c| c.1).collect()).collect();
    let re_rows: Vec<&[f64]> = re.iter().map(|r| r.as_slice()).collect();
    let im_rows: Vec<&[f64]> = im.iter().map(|r| r.as_slice()).collect();
    ComplexGrid::from_parts(sample_grid(&re_rows), sample_grid(&im_rows)).unwrap()
}

fn time(rows: &[&[f64]], rate: f64) -> TimeSignal {
    TimeSignal::new(sample_grid(rows), rate.to_bits()).unwrap()
}

fn floats(v: Vec<u64>) -> Vec<f64> {
    v.into_iter().map(f64::from_bits).collect()
}

fn complex(v: Vec<(u64, u64)>) -> Vec<(f64, f64)> {
    v.into_iter().map(|(re, im)| (f64::from_bits(re), f64::from_bits(im))).collect()
}

fn grid_floats(g: &SampleGrid) -> Vec<Vec<f64>> {
    g.to_rows().into_iter().map(floats).collect()
}

#[test]
fn time_signal_error() {
    let result = TimeSignal::new(sample_grid(&[&[0.0], &[0.0]]), (-10.0f64).to_bits());
    assert!(matches!(result, Err(SignalError::SampleRateZeroOrNeg)));
    let result = TimeSignal::new(sample_grid(&[&[0.0], &[0.0]]), 0.0f64.to_bits());
    assert!(matches!(result, Err(SignalError::SampleRateZeroOrNeg)));

    let result = TimeSignal::zeros(2, 10, (-10.0f64).to_bits());
    assert!(matches!(result, Err(SignalError::SampleRateZeroOrNeg)));
    let result = TimeSignal::zeros(2, 10, 0.0f64.to_bits());
    assert!(matches!(result, Err(SignalError::SampleRateZeroOrNeg)));
}

#[test]
fn time_signal() {
    let signal = TimeSignal::zeros(0, 0, 1.0f64.to_bits()).unwrap();
    assert_eq!(signal.time_data().nrows(), 0);
    assert_eq!(signal.time_data().ncols(), 0);

    let signal = TimeSignal::zeros(2, 10, 1.0f64.to_bits()).unwrap();
    assert_eq!(grid_floats(signal.time_data()), vec![vec![0.0; 10], vec![0.0; 10]]);

    let signal = time(&[&[0.0, 1.0, 2.0, 3.0], &[4.0, 5.0, 6.0, 7.0]], 8.0);
    let signal = signal.into_time();
    let mut signal = signal.clone();

    assert_eq!(signal.comment(), None);
    signal.set_comment(Some("Hello"));
    assert_eq!(signal.comment(), Some("Hello"));

    assert_eq!(f64::from_bits(signal.sample_rate()), 8.0);
    assert_eq!(signal.num_channels(), 2);

    assert_eq!(floats(signal.channel(0)), vec![0.0, 1.0, 2.0, 3.0]);
    assert_eq!(floats(signal.channel(1)), vec![4.0, 5.0, 6.0, 7.0]);

    for i in 0..signal.num_channels() {
        match i {
            0 => assert_eq!(floats(signal.channel(i)), vec![0.0, 1.0, 2.0, 3.0]),
            1 => assert_eq!(floats(signal.channel(i)), vec![4.0, 5.0, 6.0, 7.0]),
            _ => panic!("Signal should only have two channels"),
        }
    }

    assert_eq!(signal.num_time_steps(), 4);
    assert_eq!(signal.num_freq_bins(), 3);
    assert_eq!(
        grid_floats(signal.time_data()),
        vec![vec![0.0, 1.0, 2.0, 3.0], vec![4.0, 5.0, 6.0, 7.0]]
    );
}

#[test]
fn freq_signal_error() {
    let zero = (0.0, 0.0);
    let result = FreqSignal::new(complex_grid(&[&[zero], &[zero]]), (-10.0f64).to_bits(), None);
    assert!(matches!(result, Err(SignalError::SampleRateZeroOrNeg)));
    let result = FreqSignal::new(complex_grid(&[&[zero], &[zero]]), 0.0f64.to_bits(), None);
    assert!(matches!(result, Err(SignalError::SampleRateZeroOrNeg)));

    let result = FreqSignal::zeros(2, 10, (-10.0f64).to_bits(), None);
    assert!(matches!(result, Err(SignalError::SampleRateZeroOrNeg)));
    let result = FreqSignal::zeros(2, 10, 0.0f64.to_bits(), None);
    assert!(matches!(result, Err(SignalError::SampleRateZeroOrNeg)));
}

#[test]
fn freq_signal() {
    let signal = FreqSignal::zeros(0, 0, 1.0f64.to_bits(), None).unwrap();
    assert_eq!(signal.freq_data().nrows(), 0);
    assert_eq!(signal.freq_data().ncols(), 0);

    let signal = FreqSignal::zeros(2, 10, 1.0f64.to_bits(), None).unwrap();
    assert_eq!(complex(signal.channel(0)), vec![(0.0, 0.0); 10]);
    assert_eq!(complex(signal.channel(1)), vec![(0.0, 0.0); 10]);

    let first = [(6.0, 0.0), (-2.0, 2.0), (-2.0, 0.0)];
    let second = [(22.0, 0.0), (-2.0, 2.0), (-2.0, 0.0)];
    let signal = FreqSignal::new(complex_grid(&[&first, &second]), 8.0f64.to_bits(), Some(4)).unwrap();
    let signal = signal.into_freq();
    let mut signal = signal.clone();

    assert_eq!(signal.comment(), None);
    signal.set_comment(Some("Hello"));
    assert_eq!(signal.comment(), Some("Hello"));

    assert_eq!(f64::from_bits(signal.sample_rate()), 8.0);
    assert_eq!(signal.num_channels(), 2);
    assert_eq!(complex(signal.channel(0)), first.to_vec());
    assert_eq!(complex(signal.channel(1)), second.to_vec());
    for i in 0..signal.num_channels() {
        match i {
            0 => assert_eq!(complex(signal.channel(i)), first.to_vec()),
            1 => assert_eq!(complex(signal.channel(i)), second.to_vec()),
            _ => panic!("Signal should only have two channels"),
        }
    }

    assert_eq!(signal.num_time_steps(), 4);
    assert_eq!(signal.num_freq_bins(), 3);
    let data = signal.freq_data();
    assert_eq!(data.nrows(), 2);
    assert_eq!(data.get(1, 0).map(|(re, im)| (f64::from_bits(re), f64::from_bits(im))), Some((22.0, 0.0)));
    assert_eq!(data.get(2, 0), None);
}

#[test]
fn freq_signal_assumes_even_time_length_when_not_given() {
    let signal = FreqSignal::zeros(1, 5, 16.0f64.to_bits(), None).unwrap();
    assert_eq!(signal.n_samples(), 8);
    let signal = FreqSignal::zeros(1, 5, 16.0f64.to_bits(), Some(9)).unwrap();
    assert_eq!(signal.n_samples(), 9);
    assert_eq!(signal.num_freq_bins(), 5);
}

#[test]
fn bins_and_samples_round_trip() {
    assert_eq!(f_from_t(8), 5);
    assert_eq!(f_from_t(9), 5);
    assert_eq!(f_from_t(0), 1);
    assert_eq!(t_from_f(5), 8);
    assert_eq!(t_from_f(0), 0);
    for f in 1..50 {
        assert_eq!(f_from_t(t_from_f(f)), f);
    }
    for t in (0..100).step_by(2) {
        assert_eq!(t_from_f(f_from_t(t)), t);
    }
}

#[test]
fn join_channels_from_multiple_signals() {
    let mut first = time(&[&[0.0, 1.0, 2.0], &[3.0, 4.0, 5.0]], 48_000.0);
    first.set_comment(Some("first"));
    let second = time(&[&[6.0, 7.0, 8.0]], 48_000.0);

    let joined = join_signals(&[first, second]).unwrap();

    assert_eq!(joined.num_channels(), 3);
    assert_eq!(
        grid_floats(joined.time_data()),
        vec![vec![0.0, 1.0, 2.0], vec![3.0, 4.0, 5.0], vec![6.0, 7.0, 8.0]]
    );
    assert_eq!(joined.comment(), Some("signal1: first"));
}

#[test]
fn join_channels_rejects_empty_input() {
    let result = join_signals(&[]);
    assert!(matches!(result, Err(SignalError::EmptySignalList)));
}

#[test]
fn join_channels_rejects_mismatched_inputs() {
    let base = time(&[&[0.0, 1.0]], 48_000.0);
    let different_rate = time(&[&[2.0, 3.0]], 44_100.0);
    let different_length = time(&[&[2.0, 3.0, 4.0]], 48_000.0);

    let result = join_signals(&[base.clone(), different_rate]);
    assert!(matches!(result, Err(SignalError::SampleRateMismatch)));

    let result = join_signals(&[base, different_length]);
    assert!(matches!(result, Err(SignalError::TimeStepMismatch)));
}

#[test]
fn mix_rejects_channel_mismatch() {
    let mono = time(&[&[0.0, 1.0]], 48_000.0);
    let stereo = time(&[&[0.0, 1.0], &[2.0, 3.0]], 48_000.0);

    let result = check_mixable(&[mono, stereo]);

    assert!(matches!(result, Err(SignalError::ChannelMismatch)));
}

#[test]
fn mixable_signals_pass_the_check() {
    let a = time(&[&[0.0, 1.0]], 48_000.0);
    let b = time(&[&[2.0, 3.0]], 48_000.0);
    assert_eq!(check_mixable(&[a.clone(), b]), Ok(()));
    assert_eq!(check_mixable(&[]), Err(SignalError::EmptySignalList));
    let c = time(&[&[2.0, 3.0, 4.0]], 48_000.0);
    assert_eq!(check_mixable(&[a.clone(), c]), Err(SignalError::TimeStepMismatch));
    let d = time(&[&[2.0, 3.0]], 44_100.0);
    assert_eq!(check_mixable(&[a, d]), Err(SignalError::SampleRateMismatch));
}

#[test]
fn join_frequency_channels_from_multiple_signals() {
    let first_bins = [(1.0, 0.0), (2.0, 0.0), (3.0, 0.0)];
    let second_bins = [(4.0, 0.0), (5.0, 0.0), (6.0, 0.0)];
    let mut first = FreqSignal::new(complex_grid(&[&first_bins]), 48_000.0f64.to_bits(), Some(4)).unwrap();
    first.set_comment(Some("first"));
    let second = FreqSignal::new(complex_grid(&[&second_bins]), 48_000.0f64.to_bits(), Some(4)).unwrap();

    let joined = join_freq_signals(&[first, second]).unwrap();

    assert_eq!(joined.num_channels(), 2);
    assert_eq!(complex(joined.channel(0)), first_bins.to_vec());
    assert_eq!(complex(joined.channel(1)), second_bins.to_vec());
    assert_eq!(joined.comment(), Some("signal1: first"));
}

#[test]
fn join_frequency_channels_rejects_empty_input() {
    let result = join_freq_signals(&[]);
    assert!(matches!(result, Err(SignalError::EmptySignalList)));
}

#[test]
fn join_frequency_channels_rejects_mismatched_inputs() {
    let rate = 48_000.0f64.to_bits();
    let base = FreqSignal::new(complex_grid(&[&[(1.0, 0.0), (2.0, 0.0)]]), rate, Some(2)).unwrap();
    let different_rate =
        FreqSignal::new(complex_grid(&[&[(3.0, 0.0), (4.0, 0.0)]]), 44_100.0f64.to_bits(), Some(2)).unwrap();
    let different_length = FreqSignal::new(complex_grid(&[&[(3.0, 0.0), (4.0, 0.0)]]), rate, Some(4)).unwrap();
    let different_bins =
        FreqSignal::new(complex_grid(&[&[(3.0, 0.0), (4.0, 0.0), (5.0, 0.0)]]), rate, Some(2)).unwrap();

    let result = join_freq_signals(&[base.clone(), different_rate]);
    assert!(matches!(result, Err(SignalError::SampleRateMismatch)));

    let result = join_freq_signals(&[base.clone(), different_length]);
    assert!(matches!(result, Err(SignalError::TimeStepMismatch)));

    let result = join_freq_signals(&[base, different_bins]);
    assert!(matches!(result, Err(SignalError::FrequencyBinMismatch)));
}

#[test]
fn joined_comment_tags_each_commented_input() {
    let a = time(&[&[1.0]], 8.0).with_comment(Some("sweep"));
    let b = time(&[&[2.0]], 8.0);
    let c = time(&[&[3.0]], 8.0).with_comment(Some("noise"));
    let joined = join_signals(&[a, b, c]).unwrap();
    assert_eq!(joined.comment(), Some("signal1: sweep | signal3: noise"));
    assert_eq!(joined.num_channels(), 3);
    assert_eq!(floats(joined.channel(2)), vec![3.0]);

    let plain = join_signals(&[time(&[&[1.0]], 8.0), time(&[&[2.0]], 8.0)]).unwrap();
    assert_eq!(plain.comment(), None);

    assert_eq!(combine_comments(&vec![None, Some("x"), None, Some("y")]), Some("signal2: x | signal4: y".to_string()));
    assert_eq!(combine_comments(&vec![None, None]), None);
}

#[test]
fn signal_error_messages() {
    assert_eq!(SignalError::SampleRateZeroOrNeg.message(), "Sample Rate must be > 0");
    assert_eq!(SignalError::EmptySignalList.message(), "At least one signal is required");
    assert_eq!(SignalError::SampleRateMismatch.message(), "All signals must have the same sample rate");
    assert_eq!(SignalError::TimeStepMismatch.message(), "All signals must have the same number of time steps");
    assert_eq!(SignalError::FrequencyBinMismatch.message(), "All frequency signals must have the same number of bins");
    assert_eq!(SignalError::ChannelMismatch.message(), "All signals must have the same number of channels");
}

#[test]
fn rates_at_or_below_zero_are_rejected_and_nan_is_taken() {
    let nan = TimeSignal::zeros(1, 1, f64::NAN.to_bits()).unwrap();
    assert!(f64::from_bits(nan.sample_rate()).is_nan());
    assert_eq!(TimeSignal::zeros(1, 1, (-0.0f64).to_bits()).unwrap_err(), SignalError::SampleRateZeroOrNeg);
    assert_eq!(TimeSignal::zeros(1, 1, f64::NEG_INFINITY.to_bits()).unwrap_err(), SignalError::SampleRateZeroOrNeg);
    assert!(TimeSignal::zeros(1, 1, f64::MIN_POSITIVE.to_bits()).is_ok());
    assert!(TimeSignal::zeros(1, 1, f64::INFINITY.to_bits()).is_ok());
    assert!(TimeSignal::zeros(2, 0, f64::NAN.to_bits()).is_ok());
    assert!(FreqSignal::zeros(1, 1, f64::NAN.to_bits(), None).is_ok());
    assert_eq!(FreqSignal::zeros(1, 1, (-2.0f64).to_bits(), None).unwrap_err(), SignalError::SampleRateZeroOrNeg);
}

#[test]
fn nan_rates_never_match() {
    let a = TimeSignal::zeros(1, 1, f64::NAN.to_bits()).unwrap();
    let b = TimeSignal::zeros(1, 1, f64::NAN.to_bits()).unwrap();
    assert_eq!(join_signals(&[a.clone(), b]).unwrap_err(), SignalError::SampleRateMismatch);
    assert_eq!(join_signals(&[a.clone()]).unwrap_err(), SignalError::SampleRateMismatch);
    assert_eq!(check_mixable(&[a]), Err(SignalError::SampleRateMismatch));
    let f = FreqSignal::zeros(1, 1, f64::NAN.to_bits(), None).unwrap();
    assert_eq!(join_freq_signals(&[f]).unwrap_err(), SignalError::SampleRateMismatch);
    let inf = TimeSignal::zeros(1, 1, f64::INFINITY.to_bits()).unwrap();
    assert_eq!(join_signals(&[inf.clone(), inf]).unwrap().num_channels(), 2);
}

fn spectrogram_with_two_channels() -> Spectrogram {
    let a = complex_grid(&[&[(1.0, 0.0), (2.0, 0.5)], &[(3.0, 0.0), (4.0, -1.0)], &[(5.0, 0.0), (6.0, 0.0)]]);
    let b = complex_grid(&[&[(10.0, 0.0), (20.0, 0.0)], &[(30.0, 0.0), (40.0, 0.0)], &[(50.0, 0.0), (60.0, 0.0)]]);
    Spectrogram::new(
        vec![a, b],
        3,
        2,
        SampleLine::from_vec(vec![0.5f64.to_bits(), 1.0f64.to_bits(), 1.5f64.to_bits()]),
        SampleLine::from_vec(vec![0.0f64.to_bits(), 4.0f64.to_bits()]),
        8.0f64.to_bits(),
        2,
        1,
        SpectrogramNormalization::new(0.5f64.to_bits(), 0.375f64.to_bits()),
    )
}

#[test]
fn spectrogram_keeps_its_shape_and_settings() {
    let spec = spectrogram_with_two_channels();
    assert_eq!(spec.num_channels(), 2);
    assert_eq!(spec.num_frames(), 3);
    assert_eq!(spec.num_freq_bins(), 2);
    assert_eq!(f64::from_bits(spec.sample_rate()), 8.0);
    assert_eq!(spec.window_size(), 2);
    assert_eq!(spec.hop_size(), 1);
    assert_eq!(f64::from_bits(spec.normalization().coherent_gain()), 0.5);
    assert_eq!(f64::from_bits(spec.normalization().window_energy()), 0.375);
    assert_eq!(floats(spec.frame_times().to_vec()), vec![0.5, 1.0, 1.5]);
    assert_eq!(floats(spec.freq_bins().to_vec()), vec![0.0, 4.0]);
    assert_eq!(spec.data().len(), 2);
    assert_eq!(spec.channel(1).get(2, 1).map(|(re, _)| f64::from_bits(re)), Some(60.0));
}

#[test]
fn spectrogram_frame_collects_one_row_per_channel() {
    let spec = spectrogram_with_two_channels();
    let frame = spec.frame(1);
    assert_eq!(frame.nrows(), 2);
    assert_eq!(frame.ncols(), 2);
    let cell = |r: usize, c: usize| frame.get(r, c).map(|(re, im)| (f64::from_bits(re), f64::from_bits(im)));
    assert_eq!(cell(0, 0), Some((3.0, 0.0)));
    assert_eq!(cell(0, 1), Some((4.0, -1.0)));
    assert_eq!(cell(1, 0), Some((30.0, 0.0)));
    assert_eq!(cell(1, 1), Some((40.0, 0.0)));
}

#[test]
fn spectrogram_label_reads_back_what_was_set() {
    let mut spec = spectrogram_with_two_channels();
    assert_eq!(spec.channel_label(0), None);
    assert_eq!(spec.channel_label(1), None);
    spec.set_channel_label(1, Some("Right"));
    assert_eq!(spec.channel_label(1), Some("Right"));
    assert_eq!(spec.channel_label(0), None);
    spec.set_channel_label(5, Some("Nowhere"));
    assert_eq!(spec.channel_label(5), None);
    spec.set_channel_label(1, None);
    assert_eq!(spec.channel_label(1), None);
}

#[test]
fn one_sided_scale_doubles_all_but_dc_and_nyquist() {
    let grid = complex_grid(&[&[(0.0, 0.0); 5]]);
    let even = Spectrogram::new(
        vec![grid.clone()],
        1,
        5,
        SampleLine::from_vec(vec![0]),
        SampleLine::from_vec(vec![0; 5]),
        8.0f64.to_bits(),
        8,
        4,
        SpectrogramNormalization::new(0, 0),
    );
    let scales: Vec<f64> = (0..5).map(|b| f64::from_bits(one_sided_scale(&even, b))).collect();
    assert_eq!(scales, vec![1.0, 2.0, 2.0, 2.0, 1.0]);
    let odd = Spectrogram::new(
        vec![grid],
        1,
        5,
        SampleLine::from_vec(vec![0]),
        SampleLine::from_vec(vec![0; 5]),
        8.0f64.to_bits(),
        9,
        4,
        SpectrogramNormalization::new(0, 0),
    );
    let scales: Vec<f64> = (0..5).map(|b| f64::from_bits(one_sided_scale(&odd, b))).collect();
    assert_eq!(scales, vec![1.0, 2.0, 2.0, 2.0, 2.0]);
}

#[test]
fn positive_frequency_bins_skip_dc() {
    let spec = spectrogram_with_two_channels();
    let bins: Vec<f64> = positive_freq_bins(&spec).into_iter().map(f64::from_bits).collect();
    assert_eq!(bins, vec![4.0]);
}

#[test]
fn nyquist_is_half_the_sample_rate() {
    let signal = FreqSignal::zeros(1, 5, 16.0f64.to_bits(), Some(8)).unwrap();
    assert_eq!(f64::from_bits(signal.nyquist()), 8.0);
    let signal = FreqSignal::zeros(1, 5, 44_100.0f64.to_bits(), None).unwrap();
    assert_eq!(f64::from_bits(signal.nyquist()), 22_050.0);
}

#[test]
fn interleaving_orders_samples_frame_by_frame() {
    let signal = time(&[&[1.0, 2.0, 3.0], &[10.0, 20.0, 30.0]], 8.0);
    assert_eq!(floats(interleave(&signal)), vec![1.0, 10.0, 2.0, 20.0, 3.0, 30.0]);
    let back = deinterleave(&interleave(&signal), 2);
    assert_eq!(grid_floats(&back), vec![vec![1.0, 2.0, 3.0], vec![10.0, 20.0, 30.0]]);
}

#[test]
fn deinterleaving_drops_an_incomplete_frame() {
    let samples: Vec<u64> = [1.0f64, 2.0, 3.0, 4.0, 5.0].iter().map(|v| v.to_bits()).collect();
    let grid = deinterleave(&samples, 2);
    assert_eq!(grid_floats(&grid), vec![vec![1.0, 3.0], vec![2.0, 4.0]]);
    let grid = deinterleave(&samples, 1);
    assert_eq!(grid_floats(&grid), vec![vec![1.0, 2.0, 3.0, 4.0, 5.0]]);
    let grid = deinterleave(&samples, 7);
    assert_eq!((grid.nrows(), grid.ncols()), (7, 0));
}

#[test]
fn interpolation_span_matches_a_binary_search() {
    let freqs = [100.0f64, 200.0, 400.0];
    let bits: Vec<u64> = freqs.iter().map(|f| f.to_bits()).collect();
    assert_eq!(interpolation_span(&bits, 200.0f64.to_bits()), (1, 1));
    assert_eq!(interpolation_span(&bits, 300.0f64.to_bits()), (1, 2));
    assert_eq!(interpolation_span(&bits, 50.0f64.to_bits()), (0, 0));
    assert_eq!(interpolation_span(&bits, 100.0f64.to_bits()), (0, 0));
    assert_eq!(interpolation_span(&bits, 900.0f64.to_bits()), (2, 2));
    assert_eq!(interpolation_span(&Vec::new(), 1.0f64.to_bits()), (0, 0));
    for target in [0.0f64, 99.0, 100.0, 150.0, 200.0, 399.0, 400.0, 401.0, f64::INFINITY] {
        let expected = match freqs.binary_search_by(|p| p.total_cmp(&target)) {
            Ok(i) => (i, i),
            Err(0) => (0, 0),
            Err(i) if i >= freqs.len() => (freqs.len() - 1, freqs.len() - 1),
            Err(i) => (i - 1, i),
        };
        assert_eq!(interpolation_span(&bits, target.to_bits()), expected, "{target}");
    }
}
