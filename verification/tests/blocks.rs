use audio_lab::blocks::{signal_from_block_grids, signal_to_block_grid, signal_to_block_grids, BlockAdapterError};
use audio_lab::dsp::pad::{pad_zeros, PadMode};
use audio_lab::grid::SampleGrid;
use audio_lab::signal::TimeSignal;

fn block_of(rows: &[&[f64]]) -> SampleGrid {
    let width = rows.first().map_or(0, |r| r.len());
    let bits: Vec<Vec<u64>> = rows.iter().map(|r| r.iter().map(|v| v.to_bits()).collect()).collect();
    SampleGrid::from_rows(&bits, width).unwrap()
}

fn rows_of(g: &SampleGrid) -> Vec<Vec<f64>> {
    g.to_rows().into_iter().map(|r| r.into_iter().map(f64::from_bits).collect()).collect()
}

fn signal_with(rows: &[&[f64]], rate: f64) -> TimeSignal {
    TimeSignal::new(block_of(rows), rate.to_bits()).unwrap()
}

#[test]
fn signal_to_blocks_pads_last_block_with_zeros() {
    let signal = signal_with(&[&[1.0, 2.0, 3.0], &[4.0, 5.0, 6.0]], 48_000.0);

    let blocks = signal_to_block_grids(&signal, 2).unwrap();

    assert_eq!(blocks.len(), 2);
    assert_eq!(blocks[0].row(0), vec![1.0f64.to_bits(), 2.0f64.to_bits()]);
    assert_eq!(rows_of(&blocks[0]), vec![vec![1.0, 2.0], vec![4.0, 5.0]]);
    assert_eq!(rows_of(&blocks[1]), vec![vec![3.0, 0.0], vec![6.0, 0.0]]);
}

#[test]
fn signal_from_blocks_concatenates_blocks() {
    let first = block_of(&[&[1.0, 2.0], &[10.0, 20.0]]);
    let second = block_of(&[&[3.0, 0.0], &[30.0, 0.0]]);

    let signal = signal_from_block_grids(&vec![first, second], 48_000.0f64.to_bits()).unwrap();

    assert_eq!(rows_of(signal.time_data()), vec![vec![1.0, 2.0, 3.0, 0.0], vec![10.0, 20.0, 30.0, 0.0]]);
}

#[test]
fn signal_to_block_converts_whole_signal_to_single_block() {
    let signal = signal_with(&[&[1.0, 2.0, 3.0], &[4.0, 5.0, 6.0]], 48_000.0);

    let block = signal_to_block_grid(&signal).unwrap();

    assert_eq!(rows_of(&block), vec![vec![1.0, 2.0, 3.0], vec![4.0, 5.0, 6.0]]);
}

#[test]
fn signal_from_block_supports_single_block() {
    let block = block_of(&[&[1.0, 2.0, 3.0]]);

    let signal = signal_from_block_grids(&vec![block], 48_000.0f64.to_bits()).unwrap();

    assert_eq!(rows_of(signal.time_data()), vec![vec![1.0, 2.0, 3.0]]);
}

#[test]
fn signal_to_blocks_rejects_zero_block_size() {
    let signal = TimeSignal::zeros(1, 4, 48_000.0f64.to_bits()).unwrap();

    let result = signal_to_block_grids(&signal, 0);

    assert!(matches!(result, Err(BlockAdapterError::FramesPerBlockZero)));
}

#[test]
fn signal_from_blocks_rejects_empty_input() {
    let result = signal_from_block_grids(&Vec::new(), 48_000.0f64.to_bits());

    assert!(matches!(result, Err(BlockAdapterError::EmptyBlockList)));
}

#[test]
fn signal_from_blocks_rejects_channel_mismatch() {
    let mono = block_of(&[&[1.0, 2.0]]);
    let stereo = block_of(&[&[3.0, 4.0], &[5.0, 6.0]]);

    let result = signal_from_block_grids(&vec![mono, stereo], 48_000.0f64.to_bits());

    assert!(matches!(result, Err(BlockAdapterError::ChannelMismatch)));
}

#[test]
fn signal_from_blocks_rejects_frame_mismatch() {
    let first = block_of(&[&[1.0, 2.0]]);
    let second = block_of(&[&[3.0, 4.0, 5.0]]);

    let result = signal_from_block_grids(&vec![first, second], 48_000.0f64.to_bits());

    assert!(matches!(result, Err(BlockAdapterError::FrameMismatch)));
}

#[test]
fn signal_from_blocks_rejects_invalid_sample_rate() {
    let block = block_of(&[&[1.0, 2.0]]);

    let result = signal_from_block_grids(&vec![block], 0.0f64.to_bits());

    assert!(matches!(result, Err(BlockAdapterError::SampleRateZeroOrNeg)));
}

#[test]
fn cutting_and_gluing_gives_the_signal_back_zero_padded() {
    let signal = signal_with(&[&[1.0, 2.0, 3.0, 4.0, 5.0], &[-1.0, -2.0, -3.0, -4.0, -5.0]], 44_100.0);
    for frames_per_block in 1..8 {
        let blocks = signal_to_block_grids(&signal, frames_per_block).unwrap();
        let count = (5 + frames_per_block - 1) / frames_per_block;
        assert_eq!(blocks.len(), count);
        let glued = signal_from_block_grids(&blocks, signal.sample_rate()).unwrap();
        assert_eq!(glued.num_time_steps(), count * frames_per_block);
        for c in 0..2 {
            let mut expected = signal.channel(c);
            expected.resize(count * frames_per_block, 0.0f64.to_bits());
            assert_eq!(glued.channel(c), expected);
        }
    }
}

#[test]
fn empty_signal_gives_no_blocks() {
    let signal = TimeSignal::zeros(2, 0, 8.0f64.to_bits()).unwrap();
    assert_eq!(signal_to_block_grids(&signal, 4).unwrap().len(), 0);
    let block = signal_to_block_grid(&signal).unwrap();
    assert_eq!((block.nrows(), block.ncols()), (2, 0));
}

#[test]
fn gluing_cut_blocks_equals_zero_padding() {
    let signal = signal_with(&[&[0.5, -1.5, 2.5], &[3.0, 4.0, -5.0]], 32_000.0);
    let blocks = signal_to_block_grids(&signal, 2).unwrap();
    let glued = signal_from_block_grids(&blocks, signal.sample_rate()).unwrap();
    let padded = pad_zeros(&signal, 1, PadMode::After).unwrap();
    assert_eq!(rows_of(glued.time_data()), rows_of(padded.time_data()));
    assert_eq!(glued.sample_rate(), padded.sample_rate());
}

#[test]
fn nan_rate_passes_the_rate_check() {
    assert_eq!(
        signal_from_block_grids(&Vec::new(), f64::NAN.to_bits()).unwrap_err(),
        BlockAdapterError::EmptyBlockList
    );
    assert_eq!(
        signal_from_block_grids(&Vec::new(), 0.0f64.to_bits()).unwrap_err(),
        BlockAdapterError::SampleRateZeroOrNeg
    );
    let block = SampleGrid::from_rows(&vec![vec![1.0f64.to_bits()]], 1).unwrap();
    let signal = signal_from_block_grids(&vec![block], f64::NAN.to_bits()).unwrap();
    assert_eq!(signal.num_time_steps(), 1);
    assert!(f64::from_bits(signal.sample_rate()).is_nan());
}
