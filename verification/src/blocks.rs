//! Cutting a time signal into fixed-size blocks of frames and gluing blocks
//! back into a signal. A block is a grid with one row per channel and one
//! column per frame.
use vstd::prelude::*;
use crate::binary64::{le, less_or_equal};
use crate::grid::{SampleGrid, grid_rows, grid_width, rectangular, rows_view, shape_fits};
use crate::signal::{SignalError, TimeSignal};
use crate::signal::time_signal::{TimeSignalModel, rate_spaces_steps};
use crate::dsp::pad::{padded, padded_rows, PadMode};

verus! {

/// Why a signal could not be converted to or from blocks.
#[derive(Debug, Clone, Copy, PartialEq, Eq, Structural)]
pub enum BlockAdapterError {
    FramesPerBlockZero,
    SampleRateZeroOrNeg,
    EmptyBlockList,
    ChannelMismatch,
    FrameMismatch,
    TooManyChannels,
    Signal(SignalError),
}

/// Number of blocks of `frames_per_block` frames that hold `n` frames.
pub open spec fn block_count(n: nat, frames_per_block: nat) -> nat {
    if frames_per_block == 0 { 0 } else { ((n + frames_per_block - 1) / (frames_per_block as int)) as nat }
}

/// Block `b`: frames `b * fpb ..` of every channel, zero past the signal's end.
pub open spec fn block_rows(samples: Seq<Seq<u64>>, n: nat, fpb: nat, b: nat) -> Seq<Seq<u64>> {
    Seq::new(
        samples.len(),
        |c: int| Seq::new(fpb, |j: int| if b * fpb + j < n { samples[c][b * fpb + j] } else { 0u64 }),
    )
}

/// Builds one block.
fn make_block(signal: &TimeSignal, start: usize, fpb: usize) -> (g: SampleGrid)
    requires
        shape_fits(signal@.samples.len(), fpb as nat),
        start % fpb == 0,
        fpb > 0,
        start <= signal@.num_time_steps,
    ensures
        grid_rows(g) == block_rows(signal@.samples, signal@.num_time_steps, fpb as nat, ((start as int) / (fpb as int)) as nat),
        grid_width(g) == fpb,
{
    let channels = signal.num_channels();
    let n = signal.num_time_steps();
    let ghost b: nat = ((start as int) / (fpb as int)) as nat;
    assert(b * fpb == start) by (nonlinear_arith)
        requires start % fpb == 0, fpb > 0, b == (start as int) / (fpb as int);
    let mut rows: Vec<Vec<u64>> = Vec::new();
    let mut c: usize = 0;
    while c < channels
        invariant
            channels == signal@.samples.len(),
            n == signal@.num_time_steps,
            rectangular(signal@.samples, n as nat),
            b * fpb == start,
            start <= n,
            c <= channels,
            rows@.len() == c,
            forall|k: int| 0 <= k < c ==> #[trigger] rows@[k]@ == block_rows(signal@.samples, n as nat, fpb as nat, b)[k],
            forall|k: int| 0 <= k < c ==> #[trigger] rows@[k]@.len() == fpb,
        decreases channels - c,
    {
        let src = signal.channel(c);
        let mut row: Vec<u64> = Vec::new();
        let mut j: usize = 0;
        while j < fpb
            invariant
                src@ == signal@.samples[c as int],
                src@.len() == n,
                c < channels,
                channels == signal@.samples.len(),
                b * fpb == start,
                start <= n,
                j <= fpb,
                row@.len() == j,
                forall|k: int| 0 <= k < j ==> #[trigger] row@[k] == (if b * fpb + k < n { signal@.samples[c as int][b * fpb + k] } else { 0u64 }),
            decreases fpb - j,
        {
            if j < n - start {
                row.push(src[start + j]);
            } else {
                row.push(0);
            }
            j = j + 1;
        }
        assert(row@ =~= block_rows(signal@.samples, n as nat, fpb as nat, b)[c as int]);
        rows.push(row);
        c = c + 1;
    }
    assert(rows_view(rows@) =~= block_rows(signal@.samples, n as nat, fpb as nat, b));
    SampleGrid::from_rows(&rows, fpb).unwrap()
}

/// Cuts a signal into blocks of `frames_per_block` frames, zero-padding the
/// last one. Fails with `FramesPerBlockZero` for an empty block size, then
/// with `TooManyChannels` above `u16::MAX` channels. Each block must fit in
/// an array when there is one.
pub fn signal_to_block_grids(signal: &TimeSignal, frames_per_block: usize) -> (r: Result<
    Vec<SampleGrid>,
    BlockAdapterError,
>)
    requires
        signal@.num_time_steps > 0 && signal@.samples.len() <= u16::MAX ==> shape_fits(
            signal@.samples.len(),
            frames_per_block as nat,
        ),
    ensures
        frames_per_block == 0 ==> r == Err::<Vec<SampleGrid>, BlockAdapterError>(
            BlockAdapterError::FramesPerBlockZero,
        ),
        frames_per_block > 0 && signal@.samples.len() > u16::MAX ==> r == Err::<
            Vec<SampleGrid>,
            BlockAdapterError,
        >(BlockAdapterError::TooManyChannels),
        r is Ok <==> frames_per_block > 0 && signal@.samples.len() <= u16::MAX,
        r matches Ok(blocks) ==> {
            &&& blocks@.len() == block_count(signal@.num_time_steps, frames_per_block as nat)
            &&& forall|b: int| 0 <= b < blocks@.len() ==> grid_rows(#[trigger] blocks@[b]) == block_rows(
                signal@.samples,
                signal@.num_time_steps,
                frames_per_block as nat,
                b as nat,
            ) && grid_width(blocks@[b]) == frames_per_block
        },
{
    if frames_per_block == 0 {
        return Err(BlockAdapterError::FramesPerBlockZero);
    }
    if signal.num_channels() > 65535 {
        return Err(BlockAdapterError::TooManyChannels);
    }
    let n = signal.num_time_steps();
    let fpb = frames_per_block;
    assert(n % fpb != 0 ==> n / fpb < n) by (nonlinear_arith)
        requires fpb > 0;
    let num_blocks = n / fpb + if n % fpb != 0 { 1usize } else { 0usize };
    assert(num_blocks == block_count(n as nat, fpb as nat)) by (nonlinear_arith)
        requires fpb > 0, num_blocks == n / fpb + if n % fpb != 0 { 1int } else { 0int };
    let mut blocks: Vec<SampleGrid> = Vec::new();
    let mut b: usize = 0;
    while b < num_blocks
        invariant
            fpb > 0,
            n == signal@.num_time_steps,
            num_blocks == block_count(n as nat, fpb as nat),
            n > 0 && signal@.samples.len() <= u16::MAX ==> shape_fits(signal@.samples.len(), fpb as nat),
            signal@.samples.len() <= u16::MAX,
            b <= num_blocks,
            blocks@.len() == b,
            forall|k: int| 0 <= k < b ==> grid_rows(#[trigger] blocks@[k]) == block_rows(
                signal@.samples, n as nat, fpb as nat, k as nat,
            ) && grid_width(blocks@[k]) == fpb,
        decreases num_blocks - b,
    {
        assert(b * fpb < n) by (nonlinear_arith)
            requires fpb > 0, b < num_blocks, num_blocks == (n + fpb - 1) / (fpb as int);
        proof {
            vstd::arithmetic::div_mod::lemma_fundamental_div_mod_converse((b * fpb) as int, fpb as int, b as int, 0);
        }
        let start = b * fpb;
        let block = make_block(signal, start, fpb);
        blocks.push(block);
        b = b + 1;
    }
    Ok(blocks)
}

/// The whole signal as a single block. Fails with `TooManyChannels` above
/// `u16::MAX` channels.
pub fn signal_to_block_grid(signal: &TimeSignal) -> (r: Result<SampleGrid, BlockAdapterError>)
    ensures
        r is Err <==> signal@.samples.len() > u16::MAX,
        r matches Err(e) ==> e == BlockAdapterError::TooManyChannels,
        r matches Ok(g) ==> grid_rows(g) == signal@.samples && grid_width(g) == signal@.num_time_steps,
{
    if signal.num_channels() > 65535 {
        return Err(BlockAdapterError::TooManyChannels);
    }
    Ok(signal.time_data().clone())
}

/// One channel of a signal glued from blocks: that channel of each block, in order.
pub open spec fn glued(blocks: Seq<Seq<Seq<u64>>>, c: int) -> Seq<u64>
    decreases blocks.len(),
{
    if blocks.len() == 0 {
        seq![]
    } else {
        glued(blocks.drop_last(), c) + blocks.last()[c]
    }
}

/// Whether a block differs from the first in its channel or frame count.
pub open spec fn block_differs(block: SampleGrid, first: SampleGrid) -> bool {
    grid_rows(block).len() != grid_rows(first).len() || grid_width(block) != grid_width(first)
}

/// The rows of each block.
pub open spec fn block_contents(blocks: Seq<SampleGrid>) -> Seq<Seq<Seq<u64>>> {
    blocks.map_values(|g: SampleGrid| grid_rows(g))
}

/// Channel `c` of a signal of `n` frames, followed by zeros up to `len` frames
/// (or cut to `len` frames).
pub open spec fn zero_extended(samples: Seq<Seq<u64>>, n: nat, c: int, len: nat) -> Seq<u64> {
    Seq::new(len, |i: int| if i < n { samples[c][i] } else { 0u64 })
}

/// The blocks that `signal_to_block_grids` cuts a signal of `n` frames into.
pub open spec fn cut_blocks(samples: Seq<Seq<u64>>, n: nat, fpb: nat) -> Seq<Seq<Seq<u64>>> {
    Seq::new(block_count(n, fpb), |b: int| block_rows(samples, n, fpb, b as nat))
}

/// Gluing the first `k` blocks of a signal gives its first `k * fpb` frames,
/// zero past its end.
proof fn lemma_glued_prefix(samples: Seq<Seq<u64>>, n: nat, fpb: nat, c: int, k: nat)
    requires
        fpb > 0,
        0 <= c < samples.len(),
        k <= block_count(n, fpb),
    ensures
        glued(cut_blocks(samples, n, fpb).take(k as int), c) == zero_extended(samples, n, c, k * fpb),
    decreases k,
{
    let blocks = cut_blocks(samples, n, fpb);
    if k == 0 {
        assert(blocks.take(0).len() == 0);
        assert(glued(blocks.take(0), c) =~= zero_extended(samples, n, c, 0));
    } else {
        let km: nat = (k - 1) as nat;
        lemma_glued_prefix(samples, n, fpb, c, km);
        assert(blocks.take(k as int).drop_last() =~= blocks.take(km as int));
        let last = blocks.take(k as int).last();
        assert(last == block_rows(samples, n, fpb, km));
        let start: int = (km * fpb) as int;
        assert(k * fpb == start + fpb) by (nonlinear_arith)
            requires km == k - 1, start == km * fpb;
        let head = zero_extended(samples, n, c, km * fpb);
        let tail = last[c];
        assert(tail.len() == fpb);
        assert forall|i: int| 0 <= i < k * fpb implies #[trigger] (head + tail)[i]
            == zero_extended(samples, n, c, k * fpb)[i] by {
            if i >= start {
                assert(tail[i - start] == (if km * fpb + (i - start) < n {
                    samples[c][km * fpb + (i - start)]
                } else {
                    0u64
                }));
            }
        }
        assert(head + tail =~= zero_extended(samples, n, c, k * fpb));
    }
}

/// Cutting a signal into blocks and gluing the blocks back gives every
/// channel back, followed by zeros up to a whole number of blocks: the blocks
/// `signal_to_block_grids` returns all have one shape, so
/// `signal_from_block_grids` accepts them (at a rate not at or below zero),
/// and its result is `block_count * frames_per_block` frames long. For a non-empty
/// signal there is at least one block, and the glued signal has the
/// signal's channel count; it fits an array when a signal of that many
/// channels of `block_count * frames_per_block` frames does.
pub proof fn law_blocks_round_trip(samples: Seq<Seq<u64>>, n: nat, fpb: nat, blocks: Seq<SampleGrid>)
    requires
        rectangular(samples, n),
        fpb > 0,
        blocks.len() == block_count(n, fpb),
        forall|b: int| 0 <= b < blocks.len() ==> grid_rows(#[trigger] blocks[b]) == block_rows(
            samples,
            n,
            fpb,
            b as nat,
        ) && grid_width(blocks[b]) == fpb,
    ensures
        forall|b: int| 0 <= b < blocks.len() ==> !block_differs(#[trigger] blocks[b], blocks[0]),
        block_count(n, fpb) * fpb >= n,
        n > 0 ==> blocks.len() > 0,
        blocks.len() > 0 ==> grid_rows(blocks[0]).len() == samples.len() && grid_width(blocks[0])
            * blocks.len() == block_count(n, fpb) * fpb,
        forall|c: int| 0 <= c < samples.len() ==> #[trigger] glued(block_contents(blocks), c)
            == samples[c] + Seq::new((block_count(n, fpb) * fpb - n) as nat, |_j: int| 0u64),
        forall|c: int| 0 <= c < samples.len() ==> #[trigger] glued(block_contents(blocks), c)
            == padded(samples[c], (block_count(n, fpb) * fpb - n) as nat, PadMode::After),
{
    let count = block_count(n, fpb);
    assert(count * fpb >= n) by (nonlinear_arith)
        requires fpb > 0, count == (n + fpb - 1) / (fpb as int);
    assert(n > 0 ==> count > 0) by (nonlinear_arith)
        requires fpb > 0, count == (n + fpb - 1) / (fpb as int);
    if blocks.len() > 0 {
        assert(grid_rows(blocks[0]) == block_rows(samples, n, fpb, 0));
        assert(fpb * blocks.len() == count * fpb) by (nonlinear_arith)
            requires blocks.len() == count;
    }
    assert(block_contents(blocks) =~= cut_blocks(samples, n, fpb));
    assert forall|c: int| 0 <= c < samples.len() implies #[trigger] glued(block_contents(blocks), c)
        == samples[c] + Seq::new((count * fpb - n) as nat, |_j: int| 0u64) by {
        lemma_glued_prefix(samples, n, fpb, c, count);
        assert(cut_blocks(samples, n, fpb).take(count as int) =~= cut_blocks(samples, n, fpb));
        assert(samples[c].len() == n);
        assert(zero_extended(samples, n, c, count * fpb) =~= samples[c] + Seq::new(
            (count * fpb - n) as nat,
            |_j: int| 0u64,
        ));
    }
}

/// Cutting a signal into blocks and gluing them back is zero padding at the
/// end up to a whole number of blocks: given the blocks `signal_to_block_grids`
/// cut from a signal and the signal `signal_from_block_grids` glued from
/// them, the glued signal holds the padded channels, is
/// `block_count * frames_per_block` frames long and has the given rate.
pub proof fn law_glued_blocks_are_padded_signal(
    signal: TimeSignalModel,
    fpb: nat,
    blocks: Seq<SampleGrid>,
    rate: u64,
    glued_signal: TimeSignalModel,
)
    requires
        rectangular(signal.samples, signal.num_time_steps),
        fpb > 0,
        blocks.len() == block_count(signal.num_time_steps, fpb),
        forall|b: int| 0 <= b < blocks.len() ==> grid_rows(#[trigger] blocks[b]) == block_rows(
            signal.samples,
            signal.num_time_steps,
            fpb,
            b as nat,
        ) && grid_width(blocks[b]) == fpb,
        blocks.len() > 0,
        glued_signal.samples.len() == grid_rows(blocks[0]).len(),
        forall|c: int| 0 <= c < glued_signal.samples.len() ==> #[trigger] glued_signal.samples[c] == glued(
            block_contents(blocks),
            c,
        ),
        glued_signal.num_time_steps == grid_width(blocks[0]) * blocks.len(),
        glued_signal.sample_rate == rate,
    ensures
        glued_signal.samples == padded_rows(
            signal.samples,
            (block_count(signal.num_time_steps, fpb) * fpb - signal.num_time_steps) as nat,
            PadMode::After,
        ),
        glued_signal.num_time_steps == block_count(signal.num_time_steps, fpb) * fpb,
        glued_signal.sample_rate == rate,
{
    law_blocks_round_trip(signal.samples, signal.num_time_steps, fpb, blocks);
    let pad = (block_count(signal.num_time_steps, fpb) * fpb - signal.num_time_steps) as nat;
    assert(glued_signal.samples =~= padded_rows(signal.samples, pad, PadMode::After));
}

/// Glues blocks of equal shape, in order, into a signal at `sample_rate`.
/// Fails with `SampleRateZeroOrNeg` exactly when the rate is less than or
/// equal to zero (a NaN rate is not), then `EmptyBlockList`; then, at the
/// first block whose shape differs from the first block's, `ChannelMismatch`
/// if its channel count differs, else `FrameMismatch`. The glued signal must
/// fit in an array, and its time axis must be possible at the rate.
pub fn signal_from_block_grids(blocks: &Vec<SampleGrid>, sample_rate: u64) -> (r: Result<
    TimeSignal,
    BlockAdapterError,
>)
    requires
        blocks@.len() > 0 && (forall|b: int| 0 <= b < blocks@.len() ==> !block_differs(#[trigger] blocks@[b], blocks@[0]))
            ==> shape_fits(grid_rows(blocks@[0]).len(), grid_width(blocks@[0]) * blocks@.len())
            && rate_spaces_steps(sample_rate, grid_width(blocks@[0]) * blocks@.len()),
    ensures
        le(sample_rate, 0) ==> r == Err::<TimeSignal, BlockAdapterError>(
            BlockAdapterError::SampleRateZeroOrNeg,
        ),
        !le(sample_rate, 0) && blocks@.len() == 0 ==> r == Err::<TimeSignal, BlockAdapterError>(
            BlockAdapterError::EmptyBlockList,
        ),
        forall|b: int| 0 <= b < blocks@.len() && !le(sample_rate, 0)
            && #[trigger] block_differs(blocks@[b], blocks@[0])
            && (forall|e: int| 0 <= e < b ==> !block_differs(blocks@[e], blocks@[0]))
            ==> r == Err::<TimeSignal, BlockAdapterError>(
                if grid_rows(blocks@[b]).len() != grid_rows(blocks@[0]).len() {
                    BlockAdapterError::ChannelMismatch
                } else {
                    BlockAdapterError::FrameMismatch
                },
            ),
        r is Ok <==> !le(sample_rate, 0) && blocks@.len() > 0
            && forall|b: int| 0 <= b < blocks@.len() ==> !block_differs(#[trigger] blocks@[b], blocks@[0]),
        r matches Ok(s) ==> {
            &&& s@.samples.len() == grid_rows(blocks@[0]).len()
            &&& forall|c: int| 0 <= c < s@.samples.len() ==> #[trigger] s@.samples[c] == glued(block_contents(blocks@), c)
            &&& s@.num_time_steps == grid_width(blocks@[0]) * blocks@.len()
            &&& s@.sample_rate == sample_rate
            &&& s@.comment is None
        },
{
    if less_or_equal(sample_rate, 0) {
        return Err(BlockAdapterError::SampleRateZeroOrNeg);
    }
    let nb = blocks.len();
    if nb == 0 {
        return Err(BlockAdapterError::EmptyBlockList);
    }
    let channels = blocks[0].nrows();
    let frames = blocks[0].ncols();
    let mut b: usize = 0;
    while b < nb
        invariant
            nb == blocks@.len(),
            channels == grid_rows(blocks@[0]).len(),
            frames == grid_width(blocks@[0]),
            !le(sample_rate, 0),
            b <= nb,
            forall|e: int| 0 <= e < b ==> !block_differs(#[trigger] blocks@[e], blocks@[0]),
        decreases nb - b,
    {
        if blocks[b].nrows() != channels {
            assert(block_differs(blocks@[b as int], blocks@[0]));
            return Err(BlockAdapterError::ChannelMismatch);
        }
        if blocks[b].ncols() != frames {
            assert(block_differs(blocks@[b as int], blocks@[0]));
            return Err(BlockAdapterError::FrameMismatch);
        }
        b = b + 1;
    }
    let ghost contents = block_contents(blocks@);
    proof {
        assert(shape_fits(channels as nat, (frames * nb) as nat));
        crate::grid::lemma_shape_fits_axes(channels as nat, (frames * nb) as nat);
    }
    let mut rows: Vec<Vec<u64>> = Vec::new();
    let mut c: usize = 0;
    while c < channels
        invariant
            nb == blocks@.len(),
            contents == block_contents(blocks@),
            channels == grid_rows(blocks@[0]).len(),
            frames == grid_width(blocks@[0]),
            frames * nb <= usize::MAX,
            forall|e: int| 0 <= e < nb ==> !block_differs(#[trigger] blocks@[e], blocks@[0]),
            c <= channels,
            rows@.len() == c,
            forall|k: int| 0 <= k < c ==> #[trigger] rows@[k]@ == glued(contents, k),
            forall|k: int| 0 <= k < c ==> #[trigger] rows@[k]@.len() == frames * nb,
        decreases channels - c,
    {
        let mut row: Vec<u64> = Vec::new();
        let mut k: usize = 0;
        while k < nb
            invariant
                nb == blocks@.len(),
                contents == block_contents(blocks@),
                channels == grid_rows(blocks@[0]).len(),
                frames == grid_width(blocks@[0]),
                frames * nb <= usize::MAX,
                forall|e: int| 0 <= e < nb ==> !block_differs(#[trigger] blocks@[e], blocks@[0]),
                c < channels,
                k <= nb,
                row@ == glued(contents.take(k as int), c as int),
                row@.len() == frames * k,
            decreases nb - k,
        {
            assert(!block_differs(blocks@[k as int], blocks@[0]));
            let _ = blocks[k].ncols();
            let part = blocks[k].row(c);
            assert(contents.take(k + 1).drop_last() =~= contents.take(k as int));
            assert(contents.take(k + 1).last() == grid_rows(blocks@[k as int]));
            let mut j: usize = 0;
            let ghost before = row@;
            while j < frames
                invariant
                    part@.len() == frames,
                    j <= frames,
                    row@ == before + part@.take(j as int),
                decreases frames - j,
            {
                row.push(part[j]);
                j = j + 1;
                assert(row@ =~= before + part@.take(j as int));
            }
            assert(part@.take(frames as int) =~= part@);
            assert(frames * (k + 1) == frames * k + frames) by (nonlinear_arith);
            assert(frames * (k + 1) <= frames * nb) by (nonlinear_arith) requires k + 1 <= nb;
            k = k + 1;
        }
        assert(contents.take(nb as int) =~= contents);
        rows.push(row);
        c = c + 1;
    }
    assert forall|k: int| 0 <= k < channels implies #[trigger] rows_view(rows@)[k].len() == frames * nb by {}
    match SampleGrid::from_rows(&rows, frames * nb) {
        Some(g) => {
            match TimeSignal::new(g, sample_rate) {
                Ok(s) => Ok(s),
                Err(e) => Err(BlockAdapterError::Signal(e)),
            }
        },
        None => Err(BlockAdapterError::FrameMismatch),
    }
}

} // verus!
