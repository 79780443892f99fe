//! Interleaved sample order, as audio files and devices store it: frame by
//! frame, each frame holding one sample of every channel in channel order.
use vstd::prelude::*;
use crate::grid::{SampleGrid, grid_rows, grid_width, rectangular, rows_view, shape_fits};
use crate::signal::TimeSignal;

verus! {

/// The samples of `num_channels` channels of `num_frames` frames in
/// interleaved order: position `i` holds frame `i / num_channels` of channel
/// `i % num_channels`.
pub open spec fn interleaved(rows: Seq<Seq<u64>>, num_channels: nat, num_frames: nat) -> Seq<u64> {
    Seq::new(num_channels * num_frames, |i: int| rows[i % (num_channels as int)][i / (num_channels as int)])
}

/// The channels held in an interleaved sequence of `num_channels` channels:
/// channel `c` takes every `num_channels`-th sample from position `c`, one per
/// whole frame; samples of an incomplete last frame are left out.
pub open spec fn deinterleaved(samples: Seq<u64>, num_channels: nat) -> Seq<Seq<u64>> {
    Seq::new(
        num_channels,
        |c: int| Seq::new(samples.len() / num_channels, |t: int| samples[t * num_channels + c]),
    )
}

/// Position `t * c + k` of an interleaved sequence is sample `t` of channel `k`.
proof fn lemma_position(t: int, k: int, c: int)
    requires
        c > 0,
        0 <= k < c,
        t >= 0,
    ensures
        (t * c + k) % c == k,
        (t * c + k) / c == t,
{
    vstd::arithmetic::div_mod::lemma_fundamental_div_mod_converse(t * c + k, c, t, k);
}

/// Interleaving a signal's channels and reading them back from the
/// interleaved samples gives every channel back.
pub proof fn law_deinterleave_undoes_interleave(rows: Seq<Seq<u64>>, num_frames: nat)
    requires
        rows.len() > 0,
        rectangular(rows, num_frames),
    ensures
        deinterleaved(interleaved(rows, rows.len(), num_frames), rows.len()) == rows,
{
    let c = rows.len();
    let flat = interleaved(rows, c, num_frames);
    assert(flat.len() / c == num_frames) by {
        vstd::arithmetic::div_mod::lemma_fundamental_div_mod_converse(
            (c * num_frames) as int,
            c as int,
            num_frames as int,
            0,
        );
        vstd::arithmetic::mul::lemma_mul_is_commutative(c as int, num_frames as int);
    }
    let back = deinterleaved(flat, c);
    assert forall|k: int| 0 <= k < c implies #[trigger] back[k] == rows[k] by {
        assert forall|t: int| 0 <= t < num_frames implies back[k][t] == rows[k][t] by {
            lemma_position(t, k, c as int);
            assert(t * c + k < c * num_frames) by (nonlinear_arith)
                requires 0 <= t < num_frames, 0 <= k < c;
        }
        assert(back[k] =~= rows[k]);
    }
    assert(back =~= rows);
}

/// The samples of `signal` in interleaved order.
pub fn interleave(signal: &TimeSignal) -> (samples: Vec<u64>)
    ensures
        samples@ == interleaved(signal@.samples, signal@.samples.len(), signal@.num_time_steps),
{
    let channels = signal.num_channels();
    let frames = signal.num_time_steps();
    let ghost rows = signal@.samples;
    let grid = signal.time_data();
    let _ = grid.ncols();
    proof {
        assert(channels * frames <= isize::MAX) by (nonlinear_arith)
            requires
                (if channels == 0 { 1 } else { channels as int }) * (if frames == 0 { 1 } else { frames as int })
                    <= isize::MAX;
    }
    let mut out: Vec<u64> = Vec::new();
    let mut t: usize = 0;
    while t < frames
        invariant
            channels == rows.len(),
            frames == signal@.num_time_steps,
            rows == signal@.samples,
            grid_rows(*grid) == rows,
            grid_width(*grid) == frames,
            rectangular(rows, frames as nat),
            channels * frames <= isize::MAX,
            t <= frames,
            out@ == interleaved(rows, channels as nat, t as nat),
        decreases frames - t,
    {
        let mut k: usize = 0;
        while k < channels
            invariant
                channels == rows.len(),
                grid_rows(*grid) == rows,
                grid_width(*grid) == frames,
                rectangular(rows, frames as nat),
                channels * frames <= isize::MAX,
                t < frames,
                k <= channels,
                out@.len() == t * channels + k,
                forall|i: int| 0 <= i < t * channels + k ==> #[trigger] out@[i]
                    == rows[i % (channels as int)][i / (channels as int)],
            decreases channels - k,
        {
            proof {
                lemma_position(t as int, k as int, channels as int);
                assert(t * channels + k < channels * frames) by (nonlinear_arith)
                    requires t < frames, k < channels;
            }
            let v = grid.get(k, t).unwrap();
            out.push(v);
            k = k + 1;
        }
        proof {
            assert((t + 1) * channels == t * channels + channels) by (nonlinear_arith);
            assert(channels * (t + 1) == (t + 1) * channels) by (nonlinear_arith);
        }
        t = t + 1;
        assert(out@ =~= interleaved(rows, channels as nat, t as nat));
    }
    out
}

/// The channels of `samples`, interleaved in `num_channels` channels, as a
/// grid with one row per channel; an incomplete last frame is dropped.
pub fn deinterleave(samples: &Vec<u64>, num_channels: usize) -> (g: SampleGrid)
    requires
        num_channels > 0,
        shape_fits(num_channels as nat, (samples@.len() / (num_channels as nat)) as nat),
    ensures
        grid_rows(g) == deinterleaved(samples@, num_channels as nat),
        grid_width(g) == samples@.len() / (num_channels as nat),
{
    let frames = samples.len() / num_channels;
    proof {
        assert(frames * num_channels <= samples@.len()) by (nonlinear_arith)
            requires num_channels > 0, frames == samples@.len() / (num_channels as nat);
    }
    let mut rows: Vec<Vec<u64>> = Vec::new();
    let mut c: usize = 0;
    while c < num_channels
        invariant
            num_channels > 0,
            frames == samples@.len() / (num_channels as nat),
            frames * num_channels <= samples@.len(),
            samples@.len() <= usize::MAX,
            c <= num_channels,
            rows@.len() == c,
            forall|k: int| 0 <= k < c ==> #[trigger] rows@[k]@ == deinterleaved(samples@, num_channels as nat)[k],
        decreases num_channels - c,
    {
        let mut row: Vec<u64> = Vec::new();
        let mut t: usize = 0;
        while t < frames
            invariant
                num_channels > 0,
                frames * num_channels <= samples@.len(),
                samples@.len() <= usize::MAX,
                c < num_channels,
                t <= frames,
                row@.len() == t,
                forall|j: int| 0 <= j < t ==> #[trigger] row@[j] == samples@[j * num_channels + c],
            decreases frames - t,
        {
            proof {
                assert(t * num_channels + c < frames * num_channels) by (nonlinear_arith)
                    requires t < frames, c < num_channels;
            }
            row.push(samples[t * num_channels + c]);
            t = t + 1;
        }
        assert(row@ =~= deinterleaved(samples@, num_channels as nat)[c as int]);
        rows.push(row);
        c = c + 1;
    }
    assert(rows_view(rows@) =~= deinterleaved(samples@, num_channels as nat));
    SampleGrid::from_rows(&rows, frames).unwrap()
}

} // verus!
