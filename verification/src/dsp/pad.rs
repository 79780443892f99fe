//! Zero padding of time signals.
use vstd::prelude::*;
use crate::grid::{SampleGrid, rectangular, rows_view, shape_fits};
use crate::signal::{SignalError, TimeSignal};
use crate::dsp::time::trimmed_rows;
use crate::signal::time_signal::rate_spaces_steps;

verus! {

/// Where padding goes.
#[derive(Debug, Clone, Copy, PartialEq, Eq, Structural)]
pub enum PadMode {
    After,
    Before,
}

/// `width` zero patterns.
pub open spec fn zeros(width: nat) -> Seq<u64> {
    Seq::new(width, |_i: int| 0u64)
}

/// A channel with `width` zeros added on the side `mode` names.
pub open spec fn padded(row: Seq<u64>, width: nat, mode: PadMode) -> Seq<u64> {
    match mode {
        PadMode::After => row + zeros(width),
        PadMode::Before => zeros(width) + row,
    }
}

/// Every channel padded.
pub open spec fn padded_rows(rows: Seq<Seq<u64>>, width: nat, mode: PadMode) -> Seq<Seq<u64>> {
    rows.map_values(|r: Seq<u64>| padded(r, width, mode))
}

/// Padding adds exactly `width` zero samples on the chosen side and keeps the
/// channel's samples, in order, on the other.
pub proof fn law_pad_adds_zeros_on_one_side(row: Seq<u64>, width: nat, mode: PadMode, k: int)
    ensures
        padded(row, width, mode).len() == row.len() + width,
        mode == PadMode::After && 0 <= k < row.len() ==> padded(row, width, mode)[k] == row[k],
        mode == PadMode::After && row.len() <= k < row.len() + width ==> padded(row, width, mode)[k] == 0u64,
        mode == PadMode::Before && 0 <= k < width ==> padded(row, width, mode)[k] == 0u64,
        mode == PadMode::Before && 0 <= k < row.len() ==> padded(row, width, mode)[width + k] == row[k],
{
}

/// Trimming the padding off again gives the signal back: the first `n`
/// samples after padding at the end, the samples from `width` on after
/// padding at the start.
pub proof fn law_trim_undoes_pad(rows: Seq<Seq<u64>>, n: nat, width: nat, mode: PadMode)
    requires
        rectangular(rows, n),
    ensures
        trimmed_rows(
            padded_rows(rows, width, mode),
            if mode == PadMode::After { 0 } else { width as int },
            if mode == PadMode::After { n as int } else { (width + n) as int },
        ) == rows,
{
    let start: int = if mode == PadMode::After { 0 } else { width as int };
    let back = trimmed_rows(padded_rows(rows, width, mode), start, start + n);
    assert forall|c: int| 0 <= c < rows.len() implies #[trigger] back[c] == rows[c] by {
        assert(padded(rows[c], width, mode).subrange(start, start + n) =~= rows[c]);
    }
    assert(back =~= rows);
}

/// Builds one padded channel.
fn pad_row(row: Vec<u64>, width: usize, mode: PadMode) -> (r: Vec<u64>)
    requires
        row@.len() + width <= usize::MAX,
    ensures
        r@ == padded(row@, width as nat, mode),
{
    let mut out: Vec<u64> = Vec::new();
    if let PadMode::Before = mode {
        let mut k: usize = 0;
        while k < width
            invariant
                k <= width,
                out@ == zeros(k as nat),
            decreases width - k,
        {
            out.push(0);
            k = k + 1;
            assert(out@ =~= zeros(k as nat));
        }
    }
    let n = row.len();
    let ghost start = out@;
    let mut k: usize = 0;
    while k < n
        invariant
            n == row@.len(),
            k <= n,
            out@ == start + row@.take(k as int),
        decreases n - k,
    {
        out.push(row[k]);
        k = k + 1;
        assert(out@ =~= start + row@.take(k as int));
    }
    assert(row@.take(n as int) =~= row@);
    if let PadMode::After = mode {
        let ghost base = out@;
        let mut k: usize = 0;
        while k < width
            invariant
                k <= width,
                out@ == base + zeros(k as nat),
            decreases width - k,
        {
            out.push(0);
            k = k + 1;
            assert(out@ =~= base + zeros(k as nat));
        }
    }
    proof {
        match mode {
            PadMode::After => {},
            PadMode::Before => { assert(out@ =~= zeros(width as nat) + row@); },
        }
    }
    out
}

/// The signal with `pad_width` zero samples added to every channel, after or
/// before its samples. The result keeps the sample rate and has no comment.
/// The longer signal must fit in an array, and its time axis must be
/// possible at the rate (a one-sample signal at a NaN or infinite rate
/// cannot grow).
pub fn pad_zeros(signal: &TimeSignal, pad_width: usize, mode: PadMode) -> (r: Result<TimeSignal, SignalError>)
    requires
        signal@.num_time_steps + pad_width <= usize::MAX,
        shape_fits(signal@.samples.len(), signal@.num_time_steps + pad_width as nat),
        rate_spaces_steps(signal@.sample_rate, signal@.num_time_steps + pad_width as nat),
    ensures
        r matches Ok(p) && p@.samples == padded_rows(signal@.samples, pad_width as nat, mode)
            && p@.num_time_steps == signal@.num_time_steps + pad_width
            && p@.sample_rate == signal@.sample_rate && p@.comment is None,
{
    let channels = signal.num_channels();
    let steps = signal.num_time_steps();
    let rate = signal.sample_rate();
    let mut rows: Vec<Vec<u64>> = Vec::new();
    let mut c: usize = 0;
    while c < channels
        invariant
            channels == signal@.samples.len(),
            steps == signal@.num_time_steps,
            rectangular(signal@.samples, steps as nat),
            steps + pad_width <= usize::MAX,
            c <= channels,
            rows_view(rows@) == padded_rows(signal@.samples.take(c as int), pad_width as nat, mode),
            forall|k: int| 0 <= k < rows@.len() ==> #[trigger] rows@[k]@.len() == steps + pad_width,
        decreases channels - c,
    {
        let row = pad_row(signal.channel(c), pad_width, mode);
        let ghost prev = rows@;
        rows.push(row);
        assert(rows_view(prev).len() == prev.len());
        assert(rows_view(rows@) =~= rows_view(prev).push(row@));
        assert(signal@.samples.take(c + 1) =~= signal@.samples.take(c as int).push(signal@.samples[c as int]));
        assert(rows_view(rows@) =~= padded_rows(signal@.samples.take(c + 1), pad_width as nat, mode));
        c = c + 1;
    }
    assert(signal@.samples.take(channels as int) =~= signal@.samples);
    TimeSignal::new(SampleGrid::from_rows(&rows, steps + pad_width).unwrap(), rate)
}

} // verus!
