//! Cutting time signals to a range of samples.
use vstd::prelude::*;
use crate::grid::{SampleGrid, rectangular, rows_view};
use crate::signal::{SignalError, TimeSignal};

verus! {

/// Why a signal could not be trimmed.
#[derive(Debug, Clone, Copy, PartialEq, Eq, Structural)]
pub enum TimeError {
    InvalidTrimRange { start: usize, end: usize, signal_len: usize },
    Signal(SignalError),
}

/// The end position a possibly negative `end_sample` stands for: itself when
/// not negative, else that many samples before the end (at least 0).
pub open spec fn resolved_end(end_sample: i64, signal_len: nat) -> int {
    if end_sample < 0 {
        if signal_len >= -end_sample { signal_len + end_sample } else { 0 }
    } else {
        (end_sample as usize) as int
    }
}

/// A negative end counts back from the signal's end: `-k` stands for the
/// position `k` samples before the end, and for 0 when the signal is shorter
/// than `k`; a non-negative end that fits a `usize` stands for itself.
pub proof fn law_negative_end_counts_back(end_sample: i64, signal_len: nat)
    ensures
        0 <= end_sample <= usize::MAX ==> resolved_end(end_sample, signal_len) == end_sample,
        end_sample < 0 && signal_len + end_sample >= 0 ==> resolved_end(end_sample, signal_len)
            == signal_len + end_sample,
        end_sample < 0 && signal_len + end_sample < 0 ==> resolved_end(end_sample, signal_len) == 0,
        resolved_end(end_sample, signal_len) >= 0,
        end_sample < 0 ==> resolved_end(end_sample, signal_len) < signal_len || signal_len == 0,
{
}

/// A trimmed channel holds exactly the samples `start..end` of the channel,
/// in order: sample `k` of the result is sample `start + k` of the input.
pub proof fn law_trim_keeps_the_range(rows: Seq<Seq<u64>>, n: nat, start: int, end: int, c: int, k: int)
    requires
        rectangular(rows, n),
        0 <= start <= end <= n,
        0 <= c < rows.len(),
    ensures
        trimmed_rows(rows, start, end).len() == rows.len(),
        trimmed_rows(rows, start, end)[c].len() == end - start,
        0 <= k < end - start ==> trimmed_rows(rows, start, end)[c][k] == rows[c][start + k],
{
}

/// Every channel cut to `start..end`.
pub open spec fn trimmed_rows(rows: Seq<Seq<u64>>, start: int, end: int) -> Seq<Seq<u64>> {
    rows.map_values(|r: Seq<u64>| r.subrange(start, end))
}

/// Trimming a signal to its whole length keeps every channel.
pub proof fn law_trim_whole_range(rows: Seq<Seq<u64>>, n: nat)
    requires
        rectangular(rows, n),
    ensures
        trimmed_rows(rows, 0, n as int) == rows,
{
    assert forall|c: int| 0 <= c < rows.len() implies #[trigger] trimmed_rows(rows, 0, n as int)[c]
        == rows[c] by {
        assert(rows[c].subrange(0, n as int) =~= rows[c]);
    }
    assert(trimmed_rows(rows, 0, n as int) =~= rows);
}

/// Trimming twice is trimming once: cutting `start..end` and then
/// `inner_start..inner_end` of the result keeps
/// `start + inner_start .. start + inner_end` of the untrimmed signal.
pub proof fn law_trim_twice(rows: Seq<Seq<u64>>, n: nat, start: int, end: int, inner_start: int, inner_end: int)
    requires
        rectangular(rows, n),
        0 <= start <= end <= n,
        0 <= inner_start <= inner_end <= end - start,
    ensures
        trimmed_rows(trimmed_rows(rows, start, end), inner_start, inner_end) == trimmed_rows(
            rows,
            start + inner_start,
            start + inner_end,
        ),
{
    let twice = trimmed_rows(trimmed_rows(rows, start, end), inner_start, inner_end);
    let once = trimmed_rows(rows, start + inner_start, start + inner_end);
    assert forall|c: int| 0 <= c < rows.len() implies #[trigger] twice[c] == once[c] by {
        assert(rows[c].subrange(start, end).subrange(inner_start, inner_end) =~= rows[c].subrange(
            start + inner_start,
            start + inner_end,
        ));
    }
    assert(twice =~= once);
}

/// Copies `row[start..end]`.
fn slice_row(row: &Vec<u64>, start: usize, end: usize) -> (r: Vec<u64>)
    requires
        start <= end <= row@.len(),
    ensures
        r@ == row@.subrange(start as int, end as int),
{
    let mut out: Vec<u64> = Vec::new();
    let mut k: usize = start;
    while k < end
        invariant
            start <= k <= end,
            end <= row@.len(),
            out@ == row@.subrange(start as int, k as int),
        decreases end - k,
    {
        out.push(row[k]);
        k = k + 1;
        assert(out@ =~= row@.subrange(start as int, k as int));
    }
    out
}

/// The samples `start..end` of every channel, as a new signal at the same
/// sample rate, without comment.
pub fn truncate_range(signal: &TimeSignal, start: usize, end: usize) -> (r: TimeSignal)
    requires
        start <= end <= signal@.num_time_steps,
    ensures
        r@.samples == trimmed_rows(signal@.samples, start as int, end as int),
        r@.num_time_steps == end - start,
        r@.sample_rate == signal@.sample_rate,
        r@.comment is None,
{
    let channels = signal.num_channels();
    let steps = signal.num_time_steps();
    let rate = signal.sample_rate();
    let mut rows: Vec<Vec<u64>> = Vec::new();
    let mut c: usize = 0;
    while c < channels
        invariant
            channels == signal@.samples.len(),
            steps == signal@.num_time_steps,
            rectangular(signal@.samples, steps as nat),
            start <= end <= steps,
            c <= channels,
            rows_view(rows@) == trimmed_rows(signal@.samples.take(c as int), start as int, end as int),
            forall|k: int| 0 <= k < rows@.len() ==> #[trigger] rows@[k]@.len() == end - start,
        decreases channels - c,
    {
        let whole = signal.channel(c);
        let row = slice_row(&whole, start, end);
        let ghost prev = rows@;
        rows.push(row);
        assert(rows_view(prev).len() == prev.len());
        assert(rows_view(rows@) =~= rows_view(prev).push(row@));
        assert(signal@.samples.take(c + 1) =~= signal@.samples.take(c as int).push(signal@.samples[c as int]));
        assert(rows_view(rows@) =~= trimmed_rows(signal@.samples.take(c + 1), start as int, end as int));
        c = c + 1;
    }
    assert(signal@.samples.take(channels as int) =~= signal@.samples);
    proof { crate::grid::lemma_shape_fits_shrink(channels as nat, steps as nat, (end - start) as nat); }
    TimeSignal::new(SampleGrid::from_rows(&rows, end - start).unwrap(), rate).unwrap()
}

/// The first `len` samples of every channel, as a new signal at the same
/// sample rate, without comment.
pub fn truncate(signal: &TimeSignal, len: usize) -> (r: TimeSignal)
    requires
        len <= signal@.num_time_steps,
    ensures
        r@.samples == trimmed_rows(signal@.samples, 0, len as int),
        r@.num_time_steps == len,
        r@.sample_rate == signal@.sample_rate,
        r@.comment is None,
{
    truncate_range(signal, 0, len)
}

/// Cuts every channel to the samples `start_sample..end`, where a negative
/// `end_sample` counts back from the signal's end (`-1` drops the last
/// sample). Fails with `InvalidTrimRange` unless `start < end <= length`.
/// The result keeps the sample rate and has no comment.
pub fn trim_samples(signal: &TimeSignal, start_sample: usize, end_sample: i64) -> (r: Result<
    TimeSignal,
    TimeError,
>)
    requires
        end_sample != i64::MIN,
    ensures
        ({
            let end = resolved_end(end_sample, signal@.num_time_steps);
            &&& r is Err <==> (start_sample >= end || end > signal@.num_time_steps)
            &&& r matches Err(e) ==> e == TimeError::InvalidTrimRange {
                start: start_sample,
                end: end as usize,
                signal_len: signal@.num_time_steps as usize,
            }
            &&& r matches Ok(t) ==> t@.samples == trimmed_rows(signal@.samples, start_sample as int, end)
                && t@.num_time_steps == end - start_sample
                && t@.sample_rate == signal@.sample_rate && t@.comment is None
        }),
{
    let signal_len = signal.num_time_steps();
    let end: usize = if end_sample < 0 {
        let back = (-end_sample) as u64;
        if (signal_len as u64) >= back { signal_len - (back as usize) } else { 0 }
    } else {
        end_sample as usize
    };
    if start_sample >= end || end > signal_len {
        return Err(TimeError::InvalidTrimRange { start: start_sample, end, signal_len });
    }
    Ok(truncate_range(signal, start_sample, end))
}

} // verus!
