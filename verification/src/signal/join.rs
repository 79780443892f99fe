//! Joining and mixing several signals.
use vstd::prelude::*;
use crate::binary64::{eq, equal};
use crate::grid::{SampleGrid, ComplexGrid, grid_rows, grid_width, rectangular, rows_view, shape_fits};
use crate::signal::SignalError;
use crate::signal::combine::{combine_comments, combined_comment, comment_views};
use crate::signal::time_signal::{TimeSignal, TimeSignalModel, opt_str_view};
use crate::signal::freq_signal::{FreqSignal, FreqSignalModel};

verus! {

/// The rows of several tables, one after another.
pub open spec fn stacked(parts: Seq<Seq<Seq<u64>>>) -> Seq<Seq<u64>>
    decreases parts.len(),
{
    if parts.len() == 0 {
        seq![]
    } else {
        stacked(parts.drop_last()) + parts.last()
    }
}

/// The number of rows of several tables together.
pub open spec fn row_total(parts: Seq<Seq<Seq<u64>>>) -> nat
    decreases parts.len(),
{
    if parts.len() == 0 {
        0
    } else {
        row_total(parts.drop_last()) + parts.last().len()
    }
}

/// Joining keeps every channel, in input order: the joined signal has as
/// many channels as its inputs together, and channel `k` of input `i` is
/// channel `k` after all channels of the inputs before `i`.
pub proof fn law_join_keeps_channels_in_order(parts: Seq<Seq<Seq<u64>>>, i: int, k: int)
    requires
        0 <= i < parts.len(),
        0 <= k < parts[i].len(),
    ensures
        stacked(parts).len() == row_total(parts),
        row_total(parts.take(i)) + k < row_total(parts),
        stacked(parts)[row_total(parts.take(i)) + k] == parts[i][k],
    decreases parts.len(),
{
    lemma_stacked_len(parts);
    let front = parts.drop_last();
    if i == parts.len() - 1 {
        assert(parts.take(i) =~= front);
        lemma_stacked_len(front);
    } else {
        law_join_keeps_channels_in_order(front, i, k);
        assert(front.take(i) =~= parts.take(i));
    }
}

/// The joined rows are as many as the inputs' rows together.
proof fn lemma_stacked_len(parts: Seq<Seq<Seq<u64>>>)
    ensures
        stacked(parts).len() == row_total(parts),
    decreases parts.len(),
{
    if parts.len() > 0 {
        lemma_stacked_len(parts.drop_last());
    }
}

/// The models of a list of time signals.
pub open spec fn time_models(signals: Seq<TimeSignal>) -> Seq<TimeSignalModel> {
    signals.map_values(|s: TimeSignal| s@)
}

/// The channels of each time signal.
pub open spec fn time_channels(models: Seq<TimeSignalModel>) -> Seq<Seq<Seq<u64>>> {
    models.map_values(|m: TimeSignalModel| m.samples)
}

/// The comment of each time signal.
pub open spec fn time_comments(models: Seq<TimeSignalModel>) -> Seq<Option<Seq<char>>> {
    models.map_values(|m: TimeSignalModel| m.comment)
}

/// Some time signal's sample rate does not compare equal to the first one's
/// (a NaN rate equals none, itself included).
pub open spec fn time_rates_differ(models: Seq<TimeSignalModel>) -> bool {
    exists|i: int| 0 <= i < models.len() && !eq(#[trigger] models[i].sample_rate, models[0].sample_rate)
}

/// Some time signal's length differs from the first one's.
pub open spec fn time_lengths_differ(models: Seq<TimeSignalModel>) -> bool {
    exists|i: int| 0 <= i < models.len() && #[trigger] models[i].num_time_steps != models[0].num_time_steps
}

/// Some time signal's channel count differs from the first one's.
pub open spec fn time_channel_counts_differ(models: Seq<TimeSignalModel>) -> bool {
    exists|i: int| 0 <= i < models.len() && #[trigger] models[i].samples.len() != models[0].samples.len()
}

/// The time signals can be joined into one array: the joined shape fits.
pub open spec fn time_join_fits(models: Seq<TimeSignalModel>) -> bool {
    models.len() > 0 && !time_rates_differ(models) && !time_lengths_differ(models)
        ==> shape_fits(stacked(time_channels(models)).len(), models[0].num_time_steps)
}

/// The stacked rows of the first `k` parts, followed by the first `c` rows of part `k`.
proof fn lemma_stacked_step(parts: Seq<Seq<Seq<u64>>>, k: int)
    requires
        0 <= k < parts.len(),
    ensures
        stacked(parts.take(k + 1)) == stacked(parts.take(k)) + parts[k],
{
    assert(parts.take(k + 1).drop_last() =~= parts.take(k));
}

/// A prefix of the parts stacks to no more rows than all of them.
proof fn lemma_stacked_prefix_len(parts: Seq<Seq<Seq<u64>>>, k: int)
    requires
        0 <= k <= parts.len(),
    ensures
        stacked(parts.take(k)).len() <= stacked(parts).len(),
    decreases parts.len() - k,
{
    if k < parts.len() {
        lemma_stacked_step(parts, k);
        lemma_stacked_prefix_len(parts, k + 1);
    } else {
        assert(parts.take(k) =~= parts);
    }
}

/// Stacks the channels of `parts` (given by their rows), checking nothing.
fn stack_rows(parts: &Vec<&SampleGrid>, width: usize) -> (g: SampleGrid)
    requires
        forall|i: int| 0 <= i < parts@.len() ==> grid_width(*#[trigger] parts@[i]) == width,
        shape_fits(stacked(parts@.map_values(|p: &SampleGrid| grid_rows(*p))).len(), width as nat),
    ensures
        grid_rows(g) == stacked(parts@.map_values(|p: &SampleGrid| grid_rows(*p))),
        grid_width(g) == width,
{
    let ghost all = parts@.map_values(|p: &SampleGrid| grid_rows(*p));
    let n = parts.len();
    let mut rows: Vec<Vec<u64>> = Vec::new();
    let mut i: usize = 0;
    while i < n
        invariant
            n == parts@.len(),
            all == parts@.map_values(|p: &SampleGrid| grid_rows(*p)),
            forall|k: int| 0 <= k < parts@.len() ==> grid_width(*#[trigger] parts@[k]) == width,
            i <= n,
            rows_view(rows@) == stacked(all.take(i as int)),
            forall|r: int| 0 <= r < rows@.len() ==> #[trigger] rows@[r]@.len() == width,
        decreases n - i,
    {
        let part = parts[i];
        let m = part.nrows();
        let w = part.ncols();
        let mut c: usize = 0;
        while c < m
            invariant
                n == parts@.len(),
                i < n,
                all == parts@.map_values(|p: &SampleGrid| grid_rows(*p)),
                part == parts@[i as int],
                m == grid_rows(*part).len(),
                w == width,
                rectangular(grid_rows(*part), w as nat),
                c <= m,
                rows_view(rows@) == stacked(all.take(i as int)) + grid_rows(*part).take(c as int),
                forall|r: int| 0 <= r < rows@.len() ==> #[trigger] rows@[r]@.len() == width,
            decreases m - c,
        {
            let row = part.row(c);
            let ghost prev = rows@;
            rows.push(row);
            assert(rows@ == prev.push(row));
            assert(rows_view(prev).len() == prev.len());
            assert(rows_view(rows@) =~= rows_view(prev).push(row@));
            assert(grid_rows(*part).take(c + 1) =~= grid_rows(*part).take(c as int).push(grid_rows(*part)[c as int]));
            assert(rows_view(rows@) =~= stacked(all.take(i as int)) + grid_rows(*part).take(c + 1));
            c = c + 1;
        }
        proof {
            lemma_stacked_step(all, i as int);
            assert(grid_rows(*part).take(m as int) =~= grid_rows(*part));
        }
        i = i + 1;
    }
    assert(all.take(n as int) =~= all);
    assert(rectangular(rows_view(rows@), width as nat));
    SampleGrid::from_rows(&rows, width).unwrap()
}

/// Joins the channels of several time signals of equal sample rate and
/// length into one signal, in order. Its comment tags each input comment
/// with the input's position (`signal1: ...`) and joins them with ` | `.
/// Fails with `EmptySignalList` for no input, then `SampleRateMismatch`, then
/// `TimeStepMismatch`.
pub fn join_signals(signals: &[TimeSignal]) -> (r: Result<TimeSignal, SignalError>)
    requires
        time_join_fits(time_models(signals@)),
    ensures
        signals@.len() == 0 ==> r == Err::<TimeSignal, SignalError>(SignalError::EmptySignalList),
        signals@.len() > 0 && time_rates_differ(time_models(signals@))
            ==> r == Err::<TimeSignal, SignalError>(SignalError::SampleRateMismatch),
        signals@.len() > 0 && !time_rates_differ(time_models(signals@))
            && time_lengths_differ(time_models(signals@))
            ==> r == Err::<TimeSignal, SignalError>(SignalError::TimeStepMismatch),
        r is Ok <==> signals@.len() > 0 && !time_rates_differ(time_models(signals@))
            && !time_lengths_differ(time_models(signals@)),
        r matches Ok(s) ==> {
            &&& s@.samples == stacked(time_channels(time_models(signals@)))
            &&& s@.num_time_steps == signals@[0]@.num_time_steps
            &&& s@.sample_rate == signals@[0]@.sample_rate
            &&& s@.comment == combined_comment(time_comments(time_models(signals@)))
        },
{
    let ghost models = time_models(signals@);
    let n = signals.len();
    if n == 0 {
        return Err(SignalError::EmptySignalList);
    }
    let rate = signals[0].sample_rate();
    let steps = signals[0].num_time_steps();
    let mut i: usize = 0;
    while i < n
        invariant
            n == signals@.len(),
            models == time_models(signals@),
            rate == models[0].sample_rate,
            i <= n,
            forall|k: int| 0 <= k < i ==> eq(#[trigger] models[k].sample_rate, rate),
        decreases n - i,
    {
        if !equal(signals[i].sample_rate(), rate) {
            assert(!eq(models[i as int].sample_rate, models[0].sample_rate));
            return Err(SignalError::SampleRateMismatch);
        }
        i = i + 1;
    }
    let mut i: usize = 0;
    while i < n
        invariant
            n == signals@.len(),
            models == time_models(signals@),
            steps == models[0].num_time_steps,
            !time_rates_differ(models),
            i <= n,
            forall|k: int| 0 <= k < i ==> #[trigger] models[k].num_time_steps == steps,
        decreases n - i,
    {
        if signals[i].num_time_steps() != steps {
            assert(models[i as int].num_time_steps != models[0].num_time_steps);
            return Err(SignalError::TimeStepMismatch);
        }
        i = i + 1;
    }
    let mut parts: Vec<&SampleGrid> = Vec::new();
    let mut comments: Vec<Option<&str>> = Vec::new();
    let mut i: usize = 0;
    while i < n
        invariant
            n == signals@.len(),
            models == time_models(signals@),
            steps == models[0].num_time_steps,
            !time_lengths_differ(models),
            i <= n,
            parts@.len() == i,
            comments@.len() == i,
            forall|k: int| 0 <= k < i ==> grid_rows(*#[trigger] parts@[k]) == models[k].samples,
            forall|k: int| 0 <= k < i ==> grid_width(*#[trigger] parts@[k]) == steps,
            forall|k: int| 0 <= k < i ==> opt_str_view(#[trigger] comments@[k]) == models[k].comment,
        decreases n - i,
    {
        assert(models[i as int].num_time_steps == models[0].num_time_steps);
        parts.push(signals[i].time_data());
        comments.push(signals[i].comment());
        i = i + 1;
    }
    assert(parts@.map_values(|p: &SampleGrid| grid_rows(*p)) =~= time_channels(models));
    let grid = stack_rows(&parts, steps);
    let comment = combine_comments(&comments);
    assert(comment_views(comments@) =~= time_comments(models));
    match TimeSignal::new(grid, rate) {
        Ok(joined) => {
            let joined = match comment {
                Some(c) => joined.with_comment(Some(c.as_str())),
                None => joined.with_comment(None),
            };
            Ok(joined)
        },
        Err(e) => Err(e),
    }
}

/// Checks that several time signals can be mixed sample by sample: there is
/// at least one, and all share the first one's sample rate, length and
/// channel count. The errors come in that order.
pub fn check_mixable(signals: &[TimeSignal]) -> (r: Result<(), SignalError>)
    ensures
        signals@.len() == 0 ==> r == Err::<(), SignalError>(SignalError::EmptySignalList),
        signals@.len() > 0 && time_rates_differ(time_models(signals@))
            ==> r == Err::<(), SignalError>(SignalError::SampleRateMismatch),
        signals@.len() > 0 && !time_rates_differ(time_models(signals@))
            && time_lengths_differ(time_models(signals@))
            ==> r == Err::<(), SignalError>(SignalError::TimeStepMismatch),
        signals@.len() > 0 && !time_rates_differ(time_models(signals@))
            && !time_lengths_differ(time_models(signals@))
            && time_channel_counts_differ(time_models(signals@))
            ==> r == Err::<(), SignalError>(SignalError::ChannelMismatch),
        r is Ok <==> signals@.len() > 0 && !time_rates_differ(time_models(signals@))
            && !time_lengths_differ(time_models(signals@))
            && !time_channel_counts_differ(time_models(signals@)),
{
    let ghost models = time_models(signals@);
    let n = signals.len();
    if n == 0 {
        return Err(SignalError::EmptySignalList);
    }
    let rate = signals[0].sample_rate();
    let steps = signals[0].num_time_steps();
    let channels = signals[0].num_channels();
    let mut i: usize = 0;
    while i < n
        invariant
            n == signals@.len(),
            models == time_models(signals@),
            rate == models[0].sample_rate,
            i <= n,
            forall|k: int| 0 <= k < i ==> eq(#[trigger] models[k].sample_rate, rate),
        decreases n - i,
    {
        if !equal(signals[i].sample_rate(), rate) {
            assert(!eq(models[i as int].sample_rate, models[0].sample_rate));
            return Err(SignalError::SampleRateMismatch);
        }
        i = i + 1;
    }
    let mut i: usize = 0;
    while i < n
        invariant
            n == signals@.len(),
            models == time_models(signals@),
            steps == models[0].num_time_steps,
            !time_rates_differ(models),
            i <= n,
            forall|k: int| 0 <= k < i ==> #[trigger] models[k].num_time_steps == steps,
        decreases n - i,
    {
        if signals[i].num_time_steps() != steps {
            assert(models[i as int].num_time_steps != models[0].num_time_steps);
            return Err(SignalError::TimeStepMismatch);
        }
        i = i + 1;
    }
    let mut i: usize = 0;
    while i < n
        invariant
            n == signals@.len(),
            models == time_models(signals@),
            channels == models[0].samples.len(),
            !time_rates_differ(models),
            !time_lengths_differ(models),
            i <= n,
            forall|k: int| 0 <= k < i ==> #[trigger] models[k].samples.len() == channels,
        decreases n - i,
    {
        if signals[i].num_channels() != channels {
            assert(models[i as int].samples.len() != models[0].samples.len());
            return Err(SignalError::ChannelMismatch);
        }
        i = i + 1;
    }
    Ok(())
}

/// The models of a list of frequency signals.
pub open spec fn freq_models(signals: Seq<FreqSignal>) -> Seq<FreqSignalModel> {
    signals.map_values(|s: FreqSignal| s@)
}

/// The real parts of each spectrum.
pub open spec fn freq_re_channels(models: Seq<FreqSignalModel>) -> Seq<Seq<Seq<u64>>> {
    models.map_values(|m: FreqSignalModel| m.re)
}

/// The imaginary parts of each spectrum.
pub open spec fn freq_im_channels(models: Seq<FreqSignalModel>) -> Seq<Seq<Seq<u64>>> {
    models.map_values(|m: FreqSignalModel| m.im)
}

/// The comment of each spectrum.
pub open spec fn freq_comments(models: Seq<FreqSignalModel>) -> Seq<Option<Seq<char>>> {
    models.map_values(|m: FreqSignalModel| m.comment)
}

/// Some spectrum's sample rate does not compare equal to the first one's
/// (a NaN rate equals none, itself included).
pub open spec fn freq_rates_differ(models: Seq<FreqSignalModel>) -> bool {
    exists|i: int| 0 <= i < models.len() && !eq(#[trigger] models[i].sample_rate, models[0].sample_rate)
}

/// Some spectrum stands for another time length than the first one.
pub open spec fn freq_lengths_differ(models: Seq<FreqSignalModel>) -> bool {
    exists|i: int| 0 <= i < models.len() && #[trigger] models[i].n_samples != models[0].n_samples
}

/// Some spectrum has another number of bins than the first one.
pub open spec fn freq_bin_counts_differ(models: Seq<FreqSignalModel>) -> bool {
    exists|i: int| 0 <= i < models.len() && #[trigger] models[i].num_freq_bins != models[0].num_freq_bins
}

/// The spectra can be joined into one array: the joined shape fits.
pub open spec fn freq_join_fits(models: Seq<FreqSignalModel>) -> bool {
    models.len() > 0 && !freq_rates_differ(models) && !freq_lengths_differ(models)
        && !freq_bin_counts_differ(models)
        ==> shape_fits(stacked(freq_re_channels(models)).len(), models[0].num_freq_bins)
}

/// Joins the channels of several spectra of equal sample rate, time length
/// and bin count into one spectrum, in order, tagging their comments as
/// `join_signals` does. Fails with `EmptySignalList` for no input, then
/// `SampleRateMismatch`, `TimeStepMismatch`, `FrequencyBinMismatch`.
pub fn join_freq_signals(signals: &[FreqSignal]) -> (r: Result<FreqSignal, SignalError>)
    requires
        freq_join_fits(freq_models(signals@)),
    ensures
        signals@.len() == 0 ==> r == Err::<FreqSignal, SignalError>(SignalError::EmptySignalList),
        signals@.len() > 0 && freq_rates_differ(freq_models(signals@))
            ==> r == Err::<FreqSignal, SignalError>(SignalError::SampleRateMismatch),
        signals@.len() > 0 && !freq_rates_differ(freq_models(signals@))
            && freq_lengths_differ(freq_models(signals@))
            ==> r == Err::<FreqSignal, SignalError>(SignalError::TimeStepMismatch),
        signals@.len() > 0 && !freq_rates_differ(freq_models(signals@))
            && !freq_lengths_differ(freq_models(signals@))
            && freq_bin_counts_differ(freq_models(signals@))
            ==> r == Err::<FreqSignal, SignalError>(SignalError::FrequencyBinMismatch),
        r is Ok <==> signals@.len() > 0 && !freq_rates_differ(freq_models(signals@))
            && !freq_lengths_differ(freq_models(signals@))
            && !freq_bin_counts_differ(freq_models(signals@)),
        r matches Ok(s) ==> {
            &&& s@.re == stacked(freq_re_channels(freq_models(signals@)))
            &&& s@.im == stacked(freq_im_channels(freq_models(signals@)))
            &&& s@.num_freq_bins == signals@[0]@.num_freq_bins
            &&& s@.n_samples == signals@[0]@.n_samples
            &&& s@.sample_rate == signals@[0]@.sample_rate
            &&& s@.comment == combined_comment(freq_comments(freq_models(signals@)))
        },
{
    let ghost models = freq_models(signals@);
    let n = signals.len();
    if n == 0 {
        return Err(SignalError::EmptySignalList);
    }
    let rate = signals[0].sample_rate();
    let steps = signals[0].num_time_steps();
    let bins = signals[0].num_freq_bins();
    let mut i: usize = 0;
    while i < n
        invariant
            n == signals@.len(),
            models == freq_models(signals@),
            rate == models[0].sample_rate,
            i <= n,
            forall|k: int| 0 <= k < i ==> eq(#[trigger] models[k].sample_rate, rate),
        decreases n - i,
    {
        if !equal(signals[i].sample_rate(), rate) {
            assert(!eq(models[i as int].sample_rate, models[0].sample_rate));
            return Err(SignalError::SampleRateMismatch);
        }
        i = i + 1;
    }
    let mut i: usize = 0;
    while i < n
        invariant
            n == signals@.len(),
            models == freq_models(signals@),
            steps == models[0].n_samples,
            !freq_rates_differ(models),
            i <= n,
            forall|k: int| 0 <= k < i ==> #[trigger] models[k].n_samples == steps,
        decreases n - i,
    {
        if signals[i].num_time_steps() != steps {
            assert(models[i as int].n_samples != models[0].n_samples);
            return Err(SignalError::TimeStepMismatch);
        }
        i = i + 1;
    }
    let mut i: usize = 0;
    while i < n
        invariant
            n == signals@.len(),
            models == freq_models(signals@),
            bins == models[0].num_freq_bins,
            !freq_rates_differ(models),
            !freq_lengths_differ(models),
            i <= n,
            forall|k: int| 0 <= k < i ==> #[trigger] models[k].num_freq_bins == bins,
        decreases n - i,
    {
        if signals[i].num_freq_bins() != bins {
            assert(models[i as int].num_freq_bins != models[0].num_freq_bins);
            return Err(SignalError::FrequencyBinMismatch);
        }
        i = i + 1;
    }
    let mut re_parts: Vec<&SampleGrid> = Vec::new();
    let mut im_parts: Vec<&SampleGrid> = Vec::new();
    let mut comments: Vec<Option<&str>> = Vec::new();
    let mut i: usize = 0;
    while i < n
        invariant
            n == signals@.len(),
            models == freq_models(signals@),
            bins == models[0].num_freq_bins,
            !freq_bin_counts_differ(models),
            i <= n,
            re_parts@.len() == i,
            im_parts@.len() == i,
            comments@.len() == i,
            forall|k: int| 0 <= k < i ==> grid_rows(*#[trigger] re_parts@[k]) == models[k].re,
            forall|k: int| 0 <= k < i ==> grid_width(*#[trigger] re_parts@[k]) == bins,
            forall|k: int| 0 <= k < i ==> grid_rows(*#[trigger] im_parts@[k]) == models[k].im,
            forall|k: int| 0 <= k < i ==> grid_width(*#[trigger] im_parts@[k]) == bins,
            forall|k: int| 0 <= k < i ==> opt_str_view(#[trigger] comments@[k]) == models[k].comment,
            forall|k: int| 0 <= k < i ==> (#[trigger] models[k]).im.len() == models[k].re.len(),
        decreases n - i,
    {
        assert(models[i as int].num_freq_bins == models[0].num_freq_bins);
        let data = signals[i].freq_data();
        let _ = signals[i].num_freq_bins();
        re_parts.push(data.re());
        im_parts.push(data.im());
        comments.push(signals[i].comment());
        i = i + 1;
    }
    assert(re_parts@.map_values(|p: &SampleGrid| grid_rows(*p)) =~= freq_re_channels(models));
    assert(im_parts@.map_values(|p: &SampleGrid| grid_rows(*p)) =~= freq_im_channels(models));
    assert forall|k: int| 0 <= k < n implies #[trigger] freq_re_channels(models)[k].len() == freq_im_channels(models)[k].len() by {
        assert(models[k].im.len() == models[k].re.len());
    }
    proof { lemma_stacked_same_counts(freq_re_channels(models), freq_im_channels(models)); }
    let re = stack_rows(&re_parts, bins);
    let im = stack_rows(&im_parts, bins);
    let comment = combine_comments(&comments);
    assert(comment_views(comments@) =~= freq_comments(models));
    let data = ComplexGrid::from_parts(re, im).unwrap();
    match FreqSignal::new(data, rate, Some(steps)) {
        Ok(joined) => {
            let joined = match comment {
                Some(c) => joined.with_comment(Some(c.as_str())),
                None => joined.with_comment(None),
            };
            Ok(joined)
        },
        Err(e) => Err(e),
    }
}

/// Parts with the same number of rows, one by one, stack to the same number of rows.
proof fn lemma_stacked_same_counts(a: Seq<Seq<Seq<u64>>>, b: Seq<Seq<Seq<u64>>>)
    requires
        a.len() == b.len(),
        forall|i: int| 0 <= i < a.len() ==> #[trigger] a[i].len() == b[i].len(),
    ensures
        stacked(a).len() == stacked(b).len(),
    decreases a.len(),
{
    if a.len() > 0 {
        lemma_stacked_same_counts(a.drop_last(), b.drop_last());
    }
}

} // verus!
