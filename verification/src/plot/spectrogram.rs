//! Settings and labels of spectrogram plots.
use vstd::prelude::*;
use vstd::string::*;
use crate::plot::legend::clipped;
use crate::plot::legend::clip_label;
use crate::text::{decimal, decimal_string};
use crate::binary64::{greater_than, gt, order_key, total_key};
use crate::grid::line_values;
use crate::signal::Spectrogram;

verus! {

/// The bit pattern of -80.0, the default lowest level shown, in dB.
pub const DEFAULT_DB_FLOOR: u64 = 0xC054_0000_0000_0000;

/// Settings of a spectrogram plot; the floor is a binary64 bit pattern.
#[derive(Clone, Copy, Debug, PartialEq, Eq, Structural)]
pub struct SpectrogramPlotOptions {
    /// Logarithmic frequency axis.
    pub log_freq: bool,
    /// Lowest level shown, in dB.
    pub db_floor: u64,
}

impl Default for SpectrogramPlotOptions {
    /// A linear frequency axis down to -80 dB.
    fn default() -> (o: SpectrogramPlotOptions)
        ensures
            !o.log_freq,
            o.db_floor == DEFAULT_DB_FLOOR,
    {
        SpectrogramPlotOptions { log_freq: false, db_floor: DEFAULT_DB_FLOOR }
    }
}

/// How the frequency axis of a spectrogram is scaled.
#[derive(Clone, Copy, Debug, PartialEq, Eq, Structural)]
pub enum SpectrogramScale {
    Linear,
    Log,
}

/// The frequency-axis label for each scale.
pub open spec fn scale_label(s: SpectrogramScale) -> Seq<char> {
    match s {
        SpectrogramScale::Linear => "Frequency (Hz)"@,
        SpectrogramScale::Log => "Frequency (Hz, log)"@,
    }
}

impl SpectrogramScale {
    /// The scale the settings ask for.
    pub fn of_options(options: &SpectrogramPlotOptions) -> (s: SpectrogramScale)
        ensures
            s == (if options.log_freq { SpectrogramScale::Log } else { SpectrogramScale::Linear }),
    {
        if options.log_freq { SpectrogramScale::Log } else { SpectrogramScale::Linear }
    }

    /// The frequency-axis label.
    pub fn axis_label(&self) -> (l: &'static str)
        ensures
            l@ == scale_label(*self),
    {
        proof {
            reveal_strlit("Frequency (Hz)");
            reveal_strlit("Frequency (Hz, log)");
        }
        match self {
            SpectrogramScale::Linear => "Frequency (Hz)",
            SpectrogramScale::Log => "Frequency (Hz, log)",
        }
    }
}

/// The label of a spectrogram channel: its clipped label, or `Channel <index>`.
pub open spec fn spectrogram_channel_text(label: Option<Seq<char>>, channel: nat) -> Seq<char> {
    match label {
        Some(text) => clipped(text),
        None => "Channel "@ + decimal(channel),
    }
}

/// Builds the label of a spectrogram channel.
pub fn spectrogram_channel_label(label: Option<&str>, channel: usize) -> (l: String)
    ensures
        l@ == spectrogram_channel_text(crate::plot::legend::opt_view(label), channel as nat),
{
    match label {
        Some(text) => clip_label(text),
        None => {
            proof { reveal_strlit("Channel "); }
            let number = decimal_string(channel);
            String::from_str("Channel ").concat(number.as_str())
        },
    }
}

/// The values of `v` that are greater than zero as binary64 numbers, in order.
pub open spec fn positive_values(v: Seq<u64>) -> Seq<u64>
    decreases v.len(),
{
    if v.len() == 0 {
        seq![]
    } else {
        let earlier = positive_values(v.drop_last());
        if gt(v.last(), 0) { earlier.push(v.last()) } else { earlier }
    }
}

/// The values kept are exactly the positive ones: each kept value is greater
/// than zero and occurs in `v`, and each value of `v` greater than zero is
/// kept; nothing is added.
pub proof fn law_positive_values_are_the_positive_ones(v: Seq<u64>)
    ensures
        positive_values(v).len() <= v.len(),
        forall|j: int| 0 <= j < positive_values(v).len() ==> gt(#[trigger] positive_values(v)[j], 0)
            && v.contains(positive_values(v)[j]),
        forall|i: int| 0 <= i < v.len() && gt(#[trigger] v[i], 0) ==> positive_values(v).contains(v[i]),
    decreases v.len(),
{
    if v.len() > 0 {
        let front = v.drop_last();
        law_positive_values_are_the_positive_ones(front);
        let res = positive_values(v);
        let earlier = positive_values(front);
        assert forall|j: int| 0 <= j < res.len() implies gt(#[trigger] res[j], 0) && v.contains(res[j]) by {
            if j < earlier.len() {
                let i = choose|i: int| 0 <= i < front.len() && front[i] == earlier[j];
                assert(v[i] == res[j]);
            } else {
                assert(v[v.len() - 1] == res[j]);
            }
        }
        assert forall|i: int| 0 <= i < v.len() && gt(#[trigger] v[i], 0) implies res.contains(v[i]) by {
            if i < front.len() {
                assert(front[i] == v[i]);
                let j = choose|j: int| 0 <= j < earlier.len() && earlier[j] == front[i];
                assert(res[j] == v[i]);
            } else {
                assert(res[res.len() - 1] == v[i]);
            }
        }
    }
}

/// The bin frequencies of a spectrogram above 0 Hz, which a logarithmic
/// frequency axis can show.
pub fn positive_freq_bins(spec: &Spectrogram) -> (f: Vec<u64>)
    ensures
        f@ == positive_values(spec@.freq_bins),
{
    let bins = spec.freq_bins();
    let n = bins.len();
    let mut out: Vec<u64> = Vec::new();
    let mut i: usize = 0;
    while i < n
        invariant
            n == line_values(*bins).len(),
            line_values(*bins) == spec@.freq_bins,
            i <= n,
            out@ == positive_values(spec@.freq_bins.take(i as int)),
        decreases n - i,
    {
        let v = bins.get(i).unwrap();
        assert(spec@.freq_bins.take(i + 1).drop_last() =~= spec@.freq_bins.take(i as int));
        if greater_than(v, 0) {
            out.push(v);
        }
        i = i + 1;
    }
    assert(spec@.freq_bins.take(n as int) =~= spec@.freq_bins);
    out
}

/// The first position from `i` on whose value is not below `target` in the
/// order of `f64::total_cmp`, or the length when there is none.
pub open spec fn first_not_below(s: Seq<u64>, target: u64, i: int) -> int
    decreases s.len() - i,
{
    if i >= s.len() {
        s.len() as int
    } else if order_key(s[i]) >= order_key(target) {
        i
    } else {
        first_not_below(s, target, i + 1)
    }
}

/// The search from `i` on stops at the first value not below `target`: all
/// values it passes are below it.
proof fn lemma_first_not_below(s: Seq<u64>, target: u64, i: int)
    requires
        0 <= i <= s.len(),
    ensures
        i <= first_not_below(s, target, i) <= s.len(),
        forall|j: int| i <= j < first_not_below(s, target, i) ==> order_key(#[trigger] s[j]) < order_key(target),
        first_not_below(s, target, i) < s.len() ==> order_key(s[first_not_below(s, target, i)])
            >= order_key(target),
    decreases s.len() - i,
{
    if i < s.len() && order_key(s[i]) < order_key(target) {
        lemma_first_not_below(s, target, i + 1);
    }
}

/// On frequencies that increase strictly (in the order of `f64::total_cmp`)
/// the resampling reads the right bins: a frequency that is one of the
/// bins reads that bin alone; one that falls between two neighbouring bins
/// reads exactly those two, the lower below it and the upper above it; one
/// below the first bin reads the first bin, and one above the last bin reads
/// the last bin.
pub proof fn law_interpolation_span_brackets_target(s: Seq<u64>, target: u64)
    requires
        s.len() > 0,
        forall|i: int, j: int| 0 <= i < j < s.len() ==> order_key(s[i]) < order_key(s[j]),
    ensures
        ({
            let (a, b) = span_of(s, target);
            &&& 0 <= a <= b < s.len()
            &&& b <= a + 1
            &&& (exists|i: int| 0 <= i < s.len() && s[i] == target) ==> a == b && s[a] == target
            &&& a < b ==> order_key(s[a]) < order_key(target) < order_key(s[b])
            &&& order_key(s[0]) < order_key(target) < order_key(s[s.len() - 1]) && !(exists|i: int|
                0 <= i < s.len() && s[i] == target) ==> b == a + 1
            &&& order_key(target) < order_key(s[0]) ==> a == 0 && b == 0
            &&& order_key(target) > order_key(s[s.len() - 1]) ==> a == s.len() - 1 && b == s.len() - 1
        }),
{
    lemma_first_not_below(s, target, 0);
    let p = first_not_below(s, target, 0);
    if exists|i: int| 0 <= i < s.len() && s[i] == target {
        let i = choose|i: int| 0 <= i < s.len() && s[i] == target;
        if i < p {
            assert(order_key(s[i]) < order_key(target));
        }
        if p < i {
            assert(order_key(s[p]) < order_key(s[i]));
        }
        assert(p == i);
    }
    if order_key(target) < order_key(s[0]) && p > 0 {
        assert(order_key(s[0]) < order_key(target));
    }
    if order_key(target) > order_key(s[s.len() - 1]) && p < s.len() {
        if p < s.len() - 1 {
            assert(order_key(s[p]) < order_key(s[s.len() - 1]));
        }
    }
    if order_key(s[0]) < order_key(target) < order_key(s[s.len() - 1]) {
        if p == s.len() {
            assert(order_key(s[s.len() - 1]) < order_key(target));
        }
    }
    if 0 < p < s.len() && s[p] != target {
        assert(order_key(s[p - 1]) < order_key(target));
        assert(order_key(s[p]) != order_key(target));
    }
}

/// The bins a frequency is read from when a spectrogram is resampled onto
/// another frequency grid: the bin itself when `target` is one of
/// `source`'s values, the first bin below the first value, the last bin
/// above the last value, and otherwise the two bins around `target`.
pub open spec fn span_of(s: Seq<u64>, target: u64) -> (int, int) {
    let p = first_not_below(s, target, 0);
    if p < s.len() && s[p] == target {
        (p, p)
    } else if p == 0 {
        (0, 0)
    } else if p >= s.len() {
        (s.len() - 1, s.len() - 1)
    } else {
        (p - 1, p)
    }
}

/// Where `target` falls among the increasing frequencies `source`, as the
/// pair of bins a resampled spectrogram row reads from; for a source that
/// increases strictly in the order of `f64::total_cmp` this is where
/// `binary_search_by(total_cmp)` lands.
pub fn interpolation_span(source: &Vec<u64>, target: u64) -> (r: (usize, usize))
    ensures
        (r.0 as int, r.1 as int) == span_of(source@, target),
{
    let n = source.len();
    let key = total_key(target);
    let mut i: usize = 0;
    while i < n && total_key(source[i]) < key
        invariant
            n == source@.len(),
            key == order_key(target),
            i <= n,
            first_not_below(source@, target, 0) == first_not_below(source@, target, i as int),
        decreases n - i,
    {
        i = i + 1;
    }
    if i < n && source[i] == target {
        (i, i)
    } else if i == 0 {
        (0, 0)
    } else if i >= n {
        (n - 1, n - 1)
    } else {
        (i - 1, i)
    }
}

} // verus!
