//! Short-time Fourier transform results: complex frames per channel, with
//! the frame times, bin frequencies and window normalisation they came with.
use vstd::prelude::*;
use vstd::string::*;
use crate::grid::{ComplexGrid, SampleGrid, SampleLine, line_values, rectangular, shape_fits};
use crate::signal::time_signal::{opt_str_view, opt_string_view, owned_comment};

verus! {

/// Window figures that turn raw transform magnitudes into amplitudes and
/// powers: the mean window value (coherent gain) and the sum of squared
/// window values (window energy), both as binary64 bit patterns.
#[derive(Clone, Copy, Debug, PartialEq, Eq, Structural)]
pub struct SpectrogramNormalization {
    coherent_gain: u64,
    window_energy: u64,
}

impl View for SpectrogramNormalization {
    /// The coherent gain and the window energy.
    type V = (u64, u64);

    closed spec fn view(&self) -> (u64, u64) {
        (self.coherent_gain, self.window_energy)
    }
}

impl SpectrogramNormalization {
    /// Normalisation figures from a coherent gain and a window energy.
    pub fn new(coherent_gain: u64, window_energy: u64) -> (n: SpectrogramNormalization)
        ensures
            n@ == (coherent_gain, window_energy),
    {
        SpectrogramNormalization { coherent_gain, window_energy }
    }

    /// The mean window value.
    pub fn coherent_gain(&self) -> (g: u64)
        ensures
            g == self@.0,
    {
        self.coherent_gain
    }

    /// The sum of squared window values.
    pub fn window_energy(&self) -> (e: u64)
        ensures
            e == self@.1,
    {
        self.window_energy
    }
}

/// Whether `ndarray` accepts a three-axis array of this shape: the product
/// of the non-zero axis lengths must not exceed `isize::MAX`.
pub open spec fn volume_fits(channels: nat, frames: nat, bins: nat) -> bool {
    (if channels == 0 { 1 } else { channels }) * (if frames == 0 { 1 } else { frames })
        * (if bins == 0 { 1 } else { bins }) <= isize::MAX
}

/// A volume that fits has faces that fit.
pub proof fn lemma_volume_faces(channels: nat, frames: nat, bins: nat)
    requires
        volume_fits(channels, frames, bins),
    ensures
        shape_fits(channels, bins),
        shape_fits(frames, bins),
{
    let c: int = if channels == 0 { 1 } else { channels as int };
    let f: int = if frames == 0 { 1 } else { frames as int };
    let b: int = if bins == 0 { 1 } else { bins as int };
    assert(c * b <= c * f * b && f * b <= c * f * b) by (nonlinear_arith)
        requires c >= 1, f >= 1, b >= 1;
}

/// Whether `grids` are all `frames` rows of `bins` complex cells.
pub open spec fn frames_of_shape(grids: Seq<ComplexGrid>, frames: nat, bins: nat) -> bool {
    forall|c: int| 0 <= c < grids.len() ==> (#[trigger] grids[c]@).re.len() == frames
        && grids[c]@.width == bins
}

/// The result of a short-time Fourier transform: for each channel a grid of
/// `num_frames` frames of `num_freq_bins` complex bins, the centre time of
/// each frame and the frequency of each bin (binary64 bit patterns), the
/// sample rate, window and hop sizes, normalisation, and an optional label
/// per channel.
#[derive(Debug)]
pub struct Spectrogram {
    channels: Vec<ComplexGrid>,
    num_frames: usize,
    num_freq_bins: usize,
    frame_times: SampleLine,
    freq_bins: SampleLine,
    sample_rate: u64,
    window_size: usize,
    hop_size: usize,
    normalization: SpectrogramNormalization,
    channel_labels: Vec<Option<String>>,
}

/// What a spectrogram holds.
pub struct SpectrogramModel {
    /// One complex grid (frames by bins) per channel.
    pub channels: Seq<ComplexGrid>,
    pub num_frames: nat,
    pub num_freq_bins: nat,
    /// Centre time of each frame, in seconds.
    pub frame_times: Seq<u64>,
    /// Frequency of each bin, in hertz.
    pub freq_bins: Seq<u64>,
    pub sample_rate: u64,
    pub window_size: nat,
    pub hop_size: nat,
    pub normalization: (u64, u64),
    /// The label of each channel, if it has one.
    pub labels: Seq<Option<Seq<char>>>,
}

/// The texts of a sequence of optional labels.
pub open spec fn labels_view(labels: Seq<Option<String>>) -> Seq<Option<Seq<char>>> {
    labels.map_values(|l: Option<String>| opt_string_view(l))
}

impl View for Spectrogram {
    type V = SpectrogramModel;

    closed spec fn view(&self) -> SpectrogramModel {
        SpectrogramModel {
            channels: self.channels@,
            num_frames: self.num_frames as nat,
            num_freq_bins: self.num_freq_bins as nat,
            frame_times: line_values(self.frame_times),
            freq_bins: line_values(self.freq_bins),
            sample_rate: self.sample_rate,
            window_size: self.window_size as nat,
            hop_size: self.hop_size as nat,
            normalization: self.normalization@,
            labels: labels_view(self.channel_labels@),
        }
    }
}

impl Spectrogram {
    /// Every channel has the spectrogram's shape, the whole volume fits an
    /// array, and there is one label slot per channel.
    #[verifier::type_invariant]
    spec fn well_formed(&self) -> bool {
        &&& frames_of_shape(self.channels@, self.num_frames as nat, self.num_freq_bins as nat)
        &&& volume_fits(self.channels@.len(), self.num_frames as nat, self.num_freq_bins as nat)
        &&& self.channel_labels@.len() == self.channels@.len()
    }

    /// A spectrogram of the given channel grids, each `num_frames` by
    /// `num_freq_bins`, with no channel labels.
    pub fn new(
        channels: Vec<ComplexGrid>,
        num_frames: usize,
        num_freq_bins: usize,
        frame_times: SampleLine,
        freq_bins: SampleLine,
        sample_rate: u64,
        window_size: usize,
        hop_size: usize,
        normalization: SpectrogramNormalization,
    ) -> (s: Spectrogram)
        requires
            frames_of_shape(channels@, num_frames as nat, num_freq_bins as nat),
            volume_fits(channels@.len(), num_frames as nat, num_freq_bins as nat),
        ensures
            s@.channels == channels@,
            s@.num_frames == num_frames,
            s@.num_freq_bins == num_freq_bins,
            s@.frame_times == line_values(frame_times),
            s@.freq_bins == line_values(freq_bins),
            s@.sample_rate == sample_rate,
            s@.window_size == window_size,
            s@.hop_size == hop_size,
            s@.normalization == normalization@,
            s@.labels == Seq::new(channels@.len(), |_c: int| None::<Seq<char>>),
    {
        let n = channels.len();
        let mut labels: Vec<Option<String>> = Vec::new();
        let mut i: usize = 0;
        while i < n
            invariant
                i <= n,
                labels@.len() == i,
                forall|c: int| 0 <= c < i ==> #[trigger] labels@[c] is None,
            decreases n - i,
        {
            labels.push(None);
            i = i + 1;
        }
        assert(labels_view(labels@) =~= Seq::new(n as nat, |_c: int| None::<Seq<char>>));
        Spectrogram {
            channels,
            num_frames,
            num_freq_bins,
            frame_times,
            freq_bins,
            sample_rate,
            window_size,
            hop_size,
            normalization,
            channel_labels: labels,
        }
    }

    /// The number of channels.
    pub fn num_channels(&self) -> (n: usize)
        ensures
            n == self@.channels.len(),
    {
        self.channels.len()
    }

    /// The number of frames of each channel.
    pub fn num_frames(&self) -> (n: usize)
        ensures
            n == self@.num_frames,
    {
        self.num_frames
    }

    /// The number of frequency bins of each frame.
    pub fn num_freq_bins(&self) -> (n: usize)
        ensures
            n == self@.num_freq_bins,
    {
        self.num_freq_bins
    }

    /// The sample rate of the analysed signal.
    pub fn sample_rate(&self) -> (r: u64)
        ensures
            r == self@.sample_rate,
    {
        self.sample_rate
    }

    /// The analysis window length, in samples.
    pub fn window_size(&self) -> (n: usize)
        ensures
            n == self@.window_size,
    {
        self.window_size
    }

    /// The distance between frame starts, in samples.
    pub fn hop_size(&self) -> (n: usize)
        ensures
            n == self@.hop_size,
    {
        self.hop_size
    }

    /// The window normalisation figures.
    pub fn normalization(&self) -> (n: SpectrogramNormalization)
        ensures
            n@ == self@.normalization,
    {
        self.normalization
    }

    /// Centre time of each frame, in seconds.
    pub fn frame_times(&self) -> (t: &SampleLine)
        ensures
            line_values(*t) == self@.frame_times,
    {
        &self.frame_times
    }

    /// Frequency of each bin, in hertz.
    pub fn freq_bins(&self) -> (f: &SampleLine)
        ensures
            line_values(*f) == self@.freq_bins,
    {
        &self.freq_bins
    }

    /// All channel grids.
    pub fn data(&self) -> (d: &Vec<ComplexGrid>)
        ensures
            d@ == self@.channels,
    {
        &self.channels
    }

    /// The frames of channel `ch`.
    pub fn channel(&self, ch: usize) -> (g: &ComplexGrid)
        requires
            ch < self@.channels.len(),
        ensures
            *g == self@.channels[ch as int],
            g@.re.len() == self@.num_frames,
            g@.width == self@.num_freq_bins,
    {
        proof { use_type_invariant(self); }
        &self.channels[ch]
    }

    /// Frame `t` of every channel: a grid with one row of bins per channel.
    pub fn frame(&self, t: usize) -> (g: ComplexGrid)
        requires
            t < self@.num_frames,
        ensures
            g@.re.len() == self@.channels.len(),
            g@.width == self@.num_freq_bins,
            forall|c: int| 0 <= c < self@.channels.len() ==> #[trigger] g@.re[c]
                == self@.channels[c]@.re[t as int] && g@.im[c] == self@.channels[c]@.im[t as int],
    {
        proof {
            use_type_invariant(self);
            lemma_volume_faces(self.channels@.len(), self.num_frames as nat, self.num_freq_bins as nat);
        }
        let n = self.channels.len();
        let mut re_rows: Vec<Vec<u64>> = Vec::new();
        let mut im_rows: Vec<Vec<u64>> = Vec::new();
        let mut c: usize = 0;
        while c < n
            invariant
                n == self.channels@.len(),
                t < self.num_frames,
                frames_of_shape(self.channels@, self.num_frames as nat, self.num_freq_bins as nat),
                c <= n,
                re_rows@.len() == c,
                im_rows@.len() == c,
                forall|k: int| 0 <= k < c ==> #[trigger] re_rows@[k]@ == self.channels@[k]@.re[t as int],
                forall|k: int| 0 <= k < c ==> #[trigger] im_rows@[k]@ == self.channels@[k]@.im[t as int],
                forall|k: int| 0 <= k < c ==> #[trigger] re_rows@[k]@.len() == self.num_freq_bins,
                forall|k: int| 0 <= k < c ==> #[trigger] im_rows@[k]@.len() == self.num_freq_bins,
            decreases n - c,
        {
            let grid = &self.channels[c];
            let _ = grid.ncols();
            let re_row = grid.re().row(t);
            let im_row = grid.im().row(t);
            re_rows.push(re_row);
            im_rows.push(im_row);
            c = c + 1;
        }
        let bins = self.num_freq_bins;
        assert(rectangular(crate::grid::rows_view(re_rows@), bins as nat));
        assert(rectangular(crate::grid::rows_view(im_rows@), bins as nat));
        let re = SampleGrid::from_rows(&re_rows, bins).unwrap();
        let im = SampleGrid::from_rows(&im_rows, bins).unwrap();
        ComplexGrid::from_parts(re, im).unwrap()
    }

    /// The label of channel `channel`; `None` when it has none or there is
    /// no such channel.
    pub fn channel_label(&self, channel: usize) -> (l: Option<&str>)
        ensures
            opt_str_view(l) == (if channel < self@.labels.len() {
                self@.labels[channel as int]
            } else {
                None
            }),
    {
        proof { use_type_invariant(self); }
        if channel < self.channel_labels.len() {
            match &self.channel_labels[channel] {
                Some(text) => Some(text.as_str()),
                None => None,
            }
        } else {
            None
        }
    }

    /// Gives channel `channel` the label `label`, or takes its label away;
    /// does nothing when there is no such channel.
    pub fn set_channel_label(&mut self, channel: usize, label: Option<&str>)
        ensures
            final(self)@.labels == (if channel < old(self)@.labels.len() {
                old(self)@.labels.update(channel as int, opt_str_view(label))
            } else {
                old(self)@.labels
            }),
            final(self)@.channels == old(self)@.channels,
            final(self)@.num_frames == old(self)@.num_frames,
            final(self)@.num_freq_bins == old(self)@.num_freq_bins,
            final(self)@.frame_times == old(self)@.frame_times,
            final(self)@.freq_bins == old(self)@.freq_bins,
            final(self)@.sample_rate == old(self)@.sample_rate,
            final(self)@.window_size == old(self)@.window_size,
            final(self)@.hop_size == old(self)@.hop_size,
            final(self)@.normalization == old(self)@.normalization,
    {
        proof { use_type_invariant(&*self); }
        if channel < self.channel_labels.len() {
            let n = self.channel_labels.len();
            let mut labels: Vec<Option<String>> = Vec::new();
            let mut c: usize = 0;
            while c < n
                invariant
                    n == self.channel_labels@.len(),
                    channel < n,
                    c <= n,
                    labels@.len() == c,
                    forall|k: int| 0 <= k < c ==> #[trigger] opt_string_view(labels@[k]) == (if k
                        == channel {
                        opt_str_view(label)
                    } else {
                        opt_string_view(self.channel_labels@[k])
                    }),
                decreases n - c,
            {
                let slot = if c == channel {
                    owned_comment(label)
                } else {
                    match &self.channel_labels[c] {
                        Some(text) => Some(String::from_str(text.as_str())),
                        None => None,
                    }
                };
                labels.push(slot);
                c = c + 1;
            }
            assert(labels_view(labels@) =~= labels_view(self.channel_labels@).update(
                channel as int,
                opt_str_view(label),
            ));
            self.channel_labels = labels;
        }
    }
}

/// The bit pattern of 1.0.
pub const ONE: u64 = 0x3FF0_0000_0000_0000;

/// The bit pattern of 2.0.
pub const TWO: u64 = 0x4000_0000_0000_0000;

/// The factor that folds the energy of negative frequencies into bin `bin`
/// of a one-sided spectrum: 1 for the DC bin and, for an even window, the
/// Nyquist bin (the last one); 2 for every other bin.
pub open spec fn one_sided_factor(bin: nat, num_freq_bins: nat, window_size: nat) -> u64 {
    let last_bin = if num_freq_bins >= 1 { (num_freq_bins - 1) as nat } else { 0 };
    if bin == 0 || (window_size % 2 == 0 && bin == last_bin) { ONE } else { TWO }
}

/// For a window of `w` samples, whose one-sided spectrum has `w / 2 + 1`
/// bins, only the DC bin and, when `w` is even, the Nyquist bin `w / 2` keep
/// factor 1; every other bin counts twice, and the factor is always 1 or 2.
pub proof fn law_one_sided_doubles_inner_bins(w: nat, bin: nat)
    requires
        bin <= w / 2,
    ensures
        one_sided_factor(bin, w / 2 + 1, w) == ONE || one_sided_factor(bin, w / 2 + 1, w) == TWO,
        one_sided_factor(bin, w / 2 + 1, w) == ONE <==> (bin == 0 || (w % 2 == 0 && bin == w / 2)),
{
}

/// The one-sided scale factor of bin `bin` of `spec` (a binary64 bit pattern).
pub fn one_sided_scale(spec: &Spectrogram, bin: usize) -> (f: u64)
    ensures
        f == one_sided_factor(bin as nat, spec@.num_freq_bins, spec@.window_size),
{
    let bins = spec.num_freq_bins();
    let last_bin = if bins >= 1 { bins - 1 } else { 0 };
    if bin == 0 || (spec.window_size() % 2 == 0 && bin == last_bin) {
        ONE
    } else {
        TWO
    }
}

} // verus!
