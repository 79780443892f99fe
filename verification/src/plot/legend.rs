//! Legend labels for plotted signals and channels.
//!
//! Labels are taken from the first line of a text and clipped to a fixed
//! number of characters, ending in an ellipsis when they are cut.
use vstd::prelude::*;
use vstd::string::*;
use crate::text::{decimal, decimal_string};

verus! {

/// Longest label, in characters, that is shown unclipped.
pub const LABEL_MAX_CHARS: usize = 40;

/// Index of the first line feed in `t` at or after `i`, or `t.len()` when there is none.
pub open spec fn newline_from(t: Seq<char>, i: int) -> int
    decreases t.len() - i,
{
    if i >= t.len() {
        t.len() as int
    } else if t[i] == '\n' {
        i
    } else {
        newline_from(t, i + 1)
    }
}

/// The first line of `t`, as `str::lines` yields it: the text before the first
/// line feed, without a carriage return that directly precedes that line feed;
/// the whole text when it holds no line feed.
pub open spec fn first_line(t: Seq<char>) -> Seq<char> {
    let e = newline_from(t, 0);
    if e < t.len() && e > 0 && t[e - 1] == '\r' {
        t.take(e - 1)
    } else {
        t.take(e)
    }
}

/// A label for `t`: its first line, or, when that is longer than
/// `LABEL_MAX_CHARS` characters, its first `LABEL_MAX_CHARS - 1` characters
/// followed by an ellipsis.
pub open spec fn clipped(t: Seq<char>) -> Seq<char> {
    let line = first_line(t);
    if line.len() <= LABEL_MAX_CHARS {
        line
    } else {
        line.take(LABEL_MAX_CHARS - 1).push('\u{2026}')
    }
}

/// The label of a whole signal: its clipped comment, or `Signal <index + 1>`.
pub open spec fn base_label(comment: Option<Seq<char>>, index: nat) -> Seq<char> {
    match comment {
        Some(text) => clipped(text),
        None => "Signal "@ + decimal(index + 1),
    }
}

/// The label of one channel of a signal with `num_channels` channels.
pub open spec fn channel_suffixed(base: Seq<char>, channel_index: nat, num_channels: nat) -> Seq<char> {
    if num_channels > 1 {
        base + " \u{b7} Ch "@ + decimal(channel_index)
    } else {
        base
    }
}

/// The legend label of one channel: an explicit label wins, clipped; otherwise
/// the signal's label with a channel suffix.
pub open spec fn legend_label(
    explicit_label: Option<Seq<char>>,
    signal_comment: Option<Seq<char>>,
    signal_index: nat,
    channel_index: nat,
    num_channels: nat,
) -> Seq<char> {
    match explicit_label {
        Some(label) => clipped(label),
        None => channel_suffixed(base_label(signal_comment, signal_index), channel_index, num_channels),
    }
}

/// No line feed comes before the first one.
proof fn lemma_no_line_feed_before(t: Seq<char>, i: int)
    requires
        0 <= i,
    ensures
        i <= t.len() ==> i <= newline_from(t, i) <= t.len(),
        forall|j: int| i <= j < newline_from(t, i) ==> t[j] != '\n',
    decreases t.len() - i,
{
    if i < t.len() && t[i] != '\n' {
        lemma_no_line_feed_before(t, i + 1);
    }
}

/// A text without line feeds is its own first line.
proof fn lemma_single_line(t: Seq<char>, i: int)
    requires
        0 <= i <= t.len(),
        forall|j: int| i <= j < t.len() ==> t[j] != '\n',
    ensures
        newline_from(t, i) == t.len(),
    decreases t.len() - i,
{
    if i < t.len() {
        lemma_single_line(t, i + 1);
    }
}

/// A label is one line of at most `LABEL_MAX_CHARS` characters, and
/// clipping a label again leaves it as it is.
pub proof fn law_clip_is_idempotent(t: Seq<char>)
    ensures
        clipped(t).len() <= LABEL_MAX_CHARS,
        forall|j: int| 0 <= j < clipped(t).len() ==> clipped(t)[j] != '\n',
        clipped(clipped(t)) == clipped(t),
{
    lemma_no_line_feed_before(t, 0);
    let line = first_line(t);
    let label = clipped(t);
    assert forall|j: int| 0 <= j < label.len() implies label[j] != '\n' by {
        if line.len() <= LABEL_MAX_CHARS {
            assert(label[j] == line[j]);
        } else if j < LABEL_MAX_CHARS - 1 {
            assert(label[j] == line[j]);
        }
    }
    lemma_single_line(label, 0);
    assert(first_line(label) =~= label);
}

/// The view of an optional text.
pub open spec fn opt_view(o: Option<&str>) -> Option<Seq<char>> {
    match o {
        Some(s) => Some(s@),
        None => None,
    }
}

/// Finds where the first line of `text` ends: the index of the first line feed,
/// or the length of the text.
fn line_feed_index(text: &str) -> (i: usize)
    ensures
        i as int == newline_from(text@, 0),
        i <= text@.len(),
{
    let n = text.unicode_len();
    let mut i: usize = 0;
    while i < n
        invariant
            n == text@.len(),
            i <= n,
            newline_from(text@, 0) == newline_from(text@, i as int),
            forall|j: int| 0 <= j < i ==> text@[j] != '\n',
        decreases n - i,
    {
        if text.get_char(i) == '\n' {
            return i;
        }
        i = i + 1;
    }
    i
}

/// The text of a legend entry: the first line of `text`, clipped to
/// `LABEL_MAX_CHARS` characters with a trailing ellipsis when it is longer.
pub fn clip_label(text: &str) -> (label: String)
    ensures
        label@ == clipped(text@),
        label@.len() <= LABEL_MAX_CHARS,
{
    let e = line_feed_index(text);
    let end = if e < text.unicode_len() && e > 0 && text.get_char(e - 1) == '\r' {
        e - 1
    } else {
        e
    };
    let line = text.substring_char(0, end);
    assert(line@ == first_line(text@));
    if end <= LABEL_MAX_CHARS {
        String::from_str(line)
    } else {
        let kept = text.substring_char(0, LABEL_MAX_CHARS - 1);
        let ellipsis = "\u{2026}";
        proof {
            reveal_strlit("\u{2026}");
        }
        let label = String::from_str(kept).concat(ellipsis);
        assert(label@ =~= first_line(text@).take(LABEL_MAX_CHARS - 1).push('\u{2026}'));
        label
    }
}

/// The label of a whole signal: its clipped comment, or `Signal <index + 1>`
/// when it has none.
pub fn signal_base_label(comment: Option<&str>, index: usize) -> (label: String)
    requires
        comment is None ==> index < usize::MAX,
    ensures
        label@ == base_label(opt_view(comment), index as nat),
{
    match comment {
        Some(text) => clip_label(text),
        None => {
            proof {
                reveal_strlit("Signal ");
            }
            let number = decimal_string(index + 1);
            String::from_str("Signal ").concat(number.as_str())
        },
    }
}

/// The label of channel `channel_index` of a signal labelled `base`; the
/// channel is named only when the signal has more than one.
pub fn channel_label(base: &str, channel_index: usize, num_channels: usize) -> (label: String)
    ensures
        label@ == channel_suffixed(base@, channel_index as nat, num_channels as nat),
{
    if num_channels > 1 {
        proof {
            reveal_strlit(" \u{b7} Ch ");
        }
        let number = decimal_string(channel_index);
        let label = String::from_str(base).concat(" \u{b7} Ch ").concat(number.as_str());
        label
    } else {
        String::from_str(base)
    }
}

/// The legend label of one channel: an explicit channel label, clipped, wins;
/// otherwise the signal's comment or index, suffixed with the channel when the
/// signal has several.
pub fn build_channel_label(
    explicit_label: Option<&str>,
    signal_comment: Option<&str>,
    signal_index: usize,
    channel_index: usize,
    num_channels: usize,
) -> (label: String)
    requires
        explicit_label is None && signal_comment is None ==> signal_index < usize::MAX,
    ensures
        label@ == legend_label(
            opt_view(explicit_label),
            opt_view(signal_comment),
            signal_index as nat,
            channel_index as nat,
            num_channels as nat,
        ),
{
    if let Some(label) = explicit_label {
        return clip_label(label);
    }
    let base = signal_base_label(signal_comment, signal_index);
    channel_label(base.as_str(), channel_index, num_channels)
}

} // verus!
