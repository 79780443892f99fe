//! Tapering windows: the window kinds and the span a taper covers.
use vstd::prelude::*;

verus! {

/// The shape of a tapering window.
#[derive(Debug, Clone, Copy, PartialEq, Eq, Structural)]
pub enum WindowFn {
    Hann,
    Hamming,
    Blackman,
    Rectangular,
}

impl Default for WindowFn {
    /// The Hann window.
    fn default() -> (w: WindowFn)
        ensures
            w == WindowFn::Hann,
    {
        WindowFn::Hann
    }
}

/// The part of a buffer of `data_len` samples that a taper asked for at
/// `start` over `len` samples touches: the start is clamped to the buffer and
/// the length to what remains after it.
pub open spec fn span_in(data_len: nat, start: nat, len: nat) -> (nat, nat) {
    let s = if start <= data_len { start } else { data_len };
    let rest = (data_len - s) as nat;
    (s, if len <= rest { len } else { rest })
}

/// A taper never reaches past what was asked nor past the buffer: it covers
/// exactly `start .. start + len` when that lies inside the buffer, and
/// otherwise what of it lies inside (nothing when `start` is past the end).
pub proof fn law_taper_span_is_what_was_asked(data_len: nat, start: nat, len: nat)
    ensures
        span_in(data_len, start, len).1 <= len,
        span_in(data_len, start, len).0 + span_in(data_len, start, len).1 <= data_len,
        start + len <= data_len ==> span_in(data_len, start, len) == (start, len),
        start <= data_len && start + len > data_len ==> span_in(data_len, start, len) == (
            start,
            (data_len - start) as nat,
        ),
        start > data_len ==> span_in(data_len, start, len) == (data_len, 0nat),
{
}

/// Clamps a taper's `start` and `len` to a buffer of `data_len` samples.
pub fn clamped_span(data_len: usize, start: usize, len: usize) -> (r: (usize, usize))
    ensures
        (r.0 as nat, r.1 as nat) == span_in(data_len as nat, start as nat, len as nat),
        r.0 + r.1 <= data_len,
        r.1 <= len,
        start + len <= data_len ==> r == (start, len),
        start <= data_len && start + len > data_len ==> r == (start, (data_len - start) as usize),
        start > data_len ==> r == (data_len, 0usize),
{
    let s = if start <= data_len { start } else { data_len };
    let rest = data_len - s;
    (s, if len <= rest { len } else { rest })
}

} // verus!
