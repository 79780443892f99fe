use audio_lab::plot::legend::{build_channel_label, channel_label, clip_label, signal_base_label, LABEL_MAX_CHARS};
use audio_lab::plot::spectrogram::spectrogram_channel_label;

#[test]
fn short_label_is_kept_verbatim() {
    assert_eq!(clip_label("Pink noise"), "Pink noise");
}

#[test]
fn long_label_is_clipped_with_ellipsis() {
    let long = "a".repeat(100);
    let clipped = clip_label(&long);
    assert_eq!(clipped.chars().count(), LABEL_MAX_CHARS);
    assert!(clipped.ends_with('…'));
}

#[test]
fn only_first_line_is_used() {
    assert_eq!(clip_label("first\nsecond"), "first");
}

#[test]
fn explicit_channel_label_overrides_comment() {
    let label = build_channel_label(Some("Sine 440 Hz"), Some("ignored"), 0, 1, 2);
    assert_eq!(label, "Sine 440 Hz");
}

#[test]
fn missing_channel_label_falls_back_to_comment_with_ch_suffix() {
    let label = build_channel_label(None, Some("Stereo signal"), 0, 1, 2);
    assert_eq!(label, "Stereo signal · Ch 1");
}

#[test]
fn missing_comment_falls_back_to_indexed_label() {
    assert_eq!(signal_base_label(None, 0), "Signal 1");
    assert_eq!(signal_base_label(None, 4), "Signal 5");
}

#[test]
fn single_channel_label_omits_channel_suffix() {
    assert_eq!(channel_label("Sine", 0, 1), "Sine");
}

#[test]
fn multi_channel_label_includes_channel_suffix() {
    assert_eq!(channel_label("Sine", 0, 2), "Sine · Ch 0");
    assert_eq!(channel_label("Sine", 1, 2), "Sine · Ch 1");
}

#[test]
fn clipping_a_label_again_keeps_it() {
    for text in ["Pink noise", "first\nsecond", "", "\n", "x\r\ny", &"ä".repeat(80)] {
        let once = clip_label(text);
        assert_eq!(clip_label(&once), once);
        assert!(once.chars().count() <= LABEL_MAX_CHARS);
        assert!(!once.contains('\n'));
    }
}

#[test]
fn carriage_return_before_line_feed_is_dropped() {
    assert_eq!(clip_label("first\r\nsecond"), "first");
    assert_eq!(clip_label("bare\r"), "bare\r");
    assert_eq!(clip_label(""), "");
    assert_eq!(clip_label("\nsecond"), "");
}

#[test]
fn label_of_exactly_the_limit_is_kept() {
    let exact = "b".repeat(LABEL_MAX_CHARS);
    assert_eq!(clip_label(&exact), exact);
    let over = "c".repeat(LABEL_MAX_CHARS + 1);
    let clipped = clip_label(&over);
    assert_eq!(clipped, format!("{}…", "c".repeat(LABEL_MAX_CHARS - 1)));
}

#[test]
fn long_first_line_counts_characters_not_bytes() {
    let wide = "é".repeat(45);
    let clipped = clip_label(&wide);
    assert_eq!(clipped, format!("{}…", "é".repeat(LABEL_MAX_CHARS - 1)));
}

#[test]
fn comment_is_clipped_in_base_and_channel_labels() {
    let long = format!("{}\nrest", "d".repeat(50));
    let base = signal_base_label(Some(&long), 3);
    assert_eq!(base, format!("{}…", "d".repeat(LABEL_MAX_CHARS - 1)));
    assert_eq!(build_channel_label(None, None, 9, 0, 1), "Signal 10");
    assert_eq!(build_channel_label(None, None, 9, 2, 3), "Signal 10 · Ch 2");
    assert_eq!(build_channel_label(Some("left\nright"), None, 0, 0, 2), "left");
}

#[test]
fn spectrogram_channels_are_named_by_label_or_index() {
    assert_eq!(spectrogram_channel_label(None, 0), "Channel 0");
    assert_eq!(spectrogram_channel_label(None, 12), "Channel 12");
    assert_eq!(spectrogram_channel_label(Some("Left mic"), 1), "Left mic");
}
