use std::ops::Range;

use tm20::face::fallback::{is_glue, missing_ranges, segments, Segment};

fn seg(range: Range<usize>, fallback: bool) -> Segment {
    Segment { range, fallback }
}

fn fallback_texts<'t>(text: &'t str, missing: &[Range<usize>]) -> Vec<&'t str> {
    segments(text, missing)
        .iter()
        .filter(|s| s.fallback)
        .map(|s| &text[s.range.clone()])
        .collect()
}

#[test]
fn missing_clusters_become_byte_ranges_up_to_the_next_cluster() {
    // "a" + grinning face (4 bytes) + "b": clusters at 0, 1, 5.
    let ranges = missing_ranges(6, &[0, 1, 5], &[1]);
    assert_eq!(ranges, vec![1..5]);
    let last = missing_ranges(6, &[0, 1, 5], &[5, 1]);
    assert_eq!(last, vec![1..5, 5..6]);
}

#[test]
fn nothing_missing_is_one_primary_segment() {
    assert_eq!(segments("hello", &[]), vec![seg(0..5, false)]);
    assert!(segments("", &[]).is_empty());
}

#[test]
fn an_emoji_between_words_is_its_own_segment() {
    let text = "hi \u{1F600} you";
    let start = text.find('\u{1F600}').unwrap();
    let got = segments(text, std::slice::from_ref(&(start..start + 4)));
    assert_eq!(
        got,
        vec![seg(0..3, false), seg(3..7, true), seg(7..11, false)]
    );
}

#[test]
fn zwj_sequences_and_selectors_travel_with_the_emoji() {
    // man ZWJ woman ZWJ girl: the joiners are hidden by the primary shaper.
    let family = "\u{1F468}\u{200D}\u{1F469}\u{200D}\u{1F467}";
    let text = format!("us: {family}!");
    let missing: Vec<Range<usize>> = text
        .char_indices()
        .filter(|(_, c)| matches!(c, '\u{1F468}' | '\u{1F469}' | '\u{1F467}'))
        .map(|(i, c)| i..i + c.len_utf8())
        .collect();
    assert_eq!(fallback_texts(&text, &missing), vec![family]);

    let heart = "\u{2764}\u{FE0F}";
    let text = format!("love {heart} you");
    let at = text.find('\u{2764}').unwrap();
    assert_eq!(
        fallback_texts(&text, std::slice::from_ref(&(at..at + 3))),
        vec![heart]
    );
}

#[test]
fn emoji_presentation_takes_a_character_the_primary_face_owns() {
    let heart = "\u{2764}\u{FE0F}";
    let text = format!("love {heart} you");
    assert_eq!(fallback_texts(&text, &[]), vec![heart]);
    assert_eq!(
        fallback_texts("love \u{2764} you", &[]),
        Vec::<&str>::new(),
        "a bare heart stays with the text face"
    );
}

#[test]
fn skin_tones_flags_and_keycaps_stay_whole() {
    let wave = "\u{1F44B}\u{1F3FD}";
    let at = 0;
    assert_eq!(
        fallback_texts(&format!("{wave} hi"), std::slice::from_ref(&(at..at + 4))),
        vec![wave]
    );

    let flag = "\u{1F1EB}\u{1F1F7}";
    let text = format!("from {flag}");
    let at = text.find('\u{1F1EB}').unwrap();
    assert_eq!(
        fallback_texts(&text, &[at..at + 4, at + 4..at + 8]),
        vec![flag]
    );

    let keycap = "1\u{FE0F}\u{20E3}";
    let text = format!("press {keycap} now");
    let at = text.find('\u{20E3}').unwrap();
    assert_eq!(
        fallback_texts(&text, std::slice::from_ref(&(at..at + 3))),
        vec![keycap]
    );
}

#[test]
fn glue_far_from_any_emoji_stays_with_the_primary_face() {
    let text = "a\u{200D}b \u{1F600}";
    let at = text.find('\u{1F600}').unwrap();
    let got = segments(text, std::slice::from_ref(&(at..at + 4)));
    assert_eq!(got, vec![seg(0..at, false), seg(at..at + 4, true)]);
}

#[test]
fn glue_characters_are_recognised() {
    for c in ['\u{200D}', '\u{FE0E}', '\u{FE0F}', '\u{20E3}', '\u{E0020}', '\u{E007F}', '\u{1F3FB}', '\u{1F3FF}'] {
        assert!(is_glue(c), "{c:?}");
    }
    for c in ['a', '1', '\u{1F600}', '\u{E001F}', '\u{E0080}', '\u{1F3FA}', '\u{1F400}'] {
        assert!(!is_glue(c), "{c:?}");
    }
}

#[test]
fn missing_offsets_at_the_end_or_repeated_give_one_range_each() {
    // a missing offset at the end of the text has no bytes and gives nothing
    assert_eq!(missing_ranges(6, &[0, 1, 5], &[6]), Vec::<Range<usize>>::new());
    // duplicates collapse, order is by start
    assert_eq!(missing_ranges(6, &[0, 1, 5], &[5, 0, 5, 0]), vec![0..1, 5..6]);
    // a cluster beyond the text is capped at its length
    assert_eq!(missing_ranges(4, &[0, 9], &[0]), vec![0..4]);
}

#[test]
fn segments_cover_the_text_and_alternate() {
    let text = "ab\u{1F600}\u{1F600}cd\u{1F600}";
    let first = text.find('\u{1F600}').unwrap();
    let last = text.rfind('\u{1F600}').unwrap();
    let missing = [first..first + 4, first + 4..first + 8, last..last + 4];
    let got = segments(text, &missing);
    assert_eq!(got, vec![seg(0..2, false), seg(2..10, true), seg(10..12, false), seg(12..16, true)]);
    assert_eq!(got.last().unwrap().range.end, text.len());
    for pair in got.windows(2) {
        assert_eq!(pair[0].range.end, pair[1].range.start);
        assert_ne!(pair[0].fallback, pair[1].fallback);
    }
}

#[test]
fn a_keycap_pulls_its_base_across_glue() {
    // the keycap alone is missing; the selector between it and the base is glue
    let text = "#\u{FE0E}\u{20E3}";
    let at = text.find('\u{20E3}').unwrap();
    assert_eq!(fallback_texts(text, &[at..at + 3]), vec![text]);
}
