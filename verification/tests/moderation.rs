use rust_confessional::moderation::{flush_word, mask_words, sanitize_for_stage};
use rust_confessional::text::{control, white_space};

#[test]
fn sanitize_keeps_unicode_letters_punctuation_and_emoji() {
    assert_eq!(sanitize_for_stage("café ☕ works"), "café ☕ works");
    assert_eq!(sanitize_for_stage("naïve façade"), "naïve façade");
    assert_eq!(sanitize_for_stage("ship it 🚀🔥"), "ship it 🚀🔥");
}

#[test]
fn sanitize_preserves_multi_codepoint_emoji() {
    let family = "👨‍👩‍👧";
    assert_eq!(sanitize_for_stage(family), family);
}

#[test]
fn sanitize_strips_control_characters_and_collapses_whitespace() {
    assert_eq!(sanitize_for_stage("a\u{0007}b\t c\n\nd"), "a b c d");
    assert_eq!(sanitize_for_stage("  spaced   out  "), "spaced out");
}

#[test]
fn sanitize_keeps_basic_punctuation() {
    assert_eq!(
        sanitize_for_stage("I clone everything until it compiles."),
        "I clone everything until it compiles."
    );
}

#[test]
fn mask_blanks_listed_words_whole_and_case_insensitively() {
    let words = vec!["badword".to_owned()];
    assert_eq!(mask_words("you badword", &words), "you *******");
    assert_eq!(mask_words("BadWord!", &words), "*******!");
}

#[test]
fn mask_leaves_substrings_and_unlisted_words_untouched() {
    let words = vec!["cram".to_owned()];
    assert_eq!(mask_words("scramble the cram", &words), "scramble the ****");
    assert_eq!(mask_words("perfectly fine", &words), "perfectly fine");
}

#[test]
fn mask_is_a_noop_with_no_words() {
    assert_eq!(mask_words("anything at all", &[]), "anything at all");
}

#[test]
fn sanitizing_twice_is_sanitizing_once() {
    for text in ["", "  ", "\u{0}\u{7f}", "a\u{85}b", "x \u{2003} y\u{3000}z", "é\r\n ü"] {
        let once = sanitize_for_stage(text);
        assert_eq!(sanitize_for_stage(&once), once);
        assert!(!once.chars().any(char::is_control));
        let visible = |s: &str| -> String {
            s.chars()
                .filter(|c| !c.is_control() && !c.is_whitespace())
                .collect()
        };
        assert_eq!(visible(&once), visible(text));
    }
    assert_eq!(sanitize_for_stage("\u{0}\u{7f} \n"), "");
}

#[test]
fn sanitizing_agrees_with_splitting_on_whitespace() {
    for text in ["a\u{1c}b", "one\u{a0}two", " x\u{2028}y ", "tab\tstop", "\u{200d}zero width"] {
        let filtered: String = text
            .chars()
            .map(|c| if c.is_control() { ' ' } else { c })
            .collect();
        let expected = filtered.split_whitespace().collect::<Vec<_>>().join(" ");
        assert_eq!(sanitize_for_stage(text), expected);
    }
}

#[test]
fn masking_follows_unicode_letters_and_case() {
    let words = vec!["straße".to_owned(), "été42".to_owned()];
    assert_eq!(mask_words("Die STRASSE, die Straße!", &words), "Die STRASSE, die ******!");
    assert_eq!(mask_words("ÉTÉ42 été43", &words), "***** été43");
    assert_eq!(mask_words("", &words), "");
}

#[test]
fn a_word_is_shown_or_blanked_by_its_lower_case() {
    let words = vec!["ss".to_owned()];
    assert_eq!(flush_word("ß", "ss", &words), "*");
    assert_eq!(flush_word("ß", "ß", &words), "ß");
}

#[test]
fn character_classes_match_the_standard_library() {
    for c in (0..=0x10ffff).filter_map(char::from_u32) {
        assert_eq!(white_space(c), c.is_whitespace(), "white space {:x}", c as u32);
        assert_eq!(control(c), c.is_control(), "control {:x}", c as u32);
    }
}
