use rsvp_term::orp::calculate_orp;
use rsvp_term::timing::{calculate_duration, generate_timing_hint};
use rsvp_term::types::{BlockContext, TimingHint, Token, TokenStyle};

fn token_with(hint: TimingHint) -> Token {
    Token {
        word: "word".to_string(),
        style: TokenStyle::Normal,
        block: BlockContext::Paragraph,
        parent_context: None,
        timing_hint: hint,
    }
}

#[test]
fn test_word_length_modifier_grows_with_length_only() {
    let mut previous = 0;
    for len in 0..60usize {
        let latin = "a".repeat(len);
        let wide = "\u{00e9}".repeat(len);
        let marks = "-".repeat(len);
        let modifier = generate_timing_hint(&latin, false, false, false, false, None)
            .word_length_modifier;
        assert_eq!(
            modifier,
            generate_timing_hint(&wide, true, false, false, true, Some(1)).word_length_modifier
        );
        assert_eq!(
            modifier,
            generate_timing_hint(&marks, false, true, true, false, None).word_length_modifier
        );
        if len <= 6 {
            assert_eq!(modifier, 0);
        } else {
            assert!(modifier > previous);
        }
        previous = modifier;
    }
    let at = |len: usize| {
        generate_timing_hint(&"x".repeat(len), false, false, false, false, None)
            .word_length_modifier
    };
    assert_eq!((at(7), at(10), at(11), at(20)), (10, 40, 55, 190));
}

#[test]
fn test_punctuation_and_structure_modifiers() {
    let hint = |word: &str| generate_timing_hint(word, false, false, false, false, None);
    for word in ["a.", "a!", "a?", "."] {
        assert_eq!(hint(word).punctuation_modifier, 200);
    }
    for word in ["a,", "a:", "a;"] {
        assert_eq!(hint(word).punctuation_modifier, 150);
    }
    for word in ["a", "a.b", "a-", "a)", ""] {
        assert_eq!(hint(word).punctuation_modifier, 0);
    }
    let structure = |end: bool, new: bool, last: bool| {
        generate_timing_hint("w", end, new, last, false, None).structure_modifier
    };
    assert_eq!(structure(false, false, false), 0);
    assert_eq!(structure(false, true, false), 150);
    assert_eq!(structure(true, true, false), 300);
    assert_eq!(structure(false, true, true), 300);
    assert_eq!(structure(true, false, true), 300);
    let passed = generate_timing_hint("w", false, false, false, true, Some(4));
    assert!(passed.is_cell_start);
    assert_eq!(passed.table_column, Some(4));
}

#[test]
fn test_last_cell_pauses_longer_than_other_cells() {
    for new_block in [false, true] {
        let last = generate_timing_hint("cell", false, new_block, true, new_block, Some(2));
        let other = generate_timing_hint("cell", false, new_block, false, new_block, Some(0));
        assert!(last.structure_modifier > other.structure_modifier);
    }
}

#[test]
fn test_orp_stays_inside_the_word() {
    for word in [
        "a", "ab", "abc", "abcd", "abcdefg", "abcdefghij", "(a)", "...abcdefghijkl", "1a2b3c",
        "1", "42", "...", "--", "2024", "3.14159", "1234567890", "\u{2014}", "(((((((a",
    ] {
        assert!(calculate_orp(word) < word.chars().count().max(1), "{word}");
    }
    assert_eq!(calculate_orp(""), 0);
    // Without a letter the characters count as the letters do.
    assert_eq!(calculate_orp("123"), 0);
    assert_eq!(calculate_orp("--"), 0);
    assert_eq!(calculate_orp("2024"), 1);
    assert_eq!(calculate_orp("3.14159"), 2);
    assert_eq!(calculate_orp("1234567890"), 3);
    // Digits before the letters are skipped like punctuation.
    assert_eq!(calculate_orp("42abcd"), 3);
    assert_eq!(calculate_orp("\u{00e9}t\u{00e9}"), 0);
    assert_eq!(calculate_orp("\u{00e9}l\u{00e8}ve"), 1);
}

#[test]
fn test_orp_offset_steps_at_four_and_seven() {
    assert_eq!(calculate_orp("abcd"), calculate_orp("abc") + 1);
    assert_eq!(calculate_orp("abcdefg"), calculate_orp("abcdef") + 1);
    assert_eq!(calculate_orp("abcdefghij"), calculate_orp("abcdefghi") + 1);
    assert_eq!(calculate_orp("abcdefghijklmnop"), 3);
}

#[test]
fn test_duration_never_grows_with_speed() {
    for total in [0, 1, 75, 150, 385, 2000] {
        let token = token_with(TimingHint { structure_modifier: total, ..Default::default() });
        let mut previous = u64::MAX;
        for wpm in 1..=2000u16 {
            let duration = calculate_duration(&token, wpm);
            assert!(duration <= previous, "total {total} wpm {wpm}");
            assert!(duration >= 50);
            previous = duration;
        }
    }
}

#[test]
fn test_duration_floor_and_scaling() {
    let negative = token_with(TimingHint {
        word_length_modifier: -1000,
        punctuation_modifier: -1,
        structure_modifier: i32::MIN,
        ..Default::default()
    });
    for wpm in [1u16, 100, 300, 800, u16::MAX] {
        assert_eq!(calculate_duration(&negative, wpm), 50);
    }
    let zero_sum = token_with(TimingHint {
        word_length_modifier: -150,
        punctuation_modifier: 150,
        ..Default::default()
    });
    assert_eq!(calculate_duration(&zero_sum, 300), 200);
    assert_eq!(calculate_duration(&zero_sum, u16::MAX), 50);
    let paused = token_with(TimingHint { punctuation_modifier: 200, ..Default::default() });
    // The modifiers are halved at twice the speed and doubled at half of it.
    assert_eq!(calculate_duration(&paused, 300), 400);
    assert_eq!(calculate_duration(&paused, 600), 200);
    assert_eq!(calculate_duration(&paused, 150), 800);
    assert_eq!(calculate_duration(&paused, 1), 120000);
    let odd = token_with(TimingHint { punctuation_modifier: 1, ..Default::default() });
    // Half a millisecond is rounded up.
    assert_eq!(calculate_duration(&odd, 600), 101);
    assert_eq!(calculate_duration(&odd, 601), 99);
    let greatest = token_with(TimingHint {
        word_length_modifier: i32::MAX,
        punctuation_modifier: i32::MAX,
        structure_modifier: i32::MAX,
        ..Default::default()
    });
    assert_eq!(calculate_duration(&greatest, 1), 60000 + 3 * 2147483647 * 300);
}
