use rsvp_term::orp::calculate_orp;

#[test]
fn test_orp_short_words() {
    assert_eq!(calculate_orp("a"), 0); // 1 char
    assert_eq!(calculate_orp("to"), 0); // 2 chars
    assert_eq!(calculate_orp("the"), 0); // 3 chars
}

#[test]
fn test_orp_medium_words() {
    assert_eq!(calculate_orp("word"), 1); // 4 chars
    assert_eq!(calculate_orp("quick"), 1); // 5 chars
    assert_eq!(calculate_orp("jumped"), 1); // 6 chars
}

#[test]
fn test_orp_longer_words() {
    assert_eq!(calculate_orp("quickly"), 2); // 7 chars
    assert_eq!(calculate_orp("beautiful"), 2); // 9 chars
}

#[test]
fn test_orp_very_long_words() {
    assert_eq!(calculate_orp("extraordinary"), 3); // 13 chars -> 10+
    assert_eq!(calculate_orp("unbelievable"), 3); // 12 chars -> 10+
}

#[test]
fn test_orp_unicode_words() {
    // "ということ" is 5 Unicode chars, so should return 1 (4-6 range)
    assert_eq!(calculate_orp("ということ"), 1);
}

#[test]
fn test_orp_empty_string() {
    assert_eq!(calculate_orp(""), 0);
}

#[test]
fn test_orp_boundary_cases() {
    assert_eq!(calculate_orp("abc"), 0);    // 3 -> 0
    assert_eq!(calculate_orp("abcd"), 1);   // 4 -> 1
    assert_eq!(calculate_orp("abcdef"), 1); // 6 -> 1
    assert_eq!(calculate_orp("abcdefg"), 2); // 7 -> 2
}

#[test]
fn test_orp_with_leading_punctuation() {
    assert_eq!(calculate_orp("(as"), 1);     // skip '(', 'as' is 2 chars -> offset 0, result 1
    assert_eq!(calculate_orp("\"hello"), 2); // skip '"', 'hello' is 5 chars -> offset 1, result 2
    assert_eq!(calculate_orp("(test)"), 2);  // skip '(', 'test' is 4 chars -> offset 1, result 2
    assert_eq!(calculate_orp("...word"), 4); // skip '...', 'word' is 4 chars -> offset 1, result 4
}

#[test]
fn test_orp_word_without_letters() {
    assert_eq!(calculate_orp("1"), 0);
    assert_eq!(calculate_orp("42"), 0);
    assert_eq!(calculate_orp("..."), 0);
    assert_eq!(calculate_orp("1999"), 1);
    assert_eq!(calculate_orp("12:30:45"), 2);
    assert_eq!(calculate_orp("+1-555-0100"), 3);
    for word in ["1", "42", "...", "1999", "12:30:45", "+1-555-0100", "\u{4e00}\u{4e8c}"] {
        assert!(calculate_orp(word) < word.chars().count());
    }
}
