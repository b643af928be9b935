use rsvp_term::ui::outline::calculate_padding;

#[test]
fn test_centering_scenarios() {
    // (content width, available width, expected padding)
    let cases = vec![
        (10usize, 80usize, 35usize), // (80-10)/2: short heading in wide terminal
        (20, 80, 30),                // (80-20)/2: medium heading in wide terminal
        (50, 80, 2),                 // > 60%, left-aligned
        (47, 80, 16),                // just under 60%
        (48, 80, 2),                 // exactly 60%
    ];

    for (content_width, available_width, expected_padding) in cases {
        assert_eq!(calculate_padding(content_width, available_width), expected_padding);
    }
}

#[test]
fn test_visual_centering_examples() {
    let examples = vec![
        ("# Title", 80usize),
        ("## Subtitle", 80),
        ("The quick brown fox jumps over the lazy dog.", 80),
        ("Short.", 60),
        ("A very long paragraph that definitely exceeds the centering threshold and should be left-aligned.", 80),
    ];

    let visuals: Vec<String> = examples
        .iter()
        .map(|(content, width)| {
            let padding = calculate_padding(content.len(), *width);
            format!("|{}{}|", " ".repeat(padding), content)
        })
        .collect();

    assert_eq!(visuals[0], format!("|{}# Title|", " ".repeat(36)));
    assert_eq!(visuals[1], format!("|{}## Subtitle|", " ".repeat(34)));
    assert_eq!(
        visuals[2],
        format!("|{}The quick brown fox jumps over the lazy dog.|", " ".repeat(18))
    );
    assert_eq!(visuals[3], format!("|{}Short.|", " ".repeat(27)));
    assert_eq!(
        visuals[4],
        "|  A very long paragraph that definitely exceeds the centering threshold and should be left-aligned.|"
    );
}

#[test]
fn test_narrow_terminal_centering() {
    // In narrow terminals, even short content might exceed threshold
    let cases = vec![
        (10usize, 40usize, 15usize), // 25% - centered
        (20, 40, 10),                // 50% - centered
        (25, 40, 2),                 // 62.5% - left-aligned
        (30, 40, 2),                 // 75% - left-aligned
    ];

    for (content, width, expected) in cases {
        assert_eq!(calculate_padding(content, width), expected);
    }
}

#[test]
fn test_outline_padding_never_below_minimum() {
    assert_eq!(calculate_padding(1, 3), 2);
    assert_eq!(calculate_padding(0, 0), 2);
    assert_eq!(calculate_padding(0, 5), 2);
    assert_eq!(calculate_padding(0, 6), 3);
}
