use rsvp_term::app::App;
use rsvp_term::orp::calculate_orp;
use rsvp_term::parser::{DocumentParser, MarkdownParser};
use rsvp_term::stream::build_timed_tokens;
use rsvp_term::timing::calculate_duration;
use rsvp_term::types::TimedToken;

#[test]
fn test_full_document_flow() {
    let content = r#"
# Test Document

This is a **bold** test with *italic* text.

## Second Section

- List item one
- List item two

> A quote here
"#;

    let parser = MarkdownParser::new();
    let doc = parser.parse_str(content).unwrap();

    assert!(!doc.tokens.is_empty());
    assert_eq!(doc.sections.len(), 2);

    let timed: Vec<TimedToken> = doc
        .tokens
        .into_iter()
        .map(|t| TimedToken {
            duration_ms: calculate_duration(&t, 300),
            orp_position: calculate_orp(&t.word),
            token: t,
        })
        .collect();

    let mut app = App::new(timed, doc.sections);

    // Test navigation
    assert_eq!(app.position(), 0);
    app.advance();
    assert_eq!(app.position(), 1);

    // Test WPM
    app.increase_wpm();
    assert_eq!(app.wpm(), 325);
}

#[test]
fn test_timed_stream_of_a_document() {
    let parser = MarkdownParser::new();
    let doc = parser.parse_str("# Title\n\nA considerable sentence, indeed.").unwrap();
    let stream = build_timed_tokens(&doc.tokens, 300);
    assert_eq!(stream.len(), doc.tokens.len());
    for (timed, token) in stream.iter().zip(doc.tokens.iter()) {
        assert_eq!(timed.token, *token);
        assert_eq!(timed.duration_ms, calculate_duration(token, 300));
        assert_eq!(timed.orp_position, calculate_orp(&token.word));
        assert!(timed.duration_ms >= 50);
        assert!(timed.orp_position < token.word.chars().count());
    }
    let durations: Vec<u64> = stream.iter().map(|t| t.duration_ms).collect();
    // Title: new block; A: new block; considerable: 12 letters; sentence,: 9 and a comma;
    // indeed.: 7, a full stop, and the end of the paragraph.
    assert_eq!(durations, vec![350, 350, 270, 380, 710]);
}
