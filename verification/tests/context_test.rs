use rsvp_term::app::App;
use rsvp_term::parser::traits::DocumentParser;
use rsvp_term::parser::MarkdownParser;
use rsvp_term::types::{BlockContext, TimedToken, TimingHint, Token, TokenStyle};
use rsvp_term::ui::common::{calculate_padding, Area, MIN_PADDING};
use rsvp_term::ui::context::{compute_document_lines, find_position_in_lines};
use rsvp_term::ui::screen::MainView;

#[test]
fn test_list_items_have_structure_modifier_on_first_word() {
    let parser = MarkdownParser::new();
    let doc = parser
        .parse_str("- Item one\n- Item two\n- Item three")
        .unwrap();

    let first_words: Vec<_> = doc
        .tokens
        .iter()
        .filter(|t| matches!(t.block, BlockContext::ListItem(_)))
        .filter(|t| t.timing_hint.structure_modifier > 0)
        .map(|t| t.word.as_str())
        .collect();

    assert_eq!(first_words, vec!["Item", "Item", "Item"]);
}

#[test]
fn test_list_items_should_be_separate_lines() {
    let parser = MarkdownParser::new();
    let doc = parser
        .parse_str("- First item\n- Second item\n- Third item")
        .unwrap();

    let new_line_triggers: Vec<_> = doc
        .tokens
        .iter()
        .filter(|t| {
            matches!(t.block, BlockContext::ListItem(_)) && t.timing_hint.structure_modifier > 0
        })
        .collect();

    assert_eq!(new_line_triggers.len(), 3);
}

#[test]
fn test_heading_short_line_centered() {
    // Headings should be centered (center=true)
    let padding = calculate_padding(20, 80, true);
    // Should center: (80 - 20) / 2 = 30
    assert_eq!(padding, 30);
}

#[test]
fn test_heading_long_line_left_aligned() {
    // Long heading still gets left-aligned (above threshold)
    let padding = calculate_padding(60, 80, true);
    assert_eq!(padding, MIN_PADDING);
}

#[test]
fn test_paragraph_always_left_aligned() {
    // Paragraphs should always be left-aligned (center=false)
    let padding = calculate_padding(20, 80, false);
    assert_eq!(padding, MIN_PADDING);
}

#[test]
fn test_list_item_left_aligned() {
    // List items should be left-aligned
    let padding = calculate_padding(20, 80, false);
    assert_eq!(padding, MIN_PADDING);
}

#[test]
fn test_table_cell_left_aligned() {
    // Table cells should be left-aligned
    let padding = calculate_padding(20, 80, false);
    assert_eq!(padding, MIN_PADDING);
}

#[test]
fn test_heading_empty_content() {
    // Edge case: empty heading
    let padding = calculate_padding(0, 80, true);
    // Should center at 40
    assert_eq!(padding, 40);
}

#[test]
fn test_padding_edges() {
    assert_eq!(calculate_padding(10, 0, true), MIN_PADDING);
    assert_eq!(calculate_padding(47, 80, true), 16);
    assert_eq!(calculate_padding(48, 80, true), MIN_PADDING);
    assert_eq!(calculate_padding(usize::MAX, usize::MAX, true), MIN_PADDING);
    assert_eq!(calculate_padding(1, usize::MAX, true), (usize::MAX - 1) / 2);
}

fn make_timed_token(word: &str) -> TimedToken {
    TimedToken {
        token: Token {
            word: word.to_string(),
            style: TokenStyle::Normal,
            block: BlockContext::Paragraph,
            parent_context: None,
            timing_hint: TimingHint::default(),
        },
        duration_ms: 200,
        orp_position: 1,
    }
}

fn create_long_test_app() -> App {
    // Create a much longer document that will span multiple lines even in a wide terminal
    let words = "The quick brown fox jumps over the lazy dog and then runs around the park \
        while the sun shines brightly in the clear blue sky above the green meadow where \
        birds sing their songs and flowers bloom in vibrant colors creating a beautiful \
        scene that captivates all who witness it and brings joy to their hearts as they \
        walk along the winding path through the enchanted forest filled with ancient trees \
        and mysterious creatures that have lived there for centuries watching over the land \
        with wisdom and grace that transcends time itself and connects all living things \
        in a web of life that stretches across the entire universe binding us together \
        in ways we cannot fully comprehend but can feel deep within our souls";
    let tokens: Vec<TimedToken> = words.split_whitespace().map(make_timed_token).collect();
    App::new(tokens, vec![])
}

/// The words of every context line around the current word, and the column
/// at which each of them is drawn.
fn render_to_columns(app: &App, width: u16, height: u16) -> Vec<Vec<(usize, usize)>> {
    let screen = rsvp_term::ui::render(app, Area { x: 0, y: 0, width, height });
    let view = match screen.main {
        MainView::Reading(view) => view,
        other => panic!("expected the reading view, got {:?}", other),
    };
    let lines = compute_document_lines(app, view.before_area.width as usize, app.context_width());
    let (current_line, _) = find_position_in_lines(&lines, app.position());
    let first_line = current_line + 1 - view.before.len();
    let mut columns = Vec::new();
    for (offset, placed) in view.before.iter().chain(view.after.iter().skip(1)).enumerate() {
        let line = &lines[first_line + offset];
        let mut column = 0;
        let mut line_columns = Vec::new();
        // Two pieces stand before the words: the padding and the mark of the block.
        for (i, span) in placed.line.spans.iter().enumerate() {
            if i >= 2 {
                line_columns.push((line.tokens[i - 2].0, column));
            }
            column += span.text.chars().count();
        }
        columns.push(line_columns);
    }
    columns
}

/// Test that context lines don't reflow as we advance through words
/// in a large terminal with a long document
#[test]
fn test_context_no_reflow_on_advance() {
    let mut app = create_long_test_app();

    // Use a large terminal
    let width = 160;
    let height = 50;

    let output_pos0 = render_to_columns(&app, width, height);

    // Advance to position 20
    for _ in 0..20 {
        app.advance();
    }
    let output_pos20 = render_to_columns(&app, width, height);

    // Advance to position 40
    for _ in 0..20 {
        app.advance();
    }
    let output_pos40 = render_to_columns(&app, width, height);

    // Advance to position 60
    for _ in 0..20 {
        app.advance();
    }
    let output_pos60 = render_to_columns(&app, width, height);

    assert!(output_pos0.len() > 1);
    assert_eq!(output_pos0, output_pos20);
    assert_eq!(output_pos0, output_pos40);
    assert_eq!(output_pos0, output_pos60);
    let shown: usize = output_pos0.iter().map(|line| line.len()).sum();
    assert_eq!(shown, app.tokens().len());
}
