use rsvp_term::app::App;
use rsvp_term::types::{BlockContext, Section, TimedToken, TimingHint, Token, TokenStyle};
use rsvp_term::ui::context::{
    block_prefix, calculate_line_width, compute_document_lines, compute_lines,
    compute_table_column_widths, find_position_in_lines, render_after, render_before, render_line,
    render_lines_after, render_lines_before, table_row, ContextType, DocLine,
};
use std::collections::HashMap;

fn timed(word: &str, block: BlockContext, hint: TimingHint, style: TokenStyle) -> TimedToken {
    TimedToken {
        token: Token {
            word: word.to_string(),
            style,
            block,
            parent_context: None,
            timing_hint: hint,
        },
        duration_ms: 200,
        orp_position: 0,
    }
}

fn plain(word: &str) -> TimedToken {
    timed(word, BlockContext::Paragraph, TimingHint::default(), TokenStyle::Normal)
}

fn in_block(word: &str, block: BlockContext) -> TimedToken {
    timed(word, block, TimingHint::default(), TokenStyle::Normal)
}

fn cell(word: &str, row: usize, column: usize, start: bool) -> TimedToken {
    timed(
        word,
        BlockContext::TableCell(row),
        TimingHint { is_cell_start: start, table_column: Some(column), ..Default::default() },
        TokenStyle::Normal,
    )
}

fn item(word: &str, first: bool) -> TimedToken {
    timed(
        word,
        BlockContext::ListItem(1),
        TimingHint { structure_modifier: if first { 150 } else { 0 }, ..Default::default() },
        TokenStyle::Normal,
    )
}

fn shape(lines: &[DocLine]) -> Vec<Vec<usize>> {
    lines.iter().map(|l| l.tokens.iter().map(|(i, _)| *i).collect()).collect()
}

fn texts(line: &rsvp_term::ui::context::RenderedLine) -> Vec<String> {
    line.spans.iter().map(|s| s.text.clone()).collect()
}

#[test]
fn test_lines_break_on_overflow_without_separator() {
    let tokens: Vec<TimedToken> = ["aaa", "bbb", "ccc", "ddd", "eeeeeeeeeeee", "f"]
        .iter()
        .map(|w| plain(w))
        .collect();
    // 16 columns leave room for 10 characters.
    let lines = compute_lines(&tokens, 0, 16, 80);
    assert_eq!(shape(&lines), vec![vec![0, 1], vec![2, 3], vec![4], vec![5]]);
    assert!(lines.iter().all(|l| !l.is_blank));
    // The cap on the line width wins over a wide viewport.
    let lines = compute_lines(&tokens, 0, 500, 8);
    assert_eq!(shape(&lines), vec![vec![0, 1], vec![2, 3], vec![4], vec![5]]);
    // A viewport narrower than its margin still gives every word a line.
    let lines = compute_lines(&tokens, 0, 3, 80);
    assert_eq!(shape(&lines), vec![vec![0], vec![1], vec![2], vec![3], vec![4], vec![5]]);
}

#[test]
fn test_lines_separate_blocks_with_blank_lines() {
    let tokens = vec![
        in_block("Title", BlockContext::Heading(1)),
        plain("some"),
        plain("text"),
        item("first", true),
        item("one", false),
        item("second", true),
        in_block("quote", BlockContext::Quote(1)),
    ];
    let lines = compute_lines(&tokens, 0, 80, 80);
    assert_eq!(
        shape(&lines),
        vec![vec![0], vec![], vec![1, 2], vec![], vec![3, 4], vec![], vec![5], vec![], vec![6]]
    );
    let blanks: Vec<bool> = lines.iter().map(|l| l.is_blank).collect();
    assert_eq!(blanks, vec![false, true, false, true, false, true, false, true, false]);
    for line in &lines {
        for (index, token) in &line.tokens {
            assert_eq!(token.token.word, tokens[*index].token.word);
        }
    }
}

#[test]
fn test_lines_keep_table_rows_together() {
    let tokens = vec![
        plain("before"),
        cell("ab", 1, 0, true),
        cell("c", 1, 0, false),
        cell("def", 1, 1, true),
        cell("g", 2, 0, true),
        cell("h", 2, 1, true),
        plain("after"),
    ];
    let lines = compute_lines(&tokens, 3, 80, 80);
    assert_eq!(
        shape(&lines),
        vec![vec![0], vec![], vec![1, 2, 3], vec![], vec![4, 5], vec![], vec![6]]
    );
}

#[test]
fn test_lines_cover_only_the_window() {
    let tokens: Vec<TimedToken> = (0..1500).map(|i| plain(&format!("w{i}"))).collect();
    let lines = compute_lines(&tokens, 700, 80, 60);
    let indices: Vec<usize> = shape(&lines).into_iter().flatten().collect();
    assert_eq!(indices, (200..1200).collect::<Vec<usize>>());
    let lines = compute_lines(&tokens, 0, 80, 60);
    let indices: Vec<usize> = shape(&lines).into_iter().flatten().collect();
    assert_eq!(indices, (0..500).collect::<Vec<usize>>());
    let lines = compute_lines(&tokens, 1499, 80, 60);
    let indices: Vec<usize> = shape(&lines).into_iter().flatten().collect();
    assert_eq!(indices, (999..1500).collect::<Vec<usize>>());
    assert!(compute_lines(&tokens, 5000, 80, 60).is_empty());
    assert!(compute_lines(&[], 0, 80, 60).is_empty());
}

#[test]
fn test_layout_is_repeatable() {
    let tokens: Vec<TimedToken> = (0..300)
        .map(|i| if i % 7 == 0 { item(&format!("i{i}"), true) } else { plain(&format!("w{i}")) })
        .collect();
    let first = compute_lines(&tokens, 120, 70, 50);
    let second = compute_lines(&tokens, 120, 70, 50);
    assert_eq!(shape(&first), shape(&second));
    let blanks = |lines: &[DocLine]| lines.iter().map(|l| l.is_blank).collect::<Vec<bool>>();
    assert_eq!(blanks(&first), blanks(&second));
}

#[test]
fn test_compute_document_lines_uses_the_session() {
    let tokens: Vec<TimedToken> = ["aaa", "bbb", "ccc"].iter().map(|w| plain(w)).collect();
    let mut app = App::new(tokens, vec![]);
    app.advance();
    let lines = compute_document_lines(&app, 16, 80);
    assert_eq!(shape(&lines), vec![vec![0, 1], vec![2]]);
}

#[test]
fn test_find_position_in_lines() {
    let tokens = vec![
        in_block("Title", BlockContext::Heading(1)),
        plain("some"),
        plain("text"),
        plain("here"),
    ];
    let lines = compute_lines(&tokens, 0, 80, 80);
    assert_eq!(find_position_in_lines(&lines, 0), (0, 0));
    assert_eq!(find_position_in_lines(&lines, 1), (2, 0));
    assert_eq!(find_position_in_lines(&lines, 3), (2, 2));
    assert_eq!(find_position_in_lines(&lines, 4), (0, 0));
    assert_eq!(find_position_in_lines(&[], 0), (0, 0));
}

#[test]
fn test_table_row_and_block_prefix() {
    assert_eq!(table_row(&BlockContext::TableCell(3)), Some(3));
    assert_eq!(table_row(&BlockContext::Paragraph), None);
    assert_eq!(table_row(&BlockContext::ListItem(3)), None);
    assert_eq!(block_prefix(&BlockContext::ListItem(1)), "");
    assert_eq!(block_prefix(&BlockContext::ListItem(2)), "- ");
    assert_eq!(block_prefix(&BlockContext::Quote(1)), "| ");
    assert_eq!(block_prefix(&BlockContext::TableCell(0)), "| ");
    assert_eq!(block_prefix(&BlockContext::Heading(2)), "");
    assert_eq!(block_prefix(&BlockContext::Paragraph), "");
    assert_eq!(block_prefix(&BlockContext::Callout("note".to_string())), "[i] ");
}

#[test]
fn test_column_widths_and_line_width() {
    let tokens = vec![
        cell("ab", 1, 0, true),
        cell("c", 1, 0, false),
        cell("def", 1, 1, true),
        cell("wider", 2, 0, true),
        cell("x", 2, 1, true),
        plain("after"),
    ];
    let lines = compute_lines(&tokens, 0, 80, 80);
    assert_eq!(shape(&lines), vec![vec![0, 1, 2], vec![], vec![3, 4], vec![], vec![5]]);
    let widths = compute_table_column_widths(&lines);
    let mut expected = HashMap::new();
    expected.insert(0usize, 5usize);
    expected.insert(1usize, 3usize);
    assert_eq!(widths, expected);
    // Only the rows that are handed over count.
    let widths = compute_table_column_widths(&lines[..1]);
    assert_eq!(widths.get(&0), Some(&4));
    assert_eq!(widths.get(&1), Some(&3));
    assert!(compute_table_column_widths(&lines[4..]).is_empty());

    // "| " + "ab " + "c " + " | " + "def " + "|"
    assert_eq!(calculate_line_width(&lines[0]), 15);
    assert_eq!(calculate_line_width(&lines[1]), 0);
    assert_eq!(calculate_line_width(&lines[2]), 2 + 6 + 3 + 2 + 1);
    assert_eq!(calculate_line_width(&lines[4]), 6);
}

#[test]
fn test_render_line_blanks_what_is_not_shown() {
    let tokens = vec![
        timed("one", BlockContext::Paragraph, TimingHint::default(), TokenStyle::Bold),
        timed("two", BlockContext::Paragraph, TimingHint::default(), TokenStyle::Italic),
        timed("three", BlockContext::Paragraph, TimingHint::default(), TokenStyle::BoldItalic),
        timed("four", BlockContext::Paragraph, TimingHint::default(), TokenStyle::Code),
    ];
    let lines = compute_lines(&tokens, 0, 80, 80);
    let widths = HashMap::new();
    let before = render_line(&lines[0], 80, 0, 2, ContextType::Before, true, true, &widths);
    assert_eq!(texts(&before), vec!["  ", "", "one ", "two ", "      ", "     "]);
    assert_eq!(before.brightness, 200);
    assert_eq!(before.gutter_hint, "");
    let styles: Vec<(bool, bool)> = before.spans.iter().map(|s| (s.bold, s.italic)).collect();
    assert_eq!(
        styles,
        vec![(false, false), (false, false), (true, false), (false, true), (true, true), (false, false)]
    );
    let after = render_line(&lines[0], 80, 3, 2, ContextType::After, false, false, &widths);
    assert_eq!(texts(&after), vec!["  ", "", "    ", "    ", "      ", "four "]);
    assert_eq!(after.brightness, 80);
    assert!(after.spans.iter().all(|s| !s.bold && !s.italic));
    let widths_of = |line: &rsvp_term::ui::context::RenderedLine| {
        line.spans.iter().map(|s| s.text.chars().count()).sum::<usize>()
    };
    assert_eq!(widths_of(&before), widths_of(&after));
}

#[test]
fn test_render_line_brightness_steps() {
    let tokens = vec![plain("word")];
    let lines = compute_lines(&tokens, 0, 80, 80);
    let widths = HashMap::new();
    let levels: Vec<u8> = (0..7)
        .map(|d| render_line(&lines[0], 80, d, 0, ContextType::After, true, false, &widths).brightness)
        .collect();
    assert_eq!(levels, vec![200, 150, 110, 80, 60, 60, 60]);
}

#[test]
fn test_render_line_centers_headings_only() {
    let tokens = vec![in_block("Title", BlockContext::Heading(2)), plain("Title")];
    let lines = compute_lines(&tokens, 0, 80, 80);
    let widths = HashMap::new();
    let heading = render_line(&lines[0], 80, 0, 5, ContextType::Before, true, true, &widths);
    // "Title " is six wide: (80 - 6) / 2.
    assert_eq!(heading.spans[0].text, " ".repeat(37));
    assert_eq!(heading.gutter_hint, "##");
    let paragraph = render_line(&lines[2], 80, 0, 5, ContextType::Before, true, true, &widths);
    assert_eq!(paragraph.spans[0].text, "  ");
    let blank = render_line(&lines[1], 80, 0, 5, ContextType::Before, true, true, &widths);
    assert!(blank.spans.is_empty());
    assert_eq!(blank.gutter_hint, "");
}

#[test]
fn test_render_line_aligns_table_cells() {
    let tokens = vec![
        cell("ab", 1, 0, true),
        cell("c", 1, 0, false),
        cell("def", 1, 1, true),
        cell("longest", 2, 0, true),
        cell("x", 2, 1, true),
    ];
    let lines = compute_lines(&tokens, 0, 80, 80);
    let mut widths = HashMap::new();
    widths.insert(0usize, 8usize);
    widths.insert(1usize, 5usize);
    let first = render_line(&lines[0], 80, 0, 9, ContextType::Before, true, true, &widths);
    assert_eq!(
        texts(&first),
        vec!["  ", "| ", "ab ", "c ", "   ", " | ", "def ", " ", "|"]
    );
    assert_eq!(first.gutter_hint, "|");
    let second = render_line(&lines[2], 80, 0, 9, ContextType::Before, true, true, &widths);
    assert_eq!(texts(&second), vec!["  ", "| ", "longest ", " | ", "x ", "   ", "|"]);
}

#[test]
fn test_render_lines_before_and_after() {
    let tokens: Vec<TimedToken> = ["aaa", "bbb", "ccc", "ddd", "eee", "fff", "ggg", "hhh"]
        .iter()
        .map(|w| plain(w))
        .collect();
    let lines = compute_lines(&tokens, 4, 16, 80);
    assert_eq!(shape(&lines), vec![vec![0, 1], vec![2, 3], vec![4, 5], vec![6, 7]]);

    let before = render_lines_before(&lines, 2, 5, 16, 5, true, false);
    let rows: Vec<usize> = before.iter().map(|p| p.row).collect();
    assert_eq!(rows, vec![2, 3, 4]);
    let levels: Vec<u8> = before.iter().map(|p| p.line.brightness).collect();
    assert_eq!(levels, vec![110, 150, 200]);
    assert_eq!(texts(&before[2].line), vec!["  ", "", "eee ", "    "]);
    assert_eq!(texts(&before[0].line), vec!["  ", "", "aaa ", "bbb "]);

    let before = render_lines_before(&lines, 2, 5, 16, 2, true, false);
    let rows: Vec<usize> = before.iter().map(|p| p.row).collect();
    assert_eq!(rows, vec![0, 1]);
    assert_eq!(texts(&before[0].line), vec!["  ", "", "ccc ", "ddd "]);
    assert!(render_lines_before(&lines, 2, 5, 16, 0, true, false).is_empty());
    assert_eq!(render_lines_before(&lines, 9, 5, 16, 10, true, false).len(), 4);

    let after = render_lines_after(&lines, 2, 4, 16, 5, true, false);
    let rows: Vec<usize> = after.iter().map(|p| p.row).collect();
    assert_eq!(rows, vec![0, 1]);
    let levels: Vec<u8> = after.iter().map(|p| p.line.brightness).collect();
    assert_eq!(levels, vec![200, 150]);
    assert_eq!(texts(&after[0].line), vec!["  ", "", "    ", "fff "]);
    assert_eq!(texts(&after[1].line), vec!["  ", "", "ggg ", "hhh "]);
    assert_eq!(render_lines_after(&lines, 0, 4, 16, 1, true, false).len(), 1);
    assert!(render_lines_after(&lines, 4, 4, 16, 5, true, false).is_empty());
    assert!(render_lines_after(&lines, 0, 4, 16, 0, true, false).is_empty());
}

#[test]
fn test_render_before_and_after_of_a_session() {
    let tokens: Vec<TimedToken> = ["aaa", "bbb", "ccc", "ddd", "eee", "fff"]
        .iter()
        .map(|w| plain(w))
        .collect();
    let sections: Vec<Section> = vec![];
    let mut app = App::with_options(tokens, sections, 80, true, true);
    for _ in 0..3 {
        app.advance();
    }
    // The same line shows in both contexts, each with its own part blank.
    let before = render_before(&app, 16, 4, true);
    let after = render_after(&app, 16, 4, true);
    assert_eq!(before.len(), 2);
    assert_eq!(before.last().unwrap().row, 3);
    assert_eq!(texts(&before.last().unwrap().line), vec!["  ", "", "ccc ", "    "]);
    assert_eq!(after.len(), 2);
    assert_eq!(after[0].row, 0);
    assert_eq!(texts(&after[0].line), vec!["  ", "", "    ", "    "]);
    assert_eq!(texts(&after[1].line), vec!["  ", "", "eee ", "fff "]);
}
