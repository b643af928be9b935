use rsvp_term::app::App;
use rsvp_term::types::{BlockContext, BlockHint, Section, TimedToken, TimingHint, Token, TokenStyle};
use rsvp_term::ui::common::{fade_char_left, fade_char_right};
use rsvp_term::ui::common::Area;
use rsvp_term::ui::help::{self, help_area};
use rsvp_term::ui::screen::MainView;
use rsvp_term::ui::outline;
use rsvp_term::ui::rsvp::{
    build_faded_guide_line, build_guide_line, current_block_hint, render, GuideLine,
};
use rsvp_term::ui::status;

fn token(word: &str, orp: usize, style: TokenStyle, block: BlockContext) -> TimedToken {
    TimedToken {
        token: Token {
            word: word.to_string(),
            style,
            block,
            parent_context: Some(BlockHint::OrderedList),
            timing_hint: TimingHint::default(),
        },
        duration_ms: 200,
        orp_position: orp,
    }
}

fn section(title: &str, level: u8, start: usize) -> Section {
    Section { title: title.to_string(), level, token_start: start, token_end: start }
}

#[test]
fn test_fade_characters() {
    assert_eq!(fade_char_left(0), ('\u{2504}', 40));
    assert_eq!(fade_char_left(1), ('\u{2504}', 50));
    assert_eq!(fade_char_left(2), ('\u{254c}', 60));
    assert_eq!(fade_char_left(3), ('\u{254c}', 70));
    assert_eq!(fade_char_left(4), ('\u{2500}', 80));
    assert_eq!(fade_char_left(5), ('\u{2500}', 100));
    assert_eq!(fade_char_left(12), ('\u{2500}', 240));
    for progress in 0..=12 {
        assert_eq!(fade_char_right(progress), fade_char_left(progress));
    }
}

#[test]
fn test_guide_lines() {
    assert_eq!(build_guide_line(5, 2, '\u{252c}'), "\u{2500}\u{2500}\u{252c}\u{2500}\u{2500}");
    assert_eq!(build_guide_line(3, 7, '\u{252c}'), "\u{2500}\u{2500}\u{2500}");
    assert_eq!(build_guide_line(0, 0, '\u{252c}'), "");
    let faded = build_faded_guide_line(9, 7, '\u{2534}');
    let symbols: String = faded.iter().map(|c| c.symbol).collect();
    assert_eq!(
        symbols,
        "\u{2504}\u{2504}\u{254c}\u{254c}\u{2500}\u{2500}\u{2500}\u{2534}\u{2500}"
    );
    let levels: Vec<u8> = faded.iter().map(|c| c.brightness).collect();
    assert_eq!(levels, vec![40, 50, 60, 70, 80, 100, 120, 120, 120]);
    let short = build_faded_guide_line(3, 1, '\u{2534}');
    let symbols: String = short.iter().map(|c| c.symbol).collect();
    assert_eq!(symbols, "\u{2504}\u{2534}\u{254c}");
    assert_eq!(short[1].brightness, 50);
}

#[test]
fn test_current_block_hint() {
    assert_eq!(current_block_hint(&BlockContext::Heading(3)), "###");
    assert_eq!(current_block_hint(&BlockContext::Heading(9)), "#");
    assert_eq!(current_block_hint(&BlockContext::ListItem(2)), "-");
    assert_eq!(current_block_hint(&BlockContext::Quote(1)), ">");
    assert_eq!(current_block_hint(&BlockContext::TableCell(1)), "|");
    assert_eq!(current_block_hint(&BlockContext::Callout("x".to_string())), "[!]");
    assert_eq!(current_block_hint(&BlockContext::Paragraph), "");
    assert_eq!(BlockContext::ListItem(2).hint_chars(), "");
    assert_eq!(BlockContext::Heading(6).hint_chars(), "######");
    assert_eq!(BlockContext::Heading(0).hint_chars(), "#");
}

#[test]
fn test_word_display() {
    let tokens = vec![token("reading", 2, TokenStyle::BoldItalic, BlockContext::ListItem(1))];
    let app = App::new(tokens, vec![]);
    let display = render(&app, 40, 3).unwrap();
    assert_eq!(display.chars, "reading".chars().collect::<Vec<char>>());
    assert_eq!(display.highlight, 2);
    assert_eq!(display.left_padding, 18);
    assert!(display.style.bold && display.style.italic);
    assert!(!display.style.code && !display.style.underlined);
    assert_eq!(display.word_row, 1);
    assert_eq!(display.top_row, Some(0));
    assert_eq!(display.bottom_row, Some(2));
    assert_eq!(display.block_hint, "-");
    assert_eq!(display.parent_hint, "1.");
    match (&display.top_guide, &display.bottom_guide) {
        (GuideLine::Faded(top), GuideLine::Faded(bottom)) => {
            assert_eq!(top.len(), 40);
            assert_eq!(top[20].symbol, '\u{252c}');
            assert_eq!(bottom[20].symbol, '\u{2534}');
            assert_eq!(top[0].brightness, 40);
        }
        other => panic!("expected faded guide lines, got {:?}", other),
    }
}

#[test]
fn test_word_display_without_gutter_or_styling() {
    let tokens = vec![token("link", 30, TokenStyle::Link("u".to_string()), BlockContext::Paragraph)];
    let app = App::with_options(tokens, vec![], 80, false, false);
    let display = render(&app, 10, 1).unwrap();
    assert_eq!(display.left_padding, 0);
    assert_eq!(display.word_row, 0);
    assert_eq!(display.top_row, None);
    assert_eq!(display.bottom_row, None);
    assert!(!display.style.underlined);
    match &display.top_guide {
        GuideLine::Plain(line) => assert_eq!(line.chars().count(), 10),
        other => panic!("expected a plain guide line, got {:?}", other),
    }
    let styled = App::with_options(
        vec![
            token("link", 1, TokenStyle::Link("u".to_string()), BlockContext::Paragraph),
            token("code", 1, TokenStyle::Code, BlockContext::Paragraph),
        ],
        vec![],
        80,
        false,
        true,
    );
    assert!(render(&styled, 10, 2).unwrap().style.underlined);
    assert_eq!(render(&styled, 10, 2).unwrap().bottom_row, None);
    assert!(render(&App::new(vec![], vec![]), 10, 3).is_none());
}

#[test]
fn test_outline_display() {
    let tokens = vec![token("w", 0, TokenStyle::Normal, BlockContext::Paragraph)];
    let sections = vec![
        section("One", 1, 0),
        section("Two", 2, 0),
        section("Three", 3, 0),
        section("Four", 1, 0),
        section("Five", 1, 0),
    ];
    let mut app = App::new(tokens, sections);
    app.outline_down();
    app.outline_down();
    let display = outline::render(&app, 40, 9).unwrap();
    // "Three" is five wide: (40 - 5) / 2 spaces before it.
    assert_eq!(display.selected.text, format!("{}Three", " ".repeat(17)));
    assert_eq!(display.selected.row, 4);
    assert_eq!(display.selected.brightness, 200);
    assert!(display.selected.bold);
    let (top_row, top) = display.top.as_ref().unwrap();
    let (bottom_row, bottom) = display.bottom.as_ref().unwrap();
    assert_eq!((*top_row, *bottom_row), (3, 5));
    assert_eq!(top.hint.as_deref(), Some(" ### "));
    assert_eq!(top.start_col, 5);
    assert_eq!(top.cells.len(), 35);
    // The tick stands below the middle of the title.
    assert_eq!(top.cells[19 - 5].symbol, '\u{252c}');
    assert_eq!(bottom.cells[19 - 5].symbol, '\u{2534}');
    assert_eq!(top.cells[0].brightness, 40);
    assert_eq!(top.cells[34].brightness, 40);
    assert_eq!(top.cells[33].brightness, 50);
    assert_eq!(top.cells[10].brightness, 120);
    let above: Vec<(usize, &str, u8)> =
        display.above.iter().map(|i| (i.row, i.text.trim_start(), i.brightness)).collect();
    assert_eq!(above, vec![(2, "Two", 150), (1, "One", 110)]);
    let below: Vec<(usize, &str, u8)> =
        display.below.iter().map(|i| (i.row, i.text.trim_start(), i.brightness)).collect();
    assert_eq!(below, vec![(6, "Four", 150), (7, "Five", 110)]);
    assert!(outline::render(&app, 40, 2).is_none());
    assert!(outline::render(&App::new(vec![], vec![]), 40, 9).is_none());
}

#[test]
fn test_outline_guide_line_without_hint() {
    let line = outline::build_faded_guide_line(8, 3, '\u{252c}', "");
    assert!(line.hint.is_none());
    assert_eq!(line.start_col, 0);
    let symbols: String = line.cells.iter().map(|c| c.symbol).collect();
    assert_eq!(
        symbols,
        "\u{2504}\u{2504}\u{254c}\u{252c}\u{2500}\u{2500}\u{2504}\u{2504}"
    );
    let levels: Vec<u8> = line.cells.iter().map(|c| c.brightness).collect();
    assert_eq!(levels, vec![40, 50, 60, 70, 80, 100, 50, 40]);
    let narrow = outline::build_faded_guide_line(3, 0, '\u{252c}', "####");
    assert!(narrow.hint.is_none());
    assert!(narrow.cells.is_empty());
    assert_eq!(outline::right_align("ab", 4), "  ab");
    assert_eq!(outline::right_align("abcdef", 4), "abcdef");
}

#[test]
fn test_status_display() {
    let tokens: Vec<TimedToken> =
        (0..8).map(|_| token("w", 0, TokenStyle::Normal, BlockContext::Paragraph)).collect();
    let mut app = App::new(tokens, vec![section("Intro", 1, 2)]);
    let shown = status::render(&app);
    assert_eq!(shown.title, "Document");
    assert_eq!(shown.percent, 0);
    assert_eq!(shown.label, "  300 WPM  >");
    for _ in 0..3 {
        app.advance();
    }
    app.toggle_pause();
    app.decrease_wpm();
    let shown = status::render(&app);
    assert_eq!(shown.title, "Intro");
    // 3 of 8 is 37.5 percent.
    assert_eq!(shown.percent, 38);
    assert_eq!(status::progress_percent(&app), 38);
    assert_eq!(shown.label, "  275 WPM  ||");
    assert_eq!(status::progress_percent(&App::new(vec![], vec![])), 0);
}

#[test]
fn test_help_area() {
    let area = help_area(100, 40);
    assert_eq!((area.x, area.y, area.width, area.height), (25, 12, 50, 16));
    let area = help_area(30, 10);
    assert_eq!((area.x, area.y, area.width, area.height), (2, 2, 26, 6));
    let area = help_area(3, 0);
    assert_eq!((area.x, area.y, area.width, area.height), (1, 0, 0, 0));
}

#[test]
fn test_help_display() {
    let shown = help::render(Area { x: 7, y: 9, width: 100, height: 40 });
    assert_eq!(shown.area, Area { x: 25, y: 12, width: 50, height: 16 });
    assert_eq!(shown.lines.len(), 12);
    assert_eq!(shown.lines[0], "CONTROLS");
    assert_eq!(shown.lines[1], "");
    assert_eq!(shown.lines[2], "Space     Pause/Resume");
    assert_eq!(shown.lines[9], "?         Toggle help");
    assert_eq!(shown.lines[11], "Press ? to close");
}

#[test]
fn test_screen_in_reading_view() {
    let tokens: Vec<TimedToken> = ["alpha", "beta", "gamma", "delta"]
        .iter()
        .map(|w| token(w, 1, TokenStyle::Normal, BlockContext::Paragraph))
        .collect();
    let mut app = App::new(tokens, vec![section("Intro", 1, 0)]);
    app.advance();
    let whole = Area { x: 0, y: 0, width: 80, height: 24 };
    let screen = rsvp_term::ui::render(&app, whole);
    assert_eq!(screen.title_area, Area { x: 0, y: 22, width: 80, height: 1 });
    assert_eq!(screen.progress_area, Area { x: 0, y: 23, width: 80, height: 1 });
    assert_eq!(screen.status.title, "Intro");
    assert!(screen.help.is_none());
    match &screen.main {
        MainView::Reading(view) => {
            assert_eq!(view.gutter, Some(Area { x: 0, y: 0, width: 6, height: 22 }));
            assert_eq!(view.word_area.height, 3);
            for area in [view.before_area, view.word_area, view.after_area] {
                assert_eq!((area.x, area.width), (6, 74));
            }
            assert!(view.before_area.y + view.before_area.height <= view.word_area.y);
            assert!(view.word_area.y + view.word_area.height <= view.after_area.y);
            assert!(view.after_area.y + view.after_area.height <= 22);
            assert!(view.before_area.height >= 8 && view.after_area.height >= 8);
            let word = view.word.as_ref().unwrap();
            assert_eq!(word.chars, "beta".chars().collect::<Vec<char>>());
            assert_eq!(word.left_padding, 36);
            assert_eq!(view.before.len(), 1);
            assert_eq!(view.before[0].row + 1, view.before_area.height as usize);
            let shown: Vec<&str> =
                view.before[0].line.spans.iter().map(|s| s.text.as_str()).collect();
            assert_eq!(shown, vec!["  ", "", "alpha ", "     ", "      ", "      "]);
            assert_eq!(view.after.len(), 1);
            let shown: Vec<&str> =
                view.after[0].line.spans.iter().map(|s| s.text.as_str()).collect();
            assert_eq!(shown, vec!["  ", "", "      ", "     ", "gamma ", "delta "]);
        }
        other => panic!("expected the reading view, got {:?}", other),
    }
}

#[test]
fn test_screen_in_outline_view_with_help() {
    let tokens = vec![token("alpha", 1, TokenStyle::Normal, BlockContext::Paragraph)];
    let mut app = App::with_options(tokens, vec![section("Intro", 2, 0)], 80, false, true);
    app.toggle_outline();
    app.toggle_help();
    let whole = Area { x: 0, y: 0, width: 60, height: 12 };
    let screen = rsvp_term::ui::render(&app, whole);
    assert_eq!(screen.help.as_ref().unwrap().area, help_area(60, 12));
    match &screen.main {
        MainView::Outline(area, Some(shown)) => {
            assert_eq!(*area, Area { x: 0, y: 0, width: 60, height: 10 });
            assert_eq!(shown.selected.row, 5);
            assert_eq!(shown.selected.text.trim_start(), "Intro");
            assert_eq!(shown.top.as_ref().unwrap().1.hint.as_deref(), Some("  ## "));
        }
        other => panic!("expected the outline, got {:?}", other),
    }
    app.toggle_outline();
    match &rsvp_term::ui::render(&app, whole).main {
        MainView::Reading(view) => {
            assert!(view.gutter.is_none());
            assert_eq!((view.word_area.x, view.word_area.width), (0, 60));
        }
        other => panic!("expected the reading view, got {:?}", other),
    }
}
