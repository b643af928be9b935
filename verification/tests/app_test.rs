use rsvp_term::app::{Action, App, Flow, Key, ViewMode};
use rsvp_term::types::{BlockContext, Section, TimedToken, TimingHint, Token, TokenStyle};

fn make_timed_token(word: &str) -> TimedToken {
    TimedToken {
        token: Token {
            word: word.to_string(),
            style: TokenStyle::Normal,
            block: BlockContext::Paragraph,
            parent_context: None,
            timing_hint: TimingHint::default(),
        },
        duration_ms: 200,
        orp_position: 1,
    }
}

fn make_section(title: &str, start: usize, end: usize) -> Section {
    Section {
        title: title.to_string(),
        level: 1,
        token_start: start,
        token_end: end,
    }
}

#[test]
fn test_app_initial_state() {
    let tokens = vec![make_timed_token("hello"), make_timed_token("world")];
    let app = App::new(tokens, vec![]);

    assert_eq!(app.position(), 0);
    assert_eq!(app.wpm(), 300);
    assert!(!app.is_paused());
}

#[test]
fn test_app_pause_toggle() {
    let tokens = vec![make_timed_token("hello")];
    let mut app = App::new(tokens, vec![]);

    assert!(!app.is_paused());
    app.toggle_pause();
    assert!(app.is_paused());
    app.toggle_pause();
    assert!(!app.is_paused());
}

#[test]
fn test_app_wpm_adjustment() {
    let tokens = vec![make_timed_token("hello")];
    let mut app = App::new(tokens, vec![]);

    app.increase_wpm();
    assert_eq!(app.wpm(), 325);

    app.decrease_wpm();
    assert_eq!(app.wpm(), 300);
}

#[test]
fn test_app_wpm_bounds() {
    let tokens = vec![make_timed_token("hello")];
    let mut app = App::new(tokens, vec![]);

    // Test upper bound
    for _ in 0..100 {
        app.increase_wpm();
    }
    assert_eq!(app.wpm(), 800);

    // Test lower bound
    for _ in 0..100 {
        app.decrease_wpm();
    }
    assert_eq!(app.wpm(), 100);
}

#[test]
fn test_app_advance() {
    let tokens = vec![make_timed_token("hello"), make_timed_token("world")];
    let mut app = App::new(tokens, vec![]);

    assert_eq!(app.position(), 0);
    app.advance();
    assert_eq!(app.position(), 1);
}

#[test]
fn test_app_view_mode_toggle() {
    let tokens = vec![make_timed_token("hello")];
    let mut app = App::new(tokens, vec![]);

    assert_eq!(app.view_mode(), ViewMode::Reading);
    app.toggle_outline();
    assert_eq!(app.view_mode(), ViewMode::Outline);
    app.toggle_outline();
    assert_eq!(app.view_mode(), ViewMode::Reading);
}

#[test]
fn test_app_advance_stops_at_last_token() {
    let tokens = vec![make_timed_token("hello"), make_timed_token("world")];
    let mut app = App::new(tokens, vec![]);
    app.advance();
    app.advance();
    app.advance();
    assert_eq!(app.position(), 1);
    assert_eq!(app.current_token().unwrap().token.word, "world");
}

#[test]
fn test_app_advance_on_empty_stream() {
    let mut app = App::new(vec![], vec![]);
    app.advance();
    assert_eq!(app.position(), 0);
    assert!(app.current_token().is_none());
    app.skip_sentence();
    assert_eq!(app.position(), 0);
}

#[test]
fn test_app_sentence_jumps() {
    let tokens: Vec<TimedToken> = (0..25).map(|i| make_timed_token(&format!("w{i}"))).collect();
    let mut app = App::new(tokens, vec![]);
    app.skip_sentence();
    assert_eq!(app.position(), 10);
    app.skip_sentence();
    assert_eq!(app.position(), 20);
    app.skip_sentence();
    assert_eq!(app.position(), 24);
    app.rewind_sentence();
    assert_eq!(app.position(), 14);
    app.rewind_sentence();
    assert_eq!(app.position(), 4);
    app.rewind_sentence();
    assert_eq!(app.position(), 0);
}

#[test]
fn test_app_outline_navigation() {
    let tokens: Vec<TimedToken> = (0..6).map(|i| make_timed_token(&format!("w{i}"))).collect();
    let sections = vec![
        make_section("One", 0, 2),
        make_section("Two", 2, 5),
        make_section("Three", 5, 6),
    ];
    let mut app = App::new(tokens, sections);
    assert_eq!(app.outline_selection(), 0);
    app.outline_up();
    assert_eq!(app.outline_selection(), 0);
    app.outline_down();
    app.outline_down();
    app.outline_down();
    assert_eq!(app.outline_selection(), 2);
    app.toggle_outline();
    app.jump_to_section();
    assert_eq!(app.position(), 5);
    assert_eq!(app.view_mode(), ViewMode::Reading);
    assert_eq!(app.current_section_title(), Some("Three"));
    app.rewind_sentence();
    assert_eq!(app.current_section_title(), Some("One"));
    assert_eq!(app.sections().len(), 3);
    assert_eq!(app.tokens().len(), 6);
}

#[test]
fn test_app_section_title_before_first_section() {
    let tokens: Vec<TimedToken> = (0..4).map(|i| make_timed_token(&format!("w{i}"))).collect();
    let sections = vec![make_section("Late", 2, 4)];
    let mut app = App::new(tokens, sections);
    assert_eq!(app.current_section_title(), None);
    app.advance();
    app.advance();
    assert_eq!(app.current_section_title(), Some("Late"));
}

#[test]
fn test_app_help_toggle() {
    let mut app = App::new(vec![make_timed_token("hello")], vec![]);
    assert!(!app.show_help());
    app.toggle_help();
    assert!(app.show_help());
    app.toggle_help();
    assert!(!app.show_help());
}

#[test]
fn test_app_context_tokens() {
    let tokens: Vec<TimedToken> = (0..10).map(|i| make_timed_token(&format!("w{i}"))).collect();
    let mut app = App::new(tokens, vec![]);
    for _ in 0..4 {
        app.advance();
    }
    let (before, after) = app.context_tokens(2, 3);
    let before_words: Vec<&str> = before.iter().map(|t| t.token.word.as_str()).collect();
    let after_words: Vec<&str> = after.iter().map(|t| t.token.word.as_str()).collect();
    assert_eq!(before_words, vec!["w2", "w3"]);
    assert_eq!(after_words, vec!["w5", "w6", "w7"]);

    let (before, after) = app.context_tokens(100, 100);
    assert_eq!(before.len(), 4);
    assert_eq!(after.len(), 5);

    let (before, after) = app.context_tokens(0, 0);
    assert!(before.is_empty());
    assert!(after.is_empty());
}

#[test]
fn test_app_with_options() {
    let app = App::with_options(vec![make_timed_token("hello")], vec![], 60, false, true);
    assert_eq!(app.context_width(), 60);
    assert!(!app.hint_chars_enabled());
    assert!(app.styling_enabled());
}

#[test]
fn test_app_keys_in_reading_view() {
    let tokens: Vec<TimedToken> = (0..30).map(|i| make_timed_token(&format!("w{i}"))).collect();
    let mut app = App::new(tokens, vec![make_section("One", 0, 30)]);
    assert_eq!(app.handle_key(Key::Char(' '), false), Flow::Continue);
    assert!(app.is_paused());
    assert!(!app.is_running());
    app.handle_key(Key::Char(' '), false);
    assert!(app.is_running());
    app.handle_key(Key::Char('k'), false);
    app.handle_key(Key::Up, false);
    assert_eq!(app.wpm(), 350);
    app.handle_key(Key::Char('j'), false);
    app.handle_key(Key::Down, true);
    assert_eq!(app.wpm(), 300);
    app.handle_key(Key::Char('l'), false);
    app.handle_key(Key::Right, false);
    assert_eq!(app.position(), 20);
    app.handle_key(Key::Char('h'), false);
    app.handle_key(Key::Left, false);
    assert_eq!(app.position(), 0);
    app.handle_key(Key::Enter, false);
    app.handle_key(Key::Esc, false);
    app.handle_key(Key::Other, false);
    app.handle_key(Key::Char('x'), false);
    assert_eq!(app.view_mode(), ViewMode::Reading);
    assert_eq!(app.position(), 0);
    app.handle_key(Key::Char('?'), false);
    assert!(app.show_help());
    app.handle_key(Key::Char('o'), false);
    assert_eq!(app.view_mode(), ViewMode::Outline);
    assert!(!app.is_running());
    assert_eq!(app.handle_key(Key::Char('q'), false), Flow::Quit);
    assert_eq!(app.handle_key(Key::Char('c'), true), Flow::Quit);
    assert_eq!(app.handle_key(Key::Char('c'), false), Flow::Continue);
}

#[test]
fn test_app_keys_in_outline_view() {
    let tokens: Vec<TimedToken> = (0..9).map(|i| make_timed_token(&format!("w{i}"))).collect();
    let sections =
        vec![make_section("One", 0, 3), make_section("Two", 3, 6), make_section("Three", 6, 9)];
    let mut app = App::new(tokens, sections);
    app.toggle_outline();
    assert_eq!(app.action_for(Key::Char(' '), false), Action::Nothing);
    assert_eq!(app.action_for(Key::Char('l'), false), Action::Nothing);
    assert_eq!(app.action_for(Key::Enter, false), Action::JumpToSection);
    app.handle_key(Key::Char(' '), false);
    assert!(!app.is_paused());
    app.handle_key(Key::Char('j'), false);
    app.handle_key(Key::Down, false);
    app.handle_key(Key::Down, false);
    assert_eq!(app.outline_selection(), 2);
    app.handle_key(Key::Char('k'), false);
    assert_eq!(app.outline_selection(), 1);
    app.handle_key(Key::Up, false);
    app.handle_key(Key::Down, false);
    assert_eq!(app.handle_key(Key::Enter, false), Flow::Continue);
    assert_eq!(app.position(), 3);
    assert_eq!(app.view_mode(), ViewMode::Reading);
    app.handle_key(Key::Char('o'), false);
    app.handle_key(Key::Esc, false);
    assert_eq!(app.view_mode(), ViewMode::Reading);
    app.handle_key(Key::Char('o'), false);
    app.handle_key(Key::Char('o'), false);
    assert_eq!(app.view_mode(), ViewMode::Reading);
}

#[test]
fn test_app_word_delay() {
    let mut slow = make_timed_token("word.");
    slow.token.timing_hint.punctuation_modifier = 200;
    let mut app = App::new(vec![make_timed_token("hello"), slow], vec![]);
    assert_eq!(app.word_delay_ms(), 200);
    app.advance();
    assert_eq!(app.word_delay_ms(), 400);
    for _ in 0..12 {
        app.increase_wpm();
    }
    assert_eq!(app.wpm(), 600);
    assert_eq!(app.word_delay_ms(), 200);
    assert_eq!(App::new(vec![], vec![]).word_delay_ms(), 200);
}
