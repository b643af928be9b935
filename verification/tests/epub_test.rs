use rsvp_term::parser::epub::{append_chapter, EpubChapter};
use rsvp_term::parser::{DocumentParser, EpubParser, ParseError};

fn chapter(content: Option<&str>, title: Option<&str>) -> EpubChapter {
    EpubChapter {
        content: content.map(|s| s.to_string()),
        title: title.map(|s| s.to_string()),
    }
}

#[test]
fn test_sanitize_filename() {
    assert_eq!(EpubParser::sanitize_filename("Hello World"), "Hello World");
    assert_eq!(
        EpubParser::sanitize_filename("Book: A Story"),
        "Book_ A Story"
    );
    assert_eq!(
        EpubParser::sanitize_filename("Test/File\\Name"),
        "Test_File_Name"
    );
}

#[test]
fn test_xhtml_to_markdown() {
    let xhtml = "<p>Hello <strong>world</strong>!</p>";
    let md = EpubParser::xhtml_to_markdown(xhtml);
    assert!(md.contains("Hello"));
    assert!(md.contains("world"));
}

#[test]
fn test_xhtml_to_markdown_renders_the_markup() {
    let md = EpubParser::xhtml_to_markdown("<p>Hello <strong>world</strong>!</p><p>Again</p>");
    assert!(!md.contains('<'));
    assert_eq!(md, "Hello **world**!\n\nAgain\n");
    assert_eq!(EpubParser::xhtml_to_markdown(""), "");
}

#[test]
fn test_sanitize_filename_edges() {
    assert_eq!(EpubParser::sanitize_filename(""), "");
    assert_eq!(EpubParser::sanitize_filename("  padded  "), "padded");
    assert_eq!(EpubParser::sanitize_filename("a-b_c 9"), "a-b_c 9");
    assert_eq!(EpubParser::sanitize_filename("\t?\t"), "___");
    assert_eq!(EpubParser::sanitize_filename("caf\u{00e9}.txt"), "caf\u{00e9}_txt");
}

#[test]
fn test_epub_parse_str_is_refused() {
    let parser = EpubParser::new();
    match parser.parse_str("# anything") {
        Err(ParseError::ParseError(message)) => {
            assert_eq!(message, "EPUB parser does not support parsing from string");
        }
        other => panic!("expected a parse error, got {:?}", other.map(|d| d.tokens.len())),
    }
}

#[test]
fn test_parse_error_messages() {
    let parse = ParseError::ParseError("bad input".to_string());
    assert_eq!(parse.message(), "Parse error: bad input");
    let io = ParseError::from(std::io::Error::new(std::io::ErrorKind::NotFound, "no such file"));
    assert!(matches!(io, ParseError::IoError(_)));
    assert_eq!(io.message(), "IO error: no such file");
}

#[test]
fn test_append_chapter() {
    let mut combined = String::new();
    append_chapter(&mut combined, Some("One"), "first text\n");
    assert_eq!(combined, "# One\n\nfirst text\n");
    append_chapter(&mut combined, None, "more\n");
    assert_eq!(combined, "# One\n\nfirst text\nmore\n");
    append_chapter(&mut combined, Some("Two"), "  \n ");
    assert_eq!(combined, "# One\n\nfirst text\nmore\n\n\n# Two\n\n");
    append_chapter(&mut combined, None, "");
    assert_eq!(combined, "# One\n\nfirst text\nmore\n\n\n# Two\n\n");
}

#[test]
fn test_combine_chapters_and_parse() {
    let chapters = vec![
        chapter(Some("<p>Alpha beta.</p>"), Some("Start")),
        chapter(None, Some("Lost")),
        chapter(Some("<p>Gamma</p>"), None),
    ];
    let markdown = EpubParser::combine_chapters(&chapters).unwrap();
    assert!(markdown.starts_with("# Start\n\n"));
    assert!(markdown.contains("Alpha beta."));
    assert!(markdown.contains("Gamma"));
    assert!(!markdown.contains("Lost"));

    let doc = EpubParser::new().parse_chapters(&chapters).unwrap();
    assert_eq!(doc.sections.len(), 1);
    assert_eq!(doc.sections[0].title, "Start");
    let words: Vec<&str> = doc.tokens.iter().map(|t| t.word.as_str()).collect();
    assert_eq!(words, vec!["Start", "Alpha", "beta.", "Gamma"]);
}

#[test]
fn test_combine_chapters_fails_on_parser_error_marker() {
    let chapters = vec![
        chapter(Some("<p>fine</p>"), Some("Good")),
        chapter(Some("<html><parsererror>oops</parsererror></html>"), Some("Broken")),
        chapter(Some("<parsererror/>"), None),
    ];
    match EpubParser::combine_chapters(&chapters) {
        Err(ParseError::ParseError(message)) => {
            assert_eq!(message, "Failed to parse chapter Broken: malformed XHTML");
        }
        other => panic!("expected a parse error, got {:?}", other),
    }
    assert!(EpubParser::new().parse_chapters(&chapters).is_err());

    let untitled: Vec<EpubChapter> = (0..12)
        .map(|i| chapter(Some(if i == 11 { "x <parsererror y" } else { "<p>ok</p>" }), None))
        .collect();
    match EpubParser::combine_chapters(&untitled) {
        Err(ParseError::ParseError(message)) => {
            assert_eq!(message, "Failed to parse chapter chapter 12: malformed XHTML");
        }
        other => panic!("expected a parse error, got {:?}", other),
    }
}

#[test]
fn test_export_chapters_names() {
    let mut chapters = vec![
        chapter(Some("<p>One</p>"), Some("Intro: Begin")),
        chapter(Some("   "), Some("Empty")),
        chapter(None, Some("Unreadable")),
        chapter(Some("<p>Two</p>"), None),
        chapter(Some("<p>Three</p>"), Some("   ")),
    ];
    for i in 0..7 {
        chapters.push(chapter(Some("<p>more</p>"), Some(&format!("Part {i}"))));
    }
    let files = EpubParser::export_chapters(&chapters);
    let names: Vec<&str> = files.iter().map(|f| f.filename.as_str()).collect();
    assert_eq!(
        names,
        vec![
            "01-Intro_ Begin.md",
            "02-chapter-02.md",
            "03-chapter-03.md",
            "04-Part 0.md",
            "05-Part 1.md",
            "06-Part 2.md",
            "07-Part 3.md",
            "08-Part 4.md",
            "09-Part 5.md",
            "10-Part 6.md",
        ]
    );
    assert!(files[0].markdown.contains("One"));
    assert_eq!(files[0].markdown, EpubParser::xhtml_to_markdown("<p>One</p>"));
}

#[test]
fn test_get_book_title() {
    assert_eq!(EpubParser::get_book_title(Some("My: Book"), Some("file")), "My_ Book");
    assert_eq!(EpubParser::get_book_title(Some("   "), Some("a/b")), "a_b");
    assert_eq!(EpubParser::get_book_title(None, Some("stem")), "stem");
    assert_eq!(EpubParser::get_book_title(None, None), "epub-export");
    assert_eq!(EpubParser::get_book_title(Some(""), None), "epub-export");
    assert_eq!(EpubParser::get_book_title(None, Some("  ")), "");
}
