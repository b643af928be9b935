use rsvp_term::parser::tokenizer::tokenize;
use rsvp_term::parser::tree::{DocNode, NodeKind};
use rsvp_term::parser::ParseError;
use rsvp_term::types::{BlockContext, TokenStyle};

fn node(kind: NodeKind, children: Vec<DocNode>) -> DocNode {
    DocNode::new(kind, children)
}

fn paragraph(text: &str) -> DocNode {
    node(NodeKind::Paragraph, vec![DocNode::text(text)])
}

fn root(children: Vec<DocNode>) -> DocNode {
    node(NodeKind::Other, children)
}

#[test]
fn test_tokenize_empty_tree() {
    let doc = tokenize(&root(vec![])).unwrap();
    assert!(doc.tokens.is_empty());
    assert!(doc.sections.is_empty());
}

#[test]
fn test_tokenize_two_blockquotes_have_depth_one() {
    let tree = root(vec![
        node(NodeKind::Blockquote, vec![paragraph("Quote 1")]),
        node(NodeKind::Blockquote, vec![paragraph("Quote 2")]),
    ]);
    let doc = tokenize(&tree).unwrap();
    assert_eq!(doc.tokens.len(), 4);
    // The paragraph inside a quote is the innermost block of its words.
    for token in &doc.tokens {
        assert_eq!(token.block, BlockContext::Paragraph);
    }
    let bare = root(vec![
        node(NodeKind::Blockquote, vec![DocNode::text("one")]),
        node(NodeKind::Blockquote, vec![DocNode::text("two")]),
        node(
            NodeKind::Blockquote,
            vec![node(NodeKind::Blockquote, vec![DocNode::text("three")]), DocNode::text("four")],
        ),
    ]);
    let doc = tokenize(&bare).unwrap();
    let blocks: Vec<BlockContext> = doc.tokens.iter().map(|t| t.block.clone()).collect();
    assert_eq!(
        blocks,
        vec![
            BlockContext::Quote(1),
            BlockContext::Quote(1),
            BlockContext::Quote(2),
            BlockContext::Quote(1),
        ]
    );
}

#[test]
fn test_tokenize_sibling_lists_have_depth_one() {
    let item = |text: &str| node(NodeKind::ListItem, vec![DocNode::text(text)]);
    let tree = root(vec![
        node(NodeKind::BulletList, vec![item("Item 1")]),
        node(NodeKind::OrderedList, vec![item("Item 2")]),
        node(
            NodeKind::BulletList,
            vec![node(
                NodeKind::ListItem,
                vec![DocNode::text("outer"), node(NodeKind::BulletList, vec![item("inner")])],
            )],
        ),
        node(NodeKind::BulletList, vec![item("Item 3")]),
    ]);
    let doc = tokenize(&tree).unwrap();
    let depths: Vec<(String, BlockContext)> =
        doc.tokens.iter().map(|t| (t.word.clone(), t.block.clone())).collect();
    assert_eq!(
        depths,
        vec![
            ("Item".to_string(), BlockContext::ListItem(1)),
            ("1".to_string(), BlockContext::ListItem(1)),
            ("Item".to_string(), BlockContext::ListItem(1)),
            ("2".to_string(), BlockContext::ListItem(1)),
            ("outer".to_string(), BlockContext::ListItem(1)),
            ("inner".to_string(), BlockContext::ListItem(2)),
            ("Item".to_string(), BlockContext::ListItem(1)),
            ("3".to_string(), BlockContext::ListItem(1)),
        ]
    );
}

#[test]
fn test_tokenize_callout_replaces_paragraph() {
    let tree = root(vec![
        node(
            NodeKind::Blockquote,
            vec![paragraph("[!WARNING] Mind the gap"), paragraph("second paragraph")],
        ),
        paragraph("outside"),
    ]);
    let doc = tokenize(&tree).unwrap();
    let blocks: Vec<BlockContext> = doc.tokens.iter().map(|t| t.block.clone()).collect();
    let callout = BlockContext::Callout("warning".to_string());
    assert_eq!(doc.tokens[0].word, "[!WARNING]");
    for block in &blocks[..6] {
        assert_eq!(*block, callout);
    }
    assert_eq!(blocks[6], BlockContext::Paragraph);
}

#[test]
fn test_tokenize_callout_only_in_first_text_of_first_paragraph() {
    let tree = root(vec![node(
        NodeKind::Blockquote,
        vec![paragraph("intro"), paragraph("[!note] later")],
    )]);
    let doc = tokenize(&tree).unwrap();
    for token in &doc.tokens {
        assert_eq!(token.block, BlockContext::Paragraph);
    }
    let tree = root(vec![node(
        NodeKind::Blockquote,
        vec![node(
            NodeKind::Paragraph,
            vec![
                node(NodeKind::Strong, vec![DocNode::text("[!tip]")]),
                DocNode::text("plain"),
                DocNode::text("[!note]"),
            ],
        )],
    )]);
    let doc = tokenize(&tree).unwrap();
    for token in &doc.tokens {
        assert_eq!(token.block, BlockContext::Paragraph);
    }
}

#[test]
fn test_tokenize_styles_combine_and_restore() {
    let tree = root(vec![node(
        NodeKind::Paragraph,
        vec![
            DocNode::text("a"),
            node(
                NodeKind::Strong,
                vec![
                    DocNode::text("b"),
                    node(
                        NodeKind::Emphasis,
                        vec![
                            DocNode::text("c"),
                            node(NodeKind::CodeInline, vec![DocNode::text("d e")]),
                            node(
                                NodeKind::Link("u".to_string()),
                                vec![DocNode::text("f")],
                            ),
                        ],
                    ),
                    DocNode::text("g"),
                ],
            ),
            node(
                NodeKind::Emphasis,
                vec![node(NodeKind::Strong, vec![DocNode::text("h")]), DocNode::text("i")],
            ),
            node(NodeKind::CodeInline, vec![DocNode::text("j-kkkk l")]),
            DocNode::text("m-nnnn"),
        ],
    )]);
    let doc = tokenize(&tree).unwrap();
    let styled: Vec<(String, TokenStyle)> =
        doc.tokens.iter().map(|t| (t.word.clone(), t.style.clone())).collect();
    let s = |w: &str, style: TokenStyle| (w.to_string(), style);
    assert_eq!(
        styled,
        vec![
            s("a", TokenStyle::Normal),
            s("b", TokenStyle::Bold),
            s("c", TokenStyle::BoldItalic),
            s("d e", TokenStyle::BoldItalic),
            s("f", TokenStyle::BoldItalic),
            s("g", TokenStyle::Bold),
            s("h", TokenStyle::BoldItalic),
            s("i", TokenStyle::Italic),
            s("j-kkkk l", TokenStyle::Code),
            s("m-", TokenStyle::Normal),
            s("nnnn", TokenStyle::Normal),
        ]
    );
}

#[test]
fn test_tokenize_skips_code_and_images() {
    let tree = root(vec![
        paragraph("Before"),
        node(NodeKind::CodeFence, vec![DocNode::text("code here")]),
        node(
            NodeKind::Paragraph,
            vec![
                node(
                    NodeKind::Image,
                    vec![node(NodeKind::Strong, vec![DocNode::text("alt text")])],
                ),
                DocNode::text("After"),
            ],
        ),
    ]);
    let doc = tokenize(&tree).unwrap();
    let words: Vec<&str> = doc.tokens.iter().map(|t| t.word.as_str()).collect();
    assert_eq!(words, vec!["Before", "After"]);
    assert_eq!(doc.tokens[1].style, TokenStyle::Normal);
}

#[test]
fn test_tokenize_heading_title_and_sections() {
    let tree = root(vec![
        paragraph("intro"),
        node(
            NodeKind::Heading(2),
            vec![
                DocNode::text("Big "),
                node(NodeKind::Emphasis, vec![DocNode::text("news")]),
                node(NodeKind::Softbreak, vec![]),
                DocNode::text("today"),
            ],
        ),
        paragraph("body text"),
        node(NodeKind::Heading(6), vec![]),
    ]);
    let doc = tokenize(&tree).unwrap();
    assert_eq!(doc.sections.len(), 2);
    assert_eq!(doc.sections[0].title, "Big news\ntoday");
    assert_eq!(doc.sections[0].level, 2);
    assert_eq!(doc.sections[0].token_start, 1);
    assert_eq!(doc.sections[0].token_end, 6);
    assert_eq!(doc.sections[1].title, "");
    assert_eq!(doc.sections[1].level, 6);
    assert_eq!(doc.sections[1].token_start, 6);
    assert_eq!(doc.sections[1].token_end, 6);
    assert_eq!(doc.tokens.len(), 6);
    assert_eq!(doc.tokens[1].block, BlockContext::Heading(2));
    assert_eq!(doc.tokens[2].style, TokenStyle::Italic);
}

#[test]
fn test_tokenize_refuses_malformed_tree() {
    for level in [0u8, 7, 255] {
        let tree = root(vec![
            paragraph("fine"),
            node(NodeKind::Heading(level), vec![DocNode::text("bad")]),
        ]);
        assert!(!tree.check());
        match tokenize(&tree) {
            Err(ParseError::ParseError(message)) => assert!(!message.is_empty()),
            other => panic!("expected a parse error, got {:?}", other.map(|d| d.tokens.len())),
        }
    }
    let tree = root(vec![node(NodeKind::Heading(1), vec![DocNode::text("good")])]);
    assert!(tree.check());
    assert!(tokenize(&tree).is_ok());
}

#[test]
fn test_tokenize_table_timing_and_columns() {
    let cell = |text: &str| node(NodeKind::TableCell, vec![DocNode::text(text)]);
    let tree = root(vec![
        node(
            NodeKind::Table,
            vec![
                node(NodeKind::TableRow, vec![cell("Col1"), cell("Col2 more"), cell("Col3")]),
                node(NodeKind::TableRow, vec![cell("x"), cell(""), cell("z")]),
            ],
        ),
        paragraph("tail"),
    ]);
    let doc = tokenize(&tree).unwrap();
    let rows: Vec<(String, BlockContext, Option<usize>, bool, i32)> = doc
        .tokens
        .iter()
        .map(|t| {
            (
                t.word.clone(),
                t.block.clone(),
                t.timing_hint.table_column,
                t.timing_hint.is_cell_start,
                t.timing_hint.structure_modifier,
            )
        })
        .collect();
    let r = |w: &str, block: BlockContext, col: Option<usize>, start: bool, pause: i32| {
        (w.to_string(), block, col, start, pause)
    };
    assert_eq!(
        rows,
        vec![
            r("Col1", BlockContext::TableCell(1), Some(0), true, 150),
            r("Col2", BlockContext::TableCell(1), Some(1), true, 150),
            r("more", BlockContext::TableCell(1), Some(1), false, 0),
            r("Col3", BlockContext::TableCell(1), Some(2), true, 300),
            r("x", BlockContext::TableCell(2), Some(0), true, 150),
            r("z", BlockContext::TableCell(2), Some(2), true, 300),
            r("tail", BlockContext::Paragraph, None, false, 150),
        ]
    );
}

#[test]
fn test_tokenize_paragraph_end_only_on_last_word_of_run() {
    let tree = root(vec![node(
        NodeKind::Paragraph,
        vec![DocNode::text("One. Two"), DocNode::text("three. Four!")],
    )]);
    let doc = tokenize(&tree).unwrap();
    let pauses: Vec<(i32, i32)> = doc
        .tokens
        .iter()
        .map(|t| (t.timing_hint.punctuation_modifier, t.timing_hint.structure_modifier))
        .collect();
    assert_eq!(pauses, vec![(200, 150), (0, 0), (200, 0), (200, 300)]);
}

#[test]
fn test_tokenize_empty_inline_code_gives_no_token() {
    let tree = root(vec![node(
        NodeKind::Paragraph,
        vec![node(NodeKind::CodeInline, vec![DocNode::text("")]), DocNode::text("x")],
    )]);
    let doc = tokenize(&tree).unwrap();
    assert_eq!(doc.tokens.len(), 1);
    assert_eq!(doc.tokens[0].word, "x");
    for token in &doc.tokens {
        assert!(!token.word.is_empty());
    }
}

#[test]
fn test_collect_text() {
    let tree = node(
        NodeKind::Heading(1),
        vec![
            DocNode::text("a"),
            node(NodeKind::Image, vec![DocNode::text("b")]),
            node(NodeKind::Softbreak, vec![]),
            node(NodeKind::Strong, vec![node(NodeKind::Emphasis, vec![DocNode::text("c")])]),
        ],
    );
    assert_eq!(tree.collect_text(), "ab\nc");
    assert_eq!(root(vec![]).collect_text(), "");
}
