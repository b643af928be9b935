//! Parsers: from a document to its tokens and sections.

pub mod context;
pub mod epub;
pub mod markdown;
pub mod segment;
pub mod tokenizer;
pub mod traits;
pub mod tree;

pub use epub::EpubParser;
pub use markdown::MarkdownParser;
pub use traits::{DocumentParser, ParseError, ParsedDocument};
