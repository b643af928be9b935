//! Rapid serial visual presentation of structured documents: a tokenizer that
//! turns a document tree into timed word tokens, and a windowed layout engine
//! that derives the context lines shown around the current word.

pub mod app;
pub mod orp;
pub mod parser;
pub mod report;
pub mod stream;
pub mod text;
pub mod timing;
pub mod types;
pub mod ui;

pub use types::{BlockContext, BlockHint, Section, TimedToken, TimingHint, Token, TokenStyle};
