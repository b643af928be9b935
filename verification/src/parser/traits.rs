//! What every parser gives back: a parsed document, or an error.

use crate::types::{views, Section, SectionView, Token, TokenView};
use vstd::prelude::*;
use vstd::string::StringExecFns;

verus! {

#[verifier::external_type_specification]
#[verifier::external_body]
pub struct ExIoError(std::io::Error);

/// The tokens of a document and the sections that its headings open.
#[derive(Debug)]
pub struct ParsedDocument {
    pub tokens: Vec<Token>,
    pub sections: Vec<Section>,
}

/// Whether the sections cover a stream of `total` tokens one after the
/// other: none ends before it starts, each ends where the next one starts,
/// and the last one ends with the stream.
pub open spec fn sections_chain(sections: Seq<SectionView>, total: nat) -> bool {
    &&& forall|i: int|
        0 <= i < sections.len() ==> (#[trigger] sections[i]).token_start <= sections[i].token_end
            <= total
    &&& forall|i: int|
        0 <= i < sections.len() - 1 ==> (#[trigger] sections[i]).token_end == sections[i
            + 1].token_start
    &&& sections.len() > 0 ==> sections.last().token_end == total
}

/// Whether no token has an empty word.
pub open spec fn words_non_empty(tokens: Seq<TokenView>) -> bool {
    forall|i: int| 0 <= i < tokens.len() ==> (#[trigger] tokens[i]).word.len() > 0
}

impl ParsedDocument {
    /// A document as a parser leaves it: no word is empty, and the sections
    /// chain over the tokens.
    pub open spec fn wf(&self) -> bool {
        &&& words_non_empty(views(self.tokens@))
        &&& sections_chain(views(self.sections@), self.tokens@.len())
    }
}

/// Why a document could not be parsed.
#[derive(Debug)]
pub enum ParseError {
    /// The file could not be read.
    IoError(std::io::Error),
    /// The content is malformed; the message says how.
    ParseError(String),
}

/// `Display` of `std::io::Error`: the text that describes the error.
#[verifier::external_body]
fn io_error_text(e: &std::io::Error) -> (text: String) {
    format!("{e}")
}

impl ParseError {
    /// The text that describes this error: `IO error: ` or `Parse error: `,
    /// and then what went wrong.
    pub fn message(&self) -> (text: String)
        ensures
            match self {
                ParseError::IoError(_) => text@.len() >= "IO error: "@.len() && text@.take(
                    "IO error: "@.len() as int,
                ) == "IO error: "@,
                ParseError::ParseError(s) => text@ == "Parse error: "@ + s@,
            },
    {
        match self {
            ParseError::IoError(e) => {
                let mut text = String::from_str("IO error: ");
                let detail = io_error_text(e);
                text.append(detail.as_str());
                assert(text@.take("IO error: "@.len() as int) =~= "IO error: "@);
                text
            },
            ParseError::ParseError(s) => {
                let mut text = String::from_str("Parse error: ");
                text.append(s.as_str());
                text
            },
        }
    }
}

impl From<std::io::Error> for ParseError {
    fn from(err: std::io::Error) -> (e: Self) {
        ParseError::IoError(err)
    }
}

impl vstd::std_specs::convert::FromSpecImpl<std::io::Error> for ParseError {
    open spec fn obeys_from_spec() -> bool {
        true
    }

    open spec fn from_spec(err: std::io::Error) -> Self {
        ParseError::IoError(err)
    }
}

/// A parser of documents.
pub trait DocumentParser {
    /// Parse a document from its content.
    ///
    /// Returns [`ParseError::ParseError`] if the content is malformed. A
    /// document that is returned is well formed.
    fn parse_str(&self, content: &str) -> (r: Result<ParsedDocument, ParseError>)
        ensures
            r matches Ok(doc) ==> doc.wf(),
            r matches Err(e) ==> e is ParseError,
    ;
}

} // verus!
