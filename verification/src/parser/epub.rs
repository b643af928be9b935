//! The EPUB parser: the chapters of a book, read by the program around the
//! library, are turned into markdown, joined, and parsed as markdown.

use crate::parser::markdown::{markdown_tree, MarkdownParser};
use crate::parser::segment::{trim_range, trimmed};
use crate::parser::tokenizer::tokenized;
use crate::parser::traits::{DocumentParser, ParseError, ParsedDocument};
use crate::parser::tree::DocTree;
use crate::text::{
    chars_of, contains_pattern, has_pattern, is_alphanumeric, push_char, push_decimal,
    push_two_digits, string_of_range, two_digits, decimal, unicode_alphanumeric,
};
use crate::types::{lemma_views_push, views};
use vstd::prelude::*;
use vstd::string::StringExecFns;

verus! {

#[verifier::external_type_specification]
#[verifier::external_body]
pub struct ExHtmlError(html2text::Error);

/// The width to which the text of a chapter is wrapped: wide enough that
/// no paragraph is broken.
pub const RENDER_WIDTH: usize = 10000;

/// What `html2text` makes of a document for a given width: its text, or
/// `None` where it fails.
pub uninterp spec fn rendered_html(xhtml: Seq<char>, width: usize) -> Option<Seq<char>>;

/// `html2text::from_read` on the characters of `xhtml`: the text of the
/// document wrapped to `width` columns, or the error of the renderer. The
/// result is a function of the document and the width, which this library
/// names and does not spell out.
#[verifier::external_body]
fn render_html(xhtml: &str, width: usize) -> (r: Result<String, html2text::Error>)
    ensures
        match r {
            Ok(text) => rendered_html(xhtml@, width) == Some(text@),
            Err(_) => rendered_html(xhtml@, width) is None,
        },
{
    html2text::from_read(std::io::Cursor::new(xhtml), width)
}

/// The markdown of a chapter: what the renderer makes of it at
/// `RENDER_WIDTH`, or nothing where it fails.
pub open spec fn markdown_of(xhtml: Seq<char>) -> Seq<char> {
    match rendered_html(xhtml, RENDER_WIDTH) {
        Some(text) => text,
        None => Seq::empty(),
    }
}

/// Whether a character may stand in a file name as it is.
pub open spec fn keeps_in_filename(c: char) -> bool {
    unicode_alphanumeric(c) || c == ' ' || c == '-' || c == '_'
}

/// A string as a file name: every character that may not stand in one is
/// an underscore, and the whitespace at both ends is gone.
pub open spec fn sanitized(s: Seq<char>) -> Seq<char> {
    trimmed(
        s.map_values(
            |c: char|
                if keeps_in_filename(c) {
                    c
                } else {
                    '_'
                },
        ),
    )
}

/// A chapter of a book as it was read: its content, if it could be read,
/// and its title from the table of contents, if it has one.
#[derive(Debug)]
pub struct EpubChapter {
    pub content: Option<String>,
    pub title: Option<String>,
}

/// The mathematical value of an [`EpubChapter`].
pub struct EpubChapterView {
    pub content: Option<Seq<char>>,
    pub title: Option<Seq<char>>,
}

impl View for EpubChapter {
    type V = EpubChapterView;

    open spec fn view(&self) -> EpubChapterView {
        EpubChapterView {
            content: match self.content {
                Some(s) => Some(s@),
                None => None,
            },
            title: match self.title {
                Some(s) => Some(s@),
                None => None,
            },
        }
    }
}

/// The marker that a failed XHTML parser leaves in a document.
pub open spec fn error_marker() -> Seq<char> {
    seq!['<', 'p', 'a', 'r', 's', 'e', 'r', 'e', 'r', 'r', 'o', 'r']
}

/// Whether the chapter at index `i` holds the marker of a parse error.
pub open spec fn malformed_at(chapters: Seq<EpubChapterView>, i: int) -> bool {
    &&& 0 <= i < chapters.len()
    &&& chapters[i].content matches Some(content)
    &&& has_pattern(content, error_marker())
}

/// The message for the malformed chapter at index `i`: it names the
/// chapter by its title, or by its number where it has none.
pub open spec fn malformed_message(chapters: Seq<EpubChapterView>, i: int) -> Seq<char> {
    "Failed to parse chapter "@ + (match chapters[i].title {
        Some(title) => title,
        None => "chapter "@ + decimal((i + 1) as nat),
    }) + ": malformed XHTML"@
}

/// The combined markdown with one more chapter: a chapter with a title
/// opens with a heading, set off from what stands before it; its markdown
/// follows unless it is blank.
pub open spec fn with_chapter(
    combined: Seq<char>,
    title: Option<Seq<char>>,
    markdown: Seq<char>,
) -> Seq<char> {
    let headed = match title {
        Some(t) => (if combined.len() > 0 {
            combined + seq!['\n', '\n']
        } else {
            combined
        }) + seq!['#', ' '] + t + seq!['\n', '\n'],
        None => combined,
    };
    if trimmed(markdown).len() == 0 {
        headed
    } else {
        headed + markdown
    }
}

/// The combined markdown of the first `k` chapters; a chapter without
/// content adds nothing.
pub open spec fn combined_markdown(chapters: Seq<EpubChapterView>, k: nat) -> Seq<char>
    decreases k,
{
    if k == 0 {
        Seq::empty()
    } else {
        let before = combined_markdown(chapters, (k - 1) as nat);
        match chapters[k - 1].content {
            Some(content) => with_chapter(before, chapters[k - 1].title, markdown_of(content)),
            None => before,
        }
    }
}

/// The tree of a book: the tree that its combined markdown gives.
pub open spec fn book_tree(chapters: Seq<EpubChapterView>) -> DocTree {
    markdown_tree(combined_markdown(chapters, chapters.len()))
}

/// A file of an export: its name and its content.
#[derive(Debug)]
pub struct ExportedFile {
    pub filename: String,
    pub markdown: String,
}

/// The mathematical value of an [`ExportedFile`].
pub struct ExportedFileView {
    pub filename: Seq<char>,
    pub markdown: Seq<char>,
}

impl View for ExportedFile {
    type V = ExportedFileView;

    open spec fn view(&self) -> ExportedFileView {
        ExportedFileView { filename: self.filename@, markdown: self.markdown@ }
    }
}

/// The name of the file of the chapter that is exported as number
/// `count`: the number, the title as a file name, or `chapter-` and the
/// number where it has none, and the ending `.md`.
pub open spec fn export_name(count: nat, title: Option<Seq<char>>) -> Seq<char> {
    let named = match title {
        Some(t) => if sanitized(t).len() > 0 {
            sanitized(t)
        } else {
            "chapter-"@ + two_digits(count)
        },
        None => "chapter-"@ + two_digits(count),
    };
    two_digits(count) + seq!['-'] + named + ".md"@
}

/// The files of the first `k` chapters: one for each chapter with content
/// whose markdown is not blank, numbered from one.
pub open spec fn exported_files(chapters: Seq<EpubChapterView>, k: nat) -> Seq<ExportedFileView>
    decreases k,
{
    if k == 0 {
        Seq::empty()
    } else {
        let before = exported_files(chapters, (k - 1) as nat);
        match chapters[k - 1].content {
            Some(content) => if trimmed(markdown_of(content)).len() == 0 {
                before
            } else {
                before.push(
                    ExportedFileView {
                        filename: export_name(before.len() + 1, chapters[k - 1].title),
                        markdown: markdown_of(content),
                    },
                )
            },
            None => before,
        }
    }
}

/// The title of a book as the name of a directory: the title of its
/// metadata as a file name, unless that is empty; else the stem of its
/// file as a file name; else `epub-export`.
pub open spec fn book_title_of(
    metadata_title: Option<Seq<char>>,
    file_stem: Option<Seq<char>>,
) -> Seq<char> {
    let fallback = match file_stem {
        Some(stem) => sanitized(stem),
        None => "epub-export"@,
    };
    match metadata_title {
        Some(title) => if sanitized(title).len() > 0 {
            sanitized(title)
        } else {
            fallback
        },
        None => fallback,
    }
}

fn is_blank(s: &str) -> (blank: bool)
    ensures
        blank == (trimmed(s@).len() == 0),
{
    let chars = chars_of(s);
    let (start, end) = trim_range(&chars);
    start == end
}

fn error_marker_chars() -> (marker: Vec<char>)
    ensures
        marker@ == error_marker(),
{
    let marker = chars_of("<parsererror");
    proof {
        reveal_strlit("<parsererror");
        assert("<parsererror"@ =~= error_marker());
    }
    marker
}

/// Add a chapter to the combined markdown: its heading where it has a
/// title, and its markdown unless that is blank.
pub fn append_chapter(combined: &mut String, title: Option<&str>, markdown: &str)
    ensures
        final(combined)@ == with_chapter(
            old(combined)@,
            match title {
                Some(t) => Some(t@),
                None => None,
            },
            markdown@,
        ),
{
    match title {
        Some(t) => {
            if combined.as_str().unicode_len() > 0 {
                push_char(combined, '\n');
                push_char(combined, '\n');
                assert(combined@ =~= old(combined)@ + seq!['\n', '\n']);
            }
            let ghost set_off = combined@;
            push_char(combined, '#');
            push_char(combined, ' ');
            combined.append(t);
            push_char(combined, '\n');
            push_char(combined, '\n');
            assert(combined@ =~= set_off + seq!['#', ' '] + t@ + seq!['\n', '\n']);
        },
        None => {},
    }
    if !is_blank(markdown) {
        combined.append(markdown);
    }
}

/// EPUB parser that extracts content and converts to tokens via markdown.
pub struct EpubParser {
    md_parser: MarkdownParser,
}

impl EpubParser {
    /// A parser of books.
    #[must_use]
    pub fn new() -> Self {
        EpubParser { md_parser: MarkdownParser::new() }
    }

    /// Convert XHTML content to markdown; nothing where the conversion
    /// fails.
    pub fn xhtml_to_markdown(xhtml: &str) -> (markdown: String)
        ensures
            markdown@ == markdown_of(xhtml@),
    {
        match render_html(xhtml, 10000) {
            Ok(text) => text,
            Err(_) => String::new(),
        }
    }

    /// Sanitize a string for use as a filename.
    pub fn sanitize_filename(s: &str) -> (name: String)
        ensures
            name@ == sanitized(s@),
    {
        let chars = chars_of(s);
        let ghost mapped = s@.map_values(
            |c: char|
                if keeps_in_filename(c) {
                    c
                } else {
                    '_'
                },
        );
        let mut safe: Vec<char> = Vec::new();
        let mut i: usize = 0;
        assert(safe@ =~= mapped.take(0));
        while i < chars.len()
            invariant
                i <= chars.len(),
                chars@ == s@,
                mapped == s@.map_values(
                    |c: char|
                        if keeps_in_filename(c) {
                            c
                        } else {
                            '_'
                        },
                ),
                safe@ == mapped.take(i as int),
            decreases chars.len() - i,
        {
            let c = chars[i];
            if is_alphanumeric(c) || c == ' ' || c == '-' || c == '_' {
                safe.push(c);
            } else {
                safe.push('_');
            }
            assert(mapped.take(i + 1) =~= mapped.take(i as int).push(mapped[i as int]));
            i = i + 1;
        }
        assert(mapped.take(chars.len() as int) =~= mapped);
        let (start, end) = trim_range(&safe);
        string_of_range(&safe, start, end)
    }

    /// Get the book title from the title of its metadata or from the stem
    /// of the name of its file.
    pub fn get_book_title(metadata_title: Option<&str>, file_stem: Option<&str>) -> (title: String)
        ensures
            title@ == book_title_of(
                match metadata_title {
                    Some(t) => Some(t@),
                    None => None,
                },
                match file_stem {
                    Some(t) => Some(t@),
                    None => None,
                },
            ),
    {
        match metadata_title {
            Some(t) => {
                let name = EpubParser::sanitize_filename(t);
                if name.as_str().unicode_len() > 0 {
                    return name;
                }
            },
            None => {},
        }
        match file_stem {
            Some(stem) => EpubParser::sanitize_filename(stem),
            None => String::from_str("epub-export"),
        }
    }

    /// Join the chapters of a book into one markdown document. A chapter
    /// with a title opens with a heading of the first level.
    ///
    /// A chapter that holds the marker of a parse error fails the whole
    /// book; the error names the first such chapter.
    pub fn combine_chapters(chapters: &Vec<EpubChapter>) -> (r: Result<String, ParseError>)
        ensures
            match r {
                Ok(markdown) => {
                    &&& forall|i: int| !malformed_at(views(chapters@), i)
                    &&& markdown@ == combined_markdown(views(chapters@), chapters@.len())
                },
                Err(e) => exists|i: int|
                    {
                        &&& #[trigger] malformed_at(views(chapters@), i)
                        &&& forall|j: int| 0 <= j < i ==> !malformed_at(views(chapters@), j)
                        &&& e matches ParseError::ParseError(message)
                        &&& message@ == malformed_message(views(chapters@), i)
                    },
            },
    {
        let marker = error_marker_chars();
        let ghost model = views(chapters@);
        let mut combined = String::new();
        let mut i: usize = 0;
        while i < chapters.len()
            invariant
                i <= chapters@.len(),
                model == views(chapters@),
                marker@ == error_marker(),
                forall|j: int| 0 <= j < i ==> !malformed_at(model, j),
                combined@ == combined_markdown(model, i as nat),
            decreases chapters.len() - i,
        {
            let chapter = &chapters[i];
            assert(model[i as int] == chapter@);
            match &chapter.content {
                Some(content) => {
                    let content_chars = chars_of(content.as_str());
                    if contains_pattern(&content_chars, &marker) {
                        let mut message = String::from_str("Failed to parse chapter ");
                        match &chapter.title {
                            Some(title) => {
                                message.append(title.as_str());
                            },
                            None => {
                                message.append("chapter ");
                                push_decimal(&mut message, i + 1);
                                assert(message@ =~= "Failed to parse chapter "@ + ("chapter "@
                                    + decimal((i + 1) as nat)));
                            },
                        }
                        message.append(": malformed XHTML");
                        assert(malformed_at(model, i as int));
                        return Err(ParseError::ParseError(message));
                    }
                    let markdown = EpubParser::xhtml_to_markdown(content.as_str());
                    let title: Option<&str> = match &chapter.title {
                        Some(t) => Some(t.as_str()),
                        None => None,
                    };
                    append_chapter(&mut combined, title, markdown.as_str());
                },
                None => {},
            }
            i = i + 1;
        }
        Ok(combined)
    }

    /// Parse a book from its chapters: they are joined into one markdown
    /// document, which is parsed as markdown.
    ///
    /// A malformed chapter fails the whole book, with the error that names
    /// the first such chapter; so does a book whose markdown gives a tree
    /// that is not well formed.
    pub fn parse_chapters(&self, chapters: &Vec<EpubChapter>) -> (r: Result<
        ParsedDocument,
        ParseError,
    >)
        ensures
            match r {
                Ok(doc) => {
                    &&& forall|i: int| !malformed_at(views(chapters@), i)
                    &&& book_tree(views(chapters@)).wf()
                    &&& views(doc.tokens@) == tokenized(book_tree(views(chapters@))).0
                    &&& views(doc.sections@) == tokenized(book_tree(views(chapters@))).1
                    &&& doc.wf()
                },
                Err(e) => {
                    ||| exists|i: int|
                        {
                            &&& #[trigger] malformed_at(views(chapters@), i)
                            &&& forall|j: int| 0 <= j < i ==> !malformed_at(views(chapters@), j)
                            &&& e matches ParseError::ParseError(message)
                            &&& message@ == malformed_message(views(chapters@), i)
                        }
                    ||| {
                        &&& forall|i: int| !malformed_at(views(chapters@), i)
                        &&& !book_tree(views(chapters@)).wf()
                        &&& e is ParseError
                    }
                },
            },
    {
        match EpubParser::combine_chapters(chapters) {
            Ok(markdown) => self.md_parser.parse_str(markdown.as_str()),
            Err(e) => Err(e),
        }
    }

    /// The files of an export of the chapters of a book, one for each
    /// chapter with content: the markdown of the chapter under a numbered
    /// name.
    pub fn export_chapters(chapters: &Vec<EpubChapter>) -> (files: Vec<ExportedFile>)
        ensures
            views(files@) == exported_files(views(chapters@), chapters@.len()),
    {
        let ghost model = views(chapters@);
        let mut files: Vec<ExportedFile> = Vec::new();
        let mut i: usize = 0;
        assert(views(files@) =~= exported_files(model, 0));
        while i < chapters.len()
            invariant
                i <= chapters@.len(),
                files@.len() <= i,
                model == views(chapters@),
                views(files@) == exported_files(model, i as nat),
            decreases chapters.len() - i,
        {
            let chapter = &chapters[i];
            assert(model[i as int] == chapter@);
            match &chapter.content {
                Some(content) => {
                    let markdown = EpubParser::xhtml_to_markdown(content.as_str());
                    if !is_blank(markdown.as_str()) {
                        let count = files.len() + 1;
                        assert(views(files@).len() == files@.len());
                        let mut filename = String::new();
                        push_two_digits(&mut filename, count);
                        push_char(&mut filename, '-');
                        let named = match &chapter.title {
                            Some(t) => {
                                let name = EpubParser::sanitize_filename(t.as_str());
                                if name.as_str().unicode_len() > 0 {
                                    Some(name)
                                } else {
                                    None
                                }
                            },
                            None => None,
                        };
                        match named {
                            Some(name) => {
                                filename.append(name.as_str());
                            },
                            None => {
                                filename.append("chapter-");
                                push_two_digits(&mut filename, count);
                            },
                        }
                        filename.append(".md");
                        assert(filename@ =~= export_name(count as nat, chapter@.title));
                        let file = ExportedFile { filename, markdown };
                        proof {
                            lemma_views_push(files@, file);
                        }
                        files.push(file);
                    }
                },
                None => {},
            }
            i = i + 1;
        }
        files
    }
}

impl Default for EpubParser {
    fn default() -> Self {
        EpubParser::new()
    }
}

impl DocumentParser for EpubParser {
    /// A book cannot be parsed from a string: this always fails.
    fn parse_str(&self, _content: &str) -> (r: Result<ParsedDocument, ParseError>)
        ensures
            r matches Err(e) && e matches ParseError::ParseError(message) && message@
                == "EPUB parser does not support parsing from string"@,
    {
        Err(
            ParseError::ParseError(
                String::from_str("EPUB parser does not support parsing from string"),
            ),
        )
    }
}

} // verus!
