//! The data model: tokens, their styles and structural contexts, timing hints
//! and sections, each with the mathematical view that contracts speak of.

use vstd::prelude::*;
use vstd::std_specs::cmp::PartialEqSpecImpl;

verus! {

/// The marks shown for a heading of the given level: one `#` per level for
/// levels one to six, a single `#` for any other level.
pub open spec fn heading_marks(level: u8) -> Seq<char> {
    if 1 <= level <= 6 {
        Seq::new(level as nat, |i: int| '#')
    } else {
        seq!['#']
    }
}

fn heading_marks_str(level: u8) -> (r: &'static str)
    ensures
        r@ == heading_marks(level),
{
    proof {
        reveal_strlit("#");
        reveal_strlit("##");
        reveal_strlit("###");
        reveal_strlit("####");
        reveal_strlit("#####");
        reveal_strlit("######");
    }
    if level == 2 {
        assert("##"@ =~= heading_marks(level));
        "##"
    } else if level == 3 {
        assert("###"@ =~= heading_marks(level));
        "###"
    } else if level == 4 {
        assert("####"@ =~= heading_marks(level));
        "####"
    } else if level == 5 {
        assert("#####"@ =~= heading_marks(level));
        "#####"
    } else if level == 6 {
        assert("######"@ =~= heading_marks(level));
        "######"
    } else {
        assert("#"@ =~= heading_marks(level));
        "#"
    }
}

/// A coarse hint about the structural ancestor of a token, shown in the gutter.
#[derive(Debug)]
pub enum BlockHint {
    Heading(u8),
    Quote,
    BulletList,
    OrderedList,
    Table,
    Callout(String),
}

/// The mathematical value of a [`BlockHint`].
pub enum BlockHintView {
    Heading(u8),
    Quote,
    BulletList,
    OrderedList,
    Table,
    Callout(Seq<char>),
}

impl BlockHintView {
    /// The gutter characters of this hint.
    pub open spec fn hint_chars(self) -> Seq<char> {
        match self {
            BlockHintView::Heading(level) => heading_marks(level),
            BlockHintView::Quote => seq!['>'],
            BlockHintView::BulletList => seq!['-'],
            BlockHintView::OrderedList => seq!['1', '.'],
            BlockHintView::Table => seq!['|'],
            BlockHintView::Callout(_) => seq!['[', '!', ']'],
        }
    }
}

impl View for BlockHint {
    type V = BlockHintView;

    open spec fn view(&self) -> BlockHintView {
        match self {
            BlockHint::Heading(level) => BlockHintView::Heading(*level),
            BlockHint::Quote => BlockHintView::Quote,
            BlockHint::BulletList => BlockHintView::BulletList,
            BlockHint::OrderedList => BlockHintView::OrderedList,
            BlockHint::Table => BlockHintView::Table,
            BlockHint::Callout(kind) => BlockHintView::Callout(kind@),
        }
    }
}

impl Clone for BlockHint {
    fn clone(&self) -> (r: Self)
        ensures
            r == *self,
    {
        match self {
            BlockHint::Heading(level) => BlockHint::Heading(*level),
            BlockHint::Quote => BlockHint::Quote,
            BlockHint::BulletList => BlockHint::BulletList,
            BlockHint::OrderedList => BlockHint::OrderedList,
            BlockHint::Table => BlockHint::Table,
            BlockHint::Callout(kind) => BlockHint::Callout(kind.clone()),
        }
    }
}

impl PartialEq for BlockHint {
    fn eq(&self, other: &Self) -> (r: bool) {
        match (self, other) {
            (BlockHint::Heading(a), BlockHint::Heading(b)) => *a == *b,
            (BlockHint::Quote, BlockHint::Quote) => true,
            (BlockHint::BulletList, BlockHint::BulletList) => true,
            (BlockHint::OrderedList, BlockHint::OrderedList) => true,
            (BlockHint::Table, BlockHint::Table) => true,
            (BlockHint::Callout(a), BlockHint::Callout(b)) => *a == *b,
            _ => false,
        }
    }
}

impl PartialEqSpecImpl for BlockHint {
    open spec fn obeys_eq_spec() -> bool {
        true
    }

    open spec fn eq_spec(&self, other: &Self) -> bool {
        self@ == other@
    }
}

impl Eq for BlockHint {

}

impl BlockHint {
    /// Returns the hint characters for display in the gutter.
    #[must_use]
    pub fn hint_chars(&self) -> (r: &'static str)
        ensures
            r@ == self@.hint_chars(),
    {
        proof {
            reveal_strlit(">");
            reveal_strlit("-");
            reveal_strlit("1.");
            reveal_strlit("|");
            reveal_strlit("[!]");
        }
        match self {
            BlockHint::Heading(level) => heading_marks_str(*level),
            BlockHint::Quote => {
                assert(">"@ =~= seq!['>']);
                ">"
            },
            BlockHint::BulletList => {
                assert("-"@ =~= seq!['-']);
                "-"
            },
            BlockHint::OrderedList => {
                assert("1."@ =~= seq!['1', '.']);
                "1."
            },
            BlockHint::Table => {
                assert("|"@ =~= seq!['|']);
                "|"
            },
            BlockHint::Callout(_) => {
                assert("[!]"@ =~= seq!['[', '!', ']']);
                "[!]"
            },
        }
    }
}

/// How a word is styled.
#[derive(Debug)]
pub enum TokenStyle {
    Normal,
    Bold,
    Italic,
    BoldItalic,
    Code,
    Link(String),
}

/// The mathematical value of a [`TokenStyle`].
pub enum TokenStyleView {
    Normal,
    Bold,
    Italic,
    BoldItalic,
    Code,
    Link(Seq<char>),
}

impl View for TokenStyle {
    type V = TokenStyleView;

    open spec fn view(&self) -> TokenStyleView {
        match self {
            TokenStyle::Normal => TokenStyleView::Normal,
            TokenStyle::Bold => TokenStyleView::Bold,
            TokenStyle::Italic => TokenStyleView::Italic,
            TokenStyle::BoldItalic => TokenStyleView::BoldItalic,
            TokenStyle::Code => TokenStyleView::Code,
            TokenStyle::Link(url) => TokenStyleView::Link(url@),
        }
    }
}

impl Clone for TokenStyle {
    fn clone(&self) -> (r: Self)
        ensures
            r == *self,
    {
        match self {
            TokenStyle::Normal => TokenStyle::Normal,
            TokenStyle::Bold => TokenStyle::Bold,
            TokenStyle::Italic => TokenStyle::Italic,
            TokenStyle::BoldItalic => TokenStyle::BoldItalic,
            TokenStyle::Code => TokenStyle::Code,
            TokenStyle::Link(url) => TokenStyle::Link(url.clone()),
        }
    }
}

impl PartialEq for TokenStyle {
    fn eq(&self, other: &Self) -> (r: bool) {
        match (self, other) {
            (TokenStyle::Normal, TokenStyle::Normal) => true,
            (TokenStyle::Bold, TokenStyle::Bold) => true,
            (TokenStyle::Italic, TokenStyle::Italic) => true,
            (TokenStyle::BoldItalic, TokenStyle::BoldItalic) => true,
            (TokenStyle::Code, TokenStyle::Code) => true,
            (TokenStyle::Link(a), TokenStyle::Link(b)) => *a == *b,
            _ => false,
        }
    }
}

impl PartialEqSpecImpl for TokenStyle {
    open spec fn obeys_eq_spec() -> bool {
        true
    }

    open spec fn eq_spec(&self, other: &Self) -> bool {
        self@ == other@
    }
}

impl Eq for TokenStyle {

}

/// The structural block that encloses a word.
#[derive(Debug)]
pub enum BlockContext {
    Paragraph,
    /// A list item, with the depth of its list.
    ListItem(usize),
    /// A block quote, with its depth.
    Quote(usize),
    /// A callout, with its kind.
    Callout(String),
    /// A heading, with its level.
    Heading(u8),
    /// A table cell, with the number of its row.
    TableCell(usize),
}

/// The mathematical value of a [`BlockContext`].
pub enum BlockContextView {
    Paragraph,
    ListItem(usize),
    Quote(usize),
    Callout(Seq<char>),
    Heading(u8),
    TableCell(usize),
}

impl BlockContextView {
    /// The gutter characters of this block.
    pub open spec fn hint_chars(self) -> Seq<char> {
        match self {
            BlockContextView::Heading(level) => heading_marks(level),
            BlockContextView::ListItem(_) => Seq::empty(),
            BlockContextView::Quote(_) => seq!['>'],
            BlockContextView::TableCell(_) => seq!['|'],
            BlockContextView::Callout(_) => seq!['[', '!', ']'],
            BlockContextView::Paragraph => Seq::empty(),
        }
    }
}

impl View for BlockContext {
    type V = BlockContextView;

    open spec fn view(&self) -> BlockContextView {
        match self {
            BlockContext::Paragraph => BlockContextView::Paragraph,
            BlockContext::ListItem(depth) => BlockContextView::ListItem(*depth),
            BlockContext::Quote(depth) => BlockContextView::Quote(*depth),
            BlockContext::Callout(kind) => BlockContextView::Callout(kind@),
            BlockContext::Heading(level) => BlockContextView::Heading(*level),
            BlockContext::TableCell(row) => BlockContextView::TableCell(*row),
        }
    }
}

impl Clone for BlockContext {
    fn clone(&self) -> (r: Self)
        ensures
            r == *self,
    {
        match self {
            BlockContext::Paragraph => BlockContext::Paragraph,
            BlockContext::ListItem(depth) => BlockContext::ListItem(*depth),
            BlockContext::Quote(depth) => BlockContext::Quote(*depth),
            BlockContext::Callout(kind) => BlockContext::Callout(kind.clone()),
            BlockContext::Heading(level) => BlockContext::Heading(*level),
            BlockContext::TableCell(row) => BlockContext::TableCell(*row),
        }
    }
}

impl PartialEq for BlockContext {
    fn eq(&self, other: &Self) -> (r: bool) {
        match (self, other) {
            (BlockContext::Paragraph, BlockContext::Paragraph) => true,
            (BlockContext::ListItem(a), BlockContext::ListItem(b)) => *a == *b,
            (BlockContext::Quote(a), BlockContext::Quote(b)) => *a == *b,
            (BlockContext::Callout(a), BlockContext::Callout(b)) => *a == *b,
            (BlockContext::Heading(a), BlockContext::Heading(b)) => *a == *b,
            (BlockContext::TableCell(a), BlockContext::TableCell(b)) => *a == *b,
            _ => false,
        }
    }
}

impl PartialEqSpecImpl for BlockContext {
    open spec fn obeys_eq_spec() -> bool {
        true
    }

    open spec fn eq_spec(&self, other: &Self) -> bool {
        self@ == other@
    }
}

impl Eq for BlockContext {

}

impl BlockContext {
    /// Returns the hint characters for display in the gutter.
    #[must_use]
    pub fn hint_chars(&self) -> (r: &'static str)
        ensures
            r@ == self@.hint_chars(),
    {
        proof {
            reveal_strlit("");
            reveal_strlit(">");
            reveal_strlit("|");
            reveal_strlit("[!]");
        }
        match self {
            BlockContext::Heading(level) => heading_marks_str(*level),
            BlockContext::ListItem(_) => {
                assert(""@ =~= Seq::<char>::empty());
                ""
            },
            BlockContext::Quote(_) => {
                assert(">"@ =~= seq!['>']);
                ">"
            },
            BlockContext::TableCell(_) => {
                assert("|"@ =~= seq!['|']);
                "|"
            },
            BlockContext::Callout(_) => {
                assert("[!]"@ =~= seq!['[', '!', ']']);
                "[!]"
            },
            BlockContext::Paragraph => {
                assert(""@ =~= Seq::<char>::empty());
                ""
            },
        }
    }
}

/// The signals from which a word's display time is derived.
#[derive(Debug, Clone, Copy)]
pub struct TimingHint {
    pub word_length_modifier: i32,
    pub punctuation_modifier: i32,
    pub structure_modifier: i32,
    /// True if this is the first word of a table cell.
    pub is_cell_start: bool,
    /// Column index for table cells, `None` outside a table.
    pub table_column: Option<usize>,
}

impl TimingHint {
    /// The sum of the three modifiers.
    pub open spec fn total(self) -> int {
        self.word_length_modifier + self.punctuation_modifier + self.structure_modifier
    }

    /// A hint as the timing model produces it: no modifier is negative.
    pub open spec fn wf(self) -> bool {
        &&& self.word_length_modifier >= 0
        &&& self.punctuation_modifier >= 0
        &&& self.structure_modifier >= 0
    }
}

impl Default for TimingHint {
    fn default() -> (r: Self)
        ensures
            r.word_length_modifier == 0,
            r.punctuation_modifier == 0,
            r.structure_modifier == 0,
            !r.is_cell_start,
            r.table_column is None,
    {
        TimingHint {
            word_length_modifier: 0,
            punctuation_modifier: 0,
            structure_modifier: 0,
            is_cell_start: false,
            table_column: None,
        }
    }
}

impl PartialEq for TimingHint {
    fn eq(&self, other: &Self) -> (r: bool) {
        let same_column = match (self.table_column, other.table_column) {
            (Some(a), Some(b)) => a == b,
            (None, None) => true,
            _ => false,
        };
        self.word_length_modifier == other.word_length_modifier
            && self.punctuation_modifier == other.punctuation_modifier
            && self.structure_modifier == other.structure_modifier
            && self.is_cell_start == other.is_cell_start && same_column
    }
}

impl PartialEqSpecImpl for TimingHint {
    open spec fn obeys_eq_spec() -> bool {
        true
    }

    open spec fn eq_spec(&self, other: &Self) -> bool {
        *self == *other
    }
}

impl Eq for TimingHint {

}

/// One word of the document with its style, its block and its timing hint.
#[derive(Debug)]
pub struct Token {
    pub word: String,
    pub style: TokenStyle,
    pub block: BlockContext,
    pub parent_context: Option<BlockHint>,
    pub timing_hint: TimingHint,
}

/// The mathematical value of a [`Token`].
pub struct TokenView {
    pub word: Seq<char>,
    pub style: TokenStyleView,
    pub block: BlockContextView,
    pub parent_context: Option<BlockHintView>,
    pub timing_hint: TimingHint,
}

impl View for Token {
    type V = TokenView;

    open spec fn view(&self) -> TokenView {
        TokenView {
            word: self.word@,
            style: self.style@,
            block: self.block@,
            parent_context: match self.parent_context {
                Some(hint) => Some(hint@),
                None => None,
            },
            timing_hint: self.timing_hint,
        }
    }
}

impl Clone for Token {
    fn clone(&self) -> (r: Self)
        ensures
            r == *self,
    {
        Token {
            word: self.word.clone(),
            style: self.style.clone(),
            block: self.block.clone(),
            parent_context: match &self.parent_context {
                Some(hint) => Some(hint.clone()),
                None => None,
            },
            timing_hint: self.timing_hint,
        }
    }
}

impl PartialEq for Token {
    fn eq(&self, other: &Self) -> (r: bool) {
        let same_parent = match (&self.parent_context, &other.parent_context) {
            (Some(a), Some(b)) => *a == *b,
            (None, None) => true,
            _ => false,
        };
        self.word == other.word && self.style == other.style && self.block == other.block
            && same_parent && self.timing_hint == other.timing_hint
    }
}

impl PartialEqSpecImpl for Token {
    open spec fn obeys_eq_spec() -> bool {
        true
    }

    open spec fn eq_spec(&self, other: &Self) -> bool {
        self@ == other@
    }
}

/// A token with its display time and the index of its highlighted character.
#[derive(Debug)]
pub struct TimedToken {
    pub token: Token,
    pub duration_ms: u64,
    pub orp_position: usize,
}

/// The mathematical value of a [`TimedToken`].
pub struct TimedTokenView {
    pub token: TokenView,
    pub duration_ms: u64,
    pub orp_position: usize,
}

impl View for TimedToken {
    type V = TimedTokenView;

    open spec fn view(&self) -> TimedTokenView {
        TimedTokenView {
            token: self.token@,
            duration_ms: self.duration_ms,
            orp_position: self.orp_position,
        }
    }
}

impl Clone for TimedToken {
    fn clone(&self) -> (r: Self)
        ensures
            r == *self,
    {
        TimedToken {
            token: self.token.clone(),
            duration_ms: self.duration_ms,
            orp_position: self.orp_position,
        }
    }
}

/// One heading's span over the token stream, the half-open range from
/// `token_start` to `token_end`.
#[derive(Debug)]
pub struct Section {
    pub title: String,
    pub level: u8,
    pub token_start: usize,
    pub token_end: usize,
}

/// The mathematical value of a [`Section`].
pub struct SectionView {
    pub title: Seq<char>,
    pub level: u8,
    pub token_start: usize,
    pub token_end: usize,
}

impl View for Section {
    type V = SectionView;

    open spec fn view(&self) -> SectionView {
        SectionView {
            title: self.title@,
            level: self.level,
            token_start: self.token_start,
            token_end: self.token_end,
        }
    }
}

impl Clone for Section {
    fn clone(&self) -> (r: Self)
        ensures
            r == *self,
    {
        Section {
            title: self.title.clone(),
            level: self.level,
            token_start: self.token_start,
            token_end: self.token_end,
        }
    }
}

/// The views of the items of a sequence, in order.
pub open spec fn views<T: View>(items: Seq<T>) -> Seq<T::V> {
    items.map_values(|item: T| item@)
}

/// The views of a sequence with one more item.
pub proof fn lemma_views_push<T: View>(items: Seq<T>, item: T)
    ensures
        views(items.push(item)) == views(items).push(item@),
{
    assert(views(items.push(item)) =~= views(items).push(item@));
}

/// The views of two sequences, one after the other.
pub proof fn lemma_views_add<T: View>(a: Seq<T>, b: Seq<T>)
    ensures
        views(a + b) == views(a) + views(b),
{
    assert(views(a + b) =~= views(a) + views(b));
}

/// The views of a part of a sequence.
pub proof fn lemma_views_subrange<T: View>(items: Seq<T>, from: int, to: int)
    requires
        0 <= from <= to <= items.len(),
    ensures
        views(items.subrange(from, to)) == views(items).subrange(from, to),
{
    assert(views(items.subrange(from, to)) =~= views(items).subrange(from, to));
}

} // verus!
