//! The windowed layout engine: the lines of context around the current
//! word. Lines are derived from a window of tokens around the cursor and
//! are never reflowed: a word stays where it was put.

use crate::app::App;
use crate::text::{char_count, push_char};
use crate::types::{
    lemma_views_push, lemma_views_subrange, views, BlockContext, BlockContextView, TimedToken,
    TimedTokenView, TokenStyle,
};
use crate::ui::common::calculate_padding;
use std::collections::HashMap;
use vstd::prelude::*;
use vstd::slice::slice_subrange;
use vstd::string::StringExecFns;

verus! {

/// How many tokens before and after the cursor are laid out.
pub const WINDOW_TOKENS: usize = 500;

/// How many columns of the viewport are kept free of words.
pub const LINE_MARGIN: usize = 6;

/// A line with its tokens and their indices in the stream.
pub struct DocLine<'a> {
    /// The tokens of the line, each with its index in the stream.
    pub tokens: Vec<(usize, &'a TimedToken)>,
    /// True for the separator lines between blocks.
    pub is_blank: bool,
}

/// The mathematical value of a [`DocLine`].
pub struct LineView {
    pub tokens: Seq<(usize, TimedTokenView)>,
    pub is_blank: bool,
}

/// The indexed tokens of a line, by their views.
pub open spec fn pairs(tokens: Seq<(usize, &TimedToken)>) -> Seq<(usize, TimedTokenView)> {
    tokens.map_values(|p: (usize, &TimedToken)| (p.0, p.1@))
}

impl<'a> View for DocLine<'a> {
    type V = LineView;

    open spec fn view(&self) -> LineView {
        LineView { tokens: pairs(self.tokens@), is_blank: self.is_blank }
    }
}

/// The row of a table cell, `None` for every other block.
pub open spec fn table_row_of(block: BlockContextView) -> Option<usize> {
    match block {
        BlockContextView::TableCell(row) => Some(row),
        _ => None,
    }
}

/// Extract row number from a table cell block context.
pub fn table_row(block: &BlockContext) -> (row: Option<usize>)
    ensures
        row == table_row_of(block@),
{
    match block {
        BlockContext::TableCell(row) => Some(*row),
        _ => None,
    }
}

/// The mark that a block puts before its lines.
pub open spec fn prefix_of(block: BlockContextView) -> Seq<char> {
    match block {
        BlockContextView::ListItem(depth) => if depth > 1 {
            seq!['-', ' ']
        } else {
            Seq::empty()
        },
        BlockContextView::Quote(_) | BlockContextView::TableCell(_) => seq!['|', ' '],
        BlockContextView::Heading(_) | BlockContextView::Paragraph => Seq::empty(),
        BlockContextView::Callout(_) => seq!['[', 'i', ']', ' '],
    }
}

/// Get block prefix for visual indication: a list marker for nested lists
/// only, a bar for quotes and tables, a sign for callouts.
pub fn block_prefix(block: &BlockContext) -> (prefix: &'static str)
    ensures
        prefix@ == prefix_of(block@),
{
    proof {
        reveal_strlit("- ");
        reveal_strlit("");
        reveal_strlit("| ");
        reveal_strlit("[i] ");
    }
    match block {
        BlockContext::ListItem(depth) => {
            if *depth > 1 {
                assert("- "@ =~= seq!['-', ' ']);
                "- "
            } else {
                assert(""@ =~= Seq::<char>::empty());
                ""
            }
        },
        BlockContext::Quote(_) | BlockContext::TableCell(_) => {
            assert("| "@ =~= seq!['|', ' ']);
            "| "
        },
        BlockContext::Heading(_) | BlockContext::Paragraph => {
            assert(""@ =~= Seq::<char>::empty());
            ""
        },
        BlockContext::Callout(_) => {
            assert("[i] "@ =~= seq!['[', 'i', ']', ' ']);
            "[i] "
        },
    }
}

/// Where the layout stands: the lines that are closed, the line that is
/// being filled with its width, and the block and table row of the token
/// that was placed last.
pub struct LayoutState {
    pub lines: Seq<LineView>,
    pub current: Seq<(usize, TimedTokenView)>,
    pub width: nat,
    pub last_block: Option<BlockContextView>,
    pub last_table_row: Option<usize>,
}

/// The layout before any token is placed.
pub open spec fn layout_start() -> LayoutState {
    LayoutState {
        lines: Seq::empty(),
        current: Seq::empty(),
        width: 0,
        last_block: None,
        last_table_row: None,
    }
}

/// Whether `token` begins another block than the one before it: a list
/// item begins with the word that carries a structure modifier; inside a
/// table only another row counts; elsewhere any other block does.
pub open spec fn block_changed(
    last_block: Option<BlockContextView>,
    last_table_row: Option<usize>,
    token: TimedTokenView,
) -> bool {
    let row = table_row_of(token.token.block);
    let new_list_item = token.token.block is ListItem && token.token.timing_hint.structure_modifier
        > 0;
    new_list_item || match last_block {
        Some(block) => if row is Some && last_table_row is Some {
            row != last_table_row
        } else {
            block != token.token.block
        },
        None => false,
    }
}

/// Whether `token` is the first inside a table, or the first after one.
pub open spec fn table_transition(last_table_row: Option<usize>, token: TimedTokenView) -> bool {
    (last_table_row is Some) != (table_row_of(token.token.block) is Some)
}

/// The columns that a word takes: its characters and one space.
pub open spec fn word_width(token: TimedTokenView) -> nat {
    token.token.word.len() + 1
}

/// A line of tokens.
pub open spec fn text_line(tokens: Seq<(usize, TimedTokenView)>) -> LineView {
    LineView { tokens, is_blank: false }
}

/// A separator line.
pub open spec fn blank_line() -> LineView {
    LineView { tokens: Seq::empty(), is_blank: true }
}

/// The layout after the token with index `index` is placed. The line that
/// is being filled is closed first where the token begins another block,
/// enters or leaves a table, or would not fit; in the first two cases a
/// separator line follows it.
pub open spec fn place(
    st: LayoutState,
    index: usize,
    token: TimedTokenView,
    max_chars: nat,
) -> LayoutState {
    let structural = block_changed(st.last_block, st.last_table_row, token) || table_transition(
        st.last_table_row,
        token,
    );
    let overflow = st.width + word_width(token) > max_chars;
    let closed = if (structural || overflow) && st.current.len() > 0 {
        let with_line = st.lines.push(text_line(st.current));
        LayoutState {
            lines: if structural {
                with_line.push(blank_line())
            } else {
                with_line
            },
            current: Seq::empty(),
            width: 0,
            ..st
        }
    } else {
        st
    };
    LayoutState {
        lines: closed.lines,
        current: closed.current.push((index, token)),
        width: closed.width + word_width(token),
        last_block: Some(token.token.block),
        last_table_row: table_row_of(token.token.block),
    }
}

/// The layout after the tokens from `start` up to `end` are placed.
pub open spec fn placed(
    tokens: Seq<TimedTokenView>,
    start: int,
    end: int,
    max_chars: nat,
) -> LayoutState
    decreases end - start,
{
    if end <= start {
        layout_start()
    } else {
        place(placed(tokens, start, end - 1, max_chars), (end - 1) as usize, tokens[end - 1], max_chars)
    }
}

/// The lines of a layout: the closed ones, and the one that is being
/// filled where it holds a token.
pub open spec fn finished(st: LayoutState) -> Seq<LineView> {
    if st.current.len() > 0 {
        st.lines.push(text_line(st.current))
    } else {
        st.lines
    }
}

/// The first token of the window around `cursor`.
pub open spec fn window_start(cursor: usize) -> int {
    if cursor >= WINDOW_TOKENS {
        cursor - WINDOW_TOKENS
    } else {
        0
    }
}

/// The end of the window around `cursor` in a stream of `total` tokens.
pub open spec fn window_end(cursor: usize, total: nat) -> int {
    if cursor + WINDOW_TOKENS < total {
        cursor + WINDOW_TOKENS
    } else {
        total as int
    }
}

/// The greatest width of a line of words in a viewport of `width` columns:
/// the viewport less its margin, and at most `max_line_chars`.
pub open spec fn line_capacity(width: usize, max_line_chars: usize) -> nat {
    let room = if width >= LINE_MARGIN {
        (width - LINE_MARGIN) as nat
    } else {
        0nat
    };
    if room < max_line_chars {
        room
    } else {
        max_line_chars as nat
    }
}

/// The lines of the window around `cursor`.
pub open spec fn document_lines(
    tokens: Seq<TimedTokenView>,
    cursor: usize,
    width: usize,
    max_line_chars: usize,
) -> Seq<LineView> {
    finished(
        placed(
            tokens,
            window_start(cursor),
            window_end(cursor, tokens.len()),
            line_capacity(width, max_line_chars),
        ),
    )
}

/// Whether the lines show the tokens from `start` up to `end` of the
/// stream, each once and in order: separator lines are empty, other lines
/// are not, and every token on a line is the one of the stream at its index.
pub open spec fn lines_cover(
    lines: Seq<LineView>,
    tokens: Seq<TimedTokenView>,
    start: int,
    end: int,
) -> bool {
    &&& forall|l: int|
        0 <= l < lines.len() ==> ((#[trigger] lines[l]).is_blank <==> lines[l].tokens.len() == 0)
    &&& forall|l: int, k: int|
        0 <= l < lines.len() && 0 <= k < lines[l].tokens.len() ==> {
            &&& start <= (#[trigger] lines[l].tokens[k]).0 < end
            &&& lines[l].tokens[k].1 == tokens[lines[l].tokens[k].0 as int]
        }
    &&& indices_of(lines) == Seq::new((end - start) as nat, |i: int| (start + i) as usize)
}

/// The indices of the tokens of the lines, in order.
pub open spec fn indices_of(lines: Seq<LineView>) -> Seq<usize>
    decreases lines.len(),
{
    if lines.len() == 0 {
        Seq::empty()
    } else {
        indices_of(lines.drop_last()) + lines.last().tokens.map_values(
            |p: (usize, TimedTokenView)| p.0,
        )
    }
}

proof fn lemma_indices_push(lines: Seq<LineView>, line: LineView)
    ensures
        indices_of(lines.push(line)) == indices_of(lines) + line.tokens.map_values(
            |p: (usize, TimedTokenView)| p.0,
        ),
{
    assert(lines.push(line).drop_last() =~= lines);
}

/// The layout of a window shows each token of the window once, in order.
pub proof fn lemma_lines_cover(
    tokens: Seq<TimedTokenView>,
    start: int,
    end: int,
    max_chars: nat,
)
    requires
        0 <= start <= end <= tokens.len(),
        end <= usize::MAX,
    ensures
        lines_cover(finished(placed(tokens, start, end, max_chars)), tokens, start, end),
        placed(tokens, start, end, max_chars).current.len() == 0 ==> placed(
            tokens,
            start,
            end,
            max_chars,
        ).width == 0,
    decreases end - start,
{
    let st = placed(tokens, start, end, max_chars);
    let project = |p: (usize, TimedTokenView)| p.0;
    if end <= start {
        assert(indices_of(finished(st)) =~= Seq::new(0, |i: int| (start + i) as usize));
    } else {
        let before = placed(tokens, start, end - 1, max_chars);
        lemma_lines_cover(tokens, start, end - 1, max_chars);
        let token = tokens[end - 1];
        let index = (end - 1) as usize;
        let old_lines = finished(before);
        let new_lines = finished(st);
        let target = Seq::new((end - start) as nat, |i: int| (start + i) as usize);
        let old_target = Seq::new((end - 1 - start) as nat, |i: int| (start + i) as usize);
        assert(target =~= old_target.push(index));
        if before.current.len() > 0 {
            lemma_indices_push(before.lines, text_line(before.current));
        }
        let structural = block_changed(before.last_block, before.last_table_row, token)
            || table_transition(before.last_table_row, token);
        let overflow = before.width + word_width(token) > max_chars;
        if (structural || overflow) && before.current.len() > 0 {
            let with_line = before.lines.push(text_line(before.current));
            assert(with_line == old_lines);
            if structural {
                lemma_indices_push(with_line, blank_line());
                assert(blank_line().tokens.map_values(project) =~= Seq::<usize>::empty());
                assert(indices_of(with_line.push(blank_line())) =~= indices_of(with_line));
            }
            assert(st.current =~= seq![(index, token)]);
            lemma_indices_push(st.lines, text_line(st.current));
            assert(st.current.map_values(project) =~= seq![index]);
            assert(indices_of(new_lines) =~= target);
        } else {
            assert(st.lines == before.lines);
            lemma_indices_push(st.lines, text_line(st.current));
            assert(st.current.map_values(project) =~= before.current.map_values(project).push(
                index,
            ));
            if before.current.len() == 0 {
                assert(before.current.map_values(project) =~= Seq::<usize>::empty());
                assert(indices_of(before.lines) + Seq::<usize>::empty() =~= indices_of(
                    before.lines,
                ));
            }
            assert(indices_of(new_lines) =~= target);
        }
        assert forall|l: int| 0 <= l < new_lines.len() implies ((#[trigger] new_lines[l]).is_blank
            <==> new_lines[l].tokens.len() == 0) by {
            if l < old_lines.len() && l < st.lines.len() {
                assert(new_lines[l] == old_lines[l]);
            }
        }
        assert forall|l: int, k: int|
            0 <= l < new_lines.len() && 0 <= k < new_lines[l].tokens.len() implies {
            &&& start <= (#[trigger] new_lines[l].tokens[k]).0 < end
            &&& new_lines[l].tokens[k].1 == tokens[new_lines[l].tokens[k].0 as int]
        } by {
            if l < st.lines.len() {
                if l < old_lines.len() {
                    assert(new_lines[l] == old_lines[l]);
                }
            } else {
                if k < before.current.len() && st.current.len() > 1 {
                    assert(old_lines[old_lines.len() - 1].tokens[k] == new_lines[l].tokens[k]);
                }
            }
        }
    }
}

/// The columns that the words of a line take, each with its space.
pub open spec fn words_width_of(tokens: Seq<(usize, TimedTokenView)>) -> nat
    decreases tokens.len(),
{
    if tokens.len() == 0 {
        0
    } else {
        words_width_of(tokens.drop_last()) + word_width(tokens.last().1)
    }
}

/// Whether lines are tidy: a line of two or more words fits `max_chars`
/// columns, no separator follows another, and neither the first nor the
/// last line is a separator.
pub open spec fn lines_tidy(lines: Seq<LineView>, max_chars: nat) -> bool {
    &&& forall|l: int|
        0 <= l < lines.len() && (#[trigger] lines[l]).tokens.len() >= 2 ==> words_width_of(
            lines[l].tokens,
        ) <= max_chars
    &&& forall|l: int|
        0 <= l < lines.len() - 1 ==> !((#[trigger] lines[l]).is_blank && lines[l + 1].is_blank)
    &&& lines.len() > 0 ==> !lines[0].is_blank && !lines.last().is_blank
}

/// Whether a layout is tidy while it is filled: its closed lines are tidy
/// but for a separator at their end, the line that is being filled has
/// the width of its words and fits where it has two or more.
pub open spec fn layout_tidy(st: LayoutState, max_chars: nat) -> bool {
    &&& st.width == words_width_of(st.current)
    &&& st.current.len() >= 2 ==> st.width <= max_chars
    &&& forall|l: int|
        0 <= l < st.lines.len() && (#[trigger] st.lines[l]).tokens.len() >= 2 ==> words_width_of(
            st.lines[l].tokens,
        ) <= max_chars
    &&& forall|l: int|
        0 <= l < st.lines.len() - 1 ==> !((#[trigger] st.lines[l]).is_blank && st.lines[l
            + 1].is_blank)
    &&& st.lines.len() > 0 ==> !st.lines[0].is_blank
    &&& st.lines.len() > 0 ==> st.current.len() > 0
}

/// The lines of a layout are tidy: a line of two or more words fits the
/// capacity, separators stand alone and only between lines of words.
pub proof fn lemma_lines_tidy(tokens: Seq<TimedTokenView>, start: int, end: int, max_chars: nat)
    ensures
        layout_tidy(placed(tokens, start, end, max_chars), max_chars),
        lines_tidy(finished(placed(tokens, start, end, max_chars)), max_chars),
    decreases end - start,
{
    let st = placed(tokens, start, end, max_chars);
    if end <= start {
        assert(st == layout_start());
        assert(words_width_of(st.current) == 0);
    } else {
        let before = placed(tokens, start, end - 1, max_chars);
        lemma_lines_tidy(tokens, start, end - 1, max_chars);
        let token = tokens[end - 1];
        let index = (end - 1) as usize;
        let structural = block_changed(before.last_block, before.last_table_row, token)
            || table_transition(before.last_table_row, token);
        let overflow = before.width + word_width(token) > max_chars;
        assert(st.current.drop_last() =~= (if (structural || overflow) && before.current.len()
            > 0 {
            Seq::<(usize, TimedTokenView)>::empty()
        } else {
            before.current
        }));
        assert(st.current.last() == (index, token));
        assert(words_width_of(Seq::<(usize, TimedTokenView)>::empty()) == 0);
        assert(words_width_of(st.current) == words_width_of(st.current.drop_last()) + word_width(
            token,
        ));
        if (structural || overflow) && before.current.len() > 0 {
            let with_line = before.lines.push(text_line(before.current));
            assert forall|l: int|
                0 <= l < st.lines.len() && (#[trigger] st.lines[l]).tokens.len()
                    >= 2 implies words_width_of(st.lines[l].tokens) <= max_chars by {
                if l < before.lines.len() {
                    assert(st.lines[l] == before.lines[l]);
                }
            }
            assert forall|l: int| 0 <= l < st.lines.len() - 1 implies !((
            #[trigger] st.lines[l]).is_blank && st.lines[l + 1].is_blank) by {
                if l + 1 < before.lines.len() {
                    assert(st.lines[l] == before.lines[l]);
                    assert(st.lines[l + 1] == before.lines[l + 1]);
                } else if l + 1 == before.lines.len() {
                    assert(st.lines[l + 1] == text_line(before.current));
                } else {
                    assert(st.lines[l] == text_line(before.current));
                }
            }
            if before.lines.len() > 0 {
                assert(st.lines[0] == before.lines[0]);
            }
        }
        let lines = finished(st);
        assert forall|l: int|
            0 <= l < lines.len() && (#[trigger] lines[l]).tokens.len() >= 2 implies words_width_of(
            lines[l].tokens,
        ) <= max_chars by {
            if l < st.lines.len() {
                assert(lines[l] == st.lines[l]);
            }
        }
        assert forall|l: int| 0 <= l < lines.len() - 1 implies !((#[trigger] lines[l]).is_blank
            && lines[l + 1].is_blank) by {
            if l + 1 < st.lines.len() {
                assert(lines[l] == st.lines[l]);
                assert(lines[l + 1] == st.lines[l + 1]);
            }
        }
        if st.lines.len() > 0 {
            assert(lines[0] == st.lines[0]);
        }
    }
}

/// Laying out the same tokens around the same cursor for the same viewport
/// gives the same lines: the layout depends on nothing else.
pub proof fn lemma_layout_repeatable(
    first: Seq<LineView>,
    second: Seq<LineView>,
    tokens: Seq<TimedTokenView>,
    cursor: usize,
    width: usize,
    max_line_chars: usize,
)
    requires
        first == document_lines(tokens, cursor, width, max_line_chars),
        second == document_lines(tokens, cursor, width, max_line_chars),
    ensures
        first == second,
{
}

/// `n` as a `usize`, held at `usize::MAX` where it would exceed it.
pub open spec fn clamped(n: nat) -> usize {
    if n <= usize::MAX {
        n as usize
    } else {
        usize::MAX
    }
}

proof fn lemma_pairs_push(tokens: Seq<(usize, &TimedToken)>, index: usize, token: &TimedToken)
    ensures
        pairs(tokens.push((index, token))) == pairs(tokens).push((index, token@)),
{
    assert(pairs(tokens.push((index, token))) =~= pairs(tokens).push((index, token@)));
}

/// Compute the lines of context around the cursor.
///
/// Only the window of tokens around the cursor is laid out, so the cost
/// does not grow with the document. Every token of the window stands on
/// exactly one line, in order.
pub fn compute_lines<'a>(
    tokens: &'a [TimedToken],
    cursor: usize,
    viewport_width: usize,
    max_line_chars: usize,
) -> (lines: Vec<DocLine<'a>>)
    ensures
        views(lines@) == document_lines(views(tokens@), cursor, viewport_width, max_line_chars),
        window_start(cursor) <= tokens@.len() ==> lines_cover(
            views(lines@),
            views(tokens@),
            window_start(cursor),
            window_end(cursor, tokens@.len()),
        ),
        lines_tidy(views(lines@), line_capacity(viewport_width, max_line_chars)),
{
    let n = tokens.len();
    let start = cursor.saturating_sub(500);
    let end = if cursor < n && n - cursor > 500 {
        cursor + 500
    } else {
        n
    };
    let room = viewport_width.saturating_sub(6);
    let max_chars = if room < max_line_chars {
        room
    } else {
        max_line_chars
    };
    let ghost model = views(tokens@);
    let mut lines: Vec<DocLine<'a>> = Vec::new();
    let mut current: Vec<(usize, &'a TimedToken)> = Vec::new();
    let mut width: usize = 0;
    let mut last_block: Option<&'a BlockContext> = None;
    let mut last_row: Option<usize> = None;
    let mut idx: usize = start;
    proof {
        assert(views(lines@) =~= Seq::<LineView>::empty());
        assert(pairs(current@) =~= Seq::<(usize, TimedTokenView)>::empty());
        assert(end == window_end(cursor, tokens@.len()));
        assert(max_chars == line_capacity(viewport_width, max_line_chars));
    }
    while idx < end
        invariant
            start <= idx,
            end <= n == tokens@.len(),
            idx <= end || idx == start,
            model == views(tokens@),
            max_chars <= usize::MAX - 6,
            views(lines@) == placed(model, start as int, idx as int, max_chars as nat).lines,
            pairs(current@) == placed(model, start as int, idx as int, max_chars as nat).current,
            width == clamped(placed(model, start as int, idx as int, max_chars as nat).width),
            last_row == placed(model, start as int, idx as int, max_chars as nat).last_table_row,
            match last_block {
                Some(b) => placed(model, start as int, idx as int, max_chars as nat).last_block
                    == Some(b@),
                None => placed(model, start as int, idx as int, max_chars as nat).last_block
                    is None,
            },
        decreases end - idx,
    {
        let ghost before = placed(model, start as int, idx as int, max_chars as nat);
        let token = &tokens[idx];
        assert(model[idx as int] == token@);
        let row = table_row(&token.token.block);
        let is_table_cell = row.is_some();
        let was_in_table = last_row.is_some();
        let is_list_item = match &token.token.block {
            BlockContext::ListItem(_) => true,
            _ => false,
        };
        let is_new_list_item = is_list_item && token.token.timing_hint.structure_modifier > 0;
        let differs = match last_block {
            Some(b) => {
                if is_table_cell && was_in_table {
                    match (row, last_row) {
                        (Some(a), Some(b)) => a != b,
                        _ => true,
                    }
                } else {
                    !(*b == token.token.block)
                }
            },
            None => false,
        };
        let changed = is_new_list_item || differs;
        let transition = was_in_table != is_table_cell;
        let n_chars = char_count(token.token.word.as_str());
        let would_overflow = width.saturating_add(n_chars).saturating_add(1) > max_chars;
        assert(changed == block_changed(before.last_block, before.last_table_row, token@));
        assert(transition == table_transition(before.last_table_row, token@));
        assert(would_overflow == (before.width + word_width(token@) > max_chars));
        if (changed || transition || would_overflow) && current.len() > 0 {
            let line = DocLine { tokens: current, is_blank: false };
            proof {
                lemma_views_push(lines@, line);
            }
            lines.push(line);
            current = Vec::new();
            width = 0;
            if changed || transition {
                let blank = DocLine { tokens: Vec::new(), is_blank: true };
                proof {
                    lemma_views_push(lines@, blank);
                    assert(pairs(blank.tokens@) =~= Seq::<(usize, TimedTokenView)>::empty());
                }
                lines.push(blank);
            }
            assert(pairs(current@) =~= Seq::<(usize, TimedTokenView)>::empty());
        }
        proof {
            lemma_pairs_push(current@, idx, token);
        }
        current.push((idx, token));
        width = width.saturating_add(n_chars).saturating_add(1);
        last_block = Some(&token.token.block);
        last_row = row;
        idx = idx + 1;
    }
    let ghost done = placed(model, start as int, end as int, max_chars as nat);
    proof {
        if start >= end {
            assert(idx == start);
            assert(done == layout_start());
        }
        if start <= n {
            lemma_lines_cover(model, start as int, end as int, max_chars as nat);
        }
        lemma_lines_tidy(model, start as int, end as int, max_chars as nat);
    }
    if current.len() > 0 {
        let line = DocLine { tokens: current, is_blank: false };
        proof {
            lemma_views_push(lines@, line);
        }
        lines.push(line);
    }
    lines
}

/// Compute document lines from tokens around the current position of the
/// session, for a viewport of `width` columns.
pub fn compute_document_lines<'a>(app: &'a App, width: usize, max_line_chars: usize) -> (lines: Vec<
    DocLine<'a>,
>)
    ensures
        views(lines@) == document_lines(app@.tokens, app@.position, width, max_line_chars),
        window_start(app@.position) <= app@.tokens.len() ==> lines_cover(
            views(lines@),
            app@.tokens,
            window_start(app@.position),
            window_end(app@.position, app@.tokens.len()),
        ),
{
    compute_lines(app.tokens(), app.position(), width, max_line_chars)
}

/// Whether the token at place `w` of line `l` has the index `pos`.
pub open spec fn holds_position(lines: Seq<LineView>, l: int, w: int, pos: usize) -> bool {
    &&& 0 <= l < lines.len()
    &&& 0 <= w < lines[l].tokens.len()
    &&& lines[l].tokens[w].0 == pos
}

/// The first place on a line of the token with the index `pos`, or the
/// number of its tokens where it has none.
pub open spec fn first_place(tokens: Seq<(usize, TimedTokenView)>, pos: usize) -> int
    decreases tokens.len(),
{
    if tokens.len() == 0 || tokens[0].0 == pos {
        0
    } else {
        1 + first_place(tokens.drop_first(), pos)
    }
}

/// The first line that holds the token with the index `pos` and its first
/// place on that line, if a line holds it.
pub open spec fn first_position(lines: Seq<LineView>, pos: usize) -> Option<(usize, usize)>
    decreases lines.len(),
{
    if lines.len() == 0 {
        None
    } else {
        match first_position(lines.drop_last(), pos) {
            Some(found) => Some(found),
            None => if first_place(lines.last().tokens, pos) < lines.last().tokens.len() {
                Some(((lines.len() - 1) as usize, first_place(lines.last().tokens, pos) as usize))
            } else {
                None
            },
        }
    }
}

/// The line of the token with the index `pos` and its place on that line,
/// or the first place of the first line where no line holds it.
pub open spec fn position_in_lines(lines: Seq<LineView>, pos: usize) -> (usize, usize) {
    match first_position(lines, pos) {
        Some(found) => found,
        None => (0, 0),
    }
}

proof fn lemma_first_place(tokens: Seq<(usize, TimedTokenView)>, pos: usize, k: int)
    requires
        0 <= k <= tokens.len(),
        forall|j: int| 0 <= j < k ==> (#[trigger] tokens[j]).0 != pos,
        k == tokens.len() || tokens[k].0 == pos,
    ensures
        first_place(tokens, pos) == k,
    decreases k,
{
    if k > 0 {
        let rest = tokens.drop_first();
        assert(tokens[0].0 != pos);
        assert forall|j: int| 0 <= j < k - 1 implies (#[trigger] rest[j]).0 != pos by {
            assert(rest[j] == tokens[j + 1]);
        }
        lemma_first_place(rest, pos, k - 1);
    }
}

/// Find which line and which place on it hold the token with the index
/// `pos`: the first such place, or the first place of the first line where
/// no line holds it.
pub fn find_position_in_lines(lines: &[DocLine], pos: usize) -> (r: (usize, usize))
    ensures
        r == position_in_lines(views(lines@), pos),
        (exists|l: int, w: int| holds_position(views(lines@), l, w, pos)) ==> {
            &&& holds_position(views(lines@), r.0 as int, r.1 as int, pos)
            &&& forall|l: int, w: int| #[trigger]
                holds_position(views(lines@), l, w, pos) ==> r.0 < l || (r.0 == l && r.1 <= w)
        },
        (forall|l: int, w: int| !holds_position(views(lines@), l, w, pos)) ==> r == (
            0usize,
            0usize,
        ),
{
    let mut l: usize = 0;
    assert(views(lines@).take(0) =~= Seq::<LineView>::empty());
    while l < lines.len()
        invariant
            l <= lines@.len(),
            forall|a: int, b: int| a < l ==> !holds_position(views(lines@), a, b, pos),
            first_position(views(lines@).take(l as int), pos) is None,
        decreases lines.len() - l,
    {
        let line = &lines[l];
        assert(views(lines@)[l as int] == line@);
        proof {
            assert(views(lines@).take(l + 1).drop_last() =~= views(lines@).take(l as int));
            assert(views(lines@).take(l + 1).last() == line@);
        }
        let mut w: usize = 0;
        while w < line.tokens.len()
            invariant
                l < lines@.len(),
                w <= line.tokens@.len(),
                views(lines@)[l as int] == line@,
                first_position(views(lines@).take(l as int), pos) is None,
                forall|a: int, b: int| a < l ==> !holds_position(views(lines@), a, b, pos),
                forall|b: int| b < w ==> !holds_position(views(lines@), l as int, b, pos),
            decreases line.tokens.len() - w,
        {
            assert(line@.tokens[w as int].0 == line.tokens@[w as int].0);
            if line.tokens[w].0 == pos {
                proof {
                    assert(holds_position(views(lines@), l as int, w as int, pos));
                    assert forall|j: int| 0 <= j < w implies (#[trigger] line@.tokens[j]).0
                        != pos by {
                        assert(!holds_position(views(lines@), l as int, j, pos));
                    }
                    lemma_first_place(line@.tokens, pos, w as int);
                    assert(views(lines@).take(l + 1).drop_last() =~= views(lines@).take(l as int));
                    assert(views(lines@).take(l + 1).last() == line@);
                    assert(first_position(views(lines@).take(l + 1), pos) == Some((l, w)));
                    lemma_first_position_extends(views(lines@), pos, l + 1);
                }
                return (l, w);
            }
            w = w + 1;
        }
        proof {
            assert forall|j: int| 0 <= j < line@.tokens.len() implies (#[trigger] line@.tokens[j]).0
                != pos by {
                assert(!holds_position(views(lines@), l as int, j, pos));
            }
            lemma_first_place(line@.tokens, pos, line@.tokens.len() as int);
        }
        l = l + 1;
    }
    assert(views(lines@).take(lines@.len() as int) =~= views(lines@));
    (0, 0)
}

proof fn lemma_first_position_extends(lines: Seq<LineView>, pos: usize, k: int)
    requires
        0 <= k <= lines.len(),
        first_position(lines.take(k), pos) is Some,
    ensures
        first_position(lines, pos) == first_position(lines.take(k), pos),
    decreases lines.len() - k,
{
    if k < lines.len() {
        assert(lines.take(k + 1).drop_last() =~= lines.take(k));
        lemma_first_position_extends(lines, pos, k + 1);
    } else {
        assert(lines.take(k) =~= lines);
    }
}

/// Whether a token begins a table cell.
pub open spec fn is_new_cell(token: TimedTokenView) -> bool {
    table_row_of(token.token.block) is Some && token.token.timing_hint.is_cell_start
}

/// Whether a bar separates the token at place `j` from the one before it:
/// it begins a cell, and the one before it stands in a table.
pub open spec fn separated(tokens: Seq<(usize, TimedTokenView)>, j: int) -> bool {
    j > 0 && is_new_cell(tokens[j].1) && table_row_of(tokens[j - 1].1.token.block) is Some
}

/// The columns that the first `k` tokens of a line take: each word with a
/// space after it, and three more for each separating bar.
pub open spec fn words_width(tokens: Seq<(usize, TimedTokenView)>, k: nat) -> nat
    decreases k,
{
    if k == 0 {
        0
    } else {
        words_width(tokens, (k - 1) as nat) + (if separated(tokens, k - 1) {
            3nat
        } else {
            0nat
        }) + tokens[k - 1].1.token.word.len() + 1
    }
}

/// The width of what a line shows: the mark of its block, its words, the
/// bars between its cells, and the bar that closes a table row.
pub open spec fn line_width(line: LineView) -> nat {
    if line.is_blank || line.tokens.len() == 0 {
        0
    } else {
        prefix_of(line.tokens[0].1.token.block).len() + words_width(line.tokens, line.tokens.len())
            + (if table_row_of(line.tokens.last().1.token.block) is Some {
            1nat
        } else {
            0nat
        })
    }
}

/// Calculate the display width of a line's content, the mark of its block
/// and the bars of its table cells included. A width beyond `usize::MAX` is
/// given as `usize::MAX`.
pub fn calculate_line_width(line: &DocLine) -> (width: usize)
    ensures
        width == clamped(line_width(line@)),
{
    if line.is_blank || line.tokens.len() == 0 {
        return 0;
    }
    let first = line.tokens[0].1;
    assert(line@.tokens[0].1 == first@);
    let mut width: usize = char_count(block_prefix(&first.token.block));
    let mut prev_row: Option<usize> = None;
    let n = line.tokens.len();
    let mut j: usize = 0;
    while j < n
        invariant
            j <= n == line.tokens@.len(),
            n > 0,
            width == clamped(
                prefix_of(line@.tokens[0].1.token.block).len() + words_width(line@.tokens, j as nat),
            ),
            prev_row == (if j == 0 {
                None
            } else {
                table_row_of(line@.tokens[j - 1].1.token.block)
            }),
        decreases n - j,
    {
        let token = line.tokens[j].1;
        assert(line@.tokens[j as int].1 == token@);
        let row = table_row(&token.token.block);
        let new_cell = row.is_some() && token.token.timing_hint.is_cell_start;
        if new_cell && prev_row.is_some() && j > 0 {
            width = width.saturating_add(3);
        }
        width = width.saturating_add(char_count(token.token.word.as_str())).saturating_add(1);
        prev_row = row;
        j = j + 1;
    }
    if prev_row.is_some() {
        width = width.saturating_add(1);
    }
    width
}

/// What is known of the columns while a line is measured: the greatest
/// width of each column so far, and the column and width of the cell that
/// is being read.
pub struct CellState {
    pub widths: Map<usize, usize>,
    pub current_col: Option<usize>,
    pub cell_width: nat,
}

/// The widths with column `col` at least `w` wide.
pub open spec fn widened(widths: Map<usize, usize>, col: usize, w: nat) -> Map<usize, usize> {
    let known = if widths.contains_key(col) {
        widths[col]
    } else {
        0usize
    };
    widths.insert(
        col,
        if known >= clamped(w) {
            known
        } else {
            clamped(w)
        },
    )
}

/// The widths with the cell that is being read counted in.
pub open spec fn cell_closed(st: CellState) -> Map<usize, usize> {
    match st.current_col {
        Some(col) => widened(st.widths, col, st.cell_width),
        None => st.widths,
    }
}

/// The state after a token is measured. A token outside a table changes
/// nothing; one that begins a cell closes the cell before it; any other
/// one makes its cell wider by a space and its word.
pub open spec fn measure_token(st: CellState, token: TimedTokenView) -> CellState {
    match token.token.timing_hint.table_column {
        Some(col) => if token.token.timing_hint.is_cell_start {
            CellState {
                widths: cell_closed(st),
                current_col: Some(col),
                cell_width: token.token.word.len(),
            }
        } else {
            CellState { cell_width: st.cell_width + 1 + token.token.word.len(), ..st }
        },
        None => st,
    }
}

/// The state after the first `k` tokens of a line are measured.
pub open spec fn measured(
    tokens: Seq<(usize, TimedTokenView)>,
    k: nat,
    widths: Map<usize, usize>,
) -> CellState
    decreases k,
{
    if k == 0 {
        CellState { widths, current_col: None, cell_width: 0 }
    } else {
        measure_token(measured(tokens, (k - 1) as nat, widths), tokens[k - 1].1)
    }
}

/// The widths after a line is measured.
pub open spec fn measure_line(widths: Map<usize, usize>, line: LineView) -> Map<usize, usize> {
    if line.is_blank || line.tokens.len() == 0 {
        widths
    } else {
        cell_closed(measured(line.tokens, line.tokens.len(), widths))
    }
}

/// For each table column that the lines show, the width of its widest
/// cell: the words of the cell with one space between them.
pub open spec fn column_widths(lines: Seq<LineView>) -> Map<usize, usize>
    decreases lines.len(),
{
    if lines.len() == 0 {
        Map::empty()
    } else {
        measure_line(column_widths(lines.drop_last()), lines.last())
    }
}

/// Whether the token at place `j` begins a cell of a column.
pub open spec fn is_start(tokens: Seq<(usize, TimedTokenView)>, j: int) -> bool {
    &&& 0 <= j < tokens.len()
    &&& tokens[j].1.token.timing_hint.table_column is Some
    &&& tokens[j].1.token.timing_hint.is_cell_start
}

/// The column of the cell that the token at place `j` stands in.
pub open spec fn column_at(tokens: Seq<(usize, TimedTokenView)>, j: int) -> usize {
    tokens[j].1.token.timing_hint.table_column->0
}

/// The width that the tokens from place `k` on add to a cell that is open
/// there: a space and the word for each token of a column, up to the next
/// token that begins a cell.
pub open spec fn cell_rest(tokens: Seq<(usize, TimedTokenView)>, k: int) -> nat
    decreases tokens.len() - k,
{
    if k < 0 || k >= tokens.len() || is_start(tokens, k) {
        0
    } else if tokens[k].1.token.timing_hint.table_column is Some {
        1 + tokens[k].1.token.word.len() + cell_rest(tokens, k + 1)
    } else {
        cell_rest(tokens, k + 1)
    }
}

/// The width of the cell that begins at place `j` of a line: its words
/// with one space between them.
pub open spec fn cell_width_at(tokens: Seq<(usize, TimedTokenView)>, j: int) -> nat {
    tokens[j].1.token.word.len() + cell_rest(tokens, j + 1)
}

/// Whether a cell begins at place `j` of line `l`.
pub open spec fn is_cell(lines: Seq<LineView>, l: int, j: int) -> bool {
    &&& 0 <= l < lines.len()
    &&& !lines[l].is_blank
    &&& is_start(lines[l].tokens, j)
}

/// Whether `widths` holds, for each column of which the lines show a
/// cell, the width of its widest cell, and nothing for any other column.
pub open spec fn widest_cells(lines: Seq<LineView>, widths: Map<usize, usize>) -> bool {
    &&& forall|l: int, j: int| #[trigger]
        is_cell(lines, l, j) ==> {
            &&& widths.contains_key(column_at(lines[l].tokens, j))
            &&& widths[column_at(lines[l].tokens, j)] >= clamped(
                cell_width_at(lines[l].tokens, j),
            )
        }
    &&& forall|col: usize| #[trigger]
        widths.contains_key(col) ==> exists|l: int, j: int|
            {
                &&& #[trigger] is_cell(lines, l, j)
                &&& column_at(lines[l].tokens, j) == col
                &&& widths[col] == clamped(cell_width_at(lines[l].tokens, j))
            }
}

/// The place of the last token before place `k` that begins a cell, or
/// minus one where there is none.
pub open spec fn last_start(tokens: Seq<(usize, TimedTokenView)>, k: int) -> int
    decreases k,
{
    if k <= 0 {
        -1
    } else if is_start(tokens, k - 1) {
        k - 1
    } else {
        last_start(tokens, k - 1)
    }
}

/// Whether `widths` is `base` made wider by the cells that begin before
/// place `lim` of a line.
pub open spec fn extended(
    base: Map<usize, usize>,
    widths: Map<usize, usize>,
    tokens: Seq<(usize, TimedTokenView)>,
    lim: int,
) -> bool {
    &&& forall|col: usize| #[trigger]
        base.contains_key(col) ==> widths.contains_key(col) && widths[col] >= base[col]
    &&& forall|j: int|
        0 <= j < lim && #[trigger] is_start(tokens, j) ==> {
            &&& widths.contains_key(column_at(tokens, j))
            &&& widths[column_at(tokens, j)] >= clamped(cell_width_at(tokens, j))
        }
    &&& forall|col: usize| #[trigger]
        widths.contains_key(col) ==> {
            ||| base.contains_key(col) && widths[col] == base[col]
            ||| exists|j: int|
                {
                    &&& 0 <= j < lim
                    &&& #[trigger] is_start(tokens, j)
                    &&& column_at(tokens, j) == col
                    &&& widths[col] == clamped(cell_width_at(tokens, j))
                }
        }
}

proof fn lemma_last_start(tokens: Seq<(usize, TimedTokenView)>, k: int)
    requires
        0 <= k <= tokens.len(),
    ensures
        -1 <= last_start(tokens, k) < k,
        last_start(tokens, k) >= 0 ==> is_start(tokens, last_start(tokens, k)),
        forall|j: int| last_start(tokens, k) < j < k ==> !is_start(tokens, j),
    decreases k,
{
    if k > 0 {
        lemma_last_start(tokens, k - 1);
    }
}

proof fn lemma_extended_widen(
    base: Map<usize, usize>,
    widths: Map<usize, usize>,
    tokens: Seq<(usize, TimedTokenView)>,
    lim: int,
    s: int,
    next: int,
)
    requires
        extended(base, widths, tokens, lim),
        0 <= lim <= s < next,
        is_start(tokens, s),
        forall|j: int| lim <= j < next && j != s ==> !is_start(tokens, j),
    ensures
        extended(
            base,
            widened(widths, column_at(tokens, s), cell_width_at(tokens, s)),
            tokens,
            next,
        ),
{
    let col_s = column_at(tokens, s);
    let after = widened(widths, col_s, cell_width_at(tokens, s));
    assert forall|j: int| 0 <= j < next && #[trigger] is_start(tokens, j) implies {
        &&& after.contains_key(column_at(tokens, j))
        &&& after[column_at(tokens, j)] >= clamped(cell_width_at(tokens, j))
    } by {
        if j != s {
            assert(j < lim);
        }
    }
    assert forall|col: usize| #[trigger] after.contains_key(col) implies {
        ||| base.contains_key(col) && after[col] == base[col]
        ||| exists|j: int|
            {
                &&& 0 <= j < next
                &&& #[trigger] is_start(tokens, j)
                &&& column_at(tokens, j) == col
                &&& after[col] == clamped(cell_width_at(tokens, j))
            }
    } by {
        if col == col_s {
            if widths.contains_key(col) && widths[col] >= clamped(cell_width_at(tokens, s)) {
                assert(after[col] == widths[col]);
                if !(base.contains_key(col) && widths[col] == base[col]) {
                    let j = choose|j: int|
                        {
                            &&& 0 <= j < lim
                            &&& #[trigger] is_start(tokens, j)
                            &&& column_at(tokens, j) == col
                            &&& widths[col] == clamped(cell_width_at(tokens, j))
                        };
                    assert(is_start(tokens, j) && 0 <= j < next);
                }
            } else {
                assert(after[col] == clamped(cell_width_at(tokens, s)));
                assert(is_start(tokens, s));
            }
        } else {
            assert(widths.contains_key(col) && after[col] == widths[col]);
            if !(base.contains_key(col) && widths[col] == base[col]) {
                let j = choose|j: int|
                    {
                        &&& 0 <= j < lim
                        &&& #[trigger] is_start(tokens, j)
                        &&& column_at(tokens, j) == col
                        &&& widths[col] == clamped(cell_width_at(tokens, j))
                    };
                assert(is_start(tokens, j) && 0 <= j < next);
            }
        }
    }
}

proof fn lemma_measured(tokens: Seq<(usize, TimedTokenView)>, k: nat, base: Map<usize, usize>)
    requires
        k <= tokens.len(),
    ensures
        ({
            let st = measured(tokens, k, base);
            let s = last_start(tokens, k as int);
            &&& extended(
                base,
                st.widths,
                tokens,
                if s >= 0 {
                    s
                } else {
                    0
                },
            )
            &&& s < 0 ==> st.current_col is None
            &&& s >= 0 ==> {
                &&& st.current_col == Some(column_at(tokens, s))
                &&& st.cell_width + cell_rest(tokens, k as int) == cell_width_at(tokens, s)
            }
        }),
    decreases k,
{
    if k > 0 {
        let before = measured(tokens, (k - 1) as nat, base);
        let s = last_start(tokens, k - 1);
        lemma_measured(tokens, (k - 1) as nat, base);
        lemma_last_start(tokens, k - 1);
        lemma_last_start(tokens, k as int);
        if is_start(tokens, k - 1) {
            if s >= 0 {
                assert(cell_rest(tokens, k - 1) == 0);
                lemma_extended_widen(base, before.widths, tokens, s, s, k - 1);
            } else {
                assert forall|j: int| 0 <= j < k - 1 implies !is_start(tokens, j) by {}
            }
        }
    }
}

/// The widths after a line is measured are the widths before it made
/// wider by the cells of the line.
proof fn lemma_measure_line(base: Map<usize, usize>, line: LineView)
    requires
        !line.is_blank,
    ensures
        extended(base, measure_line(base, line), line.tokens, line.tokens.len() as int),
{
    let tokens = line.tokens;
    let n = tokens.len();
    if n > 0 {
        lemma_measured(tokens, n, base);
        lemma_last_start(tokens, n as int);
        let st = measured(tokens, n, base);
        let s = last_start(tokens, n as int);
        if s >= 0 {
            assert(cell_rest(tokens, n as int) == 0);
            lemma_extended_widen(base, st.widths, tokens, s, s, n as int);
        } else {
            assert forall|j: int| 0 <= j < n implies !is_start(tokens, j) by {}
        }
    }
}

/// The column widths of lines hold, for each column of which the lines
/// show a cell, the width of its widest cell; no other column has an
/// entry.
pub proof fn lemma_column_widths(lines: Seq<LineView>)
    ensures
        widest_cells(lines, column_widths(lines)),
    decreases lines.len(),
{
    let widths = column_widths(lines);
    if lines.len() > 0 {
        let rest = lines.drop_last();
        let line = lines.last();
        let base = column_widths(rest);
        lemma_column_widths(rest);
        if !line.is_blank {
            lemma_measure_line(base, line);
        }
        assert forall|l: int, j: int| #[trigger] is_cell(lines, l, j) implies {
            &&& widths.contains_key(column_at(lines[l].tokens, j))
            &&& widths[column_at(lines[l].tokens, j)] >= clamped(cell_width_at(lines[l].tokens, j))
        } by {
            if l < rest.len() {
                assert(rest[l] == lines[l]);
                assert(is_cell(rest, l, j));
            } else {
                assert(is_start(line.tokens, j));
            }
        }
        assert forall|col: usize| #[trigger] widths.contains_key(col) implies exists|
            l: int,
            j: int,
        |
            {
                &&& #[trigger] is_cell(lines, l, j)
                &&& column_at(lines[l].tokens, j) == col
                &&& widths[col] == clamped(cell_width_at(lines[l].tokens, j))
            } by {
            if base.contains_key(col) && widths[col] == base[col] {
                let (l, j) = choose|l: int, j: int|
                    {
                        &&& #[trigger] is_cell(rest, l, j)
                        &&& column_at(rest[l].tokens, j) == col
                        &&& base[col] == clamped(cell_width_at(rest[l].tokens, j))
                    };
                assert(rest[l] == lines[l]);
                assert(is_cell(lines, l, j));
            } else {
                let j = choose|j: int|
                    {
                        &&& 0 <= j < line.tokens.len()
                        &&& #[trigger] is_start(line.tokens, j)
                        &&& column_at(line.tokens, j) == col
                        &&& widths[col] == clamped(cell_width_at(line.tokens, j))
                    };
                assert(is_cell(lines, lines.len() - 1, j));
            }
        }
    }
}

fn widen(widths: &mut HashMap<usize, usize>, col: usize, w: usize)
    ensures
        final(widths)@ == (old(widths)@.insert(
            col,
            if old(widths)@.contains_key(col) && old(widths)@[col] >= w {
                old(widths)@[col]
            } else {
                w
            },
        )),
{
    let known = match widths.get(&col) {
        Some(v) => *v,
        None => 0,
    };
    if known >= w {
        widths.insert(col, known);
    } else {
        widths.insert(col, w);
    }
}

/// Compute column widths for table cells in a set of lines: a map from
/// each column to the greatest width that a cell of it needs.
pub fn compute_table_column_widths(lines: &[DocLine]) -> (widths: HashMap<usize, usize>)
    ensures
        widths@ == column_widths(views(lines@)),
        widest_cells(views(lines@), widths@),
{
    proof {
        lemma_column_widths(views(lines@));
    }
    let mut widths: HashMap<usize, usize> = HashMap::new();
    let mut l: usize = 0;
    assert(views(lines@).take(0) =~= Seq::<LineView>::empty());
    while l < lines.len()
        invariant
            l <= lines@.len(),
            widths@ == column_widths(views(lines@).take(l as int)),
        decreases lines.len() - l,
    {
        let line = &lines[l];
        proof {
            assert(views(lines@).take(l + 1).drop_last() =~= views(lines@).take(l as int));
            assert(views(lines@).take(l + 1).last() == line@);
        }
        if !(line.is_blank || line.tokens.len() == 0) {
            let ghost base = widths@;
            let mut current_col: Option<usize> = None;
            let mut cell_width: usize = 0;
            let n = line.tokens.len();
            let mut j: usize = 0;
            while j < n
                invariant
                    j <= n == line.tokens@.len(),
                    widths@ == measured(line@.tokens, j as nat, base).widths,
                    current_col == measured(line@.tokens, j as nat, base).current_col,
                    cell_width == clamped(measured(line@.tokens, j as nat, base).cell_width),
                decreases n - j,
            {
                let token = line.tokens[j].1;
                assert(line@.tokens[j as int].1 == token@);
                match token.token.timing_hint.table_column {
                    Some(col) => {
                        let chars = char_count(token.token.word.as_str());
                        if token.token.timing_hint.is_cell_start {
                            match current_col {
                                Some(prev) => {
                                    widen(&mut widths, prev, cell_width);
                                },
                                None => {},
                            }
                            current_col = Some(col);
                            cell_width = chars;
                        } else {
                            cell_width = cell_width.saturating_add(1).saturating_add(chars);
                        }
                    },
                    None => {},
                }
                j = j + 1;
            }
            match current_col {
                Some(col) => {
                    widen(&mut widths, col, cell_width);
                },
                None => {},
            }
        }
        l = l + 1;
    }
    assert(views(lines@).take(lines@.len() as int) =~= views(lines@));
    widths
}

/// Which side of the current word a context shows.
#[derive(Debug, Clone, Copy, PartialEq, Eq, Structural)]
pub enum ContextType {
    /// The lines up to the current word: the words before it are shown.
    Before,
    /// The lines from the current word on: the words after it are shown.
    After,
}

/// A piece of a rendered line: text, and whether it is bold and italic.
#[derive(Debug)]
pub struct StyledText {
    pub text: String,
    pub bold: bool,
    pub italic: bool,
}

/// The mathematical value of a [`StyledText`].
pub struct StyledTextView {
    pub text: Seq<char>,
    pub bold: bool,
    pub italic: bool,
}

impl View for StyledText {
    type V = StyledTextView;

    open spec fn view(&self) -> StyledTextView {
        StyledTextView { text: self.text@, bold: self.bold, italic: self.italic }
    }
}

/// A line as it is to be drawn: how bright, with which hint in the gutter,
/// and the pieces of its text from left to right.
#[derive(Debug)]
pub struct RenderedLine {
    /// The gray level of the line, the same for red, green and blue.
    pub brightness: u8,
    /// The hint for the gutter; empty where none is shown.
    pub gutter_hint: &'static str,
    pub spans: Vec<StyledText>,
}

/// The mathematical value of a [`RenderedLine`].
pub struct RenderedLineView {
    pub brightness: u8,
    pub gutter_hint: Seq<char>,
    pub spans: Seq<StyledTextView>,
}

impl View for RenderedLine {
    type V = RenderedLineView;

    open spec fn view(&self) -> RenderedLineView {
        RenderedLineView {
            brightness: self.brightness,
            gutter_hint: self.gutter_hint@,
            spans: views(self.spans@),
        }
    }
}

/// A rendered line and the row of the area in which it is drawn.
#[derive(Debug)]
pub struct PlacedLine {
    pub row: usize,
    pub line: RenderedLine,
}

/// The mathematical value of a [`PlacedLine`].
pub struct PlacedLineView {
    pub row: usize,
    pub line: RenderedLineView,
}

impl View for PlacedLine {
    type V = PlacedLineView;

    open spec fn view(&self) -> PlacedLineView {
        PlacedLineView { row: self.row, line: self.line@ }
    }
}

/// `n` spaces.
pub open spec fn spaces(n: nat) -> Seq<char> {
    Seq::new(n, |i: int| ' ')
}

/// The gray level of a line `distance` lines away from the current one:
/// the farther, the dimmer, in five steps.
pub open spec fn brightness_at(distance: usize) -> u8 {
    if distance == 0 {
        200
    } else if distance == 1 {
        150
    } else if distance == 2 {
        110
    } else if distance == 3 {
        80
    } else {
        60
    }
}

/// Whether a context shows the token with the index `index` when the
/// current word has the index `current`: before it, the earlier tokens;
/// after it, the later ones.
pub open spec fn is_visible(context: ContextType, index: usize, current: usize) -> bool {
    match context {
        ContextType::Before => index < current,
        ContextType::After => index > current,
    }
}

/// A piece of plain text.
pub open spec fn plain(text: Seq<char>) -> StyledTextView {
    StyledTextView { text, bold: false, italic: false }
}

/// Where the rendering of a line stands: the pieces so far, the table row
/// of the token before, and the column and width of the cell being filled.
pub struct RenderState {
    pub spans: Seq<StyledTextView>,
    pub prev_row: Option<usize>,
    pub current_col: Option<usize>,
    pub cell_width: nat,
}

/// The pieces with the cell that is being filled padded to the width of
/// its column.
pub open spec fn cell_padded(st: RenderState, widths: Map<usize, usize>) -> Seq<StyledTextView> {
    match st.current_col {
        Some(col) => {
            let target = if widths.contains_key(col) {
                widths[col]
            } else {
                0usize
            };
            if st.cell_width < target {
                st.spans.push(plain(spaces((target - st.cell_width) as nat)))
            } else {
                st.spans
            }
        },
        None => st.spans,
    }
}

/// The piece for the word of a token: the word and a space where it is
/// visible, as many spaces where it is not.
pub open spec fn word_span(
    token: (usize, TimedTokenView),
    current: usize,
    context: ContextType,
    styling: bool,
) -> StyledTextView {
    let style = token.1.token.style;
    StyledTextView {
        text: if is_visible(context, token.0, current) {
            token.1.token.word.push(' ')
        } else {
            spaces(token.1.token.word.len() + 1)
        },
        bold: styling && (style is Bold || style is BoldItalic),
        italic: styling && (style is Italic || style is BoldItalic),
    }
}

/// The state after the token at place `j` is rendered. A token that begins
/// a cell first pads the cell before it, and a bar separates it from a cell
/// before it on the line.
pub open spec fn render_token(
    st: RenderState,
    tokens: Seq<(usize, TimedTokenView)>,
    j: int,
    current: usize,
    context: ContextType,
    styling: bool,
    widths: Map<usize, usize>,
) -> RenderState {
    let token = tokens[j];
    let row = table_row_of(token.1.token.block);
    let new_cell = is_new_cell(token.1);
    let opened = if new_cell {
        RenderState {
            spans: cell_padded(st, widths),
            current_col: token.1.token.timing_hint.table_column,
            cell_width: 0,
            ..st
        }
    } else {
        st
    };
    let separated_spans = if new_cell && st.prev_row is Some && j > 0 {
        opened.spans.push(plain(seq![' ', '|', ' ']))
    } else {
        opened.spans
    };
    RenderState {
        spans: separated_spans.push(word_span(token, current, context, styling)),
        prev_row: row,
        current_col: opened.current_col,
        cell_width: if opened.current_col is Some {
            opened.cell_width + token.1.token.word.len() + 1
        } else {
            opened.cell_width
        },
    }
}

/// The state after the first `k` tokens of a line are rendered, from the
/// pieces `start`.
pub open spec fn rendered_tokens(
    start: Seq<StyledTextView>,
    tokens: Seq<(usize, TimedTokenView)>,
    k: nat,
    current: usize,
    context: ContextType,
    styling: bool,
    widths: Map<usize, usize>,
) -> RenderState
    decreases k,
{
    if k == 0 {
        RenderState { spans: start, prev_row: None, current_col: None, cell_width: 0 }
    } else {
        render_token(
            rendered_tokens(start, tokens, (k - 1) as nat, current, context, styling, widths),
            tokens,
            k - 1,
            current,
            context,
            styling,
            widths,
        )
    }
}

/// The left padding of a line in `width` columns: only headings are
/// centered.
pub open spec fn line_padding(line: LineView, width: usize) -> nat {
    crate::ui::common::padding(
        clamped(line_width(line)) as nat,
        width as nat,
        line.tokens[0].1.token.block is Heading,
    )
}

/// A line as it is drawn `distance` lines from the current one. A separator
/// line has no pieces. Any other line begins with its padding and the mark
/// of its block; its words follow, blank where the context does not show
/// them, so that every word keeps its place; the cells of a table row are
/// padded to the widths of their columns and separated and closed by bars.
pub open spec fn rendered_line(
    line: LineView,
    width: usize,
    distance: usize,
    current: usize,
    context: ContextType,
    styling: bool,
    gutter: bool,
    widths: Map<usize, usize>,
) -> RenderedLineView {
    if line.is_blank || line.tokens.len() == 0 {
        RenderedLineView {
            brightness: brightness_at(distance),
            gutter_hint: Seq::empty(),
            spans: Seq::empty(),
        }
    } else {
        let block = line.tokens[0].1.token.block;
        let start = seq![plain(spaces(line_padding(line, width))), plain(prefix_of(block))];
        let done = rendered_tokens(
            start,
            line.tokens,
            line.tokens.len(),
            current,
            context,
            styling,
            widths,
        );
        let padded = cell_padded(done, widths);
        RenderedLineView {
            brightness: brightness_at(distance),
            gutter_hint: if gutter {
                block.hint_chars()
            } else {
                Seq::empty()
            },
            spans: if done.prev_row is Some {
                padded.push(plain(seq!['|']))
            } else {
                padded
            },
        }
    }
}

fn spaces_string(n: usize) -> (s: String)
    ensures
        s@ == spaces(n as nat),
{
    let mut s = String::new();
    let mut i: usize = 0;
    assert(s@ =~= spaces(0));
    while i < n
        invariant
            i <= n,
            s@ == spaces(i as nat),
        decreases n - i,
    {
        push_char(&mut s, ' ');
        assert(s@ =~= spaces((i + 1) as nat));
        i = i + 1;
    }
    s
}

fn plain_text(text: String) -> (span: StyledText)
    ensures
        span@ == plain(text@),
{
    StyledText { text, bold: false, italic: false }
}

fn pad_cell(
    spans: &mut Vec<StyledText>,
    current_col: Option<usize>,
    cell_width: usize,
    widths: &HashMap<usize, usize>,
)
    ensures
        forall|w: nat|
            cell_width == clamped(w) ==> views(final(spans)@) == cell_padded(
                RenderState {
                    spans: views(old(spans)@),
                    prev_row: None,
                    current_col,
                    cell_width: w,
                },
                widths@,
            ),
{
    match current_col {
        Some(col) => {
            let target = match widths.get(&col) {
                Some(v) => *v,
                None => 0,
            };
            if cell_width < target {
                let pad = plain_text(spaces_string(target - cell_width));
                proof {
                    lemma_views_push(spans@, pad);
                }
                spans.push(pad);
            }
        },
        None => {},
    }
}

/// Render a single line as it is drawn `distance` lines from the current
/// one, in `width` columns. Words are shown or blanked by their position
/// relative to `current_pos`.
pub fn render_line(
    line: &DocLine,
    width: usize,
    distance: usize,
    current_pos: usize,
    context_type: ContextType,
    styling_enabled: bool,
    gutter: bool,
    column_widths: &HashMap<usize, usize>,
) -> (rendered: RenderedLine)
    ensures
        rendered@ == rendered_line(
            line@,
            width,
            distance,
            current_pos,
            context_type,
            styling_enabled,
            gutter,
            column_widths@,
        ),
{
    let brightness: u8 = if distance == 0 {
        200
    } else if distance == 1 {
        150
    } else if distance == 2 {
        110
    } else if distance == 3 {
        80
    } else {
        60
    };
    if line.is_blank || line.tokens.len() == 0 {
        proof {
            reveal_strlit("");
            assert(""@ =~= Seq::<char>::empty());
        }
        let spans: Vec<StyledText> = Vec::new();
        assert(views(spans@) =~= Seq::<StyledTextView>::empty());
        return RenderedLine { brightness, gutter_hint: "", spans };
    }
    let first = line.tokens[0].1;
    assert(line@.tokens[0].1 == first@);
    let gutter_hint: &'static str = if gutter {
        first.token.block.hint_chars()
    } else {
        proof {
            reveal_strlit("");
            assert(""@ =~= Seq::<char>::empty());
        }
        ""
    };
    let content_width = calculate_line_width(line);
    let should_center = match &first.token.block {
        BlockContext::Heading(_) => true,
        _ => false,
    };
    let padding_size = calculate_padding(content_width, width, should_center);
    let mut spans: Vec<StyledText> = Vec::new();
    spans.push(plain_text(spaces_string(padding_size)));
    spans.push(plain_text(String::from_str(block_prefix(&first.token.block))));
    let ghost start = seq![
        plain(spaces(line_padding(line@, width))),
        plain(prefix_of(first@.token.block)),
    ];
    assert(views(spans@) =~= start);
    let mut prev_row: Option<usize> = None;
    let mut current_col: Option<usize> = None;
    let mut cell_width: usize = 0;
    let n = line.tokens.len();
    let mut j: usize = 0;
    while j < n
        invariant
            j <= n == line.tokens@.len(),
            views(spans@) == rendered_tokens(
                start,
                line@.tokens,
                j as nat,
                current_pos,
                context_type,
                styling_enabled,
                column_widths@,
            ).spans,
            prev_row == rendered_tokens(
                start,
                line@.tokens,
                j as nat,
                current_pos,
                context_type,
                styling_enabled,
                column_widths@,
            ).prev_row,
            current_col == rendered_tokens(
                start,
                line@.tokens,
                j as nat,
                current_pos,
                context_type,
                styling_enabled,
                column_widths@,
            ).current_col,
            cell_width == clamped(
                rendered_tokens(
                    start,
                    line@.tokens,
                    j as nat,
                    current_pos,
                    context_type,
                    styling_enabled,
                    column_widths@,
                ).cell_width,
            ),
        decreases n - j,
    {
        let ghost before = rendered_tokens(
            start,
            line@.tokens,
            j as nat,
            current_pos,
            context_type,
            styling_enabled,
            column_widths@,
        );
        let index = line.tokens[j].0;
        let token = line.tokens[j].1;
        assert(line@.tokens[j as int] == (index, token@));
        let row = table_row(&token.token.block);
        let new_cell = row.is_some() && token.token.timing_hint.is_cell_start;
        if new_cell {
            pad_cell(&mut spans, current_col, cell_width, column_widths);
            assert(views(spans@) == cell_padded(before, column_widths@)) by {
                assert(cell_padded(before, column_widths@) == cell_padded(
                    RenderState {
                        spans: before.spans,
                        prev_row: None,
                        current_col: before.current_col,
                        cell_width: before.cell_width,
                    },
                    column_widths@,
                ));
            }
            cell_width = 0;
            current_col = token.token.timing_hint.table_column;
        }
        if new_cell && prev_row.is_some() && j > 0 {
            let bar = plain_text(String::from_str(" | "));
            proof {
                reveal_strlit(" | ");
                assert(" | "@ =~= seq![' ', '|', ' ']);
                lemma_views_push(spans@, bar);
            }
            spans.push(bar);
        }
        let visible = match context_type {
            ContextType::Before => index < current_pos,
            ContextType::After => index > current_pos,
        };
        let word_len = char_count(token.token.word.as_str());
        let text = if visible {
            let mut text = token.token.word.clone();
            push_char(&mut text, ' ');
            text
        } else {
            if word_len < usize::MAX {
                spaces_string(word_len + 1)
            } else {
                let mut text = spaces_string(word_len);
                push_char(&mut text, ' ');
                assert(text@ =~= spaces(word_len as nat + 1));
                text
            }
        };
        if current_col.is_some() {
            cell_width = cell_width.saturating_add(word_len).saturating_add(1);
        }
        let bold = styling_enabled && match &token.token.style {
            TokenStyle::Bold | TokenStyle::BoldItalic => true,
            _ => false,
        };
        let italic = styling_enabled && match &token.token.style {
            TokenStyle::Italic | TokenStyle::BoldItalic => true,
            _ => false,
        };
        let span = StyledText { text, bold, italic };
        proof {
            assert(span@ == word_span(
                line@.tokens[j as int],
                current_pos,
                context_type,
                styling_enabled,
            ));
            lemma_views_push(spans@, span);
        }
        spans.push(span);
        prev_row = row;
        j = j + 1;
    }
    let ghost done = rendered_tokens(
        start,
        line@.tokens,
        n as nat,
        current_pos,
        context_type,
        styling_enabled,
        column_widths@,
    );
    pad_cell(&mut spans, current_col, cell_width, column_widths);
    assert(views(spans@) == cell_padded(done, column_widths@)) by {
        assert(cell_padded(done, column_widths@) == cell_padded(
            RenderState {
                spans: done.spans,
                prev_row: None,
                current_col: done.current_col,
                cell_width: done.cell_width,
            },
            column_widths@,
        ));
    }
    if prev_row.is_some() {
        let bar = plain_text(String::from_str("|"));
        proof {
            reveal_strlit("|");
            assert("|"@ =~= seq!['|']);
            lemma_views_push(spans@, bar);
        }
        spans.push(bar);
    }
    RenderedLine { brightness, gutter_hint, spans }
}

/// The lines of context above the current word in an area of `height`
/// rows: the lines up to the one with the current word, as many as fit,
/// at the bottom of the area, the nearest the brightest. The columns of
/// their tables are as wide as the cells that are shown need.
pub open spec fn lines_before(
    lines: Seq<LineView>,
    current_line: usize,
    current: usize,
    width: usize,
    height: usize,
    styling: bool,
    gutter: bool,
) -> Seq<PlacedLineView> {
    let end = if current_line + 1 < lines.len() {
        current_line + 1
    } else {
        lines.len() as int
    };
    let start = if end >= height {
        end - height
    } else {
        0
    };
    let shown = lines.subrange(start, end);
    let widths = column_widths(shown);
    if height == 0 {
        Seq::empty()
    } else {
        Seq::new(
            shown.len(),
            |i: int|
                PlacedLineView {
                    row: (height - shown.len() + i) as usize,
                    line: rendered_line(
                        shown[i],
                        width,
                        (shown.len() - 1 - i) as usize,
                        current,
                        ContextType::Before,
                        styling,
                        gutter,
                        widths,
                    ),
                },
        )
    }
}

/// The lines of context below the current word in an area of `height`
/// rows: the lines from the one with the current word on, as many as fit,
/// from the top of the area, the nearest the brightest.
pub open spec fn lines_after(
    lines: Seq<LineView>,
    current_line: usize,
    current: usize,
    width: usize,
    height: usize,
    styling: bool,
    gutter: bool,
) -> Seq<PlacedLineView> {
    let end = if current_line + height < lines.len() {
        current_line + height
    } else {
        lines.len() as int
    };
    if height == 0 || current_line >= lines.len() {
        Seq::empty()
    } else {
        let shown = lines.subrange(current_line as int, end);
        let widths = column_widths(shown);
        Seq::new(
            shown.len(),
            |i: int|
                PlacedLineView {
                    row: i as usize,
                    line: rendered_line(
                        shown[i],
                        width,
                        i as usize,
                        current,
                        ContextType::After,
                        styling,
                        gutter,
                        widths,
                    ),
                },
        )
    }
}

fn render_window(
    shown: &[DocLine],
    first_row: usize,
    width: usize,
    current_pos: usize,
    context_type: ContextType,
    styling_enabled: bool,
    gutter: bool,
) -> (placed: Vec<PlacedLine>)
    requires
        first_row + shown@.len() <= usize::MAX,
    ensures
        views(placed@) == Seq::new(
            shown@.len(),
            |i: int|
                PlacedLineView {
                    row: (first_row + i) as usize,
                    line: rendered_line(
                        views(shown@)[i],
                        width,
                        (if context_type == ContextType::Before {
                            shown@.len() - 1 - i
                        } else {
                            i
                        }) as usize,
                        current_pos,
                        context_type,
                        styling_enabled,
                        gutter,
                        column_widths(views(shown@)),
                    ),
                },
        ),
{
    let widths = compute_table_column_widths(shown);
    let count = shown.len();
    let ghost target = Seq::new(
        shown@.len(),
        |i: int|
            PlacedLineView {
                row: (first_row + i) as usize,
                line: rendered_line(
                    views(shown@)[i],
                    width,
                    (if context_type == ContextType::Before {
                        shown@.len() - 1 - i
                    } else {
                        i
                    }) as usize,
                    current_pos,
                    context_type,
                    styling_enabled,
                    gutter,
                    column_widths(views(shown@)),
                ),
            },
    );
    let mut placed: Vec<PlacedLine> = Vec::new();
    let mut i: usize = 0;
    assert(views(placed@) =~= target.take(0));
    while i < count
        invariant
            i <= count == shown@.len(),
            first_row + count <= usize::MAX,
            widths@ == column_widths(views(shown@)),
            views(placed@) == target.take(i as int),
            target.len() == count,
            forall|k: int|
                0 <= k < count ==> #[trigger] target[k] == (PlacedLineView {
                    row: (first_row + k) as usize,
                    line: rendered_line(
                        views(shown@)[k],
                        width,
                        (if context_type == ContextType::Before {
                            shown@.len() - 1 - k
                        } else {
                            k
                        }) as usize,
                        current_pos,
                        context_type,
                        styling_enabled,
                        gutter,
                        column_widths(views(shown@)),
                    ),
                }),
        decreases count - i,
    {
        let distance = match context_type {
            ContextType::Before => count - 1 - i,
            ContextType::After => i,
        };
        let line = render_line(
            &shown[i],
            width,
            distance,
            current_pos,
            context_type,
            styling_enabled,
            gutter,
            &widths,
        );
        let item = PlacedLine { row: first_row + i, line };
        proof {
            assert(views(shown@)[i as int] == shown@[i as int]@);
            assert(item@ == target[i as int]);
            lemma_views_push(placed@, item);
            assert(target.take(i + 1) =~= target.take(i as int).push(target[i as int]));
        }
        placed.push(item);
        i = i + 1;
    }
    assert(target.take(count as int) =~= target);
    placed
}

/// Render the lines up to and including the current line, for the context
/// above the current word: the words before `current_pos` are shown, the
/// rest of their line is blank.
pub fn render_lines_before(
    lines: &[DocLine],
    current_line_idx: usize,
    current_pos: usize,
    width: usize,
    height: usize,
    styling_enabled: bool,
    gutter: bool,
) -> (placed: Vec<PlacedLine>)
    ensures
        views(placed@) == lines_before(
            views(lines@),
            current_line_idx,
            current_pos,
            width,
            height,
            styling_enabled,
            gutter,
        ),
{
    if height == 0 {
        let placed: Vec<PlacedLine> = Vec::new();
        assert(views(placed@) =~= Seq::<PlacedLineView>::empty());
        return placed;
    }
    let n = lines.len();
    let end = if current_line_idx < n {
        current_line_idx + 1
    } else {
        n
    };
    let start = end.saturating_sub(height);
    let shown = slice_subrange(lines, start, end);
    proof {
        lemma_views_subrange(lines@, start as int, end as int);
    }
    let placed = render_window(
        shown,
        height - (end - start),
        width,
        current_pos,
        ContextType::Before,
        styling_enabled,
        gutter,
    );
    assert(views(placed@) =~= lines_before(
        views(lines@),
        current_line_idx,
        current_pos,
        width,
        height,
        styling_enabled,
        gutter,
    ));
    placed
}

/// Render the lines from the current line on, for the context below the
/// current word: the words after `current_pos` are shown, the rest of
/// their line is blank.
pub fn render_lines_after(
    lines: &[DocLine],
    current_line_idx: usize,
    current_pos: usize,
    width: usize,
    height: usize,
    styling_enabled: bool,
    gutter: bool,
) -> (placed: Vec<PlacedLine>)
    ensures
        views(placed@) == lines_after(
            views(lines@),
            current_line_idx,
            current_pos,
            width,
            height,
            styling_enabled,
            gutter,
        ),
{
    let n = lines.len();
    if height == 0 || current_line_idx >= n {
        let placed: Vec<PlacedLine> = Vec::new();
        assert(views(placed@) =~= Seq::<PlacedLineView>::empty());
        return placed;
    }
    let end = if height < n - current_line_idx {
        current_line_idx + height
    } else {
        n
    };
    let shown = slice_subrange(lines, current_line_idx, end);
    proof {
        lemma_views_subrange(lines@, current_line_idx as int, end as int);
    }
    let placed = render_window(
        shown,
        0,
        width,
        current_pos,
        ContextType::After,
        styling_enabled,
        gutter,
    );
    assert(views(placed@) =~= lines_after(
        views(lines@),
        current_line_idx,
        current_pos,
        width,
        height,
        styling_enabled,
        gutter,
    ));
    placed
}

/// Render the context above the current word of a session for an area of
/// `width` columns and `height` rows.
pub fn render_before(app: &App, width: usize, height: usize, gutter: bool) -> (placed: Vec<
    PlacedLine,
>)
    ensures
        views(placed@) == lines_before(
            document_lines(app@.tokens, app@.position, width, app@.context_width),
            position_in_lines(
                document_lines(app@.tokens, app@.position, width, app@.context_width),
                app@.position,
            ).0,
            app@.position,
            width,
            height,
            app@.styling_enabled,
            gutter,
        ),
{
    let lines = compute_document_lines(app, width, app.context_width());
    let current_pos = app.position();
    let (line_idx, _) = find_position_in_lines(lines.as_slice(), current_pos);
    render_lines_before(
        lines.as_slice(),
        line_idx,
        current_pos,
        width,
        height,
        app.styling_enabled(),
        gutter,
    )
}

/// Render the context below the current word of a session for an area of
/// `width` columns and `height` rows.
pub fn render_after(app: &App, width: usize, height: usize, gutter: bool) -> (placed: Vec<
    PlacedLine,
>)
    ensures
        views(placed@) == lines_after(
            document_lines(app@.tokens, app@.position, width, app@.context_width),
            position_in_lines(
                document_lines(app@.tokens, app@.position, width, app@.context_width),
                app@.position,
            ).0,
            app@.position,
            width,
            height,
            app@.styling_enabled,
            gutter,
        ),
{
    let lines = compute_document_lines(app, width, app.context_width());
    let current_pos = app.position();
    let (line_idx, _) = find_position_in_lines(lines.as_slice(), current_pos);
    render_lines_after(
        lines.as_slice(),
        line_idx,
        current_pos,
        width,
        height,
        app.styling_enabled(),
        gutter,
    )
}

} // verus!
