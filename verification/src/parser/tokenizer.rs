//! The tokenizer: a walk through the document tree, entering and leaving
//! each node, that turns its text into tokens and its headings into
//! sections.

use crate::parser::context::{ContextView, ParserContext};
use crate::parser::segment::{callout_kind, detect_callout_type, segment, split_into_words};
use crate::parser::traits::{sections_chain, words_non_empty, ParseError, ParsedDocument};
use crate::parser::tree::{
    collected_text, count_all, lemma_children_views, node_count, DocNode, DocTree, KindView,
    NodeKind,
};
use crate::text::char_count;
use crate::timing::{ends_sentence, generate_timing_hint, timing_hint};
use crate::types::{
    views, BlockContext, BlockContextView, Section, SectionView, Token, TokenStyle,
    TokenStyleView, TokenView,
};
use vstd::prelude::*;
use vstd::string::StringExecFns;

verus! {

/// What has to be undone when a node is left.
#[derive(Debug, Clone, Copy)]
pub struct Restore {
    pub style: bool,
    pub block: bool,
    pub skip: bool,
    pub list_depth: bool,
    pub quote_depth: bool,
    pub cell: bool,
}

impl Restore {
    /// Nothing to undo.
    pub open spec fn nothing() -> Restore {
        Restore {
            style: false,
            block: false,
            skip: false,
            list_depth: false,
            quote_depth: false,
            cell: false,
        }
    }

    fn none() -> (r: Restore)
        ensures
            r == Restore::nothing(),
    {
        Restore {
            style: false,
            block: false,
            skip: false,
            list_depth: false,
            quote_depth: false,
            cell: false,
        }
    }
}

/// The state of a walk: the context, and the tokens and sections so far.
pub struct WalkState {
    pub ctx: ContextView,
    pub tokens: Seq<TokenView>,
    pub sections: Seq<SectionView>,
}

/// The state made of its three parts.
pub open spec fn state(
    ctx: ContextView,
    tokens: Seq<TokenView>,
    sections: Seq<SectionView>,
) -> WalkState {
    WalkState { ctx, tokens, sections }
}

/// The number of table cells among `nodes`.
pub open spec fn cell_count(nodes: Seq<DocTree>) -> nat
    decreases nodes.len(),
{
    if nodes.len() == 0 {
        0
    } else {
        cell_count(nodes.drop_last()) + (if nodes.last().kind is TableCell {
            1nat
        } else {
            0nat
        })
    }
}

/// The content of the first text node among `nodes`.
pub open spec fn first_text(nodes: Seq<DocTree>) -> Option<Seq<char>>
    decreases nodes.len(),
{
    if nodes.len() == 0 {
        None
    } else {
        match nodes[0].kind {
            KindView::Text(content) => Some(content),
            _ => first_text(nodes.drop_first()),
        }
    }
}

/// The kind of callout that a block quote with these children is: the one
/// that the first text node of its first paragraph opens.
pub open spec fn callout_of(children: Seq<DocTree>) -> Option<Seq<char>>
    decreases children.len(),
{
    if children.len() == 0 {
        None
    } else if children[0].kind is Paragraph {
        match first_text(children[0].children) {
            Some(text) => callout_kind(text),
            None => None,
        }
    } else {
        callout_of(children.drop_first())
    }
}

/// The words of a text run: the run itself inside inline code, its
/// segments elsewhere. No word is empty.
pub open spec fn words_of_run(content: Seq<char>, verbatim: bool) -> Seq<Seq<char>> {
    if verbatim {
        if content.len() > 0 {
            seq![content]
        } else {
            Seq::empty()
        }
    } else {
        segment(content)
    }
}

/// The token for `word` in the context `ctx`, after `emitted_before` tokens.
/// A paragraph end is seen only at the last word of a run, when it ends a
/// sentence; a block is new until its first token.
pub open spec fn token_for(
    word: Seq<char>,
    is_last_word: bool,
    ctx: ContextView,
    emitted_before: nat,
) -> TokenView {
    let is_paragraph_end = is_last_word && word.len() > 0 && ends_sentence(word.last());
    let is_new_block = ctx.new_block_entered || emitted_before == 0;
    TokenView {
        word,
        style: ctx.current_style(),
        block: ctx.current_block(),
        parent_context: None,
        timing_hint: timing_hint(
            word,
            is_paragraph_end,
            is_new_block,
            ctx.is_last_table_cell,
            ctx.at_cell_start,
            ctx.table_column,
        ),
    }
}

/// The context after a token: the block is no longer new, the cell no
/// longer at its start.
pub open spec fn after_token(ctx: ContextView) -> ContextView {
    ContextView { new_block_entered: false, at_cell_start: false, ..ctx }
}

/// The context and the tokens after the first `k` of `words` are emitted.
pub open spec fn emitted(
    words: Seq<Seq<char>>,
    k: nat,
    ctx: ContextView,
    tokens: Seq<TokenView>,
) -> (ContextView, Seq<TokenView>)
    decreases k,
{
    if k == 0 {
        (ctx, tokens)
    } else {
        let (c, t) = emitted(words, (k - 1) as nat, ctx, tokens);
        (after_token(c), t.push(token_for(words[k - 1], k == words.len(), c, t.len())))
    }
}

/// The state after `node` is entered, and what to undo when it is left.
pub open spec fn enter(node: DocTree, st: WalkState) -> (WalkState, Restore) {
    let ctx = st.ctx;
    match node.kind {
        KindView::CodeFence | KindView::Image => (
            state(ContextView { skip_depth: ctx.skip_depth + 1, ..ctx }, st.tokens, st.sections),
            Restore { skip: true, ..Restore::nothing() },
        ),
        KindView::Heading(level) => (
            state(
                ctx.push_block(BlockContextView::Heading(level)),
                st.tokens,
                st.sections.push(
                    SectionView {
                        title: collected_text(node),
                        level,
                        token_start: st.tokens.len() as usize,
                        token_end: 0,
                    },
                ),
            ),
            Restore { block: true, ..Restore::nothing() },
        ),
        KindView::Paragraph => if ctx.in_callout {
            (st, Restore::nothing())
        } else {
            (
                state(ctx.push_block(BlockContextView::Paragraph), st.tokens, st.sections),
                Restore { block: true, ..Restore::nothing() },
            )
        },
        KindView::Blockquote => {
            let deeper = ContextView { quote_depth: ctx.quote_depth + 1, ..ctx };
            let entered = match callout_of(node.children) {
                Some(kind) => ContextView { in_callout: true, ..deeper }.push_block(
                    BlockContextView::Callout(kind),
                ),
                None => ContextView { in_callout: false, ..deeper }.push_block(
                    BlockContextView::Quote(deeper.quote_depth as usize),
                ),
            };
            (
                state(entered, st.tokens, st.sections),
                Restore { block: true, quote_depth: true, ..Restore::nothing() },
            )
        },
        KindView::BulletList | KindView::OrderedList => (
            state(ContextView { list_depth: ctx.list_depth + 1, ..ctx }, st.tokens, st.sections),
            Restore { list_depth: true, ..Restore::nothing() },
        ),
        KindView::ListItem => (
            state(
                ctx.push_block(BlockContextView::ListItem(ctx.list_depth as usize)),
                st.tokens,
                st.sections,
            ),
            Restore { block: true, ..Restore::nothing() },
        ),
        KindView::Table => (
            state(
                ContextView {
                    table_row: 0,
                    table_cell_index: 0,
                    table_cell_count: 0,
                    is_last_table_cell: false,
                    ..ctx
                },
                st.tokens,
                st.sections,
            ),
            Restore::nothing(),
        ),
        KindView::TableRow => (
            state(
                ContextView {
                    table_row: ctx.table_row + 1,
                    table_cell_index: 0,
                    table_cell_count: cell_count(node.children),
                    ..ctx
                },
                st.tokens,
                st.sections,
            ),
            Restore::nothing(),
        ),
        KindView::TableCell => (
            state(
                ContextView {
                    is_last_table_cell: ctx.table_cell_index + 1 == ctx.table_cell_count,
                    table_column: Some(ctx.table_cell_index as usize),
                    at_cell_start: true,
                    table_cell_index: ctx.table_cell_index + 1,
                    ..ctx
                }.push_block(BlockContextView::TableCell(ctx.table_row as usize)),
                st.tokens,
                st.sections,
            ),
            Restore { block: true, cell: true, ..Restore::nothing() },
        ),
        KindView::Strong => (
            state(ctx.push_style(TokenStyleView::Bold), st.tokens, st.sections),
            Restore { style: true, ..Restore::nothing() },
        ),
        KindView::Emphasis => (
            state(ctx.push_style(TokenStyleView::Italic), st.tokens, st.sections),
            Restore { style: true, ..Restore::nothing() },
        ),
        KindView::CodeInline => (
            state(
                ContextView { in_inline_code: true, ..ctx }.push_style(TokenStyleView::Code),
                st.tokens,
                st.sections,
            ),
            Restore { style: true, ..Restore::nothing() },
        ),
        KindView::Link(url) => (
            state(ctx.push_style(TokenStyleView::Link(url)), st.tokens, st.sections),
            Restore { style: true, ..Restore::nothing() },
        ),
        KindView::Text(content) => if ctx.should_skip() {
            (st, Restore::nothing())
        } else {
            let words = words_of_run(content, ctx.in_inline_code);
            let (c, t) = emitted(words, words.len(), ctx, st.tokens);
            (state(c, t, st.sections), Restore::nothing())
        },
        KindView::Softbreak | KindView::Other => (st, Restore::nothing()),
    }
}

/// One less, but not below zero.
pub open spec fn one_less(n: nat) -> nat {
    if n > 0 {
        (n - 1) as nat
    } else {
        0
    }
}

/// The context after a style is left, where one was entered.
pub open spec fn leave_style(entered: bool, ctx: ContextView) -> ContextView {
    if entered {
        ContextView { in_inline_code: false, ..ctx.pop_style() }
    } else {
        ctx
    }
}

/// The context after a block is left, where one was entered.
pub open spec fn leave_block(entered: bool, ctx: ContextView) -> ContextView {
    if entered {
        ctx.pop_block()
    } else {
        ctx
    }
}

/// The context after skipped content is left, where it was entered.
pub open spec fn leave_skip(entered: bool, ctx: ContextView) -> ContextView {
    if entered {
        ContextView { skip_depth: one_less(ctx.skip_depth), ..ctx }
    } else {
        ctx
    }
}

/// The context after a list is left, where one was entered.
pub open spec fn leave_list(entered: bool, ctx: ContextView) -> ContextView {
    if entered {
        ContextView { list_depth: one_less(ctx.list_depth), ..ctx }
    } else {
        ctx
    }
}

/// The context after a block quote is left, where one was entered.
pub open spec fn leave_quote(entered: bool, ctx: ContextView) -> ContextView {
    if entered {
        ContextView { quote_depth: one_less(ctx.quote_depth), in_callout: false, ..ctx }
    } else {
        ctx
    }
}

/// The context after a table cell is left, where one was entered.
pub open spec fn leave_cell(entered: bool, ctx: ContextView) -> ContextView {
    if entered {
        ContextView { is_last_table_cell: false, table_column: None, at_cell_start: false, ..ctx }
    } else {
        ctx
    }
}

/// The context after a node is left: what was entered with it is left, the
/// style first, then the block, the skipped content, the list, the quote
/// and the cell.
pub open spec fn leave(restore: Restore, ctx: ContextView) -> ContextView {
    let c1 = leave_style(restore.style, ctx);
    let c2 = leave_block(restore.block, c1);
    let c3 = leave_skip(restore.skip, c2);
    let c4 = leave_list(restore.list_depth, c3);
    let c5 = leave_quote(restore.quote_depth, c4);
    leave_cell(restore.cell, c5)
}

/// The state after the walk through `node`: it is entered, its children
/// are walked in order, and it is left.
pub open spec fn walk(node: DocTree, st: WalkState) -> WalkState
    decreases node,
{
    let (entered, restore) = enter(node, st);
    let inside = walk_all(node.children, entered);
    state(leave(restore, inside.ctx), inside.tokens, inside.sections)
}

/// The state after the walk through each of `nodes`, in order.
pub open spec fn walk_all(nodes: Seq<DocTree>, st: WalkState) -> WalkState
    decreases nodes,
{
    if nodes.len() == 0 {
        st
    } else {
        walk_all(nodes.drop_first(), walk(nodes[0], st))
    }
}

/// The sections with their ends filled in: each ends where the next one
/// starts, the last one with the stream of `total` tokens.
pub open spec fn backfilled(sections: Seq<SectionView>, total: nat) -> Seq<SectionView> {
    Seq::new(
        sections.len(),
        |i: int|
            SectionView {
                token_end: if i + 1 < sections.len() {
                    sections[i + 1].token_start
                } else {
                    total as usize
                },
                ..sections[i]
            },
    )
}

/// The tokens and the sections of a document tree.
pub open spec fn tokenized(root: DocTree) -> (Seq<TokenView>, Seq<SectionView>) {
    let end = walk(root, state(ContextView::initial(), Seq::empty(), Seq::empty()));
    (end.tokens, backfilled(end.sections, end.tokens.len()))
}

/// The largest of the counters of a context.
pub open spec fn top_counter(ctx: ContextView) -> nat {
    let a = if ctx.quote_depth >= ctx.list_depth {
        ctx.quote_depth
    } else {
        ctx.list_depth
    };
    let b = if ctx.skip_depth >= ctx.table_row {
        ctx.skip_depth
    } else {
        ctx.table_row
    };
    let c = if a >= b {
        a
    } else {
        b
    };
    if c >= ctx.table_cell_index {
        c
    } else {
        ctx.table_cell_index
    }
}

/// Whether the sections start in order, none after the `total` tokens.
pub open spec fn starts_sorted(sections: Seq<SectionView>, total: nat) -> bool {
    &&& forall|i: int, j: int|
        0 <= i <= j < sections.len() ==> (#[trigger] sections[i]).token_start <= (
        #[trigger] sections[j]).token_start
    &&& forall|i: int| 0 <= i < sections.len() ==> (#[trigger] sections[i]).token_start <= total
}

/// A word of the last cell of a table row pauses longer than a word of
/// another cell, unless that word is the last of its run and ends a
/// sentence.
pub proof fn lemma_last_cell_tokens(
    word: Seq<char>,
    is_last_word: bool,
    last_cell: ContextView,
    other_word: Seq<char>,
    other_is_last_word: bool,
    other_cell: ContextView,
    emitted_before: nat,
    other_emitted_before: nat,
)
    requires
        last_cell.is_last_table_cell,
        !other_cell.is_last_table_cell,
        !(other_is_last_word && other_word.len() > 0 && ends_sentence(other_word.last())),
    ensures
        token_for(word, is_last_word, last_cell, emitted_before).timing_hint.structure_modifier
            > token_for(
            other_word,
            other_is_last_word,
            other_cell,
            other_emitted_before,
        ).timing_hint.structure_modifier,
{
}

/// Whether two contexts agree in what a walk must leave as it found it:
/// the depths of quotes, of lists and of skipped content, and both stacks.
pub open spec fn same_nesting(a: ContextView, b: ContextView) -> bool {
    &&& a.quote_depth == b.quote_depth
    &&& a.list_depth == b.list_depth
    &&& a.skip_depth == b.skip_depth
    &&& a.style_stack == b.style_stack
    &&& a.block_stack == b.block_stack
}

proof fn lemma_emitted_keeps_nesting(
    words: Seq<Seq<char>>,
    k: nat,
    ctx: ContextView,
    tokens: Seq<TokenView>,
)
    ensures
        same_nesting(emitted(words, k, ctx, tokens).0, ctx),
    decreases k,
{
    if k > 0 {
        lemma_emitted_keeps_nesting(words, (k - 1) as nat, ctx, tokens);
    }
}

/// The walk through a node leaves the depths of quotes, of lists and of
/// skipped content, and the stacks of styles and blocks, as it found them:
/// nothing that a node enters outlives it.
pub proof fn lemma_walk_restores_nesting(node: DocTree, st: WalkState)
    requires
        st.ctx.wf(),
    ensures
        same_nesting(walk(node, st).ctx, st.ctx),
        walk(node, st).ctx.wf(),
    decreases node,
{
    let (entered, restore) = enter(node, st);
    match node.kind {
        KindView::Text(content) => {
            let words = words_of_run(content, st.ctx.in_inline_code);
            lemma_emitted_keeps_nesting(words, words.len(), st.ctx, st.tokens);
        },
        _ => {},
    }
    lemma_walk_all_restores_nesting(node.children, entered);
    let inside = walk_all(node.children, entered);
    if restore.style {
        assert(inside.ctx.style_stack.drop_last() =~= st.ctx.style_stack);
    }
    if restore.block {
        assert(inside.ctx.block_stack.drop_last() =~= st.ctx.block_stack);
    }
}

/// The walk through a sequence of nodes leaves the nesting as it found it.
pub proof fn lemma_walk_all_restores_nesting(nodes: Seq<DocTree>, st: WalkState)
    requires
        st.ctx.wf(),
    ensures
        same_nesting(walk_all(nodes, st).ctx, st.ctx),
        walk_all(nodes, st).ctx.wf(),
    decreases nodes,
{
    if nodes.len() > 0 {
        lemma_walk_restores_nesting(nodes[0], st);
        lemma_walk_all_restores_nesting(nodes.drop_first(), walk(nodes[0], st));
    }
}

/// What entering a node does to the depths: a block quote is one quote
/// deeper, a list one list deeper, a code block or an image one level of
/// skipped content deeper, and nothing else changes them. A block quote
/// that is no callout is entered as a quote of the new depth, a list item
/// as an item of the depth of its list.
pub proof fn lemma_enter_depths(node: DocTree, st: WalkState)
    ensures
        enter(node, st).0.ctx.quote_depth == st.ctx.quote_depth + (if node.kind is Blockquote {
            1nat
        } else {
            0nat
        }),
        enter(node, st).0.ctx.list_depth == st.ctx.list_depth + (if node.kind is BulletList
            || node.kind is OrderedList {
            1nat
        } else {
            0nat
        }),
        enter(node, st).0.ctx.skip_depth == st.ctx.skip_depth + (if node.kind is CodeFence
            || node.kind is Image {
            1nat
        } else {
            0nat
        }),
        node.kind is Blockquote && callout_of(node.children) is None ==> enter(
            node,
            st,
        ).0.ctx.current_block() == BlockContextView::Quote((st.ctx.quote_depth + 1) as usize),
        node.kind is ListItem ==> enter(node, st).0.ctx.current_block()
            == BlockContextView::ListItem(st.ctx.list_depth as usize),
{
    match node.kind {
        KindView::Text(content) => {
            let words = words_of_run(content, st.ctx.in_inline_code);
            lemma_emitted_keeps_nesting(words, words.len(), st.ctx, st.tokens);
        },
        _ => {},
    }
}

/// Depths do not add up over siblings: a node that follows another is
/// entered at the depths at which it would be entered without it. So two
/// block quotes that follow each other, neither a callout, both give their
/// words the same quote depth, one more than that around them; and the
/// items of lists that follow each other have the same depth.
pub proof fn lemma_siblings_enter_alike(prev: DocTree, next: DocTree, st: WalkState)
    requires
        st.ctx.wf(),
    ensures
        enter(next, walk(prev, st)).0.ctx.quote_depth == enter(next, st).0.ctx.quote_depth,
        enter(next, walk(prev, st)).0.ctx.list_depth == enter(next, st).0.ctx.list_depth,
        enter(next, walk(prev, st)).0.ctx.skip_depth == enter(next, st).0.ctx.skip_depth,
        prev.kind is Blockquote && callout_of(prev.children) is None && next.kind is Blockquote
            && callout_of(next.children) is None ==> enter(
            next,
            walk(prev, st),
        ).0.ctx.current_block() == enter(prev, st).0.ctx.current_block(),
        next.kind is ListItem ==> enter(next, walk(prev, st)).0.ctx.current_block() == enter(
            next,
            st,
        ).0.ctx.current_block(),
{
    lemma_walk_restores_nesting(prev, st);
    lemma_enter_depths(next, walk(prev, st));
    lemma_enter_depths(next, st);
    lemma_enter_depths(prev, st);
}

fn count_cells(nodes: &Vec<DocNode>) -> (n: usize)
    ensures
        n == cell_count(views(nodes@)),
{
    let ghost trees = views(nodes@);
    let mut n: usize = 0;
    let mut i: usize = 0;
    while i < nodes.len()
        invariant
            i <= nodes.len(),
            trees == views(nodes@),
            n <= i,
            n == cell_count(trees.take(i as int)),
        decreases nodes.len() - i,
    {
        proof {
            assert(trees.take(i + 1).drop_last() =~= trees.take(i as int));
            assert(trees.take(i + 1).last() == nodes@[i as int]@);
            lemma_children_views(nodes@[i as int]);
        }
        match &nodes[i].kind {
            NodeKind::TableCell => {
                n = n + 1;
            },
            _ => {},
        }
        i = i + 1;
    }
    assert(trees.take(nodes.len() as int) =~= trees);
    n
}

fn find_first_text(nodes: &Vec<DocNode>) -> (text: Option<&String>)
    ensures
        match text {
            Some(s) => first_text(views(nodes@)) == Some(s@),
            None => first_text(views(nodes@)) is None,
        },
{
    let ghost trees = views(nodes@);
    let mut i: usize = 0;
    assert(trees.skip(0) =~= trees);
    while i < nodes.len()
        invariant
            i <= nodes.len(),
            trees == views(nodes@),
            first_text(trees.skip(i as int)) == first_text(trees),
        decreases nodes.len() - i,
    {
        proof {
            assert(trees.skip(i as int).drop_first() =~= trees.skip(i + 1));
            assert(trees.skip(i as int)[0] == nodes@[i as int]@);
            lemma_children_views(nodes@[i as int]);
        }
        match &nodes[i].kind {
            NodeKind::Text(content) => {
                return Some(content);
            },
            _ => {},
        }
        i = i + 1;
    }
    None
}

fn find_callout(children: &Vec<DocNode>) -> (kind: Option<String>)
    ensures
        match kind {
            Some(k) => callout_of(views(children@)) == Some(k@),
            None => callout_of(views(children@)) is None,
        },
{
    let ghost trees = views(children@);
    let mut i: usize = 0;
    assert(trees.skip(0) =~= trees);
    while i < children.len()
        invariant
            i <= children.len(),
            trees == views(children@),
            callout_of(trees.skip(i as int)) == callout_of(trees),
        decreases children.len() - i,
    {
        proof {
            assert(trees.skip(i as int).drop_first() =~= trees.skip(i + 1));
            assert(trees.skip(i as int)[0] == children@[i as int]@);
            lemma_children_views(children@[i as int]);
        }
        match &children[i].kind {
            NodeKind::Paragraph => {
                return match find_first_text(&children[i].children) {
                    Some(text) => detect_callout_type(text.as_str()),
                    None => None,
                };
            },
            _ => {},
        }
        i = i + 1;
    }
    None
}

fn ends_with_sentence_mark(word: &str) -> (r: bool)
    ensures
        r == (word@.len() > 0 && ends_sentence(word@.last())),
{
    let n = char_count(word);
    if n == 0 {
        false
    } else {
        let last = word.get_char(n - 1);
        last == '.' || last == '!' || last == '?'
    }
}

fn emit_words(words: &Vec<String>, ctx: &mut ParserContext, tokens: &mut Vec<Token>)
    requires
        forall|i: int| 0 <= i < words@.len() ==> (#[trigger] words@[i])@.len() > 0,
        words_non_empty(views(old(tokens)@)),
    ensures
        (final(ctx)@, views(final(tokens)@)) == emitted(
            views(words@),
            words@.len(),
            old(ctx)@,
            views(old(tokens)@),
        ),
        top_counter(final(ctx)@) == top_counter(old(ctx)@),
        words_non_empty(views(final(tokens)@)),
        old(tokens)@.len() <= final(tokens)@.len(),
{
    let n = words.len();
    let mut i: usize = 0;
    while i < n
        invariant
            i <= n == words@.len(),
            forall|j: int| 0 <= j < words@.len() ==> (#[trigger] words@[j])@.len() > 0,
            (ctx@, views(tokens@)) == emitted(
                views(words@),
                i as nat,
                old(ctx)@,
                views(old(tokens)@),
            ),
            top_counter(ctx@) == top_counter(old(ctx)@),
            words_non_empty(views(tokens@)),
            old(tokens)@.len() <= tokens@.len(),
        decreases n - i,
    {
        let word = words[i].clone();
        let is_last_word = i == n - 1;
        let is_paragraph_end = is_last_word && ends_with_sentence_mark(word.as_str());
        let is_new_block = ctx.new_block_entered || tokens.len() == 0;
        let hint = generate_timing_hint(
            word.as_str(),
            is_paragraph_end,
            is_new_block,
            ctx.is_last_table_cell,
            ctx.at_cell_start,
            ctx.table_column,
        );
        let token = Token {
            word,
            style: ctx.current_style(),
            block: ctx.current_block(),
            parent_context: None,
            timing_hint: hint,
        };
        proof {
            assert(views(words@)[i as int] == words@[i as int]@);
            assert(token@ == token_for(
                views(words@)[i as int],
                i + 1 == words@.len(),
                ctx@,
                views(tokens@).len(),
            ));
            assert(views(tokens@.push(token)) =~= views(tokens@).push(token@));
        }
        tokens.push(token);
        ctx.new_block_entered = false;
        ctx.at_cell_start = false;
        i = i + 1;
    }
}

fn enter_node(
    node: &DocNode,
    ctx: &mut ParserContext,
    tokens: &mut Vec<Token>,
    sections: &mut Vec<Section>,
) -> (restore: Restore)
    requires
        top_counter(old(ctx)@) < usize::MAX,
        words_non_empty(views(old(tokens)@)),
        starts_sorted(views(old(sections)@), old(tokens)@.len() as nat),
    ensures
        (state(final(ctx)@, views(final(tokens)@), views(final(sections)@)), restore) == enter(
            node@,
            state(old(ctx)@, views(old(tokens)@), views(old(sections)@)),
        ),
        top_counter(final(ctx)@) <= top_counter(old(ctx)@) + 1,
        words_non_empty(views(final(tokens)@)),
        starts_sorted(views(final(sections)@), final(tokens)@.len() as nat),
        old(tokens)@.len() <= final(tokens)@.len(),
{
    proof {
        lemma_children_views(*node);
    }
    match &node.kind {
        NodeKind::CodeFence | NodeKind::Image => {
            ctx.skip_depth = ctx.skip_depth + 1;
            Restore { skip: true, ..Restore::none() }
        },
        NodeKind::Heading(level) => {
            ctx.push_block(BlockContext::Heading(*level));
            let section = Section {
                title: node.collect_text(),
                level: *level,
                token_start: tokens.len(),
                token_end: 0,
            };
            proof {
                assert(views(sections@.push(section)) =~= views(sections@).push(section@));
            }
            sections.push(section);
            Restore { block: true, ..Restore::none() }
        },
        NodeKind::Paragraph => {
            if ctx.in_callout {
                Restore::none()
            } else {
                ctx.push_block(BlockContext::Paragraph);
                Restore { block: true, ..Restore::none() }
            }
        },
        NodeKind::Blockquote => {
            ctx.quote_depth = ctx.quote_depth + 1;
            match find_callout(&node.children) {
                Some(kind) => {
                    ctx.in_callout = true;
                    ctx.push_block(BlockContext::Callout(kind));
                },
                None => {
                    ctx.in_callout = false;
                    let depth = ctx.quote_depth;
                    ctx.push_block(BlockContext::Quote(depth));
                },
            }
            Restore { block: true, quote_depth: true, ..Restore::none() }
        },
        NodeKind::BulletList | NodeKind::OrderedList => {
            ctx.list_depth = ctx.list_depth + 1;
            Restore { list_depth: true, ..Restore::none() }
        },
        NodeKind::ListItem => {
            let depth = ctx.list_depth;
            ctx.push_block(BlockContext::ListItem(depth));
            Restore { block: true, ..Restore::none() }
        },
        NodeKind::Table => {
            ctx.table_row = 0;
            ctx.table_cell_index = 0;
            ctx.table_cell_count = 0;
            ctx.is_last_table_cell = false;
            Restore::none()
        },
        NodeKind::TableRow => {
            ctx.table_row = ctx.table_row + 1;
            ctx.table_cell_index = 0;
            ctx.table_cell_count = count_cells(&node.children);
            Restore::none()
        },
        NodeKind::TableCell => {
            ctx.is_last_table_cell = ctx.table_cell_index + 1 == ctx.table_cell_count;
            ctx.table_column = Some(ctx.table_cell_index);
            ctx.at_cell_start = true;
            ctx.table_cell_index = ctx.table_cell_index + 1;
            let row = ctx.table_row;
            ctx.push_block(BlockContext::TableCell(row));
            Restore { block: true, cell: true, ..Restore::none() }
        },
        NodeKind::Strong => {
            ctx.push_style(TokenStyle::Bold);
            Restore { style: true, ..Restore::none() }
        },
        NodeKind::Emphasis => {
            ctx.push_style(TokenStyle::Italic);
            Restore { style: true, ..Restore::none() }
        },
        NodeKind::CodeInline => {
            ctx.in_inline_code = true;
            ctx.push_style(TokenStyle::Code);
            Restore { style: true, ..Restore::none() }
        },
        NodeKind::Link(url) => {
            ctx.push_style(TokenStyle::Link(url.clone()));
            Restore { style: true, ..Restore::none() }
        },
        NodeKind::Text(content) => {
            if !ctx.should_skip() {
                let words = if ctx.in_inline_code {
                    let mut only: Vec<String> = Vec::new();
                    if char_count(content.as_str()) > 0 {
                        only.push(content.clone());
                        assert(views(only@) =~= seq![content@]);
                    } else {
                        assert(views(only@) =~= Seq::<Seq<char>>::empty());
                    }
                    only
                } else {
                    split_into_words(content.as_str())
                };
                assert(views(words@).len() == words@.len());
                emit_words(&words, ctx, tokens);
            }
            Restore::none()
        },
        NodeKind::Softbreak | NodeKind::Other => Restore::none(),
    }
}

fn restore_style(entered: bool, ctx: &mut ParserContext)
    ensures
        final(ctx)@ == leave_style(entered, old(ctx)@),
        top_counter(final(ctx)@) == top_counter(old(ctx)@),
{
    if entered {
        ctx.pop_style();
        ctx.in_inline_code = false;
    }
}

fn restore_block(entered: bool, ctx: &mut ParserContext)
    ensures
        final(ctx)@ == leave_block(entered, old(ctx)@),
        top_counter(final(ctx)@) == top_counter(old(ctx)@),
{
    if entered {
        ctx.pop_block();
    }
}

fn restore_depths(restore: Restore, ctx: &mut ParserContext)
    ensures
        final(ctx)@ == leave_quote(
            restore.quote_depth,
            leave_list(restore.list_depth, leave_skip(restore.skip, old(ctx)@)),
        ),
        top_counter(final(ctx)@) <= top_counter(old(ctx)@),
{
    if restore.skip && ctx.skip_depth > 0 {
        ctx.skip_depth = ctx.skip_depth - 1;
    }
    if restore.list_depth && ctx.list_depth > 0 {
        ctx.list_depth = ctx.list_depth - 1;
    }
    if restore.quote_depth {
        if ctx.quote_depth > 0 {
            ctx.quote_depth = ctx.quote_depth - 1;
        }
        ctx.in_callout = false;
    }
}

fn restore_cell(entered: bool, ctx: &mut ParserContext)
    ensures
        final(ctx)@ == leave_cell(entered, old(ctx)@),
        top_counter(final(ctx)@) == top_counter(old(ctx)@),
{
    if entered {
        ctx.is_last_table_cell = false;
        ctx.table_column = None;
        ctx.at_cell_start = false;
    }
}

fn leave_node(restore: Restore, ctx: &mut ParserContext)
    ensures
        final(ctx)@ == leave(restore, old(ctx)@),
        top_counter(final(ctx)@) <= top_counter(old(ctx)@),
{
    restore_style(restore.style, ctx);
    restore_block(restore.block, ctx);
    restore_depths(restore, ctx);
    restore_cell(restore.cell, ctx);
}

fn walk_ast(
    node: &DocNode,
    ctx: &mut ParserContext,
    tokens: &mut Vec<Token>,
    sections: &mut Vec<Section>,
)
    requires
        top_counter(old(ctx)@) + node_count(node@) <= usize::MAX,
        words_non_empty(views(old(tokens)@)),
        starts_sorted(views(old(sections)@), old(tokens)@.len() as nat),
    ensures
        state(final(ctx)@, views(final(tokens)@), views(final(sections)@)) == walk(
            node@,
            state(old(ctx)@, views(old(tokens)@), views(old(sections)@)),
        ),
        top_counter(final(ctx)@) <= top_counter(old(ctx)@) + node_count(node@),
        words_non_empty(views(final(tokens)@)),
        starts_sorted(views(final(sections)@), final(tokens)@.len() as nat),
        old(tokens)@.len() <= final(tokens)@.len(),
    decreases *node,
{
    proof {
        lemma_children_views(*node);
    }
    let ghost trees = views(node.children@);
    let restore = enter_node(node, ctx, tokens, sections);
    let ghost entered = state(ctx@, views(tokens@), views(sections@));
    let mut i: usize = 0;
    assert(trees.skip(0) =~= trees);
    while i < node.children.len()
        invariant
            i <= node.children.len(),
            trees == views(node.children@),
            trees == node@.children,
            walk_all(trees.skip(i as int), state(ctx@, views(tokens@), views(sections@)))
                == walk_all(trees, entered),
            top_counter(ctx@) + count_all(trees.skip(i as int)) <= top_counter(old(ctx)@)
                + node_count(node@),
            top_counter(old(ctx)@) + node_count(node@) <= usize::MAX,
            words_non_empty(views(tokens@)),
            starts_sorted(views(sections@), tokens@.len() as nat),
            old(tokens)@.len() <= tokens@.len(),
        decreases node.children.len() - i,
    {
        assert(trees.skip(i as int).drop_first() =~= trees.skip(i + 1));
        assert(trees.skip(i as int)[0] == node.children@[i as int]@);
        walk_ast(&node.children[i], ctx, tokens, sections);
        i = i + 1;
    }
    leave_node(restore, ctx);
}

fn backfill(sections: &Vec<Section>, total: usize) -> (filled: Vec<Section>)
    requires
        starts_sorted(views(sections@), total as nat),
    ensures
        views(filled@) == backfilled(views(sections@), total as nat),
        sections_chain(views(filled@), total as nat),
{
    let n = sections.len();
    let mut filled: Vec<Section> = Vec::new();
    let mut i: usize = 0;
    assert(views(filled@) =~= backfilled(views(sections@), total as nat).take(0));
    while i < n
        invariant
            i <= n == sections@.len(),
            views(filled@) == backfilled(views(sections@), total as nat).take(i as int),
        decreases n - i,
    {
        let token_end = if i + 1 < n {
            sections[i + 1].token_start
        } else {
            total
        };
        let section = Section {
            title: sections[i].title.clone(),
            level: sections[i].level,
            token_start: sections[i].token_start,
            token_end,
        };
        proof {
            assert(views(sections@)[i as int] == sections@[i as int]@);
            if i + 1 < n {
                assert(views(sections@)[i + 1] == sections@[i + 1]@);
            }
            assert(views(filled@.push(section)) =~= views(filled@).push(section@));
            assert(backfilled(views(sections@), total as nat).take(i + 1) =~= backfilled(
                views(sections@),
                total as nat,
            ).take(i as int).push(section@));
        }
        filled.push(section);
        i = i + 1;
    }
    assert(backfilled(views(sections@), total as nat).take(n as int) =~= backfilled(
        views(sections@),
        total as nat,
    ));
    filled
}

/// Tokenize a document tree: its words in document order, each with the
/// style and block that enclose it and with its timing hint, and one
/// section for each heading.
///
/// A tree that is not well formed is refused; no partial result is given.
pub fn tokenize(root: &DocNode) -> (r: Result<ParsedDocument, ParseError>)
    ensures
        match r {
            Ok(doc) => {
                &&& root@.wf()
                &&& views(doc.tokens@) == tokenized(root@).0
                &&& views(doc.sections@) == tokenized(root@).1
                &&& doc.wf()
            },
            Err(e) => !root@.wf() && e is ParseError,
        },
{
    if !root.check() {
        return Err(
            ParseError::ParseError(
                String::from_str("the document tree is malformed: a heading level is not between 1 and 6"),
            ),
        );
    }
    let mut ctx = ParserContext::new();
    let mut tokens: Vec<Token> = Vec::new();
    let mut sections: Vec<Section> = Vec::new();
    assert(views(tokens@) =~= Seq::<TokenView>::empty());
    assert(views(sections@) =~= Seq::<SectionView>::empty());
    walk_ast(root, &mut ctx, &mut tokens, &mut sections);
    let filled = backfill(&sections, tokens.len());
    assert(views(tokens@).len() == tokens@.len());
    Ok(ParsedDocument { tokens, sections: filled })
}

} // verus!
