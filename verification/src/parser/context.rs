//! The state that the tokenizer carries through its walk: the stacks of
//! active styles and blocks, the depths of quotes, lists and skipped
//! content, and where in a table the walk stands.

use crate::types::{views, BlockContext, BlockContextView, TokenStyle, TokenStyleView};
use vstd::prelude::*;

verus! {

/// Context for tracking current parsing state while walking the tree.
#[derive(Debug)]
pub struct ParserContext {
    /// Current text styling, innermost last.
    pub style_stack: Vec<TokenStyle>,
    /// Current block context, innermost last.
    pub block_stack: Vec<BlockContext>,
    /// How many block quotes enclose the current node.
    pub quote_depth: usize,
    /// How many lists enclose the current node.
    pub list_depth: usize,
    /// How many code blocks and images enclose the current node.
    pub skip_depth: usize,
    /// Set when a block is entered, cleared by its first token.
    pub new_block_entered: bool,
    /// Number of the current table row.
    pub table_row: usize,
    /// How many cells of the current row have been entered.
    pub table_cell_index: usize,
    /// Total number of cells in the current row.
    pub table_cell_count: usize,
    /// Whether the current cell is the last of its row.
    pub is_last_table_cell: bool,
    /// The column of the current cell, `None` outside a cell.
    pub table_column: Option<usize>,
    /// Set when a cell is entered, cleared by its first token.
    pub at_cell_start: bool,
    /// Whether the current block quote is a callout.
    pub in_callout: bool,
    /// Whether the current node lies inside inline code.
    pub in_inline_code: bool,
}

/// The mathematical value of a [`ParserContext`].
pub struct ContextView {
    pub style_stack: Seq<TokenStyleView>,
    pub block_stack: Seq<BlockContextView>,
    pub quote_depth: nat,
    pub list_depth: nat,
    pub skip_depth: nat,
    pub new_block_entered: bool,
    pub table_row: nat,
    pub table_cell_index: nat,
    pub table_cell_count: nat,
    pub is_last_table_cell: bool,
    pub table_column: Option<usize>,
    pub at_cell_start: bool,
    pub in_callout: bool,
    pub in_inline_code: bool,
}

/// The style in force when `style` is entered inside `current`: bold and
/// italic combine, in either order, and once combined they stay.
pub open spec fn combined_style(current: TokenStyleView, style: TokenStyleView) -> TokenStyleView {
    match (current, style) {
        (TokenStyleView::Bold, TokenStyleView::Italic) => TokenStyleView::BoldItalic,
        (TokenStyleView::Italic, TokenStyleView::Bold) => TokenStyleView::BoldItalic,
        (TokenStyleView::BoldItalic, _) => TokenStyleView::BoldItalic,
        _ => style,
    }
}

impl ContextView {
    /// The context at the start of a walk.
    pub open spec fn initial() -> ContextView {
        ContextView {
            style_stack: seq![TokenStyleView::Normal],
            block_stack: seq![BlockContextView::Paragraph],
            quote_depth: 0,
            list_depth: 0,
            skip_depth: 0,
            new_block_entered: false,
            table_row: 0,
            table_cell_index: 0,
            table_cell_count: 0,
            is_last_table_cell: false,
            table_column: None,
            at_cell_start: false,
            in_callout: false,
            in_inline_code: false,
        }
    }

    /// Neither stack is empty.
    pub open spec fn wf(self) -> bool {
        self.style_stack.len() >= 1 && self.block_stack.len() >= 1
    }

    /// The innermost style.
    pub open spec fn current_style(self) -> TokenStyleView {
        if self.style_stack.len() > 0 {
            self.style_stack.last()
        } else {
            TokenStyleView::Normal
        }
    }

    /// The innermost block.
    pub open spec fn current_block(self) -> BlockContextView {
        if self.block_stack.len() > 0 {
            self.block_stack.last()
        } else {
            BlockContextView::Paragraph
        }
    }

    /// This context with `style` entered.
    pub open spec fn push_style(self, style: TokenStyleView) -> ContextView {
        ContextView {
            style_stack: self.style_stack.push(combined_style(self.current_style(), style)),
            ..self
        }
    }

    /// This context with the innermost style left; the outermost stays.
    pub open spec fn pop_style(self) -> ContextView {
        if self.style_stack.len() > 1 {
            ContextView { style_stack: self.style_stack.drop_last(), ..self }
        } else {
            self
        }
    }

    /// This context with `block` entered.
    pub open spec fn push_block(self, block: BlockContextView) -> ContextView {
        ContextView {
            block_stack: self.block_stack.push(block),
            new_block_entered: true,
            ..self
        }
    }

    /// This context with the innermost block left; the outermost stays.
    pub open spec fn pop_block(self) -> ContextView {
        if self.block_stack.len() > 1 {
            ContextView { block_stack: self.block_stack.drop_last(), ..self }
        } else {
            self
        }
    }

    /// Whether text is suppressed here.
    pub open spec fn should_skip(self) -> bool {
        self.skip_depth > 0
    }
}

impl View for ParserContext {
    type V = ContextView;

    open spec fn view(&self) -> ContextView {
        ContextView {
            style_stack: views(self.style_stack@),
            block_stack: views(self.block_stack@),
            quote_depth: self.quote_depth as nat,
            list_depth: self.list_depth as nat,
            skip_depth: self.skip_depth as nat,
            new_block_entered: self.new_block_entered,
            table_row: self.table_row as nat,
            table_cell_index: self.table_cell_index as nat,
            table_cell_count: self.table_cell_count as nat,
            is_last_table_cell: self.is_last_table_cell,
            table_column: self.table_column,
            at_cell_start: self.at_cell_start,
            in_callout: self.in_callout,
            in_inline_code: self.in_inline_code,
        }
    }
}

impl ParserContext {
    /// The context at the start of a walk: normal style, paragraph block.
    pub fn new() -> (ctx: Self)
        ensures
            ctx@ == ContextView::initial(),
    {
        let mut style_stack: Vec<TokenStyle> = Vec::new();
        style_stack.push(TokenStyle::Normal);
        let mut block_stack: Vec<BlockContext> = Vec::new();
        block_stack.push(BlockContext::Paragraph);
        assert(views(style_stack@) =~= seq![TokenStyleView::Normal]);
        assert(views(block_stack@) =~= seq![BlockContextView::Paragraph]);
        ParserContext {
            style_stack,
            block_stack,
            quote_depth: 0,
            list_depth: 0,
            skip_depth: 0,
            new_block_entered: false,
            table_row: 0,
            table_cell_index: 0,
            table_cell_count: 0,
            is_last_table_cell: false,
            table_column: None,
            at_cell_start: false,
            in_callout: false,
            in_inline_code: false,
        }
    }

    /// The innermost style.
    pub fn current_style(&self) -> (style: TokenStyle)
        ensures
            style@ == self@.current_style(),
    {
        let n = self.style_stack.len();
        if n > 0 {
            self.style_stack[n - 1].clone()
        } else {
            TokenStyle::Normal
        }
    }

    /// The innermost block.
    pub fn current_block(&self) -> (block: BlockContext)
        ensures
            block@ == self@.current_block(),
    {
        let n = self.block_stack.len();
        if n > 0 {
            self.block_stack[n - 1].clone()
        } else {
            BlockContext::Paragraph
        }
    }

    /// Enter a style: bold inside italic, or italic inside bold, is both.
    pub fn push_style(&mut self, style: TokenStyle)
        ensures
            final(self)@ == old(self)@.push_style(style@),
    {
        let current = self.current_style();
        let new_style = match (&current, &style) {
            (TokenStyle::Bold, TokenStyle::Italic) => TokenStyle::BoldItalic,
            (TokenStyle::Italic, TokenStyle::Bold) => TokenStyle::BoldItalic,
            (TokenStyle::BoldItalic, _) => TokenStyle::BoldItalic,
            _ => style,
        };
        self.style_stack.push(new_style);
        assert(views(self.style_stack@) =~= views(old(self).style_stack@).push(new_style@));
    }

    /// Leave the innermost style; the outermost one stays.
    pub fn pop_style(&mut self)
        ensures
            final(self)@ == old(self)@.pop_style(),
    {
        if self.style_stack.len() > 1 {
            self.style_stack.pop();
            assert(views(self.style_stack@) =~= views(old(self).style_stack@).drop_last());
        }
    }

    /// Enter a block; its first token will know that it is new.
    pub fn push_block(&mut self, block: BlockContext)
        ensures
            final(self)@ == old(self)@.push_block(block@),
    {
        self.block_stack.push(block);
        self.new_block_entered = true;
        assert(views(self.block_stack@) =~= views(old(self).block_stack@).push(block@));
    }

    /// Leave the innermost block; the outermost one stays.
    pub fn pop_block(&mut self)
        ensures
            final(self)@ == old(self)@.pop_block(),
    {
        if self.block_stack.len() > 1 {
            self.block_stack.pop();
            assert(views(self.block_stack@) =~= views(old(self).block_stack@).drop_last());
        }
    }

    /// Whether text is suppressed here: inside a code block or an image.
    pub fn should_skip(&self) -> (skip: bool)
        ensures
            skip == self@.should_skip(),
    {
        self.skip_depth > 0
    }
}

} // verus!
