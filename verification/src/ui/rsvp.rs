//! The current word: where it stands so that the character to fixate lies
//! at the middle of the area, and the guide lines above and below it.

use crate::app::{App, AppView};
use crate::text::{chars_of, push_char};
use crate::types::{heading_marks, BlockContext, BlockContextView, TokenStyle, TokenStyleView};
use crate::ui::common::{fade_char, fade_char_left, BRIGHTNESS_SOLID_END, FADE_TOTAL};
use vstd::prelude::*;

verus! {

/// The hint characters of a block beside the current word.
pub open spec fn block_hint_of(block: BlockContextView) -> Seq<char> {
    match block {
        BlockContextView::Heading(level) => heading_marks(level),
        BlockContextView::ListItem(_) => seq!['-'],
        BlockContextView::Quote(_) => seq!['>'],
        BlockContextView::TableCell(_) => seq!['|'],
        BlockContextView::Callout(_) => seq!['[', '!', ']'],
        BlockContextView::Paragraph => Seq::empty(),
    }
}

/// Get hint characters for a block context: as in the gutter of the
/// context lines, and a dash for the items of a list.
pub fn current_block_hint(block: &BlockContext) -> (hint: &'static str)
    ensures
        hint@ == block_hint_of(block@),
{
    match block {
        BlockContext::ListItem(_) => {
            proof {
                reveal_strlit("-");
                assert("-"@ =~= seq!['-']);
            }
            "-"
        },
        _ => block.hint_chars(),
    }
}

/// One character of a guide line and its gray level.
#[derive(Debug, Clone, Copy, PartialEq, Eq, Structural)]
pub struct GuideCell {
    pub symbol: char,
    pub brightness: u8,
}

/// The line character of a plain guide line.
pub const GUIDE_CHAR: char = '\u{2500}';

/// The character at column `i` of a plain guide line with its tick at
/// column `tick_pos`.
pub open spec fn guide_char(i: int, tick_pos: usize, tick_char: char) -> char {
    if i == tick_pos {
        tick_char
    } else {
        GUIDE_CHAR
    }
}

/// Build a guide line of `width` characters with a tick mark at the
/// specified position.
pub fn build_guide_line(width: usize, tick_pos: usize, tick_char: char) -> (line: String)
    ensures
        line@ == Seq::new(width as nat, |i: int| guide_char(i, tick_pos, tick_char)),
{
    let ghost target = Seq::new(width as nat, |i: int| guide_char(i, tick_pos, tick_char));
    let mut line = String::new();
    let mut i: usize = 0;
    assert(line@ =~= target.take(0));
    while i < width
        invariant
            i <= width,
            target == Seq::new(width as nat, |i: int| guide_char(i, tick_pos, tick_char)),
            line@ == target.take(i as int),
        decreases width - i,
    {
        if i == tick_pos {
            push_char(&mut line, tick_char);
        } else {
            push_char(&mut line, '\u{2500}');
        }
        assert(target.take(i + 1) =~= target.take(i as int).push(target[i as int]));
        i = i + 1;
    }
    assert(target.take(width as int) =~= target);
    line
}

/// The cell at column `i` of a guide line that fades in from the left: the
/// first six columns go from dotted to solid and from dim to full; the tick
/// replaces the character at its column, not its gray level.
pub open spec fn faded_cell(i: nat, tick_pos: usize, tick_char: char) -> GuideCell {
    let (symbol, brightness) = if i < FADE_TOTAL {
        fade_char(i)
    } else {
        (GUIDE_CHAR, BRIGHTNESS_SOLID_END as int)
    };
    GuideCell {
        symbol: if i == tick_pos {
            tick_char
        } else {
            symbol
        },
        brightness: brightness as u8,
    }
}

/// Build a guide line with fade effect on the left side: dotted, then
/// dashed, then solid, with increasing brightness.
pub fn build_faded_guide_line(width: usize, tick_pos: usize, tick_char: char) -> (line: Vec<
    GuideCell,
>)
    ensures
        line@ == Seq::new(width as nat, |i: int| faded_cell(i as nat, tick_pos, tick_char)),
{
    let ghost target = Seq::new(width as nat, |i: int| faded_cell(i as nat, tick_pos, tick_char));
    let mut line: Vec<GuideCell> = Vec::new();
    let mut i: usize = 0;
    assert(line@ =~= target.take(0));
    while i < width
        invariant
            i <= width,
            target == Seq::new(width as nat, |i: int| faded_cell(i as nat, tick_pos, tick_char)),
            line@ == target.take(i as int),
        decreases width - i,
    {
        let (symbol, brightness) = if i < 6 {
            fade_char_left(i)
        } else {
            ('\u{2500}', 120u8)
        };
        let shown = if i == tick_pos {
            tick_char
        } else {
            symbol
        };
        line.push(GuideCell { symbol: shown, brightness });
        assert(target.take(i + 1) =~= target.take(i as int).push(target[i as int]));
        i = i + 1;
    }
    assert(target.take(width as int) =~= target);
    line
}

/// A guide line: plain, or fading in from the left.
#[derive(Debug)]
pub enum GuideLine {
    Plain(String),
    Faded(Vec<GuideCell>),
}

/// How the current word is styled.
#[derive(Debug, Clone, Copy, PartialEq, Eq, Structural)]
pub struct WordStyle {
    pub bold: bool,
    pub italic: bool,
    /// Whether the word stands on the background of code.
    pub code: bool,
    pub underlined: bool,
}

/// The style of a word of the given token style.
pub open spec fn word_style_of(style: TokenStyleView, styling: bool) -> WordStyle {
    WordStyle {
        bold: styling && (style is Bold || style is BoldItalic),
        italic: styling && (style is Italic || style is BoldItalic),
        code: styling && style is Code,
        underlined: styling && style is Link,
    }
}

/// The current word as it is to be drawn.
#[derive(Debug)]
pub struct WordDisplay {
    /// The characters of the word.
    pub chars: Vec<char>,
    /// The index of the character to highlight.
    pub highlight: usize,
    /// How many spaces stand before the word.
    pub left_padding: usize,
    pub style: WordStyle,
    /// The row of the word in the area.
    pub word_row: usize,
    /// The row of the guide line above the word, where there is room.
    pub top_row: Option<usize>,
    /// The row of the guide line below the word, where there is room.
    pub bottom_row: Option<usize>,
    /// The guide line above the word; the one below has the other tick.
    pub top_guide: GuideLine,
    pub bottom_guide: GuideLine,
    /// The hint of the block of the word, for the gutter.
    pub block_hint: &'static str,
    /// The hint of what encloses the block, for the gutter beside the guide
    /// lines; empty where nothing is known of it.
    pub parent_hint: &'static str,
}

/// The tick of the guide line above the word.
pub const TICK_DOWN: char = '\u{252c}';

/// The tick of the guide line below the word.
pub const TICK_UP: char = '\u{2534}';

/// Whether `display` is the current word of the session for an area of
/// `width` columns and `height` rows: there is one where the session has a
/// current word; it stands in the middle row, padded so that its
/// highlighted character lies at the middle column; guide lines stand
/// above and below it where there is room, faded where the gutter is
/// shown, with their ticks at the highlighted character.
pub open spec fn shows_word(
    app: AppView,
    width: usize,
    height: usize,
    display: Option<WordDisplay>,
) -> bool {
    &&& display is None <==> app.position >= app.tokens.len()
    &&& display matches Some(d) ==> {
            let token = app.tokens[app.position as int];
            let padding = if width / 2 >= token.orp_position {
                width / 2 - token.orp_position
            } else {
                0
            };
            &&& d.chars@ == token.token.word
            &&& d.highlight == token.orp_position
            &&& d.left_padding == padding
            &&& d.style == word_style_of(token.token.style, app.styling_enabled)
            &&& d.word_row == height / 2
            &&& d.top_row == (if height / 2 > 0 {
                Some((height / 2 - 1) as usize)
            } else {
                None
            })
            &&& d.bottom_row == (if height / 2 + 1 < height {
                Some((height / 2 + 1) as usize)
            } else {
                None
            })
            &&& d.block_hint@ == block_hint_of(token.token.block)
            &&& d.parent_hint@ == (match token.token.parent_context {
                Some(parent) => parent.hint_chars(),
                None => Seq::empty(),
            })
            &&& padding + token.orp_position <= usize::MAX ==> (match d.top_guide {
                GuideLine::Plain(line) => !app.hint_chars_enabled && line@ == Seq::new(
                    width as nat,
                    |i: int| guide_char(i, (padding + token.orp_position) as usize, TICK_DOWN),
                ),
                GuideLine::Faded(line) => app.hint_chars_enabled && line@ == Seq::new(
                    width as nat,
                    |i: int|
                        faded_cell(i as nat, (padding + token.orp_position) as usize, TICK_DOWN),
                ),
            })
            &&& padding + token.orp_position <= usize::MAX ==> (match d.bottom_guide {
                GuideLine::Plain(line) => !app.hint_chars_enabled && line@ == Seq::new(
                    width as nat,
                    |i: int| guide_char(i, (padding + token.orp_position) as usize, TICK_UP),
                ),
                GuideLine::Faded(line) => app.hint_chars_enabled && line@ == Seq::new(
                    width as nat,
                    |i: int| faded_cell(i as nat, (padding + token.orp_position) as usize, TICK_UP),
                ),
            })
        }
}

/// The current word of a session for an area of `width` columns and
/// `height` rows, or `None` where the session has no current word.
///
/// The word stands in the middle row, padded so that its highlighted
/// character lies at the middle column where the word is short enough; the
/// ticks of the guide lines point at that character.
pub fn render(app: &App, width: usize, height: usize) -> (display: Option<WordDisplay>)
    ensures
        shows_word(app@, width, height, display),
{
    let token = match app.current_token() {
        Some(token) => token,
        None => {
            return None;
        },
    };
    let orp_pos = token.orp_position;
    let styling = app.styling_enabled();
    let style = WordStyle {
        bold: styling && match &token.token.style {
            TokenStyle::Bold | TokenStyle::BoldItalic => true,
            _ => false,
        },
        italic: styling && match &token.token.style {
            TokenStyle::Italic | TokenStyle::BoldItalic => true,
            _ => false,
        },
        code: styling && match &token.token.style {
            TokenStyle::Code => true,
            _ => false,
        },
        underlined: styling && match &token.token.style {
            TokenStyle::Link(_) => true,
            _ => false,
        },
    };
    let center = width / 2;
    let left_padding = center.saturating_sub(orp_pos);
    let tick_pos = left_padding.saturating_add(orp_pos);
    let (top_guide, bottom_guide) = if app.hint_chars_enabled() {
        (
            GuideLine::Faded(build_faded_guide_line(width, tick_pos, '\u{252c}')),
            GuideLine::Faded(build_faded_guide_line(width, tick_pos, '\u{2534}')),
        )
    } else {
        (
            GuideLine::Plain(build_guide_line(width, tick_pos, '\u{252c}')),
            GuideLine::Plain(build_guide_line(width, tick_pos, '\u{2534}')),
        )
    };
    let vertical_center = height / 2;
    let top_row = if vertical_center > 0 {
        Some(vertical_center - 1)
    } else {
        None
    };
    let bottom_row = if height > 0 && vertical_center < height - 1 {
        Some(vertical_center + 1)
    } else {
        None
    };
    let parent_hint: &'static str = match &token.token.parent_context {
        Some(parent) => parent.hint_chars(),
        None => {
            proof {
                reveal_strlit("");
                assert(""@ =~= Seq::<char>::empty());
            }
            ""
        },
    };
    Some(
        WordDisplay {
            chars: chars_of(token.token.word.as_str()),
            highlight: orp_pos,
            left_padding,
            style,
            word_row: vertical_center,
            top_row,
            bottom_row,
            top_guide,
            bottom_guide,
            block_hint: current_block_hint(&token.token.block),
            parent_hint,
        },
    )
}

} // verus!
