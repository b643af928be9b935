//! The outline: the selected section between its guide lines, and the
//! sections before and after it, dimmer the farther they are.

use crate::app::{App, AppView};
use crate::text::{char_count, push_char};
use crate::types::{lemma_views_push, views, Section, SectionView};
use crate::ui::common::{fade_char, fade_char_left, BRIGHTNESS_SOLID_END, FADE_TOTAL, MIN_PADDING};
use crate::ui::context::spaces;
use crate::ui::rsvp::{GuideCell, GUIDE_CHAR, TICK_DOWN, TICK_UP};
use vstd::prelude::*;
use vstd::string::StringExecFns;

verus! {

/// How many columns the hint at the start of a guide line takes.
pub const HINT_COLUMNS: usize = 5;

/// The left padding of a title of `content_width` characters in
/// `available_width` columns: a title that uses less than three fifths of
/// the width is centered; the padding is never less than the minimum.
pub open spec fn outline_padding(content_width: nat, available_width: nat) -> nat {
    if available_width > 0 && content_width * 5 < available_width * 3 && (available_width
        - content_width) / 2 > MIN_PADDING {
        ((available_width - content_width) / 2) as nat
    } else {
        MIN_PADDING as nat
    }
}

/// Calculate left padding for a line: short lines are centered, long ones
/// are left-aligned.
pub fn calculate_padding(content_width: usize, available_width: usize) -> (r: usize)
    ensures
        r == outline_padding(content_width as nat, available_width as nat),
{
    if available_width == 0 {
        return 2;
    }
    let lhs: u128 = (content_width as u128) * 5;
    let rhs: u128 = (available_width as u128) * 3;
    if lhs < rhs {
        let centered = (available_width - content_width) / 2;
        if centered > 2 {
            return centered;
        }
    }
    2
}

/// `text` with spaces before it so that it takes `width` columns; as it
/// is where it takes as many or more.
pub open spec fn right_aligned(text: Seq<char>, width: nat) -> Seq<char> {
    if text.len() < width {
        spaces((width - text.len()) as nat) + text
    } else {
        text
    }
}

/// `text` with spaces before it so that it takes `width` columns.
pub fn right_align(text: &str, width: usize) -> (r: String)
    ensures
        r@ == right_aligned(text@, width as nat),
{
    let n = char_count(text);
    let mut r = String::new();
    if n < width {
        let mut i: usize = 0;
        assert(r@ =~= spaces(0));
        while i < width - n
            invariant
                n < width,
                i <= width - n,
                r@ == spaces(i as nat),
            decreases width - n - i,
        {
            push_char(&mut r, ' ');
            assert(r@ =~= spaces((i + 1) as nat));
            i = i + 1;
        }
    }
    let ghost before = r@;
    r.append(text);
    assert(n >= width ==> r@ =~= text@);
    r
}

/// The cell at column `i` of a guide line of `width` columns that fades in
/// from column `start_col` and out towards its end.
pub open spec fn outline_cell(
    i: nat,
    width: usize,
    start_col: usize,
    tick_pos: usize,
    tick_char: char,
) -> GuideCell {
    let (symbol, brightness) = if i < start_col + FADE_TOTAL {
        fade_char((i - start_col) as nat)
    } else if i + FADE_TOTAL >= width {
        fade_char((width - 1 - i) as nat)
    } else {
        (GUIDE_CHAR, BRIGHTNESS_SOLID_END as int)
    };
    GuideCell {
        symbol: if i == tick_pos {
            tick_char
        } else {
            symbol
        },
        brightness: brightness as u8,
    }
}

/// A guide line of the outline: the hint at its start, where one fits, and
/// the cells of the columns after it.
#[derive(Debug)]
pub struct OutlineGuide {
    /// The hint, right-aligned in four columns and followed by a space.
    pub hint: Option<String>,
    /// The column of the first cell.
    pub start_col: usize,
    pub cells: Vec<GuideCell>,
}

/// The mathematical value of an [`OutlineGuide`].
pub struct OutlineGuideView {
    pub hint: Option<Seq<char>>,
    pub start_col: usize,
    pub cells: Seq<GuideCell>,
}

impl View for OutlineGuide {
    type V = OutlineGuideView;

    open spec fn view(&self) -> OutlineGuideView {
        OutlineGuideView {
            hint: match self.hint {
                Some(text) => Some(text@),
                None => None,
            },
            start_col: self.start_col,
            cells: self.cells@,
        }
    }
}

/// The guide line of `width` columns with its tick at column `tick_pos`
/// and with the given hint: the hint is shown where it is not empty and
/// shorter than the line; the cells begin after the columns of the hint.
pub open spec fn guide_of(
    width: usize,
    tick_pos: usize,
    tick_char: char,
    hint: Seq<char>,
) -> OutlineGuideView {
    let start_col = if hint.len() > 0 {
        HINT_COLUMNS
    } else {
        0usize
    };
    OutlineGuideView {
        hint: if 0 < hint.len() < width {
            Some(right_aligned(hint, 4).push(' '))
        } else {
            None
        },
        start_col,
        cells: Seq::new(
            (if width >= start_col {
                width - start_col
            } else {
                0
            }) as nat,
            |k: int| outline_cell((start_col + k) as nat, width, start_col, tick_pos, tick_char),
        ),
    }
}

/// Build a guide line with fade effect on both sides, after a hint at its
/// start: dotted, then dashed, then solid, with increasing brightness
/// towards the middle.
pub fn build_faded_guide_line(width: usize, tick_pos: usize, tick_char: char, hint: &str) -> (line:
    OutlineGuide)
    ensures
        line@ == guide_of(width, tick_pos, tick_char, hint@),
{
    let hint_len = char_count(hint);
    let shown_hint = if hint_len > 0 && hint_len < width {
        let mut text = right_align(hint, 4);
        push_char(&mut text, ' ');
        Some(text)
    } else {
        None
    };
    let start_col: usize = if hint_len > 0 {
        5
    } else {
        0
    };
    let count: usize = if width >= start_col {
        width - start_col
    } else {
        0
    };
    let ghost target = Seq::new(
        count as nat,
        |k: int| outline_cell((start_col + k) as nat, width, start_col, tick_pos, tick_char),
    );
    let mut cells: Vec<GuideCell> = Vec::new();
    let mut k: usize = 0;
    assert(cells@ =~= target.take(0));
    while k < count
        invariant
            k <= count,
            start_col + count <= width || count == 0,
            start_col <= 5,
            target == Seq::new(
                count as nat,
                |k: int| outline_cell((start_col + k) as nat, width, start_col, tick_pos, tick_char),
            ),
            cells@ == target.take(k as int),
        decreases count - k,
    {
        let i = start_col + k;
        let (symbol, brightness) = if k < 6 {
            fade_char_left(k)
        } else if width - i <= 6 {
            fade_char_left(width - 1 - i)
        } else {
            ('\u{2500}', 120u8)
        };
        let shown = if i == tick_pos {
            tick_char
        } else {
            symbol
        };
        cells.push(GuideCell { symbol: shown, brightness });
        assert(target.take(k + 1) =~= target.take(k as int).push(target[k as int]));
        k = k + 1;
    }
    assert(target.take(count as int) =~= target);
    OutlineGuide { hint: shown_hint, start_col, cells }
}

/// A section as the outline shows it.
#[derive(Debug)]
pub struct OutlineItem {
    /// The row of the item in the area.
    pub row: usize,
    /// The title, after its padding.
    pub text: String,
    /// The gray level of the item.
    pub brightness: u8,
    pub bold: bool,
}

/// The mathematical value of an [`OutlineItem`].
pub struct OutlineItemView {
    pub row: usize,
    pub text: Seq<char>,
    pub brightness: u8,
    pub bold: bool,
}

impl View for OutlineItem {
    type V = OutlineItemView;

    open spec fn view(&self) -> OutlineItemView {
        OutlineItemView {
            row: self.row,
            text: self.text@,
            brightness: self.brightness,
            bold: self.bold,
        }
    }
}

/// The gray level of a section `distance` places from the selected one.
pub open spec fn item_brightness(distance: usize) -> u8 {
    if distance == 1 {
        150
    } else if distance == 2 {
        110
    } else if distance == 3 {
        80
    } else {
        60
    }
}

/// A section `distance` places from the selected one, shown in `row`.
pub open spec fn outline_item(
    section: SectionView,
    row: usize,
    width: usize,
    distance: usize,
) -> OutlineItemView {
    OutlineItemView {
        row,
        text: spaces(outline_padding(section.title.len(), width as nat)) + section.title,
        brightness: item_brightness(distance),
        bold: false,
    }
}

fn padded_title(section: &Section, width: usize) -> (text: String)
    ensures
        text@ == spaces(outline_padding(section@.title.len(), width as nat)) + section@.title,
{
    let n = char_count(section.title.as_str());
    let padding = calculate_padding(n, width);
    let mut text = String::new();
    let mut i: usize = 0;
    assert(text@ =~= spaces(0));
    while i < padding
        invariant
            i <= padding,
            text@ == spaces(i as nat),
        decreases padding - i,
    {
        push_char(&mut text, ' ');
        assert(text@ =~= spaces((i + 1) as nat));
        i = i + 1;
    }
    text.append(section.title.as_str());
    text
}

fn render_item(section: &Section, row: usize, width: usize, distance: usize) -> (item: OutlineItem)
    ensures
        item@ == outline_item(section@, row, width, distance),
{
    let brightness: u8 = if distance == 1 {
        150
    } else if distance == 2 {
        110
    } else if distance == 3 {
        80
    } else {
        60
    };
    OutlineItem { row, text: padded_title(section, width), brightness, bold: false }
}

/// The outline as it is to be drawn.
#[derive(Debug)]
pub struct OutlineDisplay {
    /// The selected section, in the middle row, bright and bold.
    pub selected: OutlineItem,
    /// The guide line above the selected section and its row.
    pub top: Option<(usize, OutlineGuide)>,
    /// The guide line below the selected section and its row.
    pub bottom: Option<(usize, OutlineGuide)>,
    /// The sections shown above the guide lines, the nearest first.
    pub above: Vec<OutlineItem>,
    /// The sections shown below the guide lines, the nearest first.
    pub below: Vec<OutlineItem>,
}

/// The first section to show above the selected one, and its row.
pub open spec fn above_start(selected: usize, height: usize) -> (int, int) {
    (
        if selected > 0 {
            selected - 1
        } else {
            0
        },
        if height / 2 >= 2 {
            height / 2 - 2
        } else {
            0
        },
    )
}

/// The sections shown above the selected one: upwards from two rows above
/// the middle, as far as there are sections and rows.
pub open spec fn items_above(
    sections: Seq<SectionView>,
    selected: usize,
    width: usize,
    height: usize,
) -> Seq<OutlineItemView> {
    let (index, row) = above_start(selected, height);
    let count = if index < row {
        index + 1
    } else {
        row + 1
    };
    Seq::new(
        count as nat,
        |k: int|
            outline_item(sections[index - k], (row - k) as usize, width, (k + 1) as usize),
    )
}

/// The sections shown below the selected one: downwards from two rows
/// below the middle, as far as there are sections and rows.
pub open spec fn items_below(
    sections: Seq<SectionView>,
    selected: usize,
    width: usize,
    height: usize,
) -> Seq<OutlineItemView> {
    let sections_left = sections.len() - selected - 1;
    let rows_left = height - height / 2 - 2;
    let count = if sections_left < rows_left {
        sections_left
    } else {
        rows_left
    };
    Seq::new(
        (if count > 0 {
            count
        } else {
            0
        }) as nat,
        |k: int|
            outline_item(
                sections[selected + 1 + k],
                (height / 2 + 2 + k) as usize,
                width,
                (k + 1) as usize,
            ),
    )
}

/// One `#` for each level of a section.
pub open spec fn level_marks(level: u8) -> Seq<char> {
    Seq::new(level as nat, |i: int| '#')
}

/// The column of the tick of the guide lines: the middle of the selected
/// title, at most `usize::MAX`.
pub open spec fn title_tick(title_width: nat, width: usize) -> usize {
    let tick = outline_padding(title_width, width as nat) + title_width / 2;
    if tick <= usize::MAX {
        tick as usize
    } else {
        usize::MAX
    }
}

/// Whether `display` is the outline of the session for an area of `width`
/// columns and `height` rows: there is one where a section is selected and
/// the area has three rows; the selected section stands in the middle row
/// between its guide lines, the sections before and after it above and
/// below them.
pub open spec fn shows_outline(
    app: AppView,
    width: usize,
    height: usize,
    display: Option<OutlineDisplay>,
) -> bool {
    &&& display is None <==> (app.outline_selection >= app.sections.len() || height < 3)
    &&& display matches Some(d) ==> {
            let section = app.sections[app.outline_selection as int];
            &&& d.selected@ == (OutlineItemView {
                row: (height / 2) as usize,
                text: spaces(outline_padding(section.title.len(), width as nat)) + section.title,
                brightness: 200,
                bold: true,
            })
            &&& views(d.above@) == items_above(app.sections, app.outline_selection, width, height)
            &&& views(d.below@) == items_below(app.sections, app.outline_selection, width, height)
            &&& d.top matches Some(top) && top.0 == height / 2 - 1 && top.1@ == guide_of(
                width,
                title_tick(section.title.len(), width),
                TICK_DOWN,
                level_marks(section.level),
            )
            &&& d.bottom matches Some(bottom) && bottom.0 == height / 2 + 1 && bottom.1@
                == guide_of(
                width,
                title_tick(section.title.len(), width),
                TICK_UP,
                level_marks(section.level),
            )
        }
}

/// The outline of a session for an area of `width` columns and `height`
/// rows; `None` where there is no selected section or less than three rows.
pub fn render(app: &App, width: usize, height: usize) -> (display: Option<OutlineDisplay>)
    ensures
        shows_outline(app@, width, height, display),
{
    let sections = app.sections();
    let selected = app.outline_selection();
    let n = sections.len();
    if selected >= n || height < 3 {
        return None;
    }
    let ghost model = app@.sections;
    let center_y = height / 2;
    let section = &sections[selected];
    assert(model[selected as int] == section@);
    let mut hint = String::new();
    let mut h: u8 = 0;
    assert(hint@ =~= level_marks(0));
    while h < section.level
        invariant
            h <= section.level,
            hint@ == level_marks(h),
        decreases section.level - h,
    {
        push_char(&mut hint, '#');
        assert(hint@ =~= level_marks((h + 1) as u8));
        h = h + 1;
    }
    let title_width = char_count(section.title.as_str());
    let title_padding = calculate_padding(title_width, width);
    let tick_pos = title_padding.saturating_add(title_width / 2);
    let top = Some(
        (center_y - 1, build_faded_guide_line(width, tick_pos, '\u{252c}', hint.as_str())),
    );
    let bottom = Some(
        (center_y + 1, build_faded_guide_line(width, tick_pos, '\u{2534}', hint.as_str())),
    );
    let selected_item = OutlineItem {
        row: center_y,
        text: padded_title(section, width),
        brightness: 200,
        bold: true,
    };
    let above_index = selected.saturating_sub(1);
    let above_row = center_y.saturating_sub(2);
    let above_count = if above_index < above_row {
        above_index + 1
    } else {
        above_row + 1
    };
    let ghost above_target = items_above(model, selected, width, height);
    let mut above: Vec<OutlineItem> = Vec::new();
    let mut k: usize = 0;
    assert(views(above@) =~= above_target.take(0));
    while k < above_count
        invariant
            k <= above_count,
            above_count <= above_index + 1,
            above_count <= above_row + 1,
            above_index < n == sections@.len(),
            model == views(sections@),
            above_target == items_above(model, selected, width, height),
            above_target.len() == above_count,
            (above_index as int, above_row as int) == above_start(selected, height),
            views(above@) == above_target.take(k as int),
        decreases above_count - k,
    {
        let item = render_item(&sections[above_index - k], above_row - k, width, k + 1);
        proof {
            assert(model[above_index - k] == sections@[above_index - k]@);
            lemma_views_push(above@, item);
            assert(above_target.take(k + 1) =~= above_target.take(k as int).push(
                above_target[k as int],
            ));
        }
        above.push(item);
        k = k + 1;
    }
    assert(above_target.take(above_count as int) =~= above_target);
    let sections_left = n - selected - 1;
    let rows_left = height - center_y - 2;
    let below_count = if sections_left < rows_left {
        sections_left
    } else {
        rows_left
    };
    let ghost below_target = items_below(model, selected, width, height);
    let mut below: Vec<OutlineItem> = Vec::new();
    let mut k: usize = 0;
    assert(views(below@) =~= below_target.take(0));
    while k < below_count
        invariant
            k <= below_count,
            below_count <= n - selected - 1,
            below_count <= height - center_y - 2,
            center_y == height / 2,
            selected < n == sections@.len(),
            model == views(sections@),
            below_target == items_below(model, selected, width, height),
            below_target.len() == below_count,
            views(below@) == below_target.take(k as int),
        decreases below_count - k,
    {
        let item = render_item(&sections[selected + 1 + k], center_y + 2 + k, width, k + 1);
        proof {
            assert(model[selected + 1 + k] == sections@[selected + 1 + k]@);
            lemma_views_push(below@, item);
            assert(below_target.take(k + 1) =~= below_target.take(k as int).push(
                below_target[k as int],
            ));
        }
        below.push(item);
        k = k + 1;
    }
    assert(below_target.take(below_count as int) =~= below_target);
    Some(OutlineDisplay { selected: selected_item, top, bottom, above, below })
}

} // verus!
