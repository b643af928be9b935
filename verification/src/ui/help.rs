//! The help box: where it stands, and what it says.

use crate::ui::common::Area;
use vstd::prelude::*;

verus! {

/// The greatest width of the help box.
pub const HELP_WIDTH: u16 = 50;

/// The greatest height of the help box.
pub const HELP_HEIGHT: u16 = 16;

/// The margin that the help box keeps to the area, both sides together.
pub const HELP_MARGIN: u16 = 4;

/// How many lines the help has.
pub const HELP_LINES: usize = 12;

/// The smaller of a limit and what an extent leaves beside the margin.
pub open spec fn box_extent(extent: u16, limit: u16) -> u16 {
    let room = if extent >= HELP_MARGIN {
        (extent - HELP_MARGIN) as u16
    } else {
        0u16
    };
    if room < limit {
        room
    } else {
        limit
    }
}

/// The help box in an area of `width` columns and `height` rows: as large
/// as its limits and the margin allow, in the middle.
pub open spec fn help_box(width: u16, height: u16) -> Area {
    Area {
        x: ((width - box_extent(width, HELP_WIDTH)) / 2) as u16,
        y: ((height - box_extent(height, HELP_HEIGHT)) / 2) as u16,
        width: box_extent(width, HELP_WIDTH),
        height: box_extent(height, HELP_HEIGHT),
    }
}

/// The help box in an area of `width` columns and `height` rows.
pub fn help_area(width: u16, height: u16) -> (area: Area)
    ensures
        area == help_box(width, height),
{
    let room_w = width.saturating_sub(4);
    let box_w: u16 = if room_w < 50 {
        room_w
    } else {
        50
    };
    let room_h = height.saturating_sub(4);
    let box_h: u16 = if room_h < 16 {
        room_h
    } else {
        16
    };
    Area {
        x: width.saturating_sub(box_w) / 2,
        y: height.saturating_sub(box_h) / 2,
        width: box_w,
        height: box_h,
    }
}

/// Line `i` of the help.
pub open spec fn help_line(i: int) -> Seq<char> {
    if i == 0 {
        "CONTROLS"@
    } else if i == 2 {
        "Space     Pause/Resume"@
    } else if i == 3 {
        "j/Down    Slower (-25 WPM)"@
    } else if i == 4 {
        "k/Up      Faster (+25 WPM)"@
    } else if i == 5 {
        "h/Left    Rewind sentence"@
    } else if i == 6 {
        "l/Right   Skip sentence"@
    } else if i == 7 {
        "o         Toggle outline"@
    } else if i == 8 {
        "q         Quit"@
    } else if i == 9 {
        "?         Toggle help"@
    } else if i == 11 {
        "Press ? to close"@
    } else {
        ""@
    }
}

/// The help as it is to be drawn.
#[derive(Debug)]
pub struct HelpDisplay {
    pub area: Area,
    /// The lines of the help; the first is its heading, the last says how
    /// to close it.
    pub lines: Vec<&'static str>,
}

/// The help over an area: its box in the middle, and its lines.
pub fn render(area: Area) -> (display: HelpDisplay)
    ensures
        display.area == help_box(area.width, area.height),
        display.lines@.len() == HELP_LINES,
        forall|i: int| 0 <= i < HELP_LINES ==> (#[trigger] display.lines@[i])@ == help_line(i),
{
    let mut lines: Vec<&'static str> = Vec::new();
    lines.push("CONTROLS");
    lines.push("");
    lines.push("Space     Pause/Resume");
    lines.push("j/Down    Slower (-25 WPM)");
    lines.push("k/Up      Faster (+25 WPM)");
    lines.push("h/Left    Rewind sentence");
    lines.push("l/Right   Skip sentence");
    lines.push("o         Toggle outline");
    lines.push("q         Quit");
    lines.push("?         Toggle help");
    lines.push("");
    lines.push("Press ? to close");
    HelpDisplay { area: help_area(area.width, area.height), lines }
}

} // verus!
