//! The whole screen: how its area is divided, and what each part shows.

use crate::app::{App, AppView, ViewMode};
use crate::types::views;
use crate::ui::common::Area;
use crate::ui::context::{
    document_lines, lines_after, lines_before, position_in_lines, render_after, render_before,
    PlacedLine,
};
use crate::ui::help::{self, help_box, help_line, HelpDisplay, HELP_LINES};
use crate::ui::outline::{self, shows_outline, OutlineDisplay};
use crate::ui::rsvp::{self, shows_word, WordDisplay};
use crate::ui::status::{self, shows_status, StatusDisplay};
use ratatui::layout::{Constraint, Direction, Layout, Rect};
use vstd::prelude::*;

verus! {

/// Width of the gutter column for hint chars.
pub const GUTTER_WIDTH: u16 = 4;

/// Padding between gutter and content.
pub const GUTTER_PADDING: u16 = 2;

/// How many rows the status bar takes.
pub const STATUS_ROWS: u16 = 2;

/// How many rows the current word and its guide lines take.
pub const WORD_ROWS: u16 = 3;

/// The share of the rows that each context takes, in percent.
pub const CONTEXT_PERCENT: u16 = 40;

/// Along which axis an area is divided.
#[derive(Debug, Clone, Copy, PartialEq, Eq, Structural)]
pub enum Axis {
    /// Into parts below each other.
    Vertical,
    /// Into parts beside each other.
    Horizontal,
}

/// What a part of a divided area asks for.
#[derive(Debug, Clone, Copy, PartialEq, Eq, Structural)]
pub enum LayoutRule {
    /// At least this many cells.
    Min(u16),
    /// This many cells.
    Length(u16),
    /// This share of the area, in percent.
    Percentage(u16),
}

/// `ratatui::layout::Layout::split` with the given direction and
/// constraints: the parts into which the layout solver divides the area.
/// Nothing is claimed of them, not even their number.
#[verifier::external_body]
fn split_area(area: Area, axis: Axis, rules: &Vec<LayoutRule>) -> Vec<Area> {
    let constraints = rules.iter().map(|rule| match rule {
        LayoutRule::Min(n) => Constraint::Min(*n),
        LayoutRule::Length(n) => Constraint::Length(*n),
        LayoutRule::Percentage(n) => Constraint::Percentage(*n),
    });
    let direction = match axis {
        Axis::Vertical => Direction::Vertical,
        Axis::Horizontal => Direction::Horizontal,
    };
    let rect = Rect { x: area.x, y: area.y, width: area.width, height: area.height };
    let parts = Layout::default().direction(direction).constraints(constraints).split(rect);
    parts.iter().map(|r| Area { x: r.x, y: r.y, width: r.width, height: r.height }).collect()
}

/// The part at index `i`, or an empty area at the origin of `whole` where
/// the division gave no such part.
pub open spec fn part_of(parts: Seq<Area>, i: int, whole: Area) -> Area {
    if 0 <= i < parts.len() {
        parts[i]
    } else {
        Area { x: whole.x, y: whole.y, width: 0, height: 0 }
    }
}

fn part(parts: &Vec<Area>, i: usize, whole: Area) -> (area: Area)
    ensures
        area == part_of(parts@, i as int, whole),
{
    if i < parts.len() {
        parts[i]
    } else {
        Area { x: whole.x, y: whole.y, width: 0, height: 0 }
    }
}

/// The reading view: the context above the current word, the word, and
/// the context below it, each with its area, and the gutter beside them
/// where hints are shown.
#[derive(Debug)]
pub struct ReadingView {
    pub gutter: Option<Area>,
    pub before_area: Area,
    pub before: Vec<PlacedLine>,
    pub word_area: Area,
    pub word: Option<WordDisplay>,
    pub after_area: Area,
    pub after: Vec<PlacedLine>,
}

/// What the main part of the screen shows.
#[derive(Debug)]
pub enum MainView {
    Reading(ReadingView),
    /// The outline and its area.
    Outline(Area, Option<OutlineDisplay>),
}

/// The screen as it is to be drawn.
#[derive(Debug)]
pub struct Screen {
    pub main: MainView,
    /// The row of the title in the status bar.
    pub title_area: Area,
    /// The row of the progress bar in the status bar.
    pub progress_area: Area,
    pub status: StatusDisplay,
    /// The help, where it is shown.
    pub help: Option<HelpDisplay>,
}

/// Whether `view` is the reading view of the session in its areas: both
/// contexts are laid out for the width of their area and fill its rows
/// from the line of the current word, and the word is shown for its area.
pub open spec fn shows_reading(app: AppView, view: ReadingView) -> bool {
    let before_lines = document_lines(
        app.tokens,
        app.position,
        view.before_area.width as usize,
        app.context_width,
    );
    let after_lines = document_lines(
        app.tokens,
        app.position,
        view.after_area.width as usize,
        app.context_width,
    );
    &&& views(view.before@) == lines_before(
        before_lines,
        position_in_lines(before_lines, app.position).0,
        app.position,
        view.before_area.width as usize,
        view.before_area.height as usize,
        app.styling_enabled,
        view.gutter is Some,
    )
    &&& shows_word(app, view.word_area.width as usize, view.word_area.height as usize, view.word)
    &&& views(view.after@) == lines_after(
        after_lines,
        position_in_lines(after_lines, app.position).0,
        app.position,
        view.after_area.width as usize,
        view.after_area.height as usize,
        app.styling_enabled,
        view.gutter is Some,
    )
}

/// The reading view of a session in the given areas.
pub fn reading_view(
    app: &App,
    gutter: Option<Area>,
    before_area: Area,
    word_area: Area,
    after_area: Area,
) -> (view: ReadingView)
    ensures
        view.gutter == gutter,
        view.before_area == before_area,
        view.word_area == word_area,
        view.after_area == after_area,
        shows_reading(app@, view),
{
    let with_gutter = gutter.is_some();
    ReadingView {
        gutter,
        before_area,
        before: render_before(
            app,
            before_area.width as usize,
            before_area.height as usize,
            with_gutter,
        ),
        word_area,
        word: rsvp::render(app, word_area.width as usize, word_area.height as usize),
        after_area,
        after: render_after(app, after_area.width as usize, after_area.height as usize, with_gutter),
    }
}

/// Whether `screen` is what the session shows over `area`: the main part
/// shows the view of the session in the areas that it was given, with a
/// gutter where hints are shown; the status bar shows the status; and the
/// help lies over the middle of the area where it is shown.
pub open spec fn shows_screen(app: AppView, area: Area, screen: Screen) -> bool {
    &&& match screen.main {
        MainView::Reading(view) => {
            &&& app.view_mode == ViewMode::Reading
            &&& view.gutter is Some <==> app.hint_chars_enabled
            &&& shows_reading(app, view)
        },
        MainView::Outline(outline_area, display) => {
            &&& app.view_mode == ViewMode::Outline
            &&& shows_outline(
                app,
                outline_area.width as usize,
                outline_area.height as usize,
                display,
            )
        },
    }
    &&& shows_status(app, screen.status)
    &&& match screen.help {
        Some(shown) => {
            &&& app.show_help
            &&& shown.area == help_box(area.width, area.height)
            &&& shown.lines@.len() == HELP_LINES
            &&& forall|i: int| 0 <= i < HELP_LINES ==> (#[trigger] shown.lines@[i])@ == help_line(i)
        },
        None => !app.show_help,
    }
}

/// What a session shows over an area of the terminal: the area is divided
/// into the main part and the status bar; the main part shows the reading
/// view, beside the gutter where hints are shown, or the outline.
pub fn render(app: &App, area: Area) -> (screen: Screen)
    ensures
        shows_screen(app@, area, screen),
{
    let mut rows: Vec<LayoutRule> = Vec::new();
    rows.push(LayoutRule::Min(0));
    rows.push(LayoutRule::Length(2));
    let chunks = split_area(area, Axis::Vertical, &rows);
    let main_area = part(&chunks, 0, area);
    let status_area = part(&chunks, 1, area);

    let main = match app.view_mode() {
        ViewMode::Reading => MainView::Reading(render_reading_view(app, main_area)),
        ViewMode::Outline => MainView::Outline(
            main_area,
            outline::render(app, main_area.width as usize, main_area.height as usize),
        ),
    };

    let mut status_rows: Vec<LayoutRule> = Vec::new();
    status_rows.push(LayoutRule::Length(1));
    status_rows.push(LayoutRule::Length(1));
    let status_chunks = split_area(status_area, Axis::Vertical, &status_rows);

    let help = if app.show_help() {
        Some(help::render(area))
    } else {
        None
    };
    Screen {
        main,
        title_area: part(&status_chunks, 0, status_area),
        progress_area: part(&status_chunks, 1, status_area),
        status: status::render(app),
        help,
    }
}

fn render_reading_view(app: &App, area: Area) -> (view: ReadingView)
    ensures
        view.gutter is Some <==> app@.hint_chars_enabled,
        shows_reading(app@, view),
{
    let (gutter, content_area) = if app.hint_chars_enabled() {
        let mut columns: Vec<LayoutRule> = Vec::new();
        columns.push(LayoutRule::Length(6));
        columns.push(LayoutRule::Min(0));
        let horizontal = split_area(area, Axis::Horizontal, &columns);
        (Some(part(&horizontal, 0, area)), part(&horizontal, 1, area))
    } else {
        (None, area)
    };
    let mut rows: Vec<LayoutRule> = Vec::new();
    rows.push(LayoutRule::Percentage(40));
    rows.push(LayoutRule::Length(3));
    rows.push(LayoutRule::Percentage(40));
    let chunks = split_area(content_area, Axis::Vertical, &rows);
    reading_view(
        app,
        gutter,
        part(&chunks, 0, content_area),
        part(&chunks, 1, content_area),
        part(&chunks, 2, content_area),
    )
}

} // verus!
