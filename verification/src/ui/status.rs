//! The status bar: the section that is read, how far the reader is, and
//! how fast the words come.

use crate::app::{App, AppView};
use crate::text::{push_char, push_decimal, decimal};
use vstd::prelude::*;
use vstd::string::StringExecFns;

verus! {

/// How far position `position` is into a stream of `total` tokens, in
/// percent, rounded to the nearest whole; zero for an empty stream.
pub open spec fn percent_of(position: nat, total: nat) -> nat {
    if total == 0 {
        0
    } else {
        (200 * position + total) / (2 * total)
    }
}

/// The label of the progress bar: the speed and whether reading is paused.
pub open spec fn status_label(wpm: u16, paused: bool) -> Seq<char> {
    seq![' ', ' '] + decimal(wpm as nat) + " WPM  "@ + (if paused {
        seq!['|', '|']
    } else {
        seq!['>']
    })
}

/// What the status bar shows.
#[derive(Debug)]
pub struct StatusDisplay {
    /// The title of the current section, or `Document` outside any.
    pub title: String,
    /// How far the reader is, in percent; at most `u16::MAX`.
    pub percent: u16,
    /// The label of the progress bar.
    pub label: String,
}

/// How far the reader is into the stream, in percent.
pub fn progress_percent(app: &App) -> (percent: u16)
    ensures
        percent == (if percent_of(app@.position as nat, app@.tokens.len()) <= u16::MAX {
            percent_of(app@.position as nat, app@.tokens.len())
        } else {
            u16::MAX as nat
        }),
{
    let total = app.tokens().len();
    if total == 0 {
        return 0;
    }
    let value: u128 = (200 * (app.position() as u128) + (total as u128)) / (2 * (total as u128));
    if value > 65535 {
        65535
    } else {
        value as u16
    }
}

/// Whether `status` is the status bar of the session: the title of the
/// section that is read, or `Document` outside any; how far the reader
/// is, in percent, at most `u16::MAX`; and the label of the speed.
pub open spec fn shows_status(app: AppView, status: StatusDisplay) -> bool {
    &&& status.label@ == status_label(app.wpm, app.paused)
    &&& status.percent == (if percent_of(app.position as nat, app.tokens.len()) <= u16::MAX {
        percent_of(app.position as nat, app.tokens.len())
    } else {
        u16::MAX as nat
    })
    &&& status.title@ == (match app.current_section() {
        Some(i) => app.sections[i].title,
        None => "Document"@,
    })
}

/// The status bar of a session.
pub fn render(app: &App) -> (status: StatusDisplay)
    ensures
        shows_status(app@, status),
{
    let title = match app.current_section_title() {
        Some(title) => String::from_str(title),
        None => String::from_str("Document"),
    };
    let mut label = String::new();
    push_char(&mut label, ' ');
    push_char(&mut label, ' ');
    push_decimal(&mut label, app.wpm() as usize);
    label.append(" WPM  ");
    if app.is_paused() {
        push_char(&mut label, '|');
        push_char(&mut label, '|');
    } else {
        push_char(&mut label, '>');
    }
    assert(label@ =~= status_label(app@.wpm, app@.paused));
    StatusDisplay { title, percent: progress_percent(app), label }
}

} // verus!
