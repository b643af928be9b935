//! Constants and helpers shared across the parts of the display.

use vstd::prelude::*;

verus! {

/// A part of the screen: its left column, its top row, its width and its
/// height.
#[derive(Debug, Clone, Copy, PartialEq, Eq, Structural)]
pub struct Area {
    pub x: u16,
    pub y: u16,
    pub width: u16,
    pub height: u16,
}

/// Minimum left padding for content.
pub const MIN_PADDING: usize = 2;

/// Content is centered when it uses less than this share of the width:
/// the numerator of the share.
pub const CENTER_THRESHOLD_NUM: usize = 3;

/// The denominator of the share.
pub const CENTER_THRESHOLD_DEN: usize = 5;

/// How many characters of a guide line are dotted.
pub const FADE_DOTTED: usize = 2;

/// How many characters of a guide line are dashed.
pub const FADE_DASHED: usize = 2;

/// How many characters of a guide line brighten to full.
pub const FADE_SOLID: usize = 2;

/// The length of the fade zone of a guide line.
pub const FADE_TOTAL: usize = 6;

/// The brightness at the start of the fade zone.
pub const BRIGHTNESS_MIN: u8 = 40;

/// The brightness where the dotted zone ends.
pub const BRIGHTNESS_DOTTED_END: u8 = 60;

/// The brightness where the dashed zone ends.
pub const BRIGHTNESS_DASHED_END: u8 = 80;

/// The brightness of the guide line outside the fade zone.
pub const BRIGHTNESS_SOLID_END: u8 = 120;

/// The character and the brightness at `progress` characters into the fade
/// zone: dotted, then dashed, then solid, brighter with every character.
pub open spec fn fade_char(progress: nat) -> (char, int) {
    if progress < FADE_DOTTED {
        ('\u{2504}', BRIGHTNESS_MIN + progress * 20 / 2)
    } else if progress < FADE_DOTTED + FADE_DASHED {
        ('\u{254c}', BRIGHTNESS_DOTTED_END + (progress - FADE_DOTTED) * 20 / 2)
    } else {
        ('\u{2500}', BRIGHTNESS_DASHED_END + (progress - FADE_DOTTED - FADE_DASHED) * 40 / 2)
    }
}

/// The character and the brightness for a position in the left fade zone.
///
/// The brightness must fit a `u8`, which it does up to twelve characters
/// into the zone.
#[must_use]
pub fn fade_char_left(progress: usize) -> (r: (char, u8))
    requires
        progress <= 12,
    ensures
        r.0 == fade_char(progress as nat).0,
        r.1 == fade_char(progress as nat).1,
{
    if progress < 2 {
        ('\u{2504}', (40 + progress * 20 / 2) as u8)
    } else if progress < 4 {
        ('\u{254c}', (60 + (progress - 2) * 20 / 2) as u8)
    } else {
        ('\u{2500}', (80 + (progress - 4) * 40 / 2) as u8)
    }
}

/// The character and the brightness for a position in the right fade zone,
/// the mirror of the left one.
#[must_use]
pub fn fade_char_right(progress: usize) -> (r: (char, u8))
    requires
        progress <= 12,
    ensures
        r.0 == fade_char(progress as nat).0,
        r.1 == fade_char(progress as nat).1,
{
    fade_char_left(progress)
}

/// The left padding of content of `content_width` characters in
/// `available_width`: centered content that uses less than three fifths of
/// the width is placed in the middle; all else gets the minimum padding.
pub open spec fn padding(content_width: nat, available_width: nat, center: bool) -> nat {
    if available_width > 0 && center && content_width * CENTER_THRESHOLD_DEN < available_width
        * CENTER_THRESHOLD_NUM {
        ((available_width - content_width) / 2) as nat
    } else {
        MIN_PADDING as nat
    }
}

/// Calculate left padding for content: if `center` is true and the content
/// is short, it is centered; otherwise it is left-aligned with the minimum
/// padding.
#[must_use]
pub fn calculate_padding(content_width: usize, available_width: usize, center: bool) -> (r: usize)
    ensures
        r == padding(content_width as nat, available_width as nat, center),
{
    if available_width == 0 {
        return 2;
    }
    if center {
        let lhs: u128 = (content_width as u128) * 5;
        let rhs: u128 = (available_width as u128) * 3;
        if lhs < rhs {
            return (available_width - content_width) / 2;
        }
    }
    2
}

} // verus!
