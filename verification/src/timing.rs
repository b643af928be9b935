//! The timing model: how long a word stays on screen, from its length, its
//! trailing punctuation, its place in the structure and the reading speed.

use crate::text::char_count;
use crate::types::{TimingHint, Token};
use vstd::arithmetic::div_mod::{
    lemma_div_is_ordered, lemma_div_is_ordered_by_denominator, lemma_fundamental_div_mod,
    lemma_fundamental_div_mod_converse,
};
use vstd::prelude::*;

verus! {

/// The reading speed, in words per minute, at which the modifiers of a
/// timing hint apply unscaled.
pub const CALIBRATION_WPM: u64 = 300;

/// No word is shown for less than this many milliseconds.
pub const MIN_DURATION_MS: u64 = 50;

/// Words of up to this many characters get no length modifier.
pub const SHORT_WORD_CHARS: usize = 6;

/// Beyond this many characters each further character costs more.
pub const LONG_WORD_CHARS: usize = 10;

/// Milliseconds for each character beyond `SHORT_WORD_CHARS`.
pub const CHAR_PAUSE_MS: i32 = 10;

/// Milliseconds for each character beyond `LONG_WORD_CHARS`.
pub const LONG_CHAR_PAUSE_MS: i32 = 15;

/// The modifier of a word that ends in `.`, `!` or `?`.
pub const SENTENCE_PAUSE_MS: i32 = 200;

/// The modifier of a word that ends in `,`, `:` or `;`.
pub const CLAUSE_PAUSE_MS: i32 = 150;

/// The modifier of a word that ends a paragraph or a table row.
pub const PARAGRAPH_PAUSE_MS: i32 = 300;

/// The modifier of the first word of a newly entered block.
pub const BLOCK_PAUSE_MS: i32 = 150;

/// The length modifier of a word of `len` characters, before it is fitted
/// into an `i32`.
pub open spec fn word_length_pause(len: nat) -> int {
    if len <= SHORT_WORD_CHARS {
        0
    } else if len <= LONG_WORD_CHARS {
        (len - SHORT_WORD_CHARS) * CHAR_PAUSE_MS
    } else {
        (LONG_WORD_CHARS - SHORT_WORD_CHARS) * CHAR_PAUSE_MS + (len - LONG_WORD_CHARS)
            * LONG_CHAR_PAUSE_MS
    }
}

/// The length modifier of a word of `len` characters: `word_length_pause`,
/// held at `i32::MAX` where it would exceed it.
pub open spec fn word_length_modifier(len: nat) -> i32 {
    if word_length_pause(len) <= i32::MAX {
        word_length_pause(len) as i32
    } else {
        i32::MAX
    }
}

/// Whether `c` ends a sentence.
pub open spec fn ends_sentence(c: char) -> bool {
    c == '.' || c == '!' || c == '?'
}

/// Whether `c` ends a clause.
pub open spec fn ends_clause(c: char) -> bool {
    c == ',' || c == ':' || c == ';'
}

/// The punctuation modifier of a word, by its last character.
pub open spec fn punctuation_modifier(word: Seq<char>) -> i32 {
    if word.len() == 0 {
        0
    } else if ends_sentence(word.last()) {
        SENTENCE_PAUSE_MS
    } else if ends_clause(word.last()) {
        CLAUSE_PAUSE_MS
    } else {
        0
    }
}

/// The structure modifier: the end of a paragraph or of a table row wins
/// over the start of a block.
pub open spec fn structure_modifier(
    is_paragraph_end: bool,
    is_new_block: bool,
    is_last_table_cell: bool,
) -> i32 {
    if is_paragraph_end || is_last_table_cell {
        PARAGRAPH_PAUSE_MS
    } else if is_new_block {
        BLOCK_PAUSE_MS
    } else {
        0
    }
}

/// The timing hint of a word in its place.
pub open spec fn timing_hint(
    word: Seq<char>,
    is_paragraph_end: bool,
    is_new_block: bool,
    is_last_table_cell: bool,
    is_cell_start: bool,
    table_column: Option<usize>,
) -> TimingHint {
    TimingHint {
        word_length_modifier: word_length_modifier(word.len()),
        punctuation_modifier: punctuation_modifier(word),
        structure_modifier: structure_modifier(is_paragraph_end, is_new_block, is_last_table_cell),
        is_cell_start,
        table_column,
    }
}

/// The display time of a word with the given hint at `wpm` words per minute:
/// the base time `60000 / wpm` plus the modifiers scaled by
/// `CALIBRATION_WPM / wpm`, rounded to the nearest millisecond (halves up),
/// and never less than `MIN_DURATION_MS`.
pub open spec fn duration_ms(hint: TimingHint, wpm: u16) -> int {
    let base = 60000int / (wpm as int);
    let scaled = (2 * CALIBRATION_WPM * hint.total() + wpm) / (2 * wpm);
    if base + scaled < MIN_DURATION_MS {
        MIN_DURATION_MS as int
    } else {
        base + scaled
    }
}

/// Calculate display duration for a token at given WPM, in milliseconds.
#[must_use]
pub fn calculate_duration(token: &Token, wpm: u16) -> (ms: u64)
    requires
        wpm > 0,
    ensures
        ms == duration_ms(token.timing_hint, wpm),
        ms >= MIN_DURATION_MS,
{
    let base: i64 = 60_000 / (wpm as i64);
    let total: i64 = token.timing_hint.word_length_modifier as i64
        + token.timing_hint.punctuation_modifier as i64
        + token.timing_hint.structure_modifier as i64;
    let den: i64 = 2 * (wpm as i64);
    let num: i64 = 600 * total + (wpm as i64);
    let scaled: i64 = if num >= 0 {
        num / den
    } else {
        let below: i64 = -num;
        let q: i64 = below / den;
        let r: i64 = below % den;
        proof {
            lemma_fundamental_div_mod(below as int, den as int);
        }
        if r == 0 {
            proof {
                assert(num as int == (-q) * den + 0) by (nonlinear_arith)
                    requires
                        below as int == den * q + r,
                        r == 0,
                        num as int == -below,
                ;
                lemma_fundamental_div_mod_converse(num as int, den as int, -q as int, 0);
            }
            -q
        } else {
            proof {
                assert(num as int == (-q - 1) * den + (den - r)) by (nonlinear_arith)
                    requires
                        below as int == den * q + r,
                        num as int == -below,
                ;
                lemma_fundamental_div_mod_converse(
                    num as int,
                    den as int,
                    -q - 1,
                    den - r,
                );
            }
            -q - 1
        }
    };
    assert(scaled == (2 * CALIBRATION_WPM * token.timing_hint.total() + wpm) / (2 * wpm));
    if base + scaled < 50 {
        50
    } else {
        (base + scaled) as u64
    }
}

/// Generate timing hints based on word characteristics.
#[must_use]
pub fn generate_timing_hint(
    word: &str,
    is_paragraph_end: bool,
    is_new_block: bool,
    is_last_table_cell: bool,
    is_cell_start: bool,
    table_column: Option<usize>,
) -> (hint: TimingHint)
    ensures
        hint == timing_hint(
            word@,
            is_paragraph_end,
            is_new_block,
            is_last_table_cell,
            is_cell_start,
            table_column,
        ),
        hint.wf(),
{
    let len = char_count(word);
    let length_modifier: i32 = if len > 10 {
        let extra: usize = len - 10;
        if extra > 143165573 {
            i32::MAX
        } else {
            (40 + extra * 15) as i32
        }
    } else if len > 6 {
        ((len - 6) * 10) as i32
    } else {
        0
    };
    let punctuation: i32 = if len == 0 {
        0
    } else {
        let last = word.get_char(len - 1);
        if last == '.' || last == '!' || last == '?' {
            200
        } else if last == ',' || last == ':' || last == ';' {
            150
        } else {
            0
        }
    };
    let structure: i32 = if is_paragraph_end || is_last_table_cell {
        300
    } else if is_new_block {
        150
    } else {
        0
    };
    TimingHint {
        word_length_modifier: length_modifier,
        punctuation_modifier: punctuation,
        structure_modifier: structure,
        is_cell_start,
        table_column,
    }
}

/// The length modifier is zero for words of up to six characters, and from
/// there on grows with every further character, as long as it fits an `i32`.
/// It depends on the number of characters alone.
pub proof fn lemma_word_length_modifier(len: nat, longer: nat)
    requires
        len < longer,
    ensures
        len <= 6 ==> word_length_modifier(len) == 0,
        word_length_modifier(len) <= word_length_modifier(longer),
        longer > 6 && word_length_pause(longer) <= i32::MAX ==> word_length_modifier(len)
            < word_length_modifier(longer),
{
}

/// Two words of the same number of characters get the same length modifier,
/// whatever their characters are.
pub proof fn lemma_word_length_modifier_ignores_characters(
    a: Seq<char>,
    b: Seq<char>,
    a_end: bool,
    a_new: bool,
    a_last: bool,
    b_end: bool,
    b_new: bool,
    b_last: bool,
)
    requires
        a.len() == b.len(),
    ensures
        timing_hint(a, a_end, a_new, a_last, false, None).word_length_modifier == timing_hint(
            b,
            b_end,
            b_new,
            b_last,
            false,
            None,
        ).word_length_modifier,
{
}

/// In a table row, a word of the last cell has a strictly greater structure
/// modifier than a word of another cell that does not end a paragraph.
pub proof fn lemma_last_cell_pause(
    last_word: Seq<char>,
    last_end: bool,
    last_new: bool,
    other_word: Seq<char>,
    other_new: bool,
)
    ensures
        timing_hint(last_word, last_end, last_new, true, false, None).structure_modifier
            > timing_hint(other_word, false, other_new, false, false, None).structure_modifier,
{
}

/// The display time never falls below the floor, whatever the modifiers.
pub proof fn lemma_duration_floor(hint: TimingHint, wpm: u16)
    ensures
        duration_ms(hint, wpm) >= MIN_DURATION_MS,
{
}

/// For a hint without a negative sum of modifiers, a higher reading speed
/// never gives a longer display time.
pub proof fn lemma_duration_monotonic(hint: TimingHint, slow: u16, fast: u16)
    requires
        0 < slow <= fast,
        hint.total() >= 0,
    ensures
        duration_ms(hint, fast) <= duration_ms(hint, slow),
{
    let t = hint.total();
    lemma_div_is_ordered_by_denominator(60000, slow as int, fast as int);
    let n_slow = 600 * t + slow;
    let n_fast = 600 * t + fast;
    let q_slow = n_slow / (2 * slow);
    let q_fast = n_fast / (2 * fast);
    // q_fast is the floor of n_fast / (2 fast); show q_fast <= q_slow by
    // showing that q_fast * (2 slow) <= n_slow.
    lemma_fundamental_div_mod(n_fast, 2 * fast);
    lemma_fundamental_div_mod(n_slow, 2 * slow);
    assert(q_fast >= 0) by {
        lemma_div_is_ordered(0, n_fast, 2 * fast);
    }
    assert(q_fast * (2 * fast) <= n_fast) by (nonlinear_arith)
        requires
            n_fast == (2 * fast) * q_fast + n_fast % (2 * fast),
            0 <= n_fast % (2 * fast),
    ;
    assert(q_fast * (2 * slow) <= n_slow) by (nonlinear_arith)
        requires
            q_fast * (2 * fast) <= n_fast,
            n_fast == 600 * t + fast,
            n_slow == 600 * t + slow,
            0 < slow <= fast,
            t >= 0,
            q_fast >= 0,
    ;
    assert(q_fast <= q_slow) by (nonlinear_arith)
        requires
            q_fast * (2 * slow) <= n_slow,
            n_slow == (2 * slow) * q_slow + n_slow % (2 * slow),
            n_slow % (2 * slow) < 2 * slow,
            slow > 0,
    ;
}

} // verus!
