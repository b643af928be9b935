//! The optimal recognition point: the character of a word on which the eye
//! should rest, and which the display highlights.

use crate::text::{chars_of, is_alphabetic, unicode_alphabetic};
use vstd::prelude::*;

verus! {

/// The number of characters before the first alphabetic character of `word`
/// (all of them, where it has none).
pub open spec fn leading_non_alphabetic(word: Seq<char>) -> nat
    decreases word.len(),
{
    if word.len() == 0 || unicode_alphabetic(word[0]) {
        0
    } else {
        1 + leading_non_alphabetic(word.drop_first())
    }
}

/// The number of alphabetic characters of `word`.
pub open spec fn alphabetic_count(word: Seq<char>) -> nat
    decreases word.len(),
{
    if word.len() == 0 {
        0
    } else {
        (if unicode_alphabetic(word[0]) {
            1nat
        } else {
            0nat
        }) + alphabetic_count(word.drop_first())
    }
}

/// How far into its letters a word of `letters` alphabetic characters is
/// fixated.
pub open spec fn orp_offset(letters: nat) -> nat {
    if letters <= 3 {
        0
    } else if letters <= 6 {
        1
    } else if letters <= 9 {
        2
    } else {
        3
    }
}

/// The index of the character of `word` to highlight: the offset that its
/// number of letters calls for, counted from its first letter. A word
/// without a letter is treated as if all its characters were letters.
pub open spec fn orp(word: Seq<char>) -> nat {
    if alphabetic_count(word) == 0 {
        orp_offset(word.len())
    } else {
        leading_non_alphabetic(word) + orp_offset(alphabetic_count(word))
    }
}

proof fn lemma_leading_is_first_letter(word: Seq<char>, i: int)
    requires
        0 <= i <= word.len(),
        forall|j: int| 0 <= j < i ==> !unicode_alphabetic(#[trigger] word[j]),
        i == word.len() || unicode_alphabetic(word[i]),
    ensures
        leading_non_alphabetic(word) == i,
    decreases i,
{
    if i > 0 {
        let rest = word.drop_first();
        assert(!unicode_alphabetic(word[0]));
        assert forall|j: int| 0 <= j < i - 1 implies !unicode_alphabetic(#[trigger] rest[j]) by {
            assert(rest[j] == word[j + 1]);
        }
        lemma_leading_is_first_letter(rest, i - 1);
    }
}

/// The characters before the first letter and the letters are different
/// characters of the word.
pub proof fn lemma_letters_follow_prefix(word: Seq<char>)
    ensures
        leading_non_alphabetic(word) + alphabetic_count(word) <= word.len(),
        alphabetic_count(word) <= word.len(),
    decreases word.len(),
{
    if word.len() > 0 {
        lemma_letters_follow_prefix(word.drop_first());
    }
}

/// The highlighted index lies inside the word: it is below the number of
/// characters, or zero for the empty word.
pub proof fn lemma_orp_in_word(word: Seq<char>)
    ensures
        0 <= orp(word) < (if word.len() >= 1 {
            word.len()
        } else {
            1
        }),
{
    lemma_letters_follow_prefix(word);
}

/// A word without a letter is highlighted where a word of as many letters
/// would be.
pub proof fn lemma_orp_without_letters(word: Seq<char>)
    requires
        alphabetic_count(word) == 0,
    ensures
        orp(word) == orp_offset(word.len()),
{
}

/// From three letters to four, and from six to seven, the offset grows by
/// exactly one; in between it stays.
pub proof fn lemma_orp_offset_steps()
    ensures
        orp_offset(4) == orp_offset(3) + 1,
        orp_offset(7) == orp_offset(6) + 1,
        orp_offset(1) == orp_offset(3),
        orp_offset(4) == orp_offset(6),
        orp_offset(7) == orp_offset(9),
        forall|a: nat, b: nat| a <= b ==> orp_offset(a) <= orp_offset(b),
{
}

/// Calculate the Optimal Recognition Point for a word: the 0-indexed
/// position of the character to highlight.
///
/// Leading characters that are not letters are skipped, so that the point
/// falls on a letter; characters are counted, not bytes.
pub fn calculate_orp(word: &str) -> (index: usize)
    ensures
        index == orp(word@),
        word@.len() > 0 ==> index < word@.len(),
        word@.len() == 0 ==> index == 0,
{
    let chars = chars_of(word);
    let n = chars.len();
    let mut leading: usize = 0;
    while leading < n && !is_alphabetic(chars[leading])
        invariant
            leading <= n == chars.len(),
            forall|j: int| 0 <= j < leading ==> !unicode_alphabetic(#[trigger] chars@[j]),
        decreases n - leading,
    {
        leading = leading + 1;
    }
    proof {
        lemma_leading_is_first_letter(chars@, leading as int);
    }
    let mut letters: usize = 0;
    let mut i: usize = 0;
    assert(chars@.skip(0) =~= chars@);
    while i < n
        invariant
            i <= n == chars.len(),
            letters <= i,
            letters + alphabetic_count(chars@.skip(i as int)) == alphabetic_count(chars@),
        decreases n - i,
    {
        assert(chars@.skip(i as int).drop_first() =~= chars@.skip(i + 1));
        if is_alphabetic(chars[i]) {
            letters = letters + 1;
        }
        i = i + 1;
    }
    let counted = if letters == 0 {
        n
    } else {
        letters
    };
    let offset: usize = if counted <= 3 {
        0
    } else if counted <= 6 {
        1
    } else if counted <= 9 {
        2
    } else {
        3
    };
    proof {
        lemma_letters_follow_prefix(chars@);
    }
    if letters == 0 {
        offset
    } else {
        leading + offset
    }
}

} // verus!
