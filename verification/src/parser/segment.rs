//! The word segmenter: splits a run of text into the words that are shown
//! one at a time, and recognises the marker that opens a callout.

use crate::text::{
    chars_of, is_whitespace, string_of, string_of_range, to_lowercase, unicode_lowercase,
    unicode_whitespace,
};
use crate::types::{lemma_views_add, lemma_views_push, views};
use vstd::prelude::*;

verus! {

/// A class of characters at which text is split.
#[derive(Debug, Clone, Copy)]
pub enum Boundary {
    /// Any whitespace character.
    Whitespace,
    /// An em dash or an en dash.
    Dash,
    /// The ASCII hyphen.
    Hyphen,
}

impl Boundary {
    /// Whether text is split at `c`.
    pub open spec fn splits_at(self, c: char) -> bool {
        match self {
            Boundary::Whitespace => unicode_whitespace(c),
            Boundary::Dash => c == '\u{2014}' || c == '\u{2013}',
            Boundary::Hyphen => c == '-',
        }
    }

    fn test(self, c: char) -> (r: bool)
        ensures
            r == self.splits_at(c),
    {
        match self {
            Boundary::Whitespace => is_whitespace(c),
            Boundary::Dash => c == '\u{2014}' || c == '\u{2013}',
            Boundary::Hyphen => c == '-',
        }
    }
}

/// The pieces of `s` between its boundary characters, in order. There is
/// one piece more than there are boundary characters, and a piece is empty
/// where two of them meet or one stands at an end.
pub open spec fn pieces(s: Seq<char>, b: Boundary) -> Seq<Seq<char>>
    decreases s.len(),
{
    if s.len() == 0 {
        seq![Seq::empty()]
    } else {
        let before = pieces(s.drop_last(), b);
        if b.splits_at(s.last()) {
            before.push(Seq::empty())
        } else {
            before.drop_last().push(before.last().push(s.last()))
        }
    }
}

/// The pieces of each part, one part after the other.
pub open spec fn pieces_of_each(parts: Seq<Seq<char>>, b: Boundary) -> Seq<Seq<char>>
    decreases parts.len(),
{
    if parts.len() == 0 {
        Seq::empty()
    } else {
        pieces_of_each(parts.drop_last(), b) + pieces(parts.last(), b)
    }
}

/// Whether one of the portions has more than three characters.
pub open spec fn has_long_portion(portions: Seq<Seq<char>>) -> bool {
    exists|i: int| 0 <= i < portions.len() && (#[trigger] portions[i]).len() > 3
}

/// The portions, each but the last with a hyphen at its end.
pub open spec fn with_trailing_hyphens(portions: Seq<Seq<char>>) -> Seq<Seq<char>> {
    Seq::new(
        portions.len(),
        |i: int|
            if i + 1 < portions.len() {
                portions[i].push('-')
            } else {
                portions[i]
            },
    )
}

/// The words of a hyphenated run: where one of the portions between its
/// hyphens has more than three characters, the portions, each but the last
/// keeping its hyphen; else the run as it is.
pub open spec fn hyphen_split(word: Seq<char>) -> Seq<Seq<char>> {
    let portions = pieces(word, Boundary::Hyphen);
    if portions.len() >= 2 && has_long_portion(portions) {
        with_trailing_hyphens(portions)
    } else {
        seq![word]
    }
}

/// The words of each part, one part after the other.
pub open spec fn hyphen_split_each(parts: Seq<Seq<char>>) -> Seq<Seq<char>>
    decreases parts.len(),
{
    if parts.len() == 0 {
        Seq::empty()
    } else {
        hyphen_split_each(parts.drop_last()) + hyphen_split(parts.last())
    }
}

/// The words that are not empty, in order.
pub open spec fn non_empty(words: Seq<Seq<char>>) -> Seq<Seq<char>>
    decreases words.len(),
{
    if words.len() == 0 {
        Seq::empty()
    } else if words.last().len() > 0 {
        non_empty(words.drop_last()).push(words.last())
    } else {
        non_empty(words.drop_last())
    }
}

/// The words of a run of text: it is split at whitespace, each piece at em
/// and en dashes, each of those at its hyphens as `hyphen_split` says, and
/// what is empty is dropped.
pub open spec fn segment(text: Seq<char>) -> Seq<Seq<char>> {
    non_empty(
        hyphen_split_each(pieces_of_each(pieces(text, Boundary::Whitespace), Boundary::Dash)),
    )
}

/// There is always at least one piece, and no piece holds a boundary
/// character.
pub proof fn lemma_pieces(s: Seq<char>, b: Boundary)
    ensures
        pieces(s, b).len() >= 1,
        forall|i: int, j: int|
            0 <= i < pieces(s, b).len() && 0 <= j < pieces(s, b)[i].len() ==> !b.splits_at(
                #[trigger] pieces(s, b)[i][j],
            ),
    decreases s.len(),
{
    if s.len() > 0 {
        lemma_pieces(s.drop_last(), b);
    }
}

/// No word of a segmented text is empty.
pub proof fn lemma_non_empty(words: Seq<Seq<char>>)
    ensures
        forall|i: int| 0 <= i < non_empty(words).len() ==> (#[trigger] non_empty(words)[i]).len() > 0,
    decreases words.len(),
{
    if words.len() > 0 {
        lemma_non_empty(words.drop_last());
        let before = non_empty(words.drop_last());
        assert forall|i: int| 0 <= i < non_empty(words).len() implies (#[trigger] non_empty(
            words,
        )[i]).len() > 0 by {
            if i < before.len() {
                assert(non_empty(words)[i] == before[i]);
            }
        }
    }
}

fn copy_chars(v: &Vec<char>) -> (r: Vec<char>)
    ensures
        r@ == v@,
{
    let mut r: Vec<char> = Vec::new();
    let mut i: usize = 0;
    while i < v.len()
        invariant
            i <= v.len(),
            r@ == v@.take(i as int),
        decreases v.len() - i,
    {
        r.push(v[i]);
        assert(v@.take(i + 1) =~= v@.take(i as int).push(v@[i as int]));
        i = i + 1;
    }
    assert(v@.take(v.len() as int) =~= v@);
    r
}

fn split_pieces(s: &Vec<char>, b: Boundary) -> (r: Vec<Vec<char>>)
    ensures
        views(r@) == pieces(s@, b),
{
    let mut done: Vec<Vec<char>> = Vec::new();
    let mut current: Vec<char> = Vec::new();
    let mut i: usize = 0;
    assert(views(done@).push(current@) =~= pieces(s@.take(0), b));
    while i < s.len()
        invariant
            i <= s.len(),
            views(done@).push(current@) == pieces(s@.take(i as int), b),
        decreases s.len() - i,
    {
        let c = s[i];
        let ghost before = pieces(s@.take(i as int), b);
        proof {
            assert(s@.take(i + 1).drop_last() =~= s@.take(i as int));
            assert(s@.take(i + 1).last() == c);
        }
        if b.test(c) {
            proof {
                lemma_views_push(done@, current);
            }
            done.push(current);
            current = Vec::new();
        } else {
            current.push(c);
            proof {
                assert(before.drop_last() =~= views(done@));
                assert(before.last() == current@.drop_last());
                assert(current@ =~= before.last().push(c));
            }
        }
        i = i + 1;
    }
    proof {
        assert(s@.take(s.len() as int) =~= s@);
        lemma_views_push(done@, current);
    }
    done.push(current);
    done
}

fn split_each(parts: &Vec<Vec<char>>, b: Boundary) -> (r: Vec<Vec<char>>)
    ensures
        views(r@) == pieces_of_each(views(parts@), b),
{
    let mut out: Vec<Vec<char>> = Vec::new();
    let mut i: usize = 0;
    assert(views(parts@).take(0) =~= Seq::<Seq<char>>::empty());
    assert(views(out@) =~= Seq::<Seq<char>>::empty());
    while i < parts.len()
        invariant
            i <= parts.len(),
            views(out@) == pieces_of_each(views(parts@).take(i as int), b),
        decreases parts.len() - i,
    {
        let mut sub = split_pieces(&parts[i], b);
        proof {
            lemma_views_add(out@, sub@);
            assert(views(parts@).take(i + 1).drop_last() =~= views(parts@).take(i as int));
            assert(views(parts@).take(i + 1).last() == parts@[i as int]@);
        }
        out.append(&mut sub);
        i = i + 1;
    }
    assert(views(parts@).take(parts.len() as int) =~= views(parts@));
    out
}

fn split_hyphenated(word: &Vec<char>) -> (r: Vec<Vec<char>>)
    ensures
        views(r@) == hyphen_split(word@),
{
    let portions = split_pieces(word, Boundary::Hyphen);
    let ghost model = pieces(word@, Boundary::Hyphen);
    let n = portions.len();
    assert(n == model.len()) by {
        assert(views(portions@).len() == portions@.len());
    }
    let mut long_found = false;
    let mut k: usize = 0;
    while k < n
        invariant
            k <= n == portions.len(),
            views(portions@) == model,
            long_found <==> exists|i: int| 0 <= i < k && (#[trigger] model[i]).len() > 3,
        decreases n - k,
    {
        assert(model[k as int] == portions@[k as int]@);
        if portions[k].len() > 3 {
            long_found = true;
        }
        k = k + 1;
    }
    if n < 2 || !long_found {
        let mut only: Vec<Vec<char>> = Vec::new();
        only.push(copy_chars(word));
        assert(views(only@) =~= seq![word@]);
        return only;
    }
    let mut out: Vec<Vec<char>> = Vec::new();
    let mut i: usize = 0;
    while i < n
        invariant
            i <= n == portions.len(),
            views(portions@) == model,
            views(out@) == with_trailing_hyphens(model).take(i as int),
        decreases n - i,
    {
        let mut portion = copy_chars(&portions[i]);
        assert(model[i as int] == portions@[i as int]@);
        if i + 1 < n {
            portion.push('-');
        }
        proof {
            lemma_views_push(out@, portion);
            assert(with_trailing_hyphens(model).take(i + 1) =~= with_trailing_hyphens(model).take(
                i as int,
            ).push(portion@));
        }
        out.push(portion);
        i = i + 1;
    }
    assert(with_trailing_hyphens(model).take(n as int) =~= with_trailing_hyphens(model));
    out
}

fn split_hyphenated_each(parts: &Vec<Vec<char>>) -> (r: Vec<Vec<char>>)
    ensures
        views(r@) == hyphen_split_each(views(parts@)),
{
    let mut out: Vec<Vec<char>> = Vec::new();
    let mut i: usize = 0;
    assert(views(parts@).take(0) =~= Seq::<Seq<char>>::empty());
    assert(views(out@) =~= Seq::<Seq<char>>::empty());
    while i < parts.len()
        invariant
            i <= parts.len(),
            views(out@) == hyphen_split_each(views(parts@).take(i as int)),
        decreases parts.len() - i,
    {
        let mut sub = split_hyphenated(&parts[i]);
        proof {
            lemma_views_add(out@, sub@);
            assert(views(parts@).take(i + 1).drop_last() =~= views(parts@).take(i as int));
            assert(views(parts@).take(i + 1).last() == parts@[i as int]@);
        }
        out.append(&mut sub);
        i = i + 1;
    }
    assert(views(parts@).take(parts.len() as int) =~= views(parts@));
    out
}

fn strings_of_non_empty(words: &Vec<Vec<char>>) -> (r: Vec<String>)
    ensures
        views(r@) == non_empty(views(words@)),
{
    let mut out: Vec<String> = Vec::new();
    let mut i: usize = 0;
    assert(views(words@).take(0) =~= Seq::<Seq<char>>::empty());
    assert(views(out@) =~= Seq::<Seq<char>>::empty());
    while i < words.len()
        invariant
            i <= words.len(),
            views(out@) == non_empty(views(words@).take(i as int)),
        decreases words.len() - i,
    {
        proof {
            assert(views(words@).take(i + 1).drop_last() =~= views(words@).take(i as int));
            assert(views(words@).take(i + 1).last() == words@[i as int]@);
        }
        if words[i].len() > 0 {
            let word = string_of(&words[i]);
            proof {
                lemma_views_push(out@, word);
            }
            out.push(word);
        }
        i = i + 1;
    }
    assert(views(words@).take(words.len() as int) =~= views(words@));
    out
}

/// Split text into words, respecting Unicode boundaries.
///
/// Em dashes and en dashes separate words. A hyphenated word is split when
/// one of its portions has more than three characters, each portion but
/// the last keeping its hyphen. No word is empty.
pub fn split_into_words(text: &str) -> (words: Vec<String>)
    ensures
        views(words@) == segment(text@),
        forall|i: int| 0 <= i < words@.len() ==> (#[trigger] words@[i])@.len() > 0,
{
    let chars = chars_of(text);
    let runs = split_pieces(&chars, Boundary::Whitespace);
    let parts = split_each(&runs, Boundary::Dash);
    let split = split_hyphenated_each(&parts);
    let words = strings_of_non_empty(&split);
    proof {
        lemma_non_empty(views(split@));
        assert forall|i: int| 0 <= i < words@.len() implies (#[trigger] words@[i])@.len() > 0 by {
            assert(views(words@)[i] == words@[i]@);
        }
    }
    words
}

/// Split a hyphenated word when one of its portions has more than three
/// characters, keeping the hyphens at the ends of the portions before them.
pub fn split_hyphenated_word(word: &str) -> (words: Vec<String>)
    ensures
        views(words@) == hyphen_split(word@),
{
    let chars = chars_of(word);
    let split = split_hyphenated(&chars);
    let mut out: Vec<String> = Vec::new();
    let mut i: usize = 0;
    assert(views(out@) =~= views(split@).take(0));
    while i < split.len()
        invariant
            i <= split.len(),
            views(out@) == views(split@).take(i as int),
        decreases split.len() - i,
    {
        let word = string_of(&split[i]);
        proof {
            lemma_views_push(out@, word);
            assert(views(split@).take(i + 1) =~= views(split@).take(i as int).push(
                split@[i as int]@,
            ));
        }
        out.push(word);
        i = i + 1;
    }
    assert(views(split@).take(split.len() as int) =~= views(split@));
    out
}

/// `s` without the whitespace at its start.
pub open spec fn trim_start(s: Seq<char>) -> Seq<char>
    decreases s.len(),
{
    if s.len() > 0 && unicode_whitespace(s[0]) {
        trim_start(s.drop_first())
    } else {
        s
    }
}

/// `s` without the whitespace at its end.
pub open spec fn trim_end(s: Seq<char>) -> Seq<char>
    decreases s.len(),
{
    if s.len() > 0 && unicode_whitespace(s.last()) {
        trim_end(s.drop_last())
    } else {
        s
    }
}

/// `s` without the whitespace at its start and at its end.
pub open spec fn trimmed(s: Seq<char>) -> Seq<char> {
    trim_end(trim_start(s))
}

/// The index of the first `c` in `s`, or the length of `s` where it has none.
pub open spec fn first_index(s: Seq<char>, c: char) -> int
    decreases s.len(),
{
    if s.len() == 0 || s[0] == c {
        0
    } else {
        1 + first_index(s.drop_first(), c)
    }
}

/// The kind of callout that a text opens: the text, trimmed, must begin
/// with `[!` and hold a `]`; the kind is what stands between them, in
/// lowercase.
pub open spec fn callout_kind(text: Seq<char>) -> Option<Seq<char>> {
    let t = trimmed(text);
    if t.len() >= 2 && t[0] == '[' && t[1] == '!' && first_index(t, ']') < t.len() {
        Some(unicode_lowercase(t.subrange(2, first_index(t, ']'))))
    } else {
        None
    }
}

proof fn lemma_trim_start(s: Seq<char>, i: int)
    requires
        0 <= i <= s.len(),
        forall|j: int| 0 <= j < i ==> unicode_whitespace(#[trigger] s[j]),
        i == s.len() || !unicode_whitespace(s[i]),
    ensures
        trim_start(s) == s.skip(i),
    decreases i,
{
    if i > 0 {
        let rest = s.drop_first();
        assert(unicode_whitespace(s[0]));
        assert forall|j: int| 0 <= j < i - 1 implies unicode_whitespace(#[trigger] rest[j]) by {
            assert(rest[j] == s[j + 1]);
        }
        lemma_trim_start(rest, i - 1);
        assert(rest.skip(i - 1) =~= s.skip(i));
    } else {
        assert(s.skip(0) =~= s);
    }
}

proof fn lemma_trim_end(s: Seq<char>, e: int)
    requires
        0 <= e <= s.len(),
        forall|j: int| e <= j < s.len() ==> unicode_whitespace(#[trigger] s[j]),
        e == 0 || !unicode_whitespace(s[e - 1]),
    ensures
        trim_end(s) == s.take(e),
    decreases s.len() - e,
{
    if e < s.len() {
        let rest = s.drop_last();
        assert(unicode_whitespace(s[s.len() - 1]));
        assert forall|j: int| e <= j < rest.len() implies unicode_whitespace(#[trigger] rest[j]) by {
            assert(rest[j] == s[j]);
        }
        lemma_trim_end(rest, e);
        assert(rest.take(e) =~= s.take(e));
    } else {
        assert(s.take(e) =~= s);
    }
}

proof fn lemma_first_index(s: Seq<char>, c: char, k: int)
    requires
        0 <= k <= s.len(),
        forall|j: int| 0 <= j < k ==> #[trigger] s[j] != c,
        k == s.len() || s[k] == c,
    ensures
        first_index(s, c) == k,
    decreases k,
{
    if k > 0 {
        let rest = s.drop_first();
        assert(s[0] != c);
        assert forall|j: int| 0 <= j < k - 1 implies #[trigger] rest[j] != c by {
            assert(rest[j] == s[j + 1]);
        }
        lemma_first_index(rest, c, k - 1);
    }
}

/// Where the trimmed form of `chars` begins and ends.
pub fn trim_range(chars: &Vec<char>) -> (r: (usize, usize))
    ensures
        r.0 <= r.1 <= chars@.len(),
        trimmed(chars@) == chars@.subrange(r.0 as int, r.1 as int),
{
    let n = chars.len();
    let mut start: usize = 0;
    while start < n && is_whitespace(chars[start])
        invariant
            start <= n == chars.len(),
            forall|j: int| 0 <= j < start ==> unicode_whitespace(#[trigger] chars@[j]),
        decreases n - start,
    {
        start = start + 1;
    }
    let mut end: usize = n;
    while end > start && is_whitespace(chars[end - 1])
        invariant
            start <= end <= n == chars.len(),
            forall|j: int| end <= j < n ==> unicode_whitespace(#[trigger] chars@[j]),
        decreases end,
    {
        end = end - 1;
    }
    proof {
        lemma_trim_start(chars@, start as int);
        let tail = chars@.skip(start as int);
        assert forall|j: int| end - start <= j < tail.len() implies unicode_whitespace(
            #[trigger] tail[j],
        ) by {
            assert(tail[j] == chars@[j + start]);
        }
        lemma_trim_end(tail, end - start);
        assert(tail.take(end - start) =~= chars@.subrange(start as int, end as int));
    }
    (start, end)
}

/// Detect the kind of a callout from text like `[!note]`, which may stand
/// between whitespace and be followed by more. Returns the kind in
/// lowercase, or `None` where the text opens no callout.
pub fn detect_callout_type(text: &str) -> (kind: Option<String>)
    ensures
        match kind {
            Some(k) => callout_kind(text@) == Some(k@),
            None => callout_kind(text@) is None,
        },
{
    let chars = chars_of(text);
    let n = chars.len();
    let (start, end) = trim_range(&chars);
    let ghost t = chars@.subrange(start as int, end as int);
    if end - start < 2 || chars[start] != '[' || chars[start + 1] != '!' {
        return None;
    }
    let mut close: usize = start;
    while close < end && chars[close] != ']'
        invariant
            start <= close <= end <= n == chars.len(),
            t == chars@.subrange(start as int, end as int),
            forall|j: int| 0 <= j < close - start ==> #[trigger] t[j] != ']',
        decreases end - close,
    {
        close = close + 1;
    }
    proof {
        lemma_first_index(t, ']', close - start);
    }
    if close == end {
        return None;
    }
    let raw = string_of_range(&chars, start + 2, close);
    assert(raw@ =~= t.subrange(2, close - start));
    Some(to_lowercase(raw.as_str()))
}

} // verus!
