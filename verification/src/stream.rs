//! The timed token stream: every token of a document with its display time
//! and the index of its highlighted character.

use crate::orp::{calculate_orp, orp};
use crate::timing::{calculate_duration, duration_ms, MIN_DURATION_MS};
use crate::types::{lemma_views_push, views, TimedToken, TimedTokenView, Token, TokenView};
use vstd::prelude::*;

verus! {

/// A token with its display time at `wpm` words per minute and with its
/// optimal recognition point.
pub open spec fn timed(token: TokenView, wpm: u16) -> TimedTokenView {
    TimedTokenView {
        token,
        duration_ms: duration_ms(token.timing_hint, wpm) as u64,
        orp_position: orp(token.word) as usize,
    }
}

/// The stream of the tokens, each timed.
pub open spec fn timed_stream(tokens: Seq<TokenView>, wpm: u16) -> Seq<TimedTokenView> {
    tokens.map_values(|token: TokenView| timed(token, wpm))
}

/// Build the timed token stream of the tokens of a document, in order.
///
/// Every token is shown for at least `MIN_DURATION_MS`, and its
/// highlighted index lies inside its word.
pub fn build_timed_tokens(tokens: &Vec<Token>, wpm: u16) -> (stream: Vec<TimedToken>)
    requires
        wpm > 0,
    ensures
        views(stream@) == timed_stream(views(tokens@), wpm),
        stream@.len() == tokens@.len(),
        forall|i: int|
            0 <= i < stream@.len() ==> {
                &&& (#[trigger] stream@[i]).duration_ms >= MIN_DURATION_MS
                &&& stream@[i].token.word@.len() > 0 ==> stream@[i].orp_position
                    < stream@[i].token.word@.len()
                &&& stream@[i].token.word@.len() == 0 ==> stream@[i].orp_position == 0
            },
{
    let ghost target = timed_stream(views(tokens@), wpm);
    let mut stream: Vec<TimedToken> = Vec::new();
    let mut i: usize = 0;
    assert(views(stream@) =~= target.take(0));
    while i < tokens.len()
        invariant
            i <= tokens@.len(),
            wpm > 0,
            target == timed_stream(views(tokens@), wpm),
            views(stream@) == target.take(i as int),
            stream@.len() == i,
            forall|k: int|
                0 <= k < stream@.len() ==> {
                    &&& (#[trigger] stream@[k]).duration_ms >= MIN_DURATION_MS
                    &&& stream@[k].token.word@.len() > 0 ==> stream@[k].orp_position
                        < stream@[k].token.word@.len()
                    &&& stream@[k].token.word@.len() == 0 ==> stream@[k].orp_position == 0
                },
        decreases tokens.len() - i,
    {
        let token = tokens[i].clone();
        let item = TimedToken {
            duration_ms: calculate_duration(&token, wpm),
            orp_position: calculate_orp(token.word.as_str()),
            token,
        };
        proof {
            assert(views(tokens@)[i as int] == tokens@[i as int]@);
            assert(item@ == target[i as int]);
            lemma_views_push(stream@, item);
            assert(target.take(i + 1) =~= target.take(i as int).push(target[i as int]));
        }
        stream.push(item);
        i = i + 1;
    }
    assert(target.take(tokens@.len() as int) =~= target);
    stream
}

} // verus!
