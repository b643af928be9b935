//! The reading report: how long the words of a session were shown, by
//! tenth of the way through the text, and which words were shown longest.

use crate::types::views;
use vstd::prelude::*;

verus! {

/// How many of the slowest words a report names.
pub const SLOWEST_WORDS: usize = 10;

/// How long a word was shown.
#[derive(Debug)]
pub struct WordTiming {
    /// The index of the word in the stream.
    pub position: usize,
    pub word: String,
    pub duration_ms: u64,
}

/// The mathematical value of a [`WordTiming`].
pub struct WordTimingView {
    pub position: usize,
    pub word: Seq<char>,
    pub duration_ms: u64,
}

impl View for WordTiming {
    type V = WordTimingView;

    open spec fn view(&self) -> WordTimingView {
        WordTimingView { position: self.position, word: self.word@, duration_ms: self.duration_ms }
    }
}

impl Clone for WordTiming {
    fn clone(&self) -> (r: Self)
        ensures
            r == *self,
    {
        WordTiming {
            position: self.position,
            word: self.word.clone(),
            duration_ms: self.duration_ms,
        }
    }
}

/// The words of one tenth of the way: how many, and how long they were
/// shown on average and at most.
#[derive(Debug, Clone, Copy, PartialEq, Eq, Structural)]
pub struct BucketSummary {
    /// The tenth, from zero to ten.
    pub bucket: usize,
    pub count: usize,
    /// The average in milliseconds, rounded down.
    pub average_ms: u64,
    pub max_ms: u64,
}

/// The greatest position among the first `k` timings, zero for none.
pub open spec fn max_position(timings: Seq<WordTimingView>, k: nat) -> nat
    decreases k,
{
    if k == 0 {
        0
    } else {
        let before = max_position(timings, (k - 1) as nat);
        if timings[k - 1].position > before {
            timings[k - 1].position as nat
        } else {
            before
        }
    }
}

/// The tenth of the way that a position lies in, where the greatest
/// position is `last`.
pub open spec fn bucket_of(position: nat, last: nat) -> nat {
    if last > 0 {
        position * 10 / last
    } else {
        0
    }
}

/// Whether the timing at index `i` lies in tenth `bucket`.
pub open spec fn in_bucket(timings: Seq<WordTimingView>, i: int, bucket: nat) -> bool {
    bucket_of(timings[i].position as nat, max_position(timings, timings.len())) == bucket
}

/// How many of the first `k` timings lie in tenth `bucket`.
pub open spec fn bucket_count(timings: Seq<WordTimingView>, k: nat, bucket: nat) -> nat
    decreases k,
{
    if k == 0 {
        0
    } else {
        bucket_count(timings, (k - 1) as nat, bucket) + (if in_bucket(timings, k - 1, bucket) {
            1nat
        } else {
            0nat
        })
    }
}

/// The sum of the durations of those of the first `k` timings that lie in
/// tenth `bucket`.
pub open spec fn bucket_sum(timings: Seq<WordTimingView>, k: nat, bucket: nat) -> nat
    decreases k,
{
    if k == 0 {
        0
    } else {
        bucket_sum(timings, (k - 1) as nat, bucket) + (if in_bucket(timings, k - 1, bucket) {
            timings[k - 1].duration_ms as nat
        } else {
            0nat
        })
    }
}

/// The greatest duration of those of the first `k` timings that lie in
/// tenth `bucket`.
pub open spec fn bucket_max(timings: Seq<WordTimingView>, k: nat, bucket: nat) -> nat
    decreases k,
{
    if k == 0 {
        0
    } else {
        let before = bucket_max(timings, (k - 1) as nat, bucket);
        if in_bucket(timings, k - 1, bucket) && timings[k - 1].duration_ms > before {
            timings[k - 1].duration_ms as nat
        } else {
            before
        }
    }
}

/// The summary of tenth `bucket`, where a timing lies in it.
pub open spec fn summary_of(timings: Seq<WordTimingView>, bucket: nat) -> Option<BucketSummary> {
    let count = bucket_count(timings, timings.len(), bucket);
    if count == 0 {
        None
    } else {
        Some(
            BucketSummary {
                bucket: bucket as usize,
                count: count as usize,
                average_ms: (bucket_sum(timings, timings.len(), bucket) / count) as u64,
                max_ms: bucket_max(timings, timings.len(), bucket) as u64,
            },
        )
    }
}

/// The summaries of the tenths up to `upto`, those without a timing left
/// out.
pub open spec fn summaries(timings: Seq<WordTimingView>, upto: nat) -> Seq<BucketSummary>
    decreases upto,
{
    if upto == 0 {
        Seq::empty()
    } else {
        let before = summaries(timings, (upto - 1) as nat);
        match summary_of(timings, (upto - 1) as nat) {
            Some(summary) => before.push(summary),
            None => before,
        }
    }
}

proof fn lemma_bucket_bounds(timings: Seq<WordTimingView>, k: nat, bucket: nat)
    ensures
        bucket_count(timings, k, bucket) <= k,
        bucket_sum(timings, k, bucket) <= k * u64::MAX,
        bucket_max(timings, k, bucket) <= u64::MAX,
        bucket_max(timings, k, bucket) * bucket_count(timings, k, bucket) >= bucket_sum(
            timings,
            k,
            bucket,
        ),
    decreases k,
{
    if k > 0 {
        lemma_bucket_bounds(timings, (k - 1) as nat, bucket);
        let c = bucket_count(timings, (k - 1) as nat, bucket);
        let m = bucket_max(timings, (k - 1) as nat, bucket);
        let m2 = bucket_max(timings, k, bucket);
        assert(k * u64::MAX == (k - 1) * u64::MAX + u64::MAX) by (nonlinear_arith);
        assert(m2 * c >= m * c) by (nonlinear_arith)
            requires
                m2 >= m,
        ;
        assert(m2 * (c + 1) == m2 * c + m2) by (nonlinear_arith);
    }
}

fn greatest_position(timings: &Vec<WordTiming>) -> (last: usize)
    ensures
        last == max_position(views(timings@), timings@.len()),
{
    let mut last: usize = 0;
    let mut i: usize = 0;
    while i < timings.len()
        invariant
            i <= timings@.len(),
            last == max_position(views(timings@), i as nat),
        decreases timings.len() - i,
    {
        assert(views(timings@)[i as int] == timings@[i as int]@);
        if timings[i].position > last {
            last = timings[i].position;
        }
        i = i + 1;
    }
    last
}

proof fn lemma_max_position(timings: Seq<WordTimingView>, k: nat, i: int)
    requires
        0 <= i < k,
    ensures
        timings[i].position <= max_position(timings, k),
    decreases k,
{
    if i < k - 1 {
        lemma_max_position(timings, (k - 1) as nat, i);
    }
}

fn bucket_index(position: usize, last: usize) -> (bucket: usize)
    requires
        position <= last,
    ensures
        bucket == bucket_of(position as nat, last as nat),
        bucket <= 10,
{
    if last > 0 {
        let scaled: u128 = (position as u128) * 10 / (last as u128);
        assert(scaled <= 10) by (nonlinear_arith)
            requires
                scaled == (position * 10) / (last as int),
                position <= last,
                last > 0,
        ;
        scaled as usize
    } else {
        0
    }
}

/// Summarize how long the words were shown, by tenth of the way from the
/// first position to the greatest one: for each tenth with a word, how
/// many words, their average and their greatest duration.
pub fn summarize(timings: &Vec<WordTiming>) -> (report: Vec<BucketSummary>)
    ensures
        report@ == summaries(views(timings@), 11),
{
    let ghost model = views(timings@);
    let last = greatest_position(timings);
    let n = timings.len();
    let mut report: Vec<BucketSummary> = Vec::new();
    let mut bucket: usize = 0;
    assert(report@ =~= summaries(model, 0));
    while bucket < 11
        invariant
            bucket <= 11,
            n == timings@.len(),
            model == views(timings@),
            last == max_position(model, n as nat),
            report@ == summaries(model, bucket as nat),
        decreases 11 - bucket,
    {
        let mut count: usize = 0;
        let mut sum: u128 = 0;
        let mut max: u64 = 0;
        let mut i: usize = 0;
        while i < n
            invariant
                i <= n == timings@.len(),
                model == views(timings@),
                last == max_position(model, n as nat),
                count == bucket_count(model, i as nat, bucket as nat),
                sum == bucket_sum(model, i as nat, bucket as nat),
                max == bucket_max(model, i as nat, bucket as nat),
            decreases n - i,
        {
            proof {
                assert(model[i as int] == timings@[i as int]@);
                lemma_max_position(model, n as nat, i as int);
                lemma_bucket_bounds(model, i as nat, bucket as nat);
                lemma_bucket_bounds(model, (i + 1) as nat, bucket as nat);
                assert((i + 1) * u64::MAX <= usize::MAX * u64::MAX) by (nonlinear_arith)
                    requires
                        i + 1 <= usize::MAX,
                ;
                assert(usize::MAX * u64::MAX < u128::MAX) by (nonlinear_arith)
                    requires
                        usize::MAX <= u64::MAX,
                ;
            }
            if bucket_index(timings[i].position, last) == bucket {
                count = count + 1;
                sum = sum + (timings[i].duration_ms as u128);
                if timings[i].duration_ms > max {
                    max = timings[i].duration_ms;
                }
            }
            i = i + 1;
        }
        if count > 0 {
            proof {
                lemma_bucket_bounds(model, n as nat, bucket as nat);
                assert(sum / (count as u128) <= max) by (nonlinear_arith)
                    requires
                        max * count >= sum,
                        count > 0,
                ;
            }
            let average = (sum / (count as u128)) as u64;
            report.push(BucketSummary { bucket, count, average_ms: average, max_ms: max });
        }
        bucket = bucket + 1;
    }
    report
}

/// Where `timing` is put into `ranked`: before the first word that was
/// shown for a shorter time, at the end where there is none.
pub open spec fn rank_of(ranked: Seq<WordTimingView>, timing: WordTimingView) -> int
    decreases ranked.len(),
{
    if ranked.len() == 0 || ranked[0].duration_ms < timing.duration_ms {
        0
    } else {
        1 + rank_of(ranked.drop_first(), timing)
    }
}

/// The first `k` timings by duration, the longest first; words that were
/// shown equally long stay in the order in which they were read.
pub open spec fn ranked(timings: Seq<WordTimingView>, k: nat) -> Seq<WordTimingView>
    decreases k,
{
    if k == 0 {
        Seq::empty()
    } else {
        let before = ranked(timings, (k - 1) as nat);
        before.insert(rank_of(before, timings[k - 1]), timings[k - 1])
    }
}

/// The words that were shown longest, the longest first, at most `limit`
/// of them.
pub open spec fn slowest_of(timings: Seq<WordTimingView>, limit: nat) -> Seq<WordTimingView> {
    let all = ranked(timings, timings.len());
    if all.len() <= limit {
        all
    } else {
        all.take(limit as int)
    }
}

proof fn lemma_rank_of(ranked: Seq<WordTimingView>, timing: WordTimingView, p: int)
    requires
        0 <= p <= ranked.len(),
        forall|j: int| 0 <= j < p ==> (#[trigger] ranked[j]).duration_ms >= timing.duration_ms,
        p == ranked.len() || ranked[p].duration_ms < timing.duration_ms,
    ensures
        rank_of(ranked, timing) == p,
    decreases p,
{
    if p > 0 {
        let rest = ranked.drop_first();
        assert(ranked[0].duration_ms >= timing.duration_ms);
        assert forall|j: int| 0 <= j < p - 1 implies (#[trigger] rest[j]).duration_ms
            >= timing.duration_ms by {
            assert(rest[j] == ranked[j + 1]);
        }
        lemma_rank_of(rest, timing, p - 1);
    }
}

proof fn lemma_rank_bounds(ranked: Seq<WordTimingView>, timing: WordTimingView)
    ensures
        0 <= rank_of(ranked, timing) <= ranked.len(),
        forall|j: int|
            0 <= j < rank_of(ranked, timing) ==> (#[trigger] ranked[j]).duration_ms
                >= timing.duration_ms,
        rank_of(ranked, timing) < ranked.len() ==> ranked[rank_of(ranked, timing)].duration_ms
            < timing.duration_ms,
    decreases ranked.len(),
{
    if ranked.len() > 0 && ranked[0].duration_ms >= timing.duration_ms {
        let rest = ranked.drop_first();
        lemma_rank_bounds(rest, timing);
        assert forall|j: int| 0 <= j < rank_of(ranked, timing) implies (#[trigger] ranked[j]).duration_ms
            >= timing.duration_ms by {
            if j > 0 {
                assert(rest[j - 1] == ranked[j]);
            }
        }
    }
}

/// The ranking is sorted: no word stands before one that was shown longer.
pub proof fn lemma_ranked_sorted(timings: Seq<WordTimingView>, k: nat)
    requires
        k <= timings.len(),
    ensures
        ranked(timings, k).len() == k,
        forall|i: int, j: int|
            0 <= i <= j < k ==> (#[trigger] ranked(timings, k)[i]).duration_ms >= (
            #[trigger] ranked(timings, k)[j]).duration_ms,
    decreases k,
{
    if k > 0 {
        lemma_ranked_sorted(timings, (k - 1) as nat);
        let before = ranked(timings, (k - 1) as nat);
        let timing = timings[k - 1];
        let p = rank_of(before, timing);
        lemma_rank_bounds(before, timing);
        let after = ranked(timings, k);
        assert forall|i: int, j: int| 0 <= i <= j < k implies (#[trigger] after[i]).duration_ms >= (
        #[trigger] after[j]).duration_ms by {
            if i < p && j > p {
                assert(after[i] == before[i]);
                assert(after[j] == before[j - 1]);
            } else if i > p {
                assert(after[i] == before[i - 1]);
                assert(after[j] == before[j - 1]);
            } else if j < p {
                assert(after[i] == before[i]);
                assert(after[j] == before[j]);
            } else if i == p && j > p {
                assert(after[j] == before[j - 1]);
                assert(before[p].duration_ms < timing.duration_ms);
                assert(before[p].duration_ms >= before[j - 1].duration_ms);
            } else if i < p && j == p {
                assert(after[i] == before[i]);
            }
        }
    }
}

proof fn lemma_take_insert(
    all: Seq<WordTimingView>,
    timing: WordTimingView,
    limit: int,
)
    requires
        0 <= limit,
    ensures
        ({
            let kept = if all.len() <= limit {
                all
            } else {
                all.take(limit)
            };
            let grown = kept.insert(rank_of(kept, timing), timing);
            let full = all.insert(rank_of(all, timing), timing);
            (if grown.len() <= limit {
                grown
            } else {
                grown.take(limit)
            }) == (if full.len() <= limit {
                full
            } else {
                full.take(limit)
            })
        }),
{
    let kept = if all.len() <= limit {
        all
    } else {
        all.take(limit)
    };
    lemma_rank_bounds(all, timing);
    lemma_rank_bounds(kept, timing);
    let p = rank_of(all, timing);
    if all.len() > limit {
        if p < limit {
            assert forall|j: int| 0 <= j < p implies (#[trigger] kept[j]).duration_ms
                >= timing.duration_ms by {
                assert(kept[j] == all[j]);
            }
            assert(kept[p] == all[p]);
            lemma_rank_of(kept, timing, p);
        } else {
            assert forall|j: int| 0 <= j < limit implies (#[trigger] kept[j]).duration_ms
                >= timing.duration_ms by {
                assert(kept[j] == all[j]);
            }
            lemma_rank_of(kept, timing, limit);
        }
        let grown = kept.insert(rank_of(kept, timing), timing);
        let full = all.insert(p, timing);
        assert(grown.take(limit) =~= full.take(limit));
    }
}

/// The words that were shown longest, the longest first, at most ten of
/// them; among words that were shown equally long, those read first come
/// first.
pub fn slowest(timings: &Vec<WordTiming>) -> (top: Vec<WordTiming>)
    ensures
        views(top@) == slowest_of(views(timings@), SLOWEST_WORDS as nat),
{
    let ghost model = views(timings@);
    let mut top: Vec<WordTiming> = Vec::new();
    let mut i: usize = 0;
    assert(views(top@) =~= ranked(model, 0));
    while i < timings.len()
        invariant
            i <= timings@.len(),
            model == views(timings@),
            top@.len() <= 10,
            views(top@) == (if ranked(model, i as nat).len() <= 10 {
                ranked(model, i as nat)
            } else {
                ranked(model, i as nat).take(10)
            }),
        decreases timings.len() - i,
    {
        let item = timings[i].clone();
        let ghost kept = views(top@);
        proof {
            assert(model[i as int] == item@);
            lemma_take_insert(ranked(model, i as nat), item@, 10);
            lemma_rank_bounds(kept, item@);
        }
        let mut p: usize = 0;
        while p < top.len() && top[p].duration_ms >= item.duration_ms
            invariant
                p <= top@.len(),
                kept == views(top@),
                forall|j: int| 0 <= j < p ==> (#[trigger] kept[j]).duration_ms >= item.duration_ms,
            decreases top.len() - p,
        {
            assert(kept[p as int] == top@[p as int]@);
            p = p + 1;
        }
        proof {
            if p < top@.len() {
                assert(kept[p as int] == top@[p as int]@);
            }
            lemma_rank_of(kept, item@, p as int);
            assert(views(top@.insert(p as int, item)) =~= kept.insert(p as int, item@));
        }
        top.insert(p, item);
        if top.len() > 10 {
            let ghost grown = views(top@);
            top.pop();
            assert(views(top@) =~= grown.take(10));
        }
        i = i + 1;
    }
    top
}

} // verus!
