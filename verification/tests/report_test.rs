use rsvp_term::report::{slowest, summarize, BucketSummary, WordTiming};

fn timing(position: usize, word: &str, duration_ms: u64) -> WordTiming {
    WordTiming { position, word: word.to_string(), duration_ms }
}

#[test]
fn test_summarize_by_tenth() {
    let timings = vec![
        timing(0, "a", 200),
        timing(1, "b", 300),
        timing(9, "c", 100),
        timing(10, "d", 250),
        timing(19, "e", 251),
        timing(20, "f", 1000),
    ];
    let report = summarize(&timings);
    assert_eq!(
        report,
        vec![
            BucketSummary { bucket: 0, count: 2, average_ms: 250, max_ms: 300 },
            BucketSummary { bucket: 4, count: 1, average_ms: 100, max_ms: 100 },
            BucketSummary { bucket: 5, count: 1, average_ms: 250, max_ms: 250 },
            BucketSummary { bucket: 9, count: 1, average_ms: 251, max_ms: 251 },
            BucketSummary { bucket: 10, count: 1, average_ms: 1000, max_ms: 1000 },
        ]
    );
}

#[test]
fn test_summarize_edges() {
    assert!(summarize(&vec![]).is_empty());
    // With the greatest position at zero every word lies in the first tenth.
    let report = summarize(&vec![timing(0, "a", 3), timing(0, "b", 4)]);
    assert_eq!(report, vec![BucketSummary { bucket: 0, count: 2, average_ms: 3, max_ms: 4 }]);
    let report = summarize(&vec![
        timing(usize::MAX, "a", u64::MAX),
        timing(usize::MAX, "b", u64::MAX),
        timing(usize::MAX / 2, "c", 0),
    ]);
    assert_eq!(
        report,
        vec![
            BucketSummary { bucket: 4, count: 1, average_ms: 0, max_ms: 0 },
            BucketSummary { bucket: 10, count: 2, average_ms: u64::MAX, max_ms: u64::MAX },
        ]
    );
}

#[test]
fn test_slowest_words_are_ranked_and_stable() {
    let timings: Vec<WordTiming> = [5u64, 9, 1, 9, 7, 3, 9, 2, 8, 6, 4, 7, 10, 0]
        .iter()
        .enumerate()
        .map(|(i, d)| timing(i, &format!("w{i}"), *d))
        .collect();
    let top = slowest(&timings);
    let ranked: Vec<(u64, usize)> = top.iter().map(|t| (t.duration_ms, t.position)).collect();
    assert_eq!(
        ranked,
        vec![(10, 12), (9, 1), (9, 3), (9, 6), (8, 8), (7, 4), (7, 11), (6, 9), (5, 0), (4, 10)]
    );
    assert_eq!(top[0].word, "w12");
    let few = slowest(&timings[..3].to_vec());
    let ranked: Vec<u64> = few.iter().map(|t| t.duration_ms).collect();
    assert_eq!(ranked, vec![9, 5, 1]);
    assert!(slowest(&vec![]).is_empty());
}
