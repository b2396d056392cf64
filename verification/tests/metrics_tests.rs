use cashengine::consumer::{consume_snapshot, latency_micros};
use cashengine::envelope::is_fresh;
use cashengine::framing::make_frame;
use cashengine::metrics::P95Tracker;

#[test]
fn p95_window_of_four_biases_toward_the_lower_tail() {
    let mut tracker = P95Tracker::new(4);
    assert!(!tracker.has_enough_samples());
    assert_eq!(tracker.p95(), None);

    tracker.push(10);
    tracker.push(20);
    tracker.push(30);
    assert!(!tracker.has_enough_samples());
    assert_eq!(tracker.p95(), None);

    tracker.push(40);
    // window {10, 20, 30, 40}; index ceil(0.95 * 4) - 1 = 3
    assert!(tracker.has_enough_samples());
    assert_eq!(tracker.p95(), Some(40));

    // 5 < 40: the maximum is displaced; window {5, 10, 20, 30}
    tracker.push(5);
    assert_eq!(tracker.p95(), Some(30));
}

#[test]
fn p95_discards_samples_not_below_the_maximum() {
    let mut tracker = P95Tracker::new(3);
    tracker.push(7);
    tracker.push(3);
    tracker.push(9);
    // window {3, 7, 9}; index 3 - 0 - 1 = 2
    assert_eq!(tracker.p95(), Some(9));
    tracker.push(9);
    assert_eq!(tracker.p95(), Some(9));
    tracker.push(100);
    assert_eq!(tracker.p95(), Some(9));
    tracker.push(1);
    // window {1, 3, 7}
    assert_eq!(tracker.p95(), Some(7));
}

#[test]
fn p95_keeps_the_smallest_samples_seen() {
    let mut tracker = P95Tracker::new(2);
    for sample in [50u128, 40, 30, 20, 10] {
        tracker.push(sample);
    }
    // the two smallest of all pushed samples are {10, 20};
    // index 2 - 0 - 1 = 1
    assert_eq!(tracker.p95(), Some(20));
}

#[test]
fn p95_index_matches_the_ceiling_formula_at_the_default_window() {
    // a window of 128 samples: ceil(0.95 * 128) - 1 = 121
    let mut tracker = P95Tracker::new(128);
    for sample in 0u128..128 {
        tracker.push(sample);
    }
    assert!(tracker.has_enough_samples());
    assert_eq!(tracker.p95(), Some(121));
}

#[test]
fn latency_is_the_clock_difference_clamped_at_zero() {
    assert_eq!(latency_micros(100, 250), 150);
    assert_eq!(latency_micros(100, 100), 0);
    assert_eq!(latency_micros(250, 100), 0);
}

#[test]
fn consuming_a_clean_snapshot_feeds_the_estimator() {
    let mut tracker = P95Tracker::new(1);
    let mut last_seen: Vec<Option<u64>> = vec![None; 1];
    let mut frame = make_frame(0, 0, 100, 0, b"tick");
    frame.resize(64, 0);
    let env = consume_snapshot(&frame, 250, &mut tracker, &mut last_seen).expect("parse");
    assert_eq!(env.start_ts_micros, 100);
    assert_eq!(env.payload, b"tick".to_vec());
    assert!(tracker.has_enough_samples());
    assert_eq!(tracker.p95(), Some(150));
    assert_eq!(last_seen[0], Some(0));
}

#[test]
fn consuming_a_torn_snapshot_leaves_the_estimator_alone() {
    let mut tracker = P95Tracker::new(1);
    let mut last_seen: Vec<Option<u64>> = vec![None; 1];
    assert!(consume_snapshot(b"not a frame", 250, &mut tracker, &mut last_seen).is_none());
    assert!(!tracker.has_enough_samples());
    assert_eq!(tracker.p95(), None);
    assert_eq!(last_seen[0], None);
}

#[test]
fn a_stale_sequence_is_discarded_without_a_sample() {
    // the consumer busy-polls: an idle slot is re-read every sweep
    // and must not feed its old frame into the estimator again
    let mut tracker = P95Tracker::new(2);
    let mut last_seen: Vec<Option<u64>> = vec![None; 1];

    let mut first = make_frame(0, 0, 100, 0, b"tick");
    first.resize(64, 0);
    assert!(consume_snapshot(&first, 250, &mut tracker, &mut last_seen).is_some());

    // the same slot content again: sequence 0 is no longer fresh
    assert!(consume_snapshot(&first, 9_000, &mut tracker, &mut last_seen).is_none());
    assert!(!tracker.has_enough_samples());
    assert_eq!(last_seen[0], Some(0));

    // an older sequence (a torn mix resurfacing) is stale too
    let mut newer = make_frame(0, 1, 300, 0, b"tock");
    newer.resize(64, 0);
    assert!(consume_snapshot(&newer, 400, &mut tracker, &mut last_seen).is_some());
    assert!(consume_snapshot(&first, 9_000, &mut tracker, &mut last_seen).is_none());

    // exactly the two fresh samples were measured: 150 and 100
    assert!(tracker.has_enough_samples());
    assert_eq!(tracker.p95(), Some(150));
    assert_eq!(last_seen[0], Some(1));
}

#[test]
fn an_unknown_writer_id_is_discarded() {
    let mut tracker = P95Tracker::new(1);
    let mut last_seen: Vec<Option<u64>> = vec![None; 2];
    // writer id 7 on a table with writers 0 and 1: protocol garbage
    let mut frame = make_frame(7, 0, 100, 0, b"tick");
    frame.resize(64, 0);
    assert!(consume_snapshot(&frame, 250, &mut tracker, &mut last_seen).is_none());
    assert!(!tracker.has_enough_samples());
    assert_eq!(last_seen, vec![None, None]);
}

#[test]
fn freshness_goes_by_the_last_sequence_seen() {
    assert!(is_fresh(None, 0));
    assert!(is_fresh(Some(3), 4));
    assert!(!is_fresh(Some(3), 3));
    assert!(!is_fresh(Some(3), 2));
}
