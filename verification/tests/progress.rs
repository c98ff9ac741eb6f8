use k4q::model::Count;
use k4q::ports::ProgressNotifier;
use k4q::progress::{CountingProgressNotifier, Progress, ProgressCounter};

#[test]
fn notifier_starts_a_fresh_handle_sized_by_the_estimate() {
    let notifier = CountingProgressNotifier {};
    notifier.notify("resolving topic orders");
    let handle = notifier.start(&Count::from(150));
    assert_eq!(handle.max, 150);
    assert_eq!(handle.count, 0);
    assert!(!handle.done);
}

#[test]
fn increments_count_one_record_at_a_time() {
    let mut p = ProgressCounter { max: 3, count: 0, done: false };
    p.increment();
    p.increment();
    assert_eq!(p.count, 2);
    assert_eq!(p.max, 3);
    assert!(!p.done);
}

#[test]
fn completion_is_idempotent() {
    let mut p = ProgressCounter { max: 2, count: 2, done: false };
    p.complete();
    let after_first = p;
    p.complete();
    assert_eq!(p, after_first);
    assert!(p.done);
    assert_eq!(p.count, 2);
}
