use k4q::estimator::WatermarkQueryRangeEstimator;
use k4q::model::{Offset, Partition, PartitionId, QueryRange, Topic, TopicName, Watermark};
use k4q::ports::QueryRangeEstimator;
use k4q::progress::ProgressCounter;
use k4q::stream::RecordStream;

fn partition(id: i32, low: i64, high: i64) -> Partition {
    Partition::new(PartitionId::from(id), Watermark::from(low), Watermark::from(high))
}

fn estimate_of(partitions: Vec<Partition>) -> k4q::model::EstimatedQueryRange {
    let t = Topic::new(TopicName::from("streamed"), partitions);
    let estimator = WatermarkQueryRangeEstimator::new();
    estimator.estimate(&t, &QueryRange::of(None, None)).expect("open range must estimate")
}

#[test]
fn merge_draws_round_robin_across_partitions() {
    let e = estimate_of(vec![partition(0, 0, 3), partition(1, 10, 12)]);
    let mut s = RecordStream::new(&e);
    let mut seen: Vec<(i32, i64)> = Vec::new();
    while let Some(t) = s.next_fetch() {
        seen.push((t.partition_id.value, t.offset.value));
    }
    assert_eq!(seen, vec![(0, 0), (1, 10), (0, 1), (1, 11), (0, 2)]);
}

#[test]
fn every_yielded_offset_lies_within_the_estimate() {
    let e = estimate_of(vec![partition(0, 5, 9), partition(1, 0, 2), partition(2, 7, 7)]);
    let mut s = RecordStream::new(&e);
    let mut count: u64 = 0;
    while let Some(t) = s.next_fetch() {
        let bounds = e
            .offsets
            .iter()
            .find(|o| o.partition_id == t.partition_id)
            .expect("a yielded task names an estimated partition");
        assert!(bounds.start.value <= t.offset.value);
        assert!(t.offset.value < bounds.end.value);
        count += 1;
    }
    assert_eq!(count, e.total_count.value);
}

#[test]
fn exhausted_stream_keeps_returning_nothing() {
    let e = estimate_of(vec![partition(0, 0, 1)]);
    let mut s = RecordStream::new(&e);
    assert!(s.next_fetch().is_some());
    assert!(s.next_fetch().is_none());
    assert!(s.next_fetch().is_none());
}

#[test]
fn empty_estimate_streams_nothing() {
    let e = estimate_of(vec![]);
    let mut s = RecordStream::new(&e);
    assert!(s.next_fetch().is_none());
}

#[test]
fn cancel_names_every_open_partition_and_raises_no_error() {
    let e = estimate_of(vec![partition(0, 0, 3), partition(1, 0, 2), partition(2, 4, 4)]);
    let mut s = RecordStream::new(&e);
    // one record drawn from partition 0; partitions 0 and 1 stay open,
    // partition 2 never had anything to fetch
    let first = s.next_fetch().expect("the stream has records");
    assert_eq!(first.partition_id.value, 0);
    let open = s.cancel();
    let open_ids: Vec<i32> = open.iter().map(|p| p.value).collect();
    assert_eq!(open_ids, vec![0, 1]);
    // cancelled: nothing more comes, and nothing is left to release
    assert!(s.next_fetch().is_none());
    let open_again = s.cancel();
    assert!(open_again.is_empty());
}

#[test]
fn cancelling_a_fresh_stream_releases_all_partitions() {
    let e = estimate_of(vec![partition(0, 0, 3), partition(1, 0, 2)]);
    let mut s = RecordStream::new(&e);
    let open = s.cancel();
    let open_ids: Vec<i32> = open.iter().map(|p| p.value).collect();
    assert_eq!(open_ids, vec![0, 1]);
}

#[test]
fn drain_reports_progress_to_completion() {
    let e = estimate_of(vec![partition(0, 0, 4), partition(1, 0, 3)]);
    let mut s = RecordStream::new(&e);
    let mut progress = ProgressCounter { max: e.total_count.value, count: 0, done: false };
    let tasks = s.drain_with_progress(&mut progress);
    assert_eq!(tasks.len() as u64, e.total_count.value);
    assert_eq!(progress.count, e.total_count.value);
    assert!(progress.done);
    assert!(s.next_fetch().is_none());
}

#[test]
fn offsets_increase_strictly_within_each_partition() {
    let e = estimate_of(vec![partition(0, 0, 5), partition(1, 2, 8)]);
    let mut s = RecordStream::new(&e);
    let mut progress = ProgressCounter { max: e.total_count.value, count: 0, done: false };
    let tasks = s.drain_with_progress(&mut progress);
    for id in [0, 1] {
        let offsets: Vec<i64> = tasks
            .iter()
            .filter(|t| t.partition_id.value == id)
            .map(|t| t.offset.value)
            .collect();
        for w in offsets.windows(2) {
            assert!(w[0] < w[1]);
        }
    }
}
