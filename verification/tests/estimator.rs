use k4q::estimator::{offset_for_timestamp, WatermarkQueryRangeEstimator};
use k4q::model::{K4QError, Offset, Partition, PartitionId, QueryRange, Topic, TopicName, Watermark};
use k4q::ports::QueryRangeEstimator;

fn partition(id: i32, low: i64, high: i64) -> Partition {
    Partition::new(PartitionId::from(id), Watermark::from(low), Watermark::from(high))
}

fn topic(name: &str, partitions: Vec<Partition>) -> Topic {
    Topic::new(TopicName::from(name), partitions)
}

fn open_range() -> QueryRange {
    QueryRange::of(None, None)
}

#[test]
fn whole_topic_counts_every_record() {
    let t = topic("orders", vec![partition(0, 0, 100), partition(1, 0, 50)]);
    let estimator = WatermarkQueryRangeEstimator::new();
    let e = estimator.estimate(&t, &open_range()).expect("whole-topic range must estimate");
    assert_eq!(e.total_count.value, 150);
    assert_eq!(e.offsets.len(), 2);
    assert_eq!(e.offsets[0].start.value, 0);
    assert_eq!(e.offsets[0].end.value, 100);
    assert_eq!(e.offsets[1].start.value, 0);
    assert_eq!(e.offsets[1].end.value, 50);
    assert_eq!(e.topic_name.as_str(), "orders");
}

#[test]
fn start_beyond_high_watermark_is_empty_not_an_error() {
    let t = topic("orders", vec![partition(0, 0, 100)]);
    let estimator = WatermarkQueryRangeEstimator::new();
    let r = QueryRange::of(Some(Offset::from(200)), None);
    let e = estimator.estimate(&t, &r).expect("a range past the data is empty, not an error");
    assert_eq!(e.offsets[0].start.value, 200);
    assert_eq!(e.offsets[0].end.value, 200);
    assert_eq!(e.total_count.value, 0);
}

#[test]
fn inverted_range_fails_with_range_error() {
    let t = topic("anything", vec![partition(0, 0, 100), partition(1, 0, 50)]);
    let estimator = WatermarkQueryRangeEstimator::new();
    let r = QueryRange::of(Some(Offset::from(50)), Some(Offset::from(10)));
    let outcome = estimator.estimate(&t, &r);
    assert!(matches!(outcome, Err(K4QError::RangeError(_))));
}

#[test]
fn bounds_are_clamped_to_the_watermarks() {
    let t = topic("clamped", vec![partition(0, 10, 100)]);
    let estimator = WatermarkQueryRangeEstimator::new();
    let r = QueryRange::of(Some(Offset::from(5)), Some(Offset::from(500)));
    let e = estimator.estimate(&t, &r).expect("range must estimate");
    assert_eq!(e.offsets[0].start.value, 10);
    assert_eq!(e.offsets[0].end.value, 100);
    assert_eq!(e.total_count.value, 90);
}

#[test]
fn range_before_retained_data_is_empty() {
    let t = topic("aged", vec![partition(0, 10, 20)]);
    let estimator = WatermarkQueryRangeEstimator::new();
    let r = QueryRange::of(None, Some(Offset::from(5)));
    let e = estimator.estimate(&t, &r).expect("range must estimate");
    assert_eq!(e.offsets[0].start.value, 10);
    assert_eq!(e.offsets[0].end.value, 10);
    assert_eq!(e.total_count.value, 0);
}

#[test]
fn bounded_range_inside_watermarks_is_kept() {
    let t = topic("inside", vec![partition(0, 0, 100)]);
    let estimator = WatermarkQueryRangeEstimator::new();
    let r = QueryRange::of(Some(Offset::from(10)), Some(Offset::from(20)));
    let e = estimator.estimate(&t, &r).expect("range must estimate");
    assert_eq!(e.offsets[0].start.value, 10);
    assert_eq!(e.offsets[0].end.value, 20);
    assert_eq!(e.total_count.value, 10);
}

#[test]
fn equal_bounds_are_a_valid_empty_range() {
    let t = topic("edge", vec![partition(0, 0, 100)]);
    let estimator = WatermarkQueryRangeEstimator::new();
    let r = QueryRange::of(Some(Offset::from(50)), Some(Offset::from(50)));
    let e = estimator.estimate(&t, &r).expect("an empty range is not inverted");
    assert_eq!(e.offsets[0].start.value, 50);
    assert_eq!(e.offsets[0].end.value, 50);
    assert_eq!(e.total_count.value, 0);
}

#[test]
fn total_is_exactly_the_sum_over_partitions() {
    let t = topic(
        "summed",
        vec![partition(0, 0, 7), partition(1, 3, 11), partition(2, 5, 5)],
    );
    let estimator = WatermarkQueryRangeEstimator::new();
    let e = estimator.estimate(&t, &open_range()).expect("range must estimate");
    let sum: i64 = e.offsets.iter().map(|o| o.end.value - o.start.value).sum();
    assert_eq!(e.total_count.value, sum as u64);
    assert_eq!(e.total_count.value, 7 + 8 + 0);
}

#[test]
fn estimation_is_idempotent_on_one_snapshot() {
    let t = topic("repeat", vec![partition(0, 0, 100), partition(1, 20, 50)]);
    let estimator = WatermarkQueryRangeEstimator::new();
    let r = QueryRange::of(Some(Offset::from(10)), Some(Offset::from(40)));
    let first = estimator.estimate(&t, &r).expect("range must estimate");
    let second = estimator.estimate(&t, &r).expect("range must estimate");
    assert_eq!(first, second);
}

#[test]
fn timestamp_lookup_finds_first_offset_at_or_after() {
    let timestamps: Vec<i64> = vec![10, 20, 20, 30];
    assert_eq!(offset_for_timestamp(&timestamps, 5, 20), 6);
    assert_eq!(offset_for_timestamp(&timestamps, 5, 10), 5);
    assert_eq!(offset_for_timestamp(&timestamps, 5, 25), 8);
}

#[test]
fn timestamp_lookup_past_newest_record_is_one_past_the_interval() {
    let timestamps: Vec<i64> = vec![10, 20, 30];
    assert_eq!(offset_for_timestamp(&timestamps, 100, 99), 103);
    let empty: Vec<i64> = vec![];
    assert_eq!(offset_for_timestamp(&empty, 7, 1), 7);
}
