use k4q::kafka::{stub_partition, stub_partitions, KafkaRecordFinder, STUB_RECORD_COUNT};
use k4q::model::TopicName;
use k4q::ports::RecordFinder;

#[test]
fn record_finder_repeats_one_synthetic_record() {
    let finder = KafkaRecordFinder {};
    let records = finder.find_by(&TopicName::from("orders"));
    assert_eq!(records.len(), STUB_RECORD_COUNT);
    assert_eq!(records.len(), 4280);
    for r in [&records[0], &records[records.len() - 1]] {
        assert_eq!(r.topic.as_str(), "orders");
        assert_eq!(r.key.value, "key");
        assert_eq!(r.partition.value, 0);
        assert_eq!(r.offset.value, 0);
        assert_eq!(r.payload.value, "{}");
    }
}

#[test]
fn stub_partition_carries_the_plain_values() {
    let p = stub_partition(3, 0, 10);
    assert_eq!(p.id.value, 3);
    assert_eq!(p.low.value, 0);
    assert_eq!(p.high.value, 10);
}

#[test]
fn stub_partitions_walk_leaves_out_the_upper_bound() {
    let ps = stub_partitions(5);
    assert_eq!(ps.len(), 4);
    for (k, p) in ps.iter().enumerate() {
        assert_eq!(p.id.value, k as i32);
        assert_eq!(p.low.value, 0);
        assert_eq!(p.high.value, 10);
    }
    assert!(stub_partitions(1).is_empty());
    assert!(stub_partitions(0).is_empty());
}
