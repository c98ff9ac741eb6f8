use vstd::prelude::*;

use crate::model::{
    KeyValue, Offset, Partition, PartitionId, Payload, Record, TopicName, Watermark,
};
use crate::ports::RecordFinder;

verus! {

/// How many synthetic records the fabricated finder yields per topic.
pub const STUB_RECORD_COUNT: usize = 4280;

/// The broker-side record finder. It performs no real fetch yet: it repeats
/// one synthetic record a fixed number of times per topic.
pub struct KafkaRecordFinder {}

impl RecordFinder for KafkaRecordFinder {
    fn find_by(&self, topic_name: &TopicName) -> (records: Vec<Record>)
        ensures
            records@.len() == STUB_RECORD_COUNT,
            forall|k: int|
                0 <= k < records@.len() ==> (#[trigger] records@[k]).topic.value@
                    == topic_name.value@ && records@[k].key.value@ == "key"@
                    && records@[k].partition.value == 0 && records@[k].offset.value == 0
                    && records@[k].payload.value@ == "{}"@,
    {
        let mut records: Vec<Record> = Vec::new();
        let mut i: usize = 0;
        while i < STUB_RECORD_COUNT
            invariant
                i <= STUB_RECORD_COUNT,
                records@.len() == i,
                forall|k: int|
                    0 <= k < i ==> (#[trigger] records@[k]).topic.value@ == topic_name.value@
                        && records@[k].key.value@ == "key"@ && records@[k].partition.value == 0
                        && records@[k].offset.value == 0 && records@[k].payload.value@ == "{}"@,
            decreases STUB_RECORD_COUNT - i,
        {
            let rec = Record::of(
                TopicName { value: topic_name.value.clone() },
                KeyValue::from("key"),
                PartitionId::from(0),
                Offset::from(0),
                Payload::from("{}"),
            );
            records.push(rec);
            i = i + 1;
        }
        records
    }
}

/// Builds one partition from plain watermark values.
pub fn stub_partition(id: i32, low: i64, high: i64) -> (p: Partition)
    ensures
        p.id.value == id,
        p.low.value == low,
        p.high.value == high,
{
    Partition::new(PartitionId::from(id), Watermark::from(low), Watermark::from(high))
}

/// Builds the fixed partition layout the broker adapter reports while real
/// watermark lookups are absent: consecutive ids from zero, each partition
/// with watermarks (0, 10). One fewer partition than asked, as the range it
/// walks leaves out its upper bound.
pub fn stub_partitions(number_of_partitions: i32) -> (ps: Vec<Partition>)
    ensures
        number_of_partitions >= 1 ==> ps@.len() == number_of_partitions - 1,
        number_of_partitions < 1 ==> ps@.len() == 0,
        forall|k: int|
            0 <= k < ps@.len() ==> (#[trigger] ps@[k]).id.value == k && ps@[k].low.value == 0
                && ps@[k].high.value == 10,
{
    let mut ps: Vec<Partition> = Vec::new();
    if number_of_partitions < 1 {
        return ps;
    }
    let mut id: i32 = 1;
    while id < number_of_partitions
        invariant
            1 <= id <= number_of_partitions,
            ps@.len() == id - 1,
            forall|k: int|
                0 <= k < ps@.len() ==> (#[trigger] ps@[k]).id.value == k && ps@[k].low.value == 0
                    && ps@[k].high.value == 10,
        decreases number_of_partitions - id,
    {
        let p = stub_partition(id - 1, 0, 10);
        ps.push(p);
        id = id + 1;
    }
    ps
}

} // verus!
