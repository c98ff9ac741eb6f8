use vstd::prelude::*;

use crate::model::{
    Count, EstimatedQueryRange, K4QError, Offset, Partition, PartitionOffsets, QueryRange, Topic,
    TopicName, offsets_total,
};
use crate::ports::QueryRangeEstimator;

verus! {

/// Offset at which a partition's sub-range begins: the query start clamped
/// up to the partition's low watermark; an open start reads from the low
/// watermark.
pub open spec fn sub_range_start(p: Partition, r: QueryRange) -> int {
    match r.start {
        Some(s) => if s.value > p.low.value {
            s.value as int
        } else {
            p.low.value as int
        },
        None => p.low.value as int,
    }
}

/// The query end clamped down to the partition's high watermark; an open end
/// reads up to the high watermark, so open queries read up to "now".
pub open spec fn clamped_end(p: Partition, r: QueryRange) -> int {
    match r.end {
        Some(e) => if e.value < p.high.value {
            e.value as int
        } else {
            p.high.value as int
        },
        None => p.high.value as int,
    }
}

/// Offset at which the sub-range ends (exclusive). A range lying entirely
/// outside the partition's retained data collapses to the empty sub-range
/// `(start, start)` — that is not an error.
pub open spec fn sub_range_end(p: Partition, r: QueryRange) -> int {
    if sub_range_start(p, r) > clamped_end(p, r) {
        sub_range_start(p, r)
    } else {
        clamped_end(p, r)
    }
}

/// How many records the sub-range of one partition covers.
pub open spec fn sub_range_count(p: Partition, r: QueryRange) -> int {
    sub_range_end(p, r) - sub_range_start(p, r)
}

/// The resolved sub-range of one partition, as a value.
pub open spec fn partition_offsets_of(p: Partition, r: QueryRange) -> PartitionOffsets {
    PartitionOffsets {
        partition_id: p.id,
        start: Offset { value: sub_range_start(p, r) as i64 },
        end: Offset { value: sub_range_end(p, r) as i64 },
    }
}

/// Total expected record count of a query over a sequence of partitions.
pub open spec fn estimated_total(ps: Seq<Partition>, r: QueryRange) -> int
    decreases ps.len(),
{
    if ps.len() == 0 {
        0
    } else {
        estimated_total(ps.drop_last(), r) + sub_range_count(ps.last(), r)
    }
}

/// `e` is exactly the estimate of the query `r` over the topic `t`: one
/// sub-range per partition, in the topic's partition order, and the total is
/// the sum over all partitions.
pub open spec fn estimate_matches(t: Topic, r: QueryRange, e: EstimatedQueryRange) -> bool {
    &&& e.topic_name.value@ == t.name.value@
    &&& e.offsets@.len() == t.partitions@.len()
    &&& forall|i: int|
        0 <= i < t.partitions@.len() ==> #[trigger] e.offsets@[i] == partition_offsets_of(
            t.partitions@[i],
            r,
        )
    &&& e.total_count.value == estimated_total(t.partitions@, r)
}

/// A prefix of the partitions never accounts for more records than the whole
/// sequence, and never for a negative number.
pub proof fn lemma_total_take(ps: Seq<Partition>, r: QueryRange, i: int)
    requires
        0 <= i <= ps.len(),
    ensures
        0 <= estimated_total(ps.take(i), r) <= estimated_total(ps, r),
    decreases ps.len(),
{
    if ps.len() == 0 {
        assert(ps.take(i) =~= ps);
    } else if i == ps.len() {
        assert(ps.take(i) =~= ps);
        lemma_total_take(ps.drop_last(), r, i - 1);
    } else {
        assert(ps.take(i) =~= ps.drop_last().take(i));
        lemma_total_take(ps.drop_last(), r, i);
        assert(sub_range_count(ps.last(), r) >= 0);
    }
}

/// Law: the estimated total is exactly the sum of the per-partition
/// sub-range lengths — no partition is counted twice and none is dropped.
pub proof fn lemma_total_is_sum_of_sub_ranges(t: Topic, r: QueryRange, e: EstimatedQueryRange)
    requires
        estimate_matches(t, r, e),
    ensures
        e.total_count.value == offsets_total(e.offsets@),
{
    lemma_offsets_total_matches(t.partitions@, r, e.offsets@);
}

proof fn lemma_offsets_total_matches(ps: Seq<Partition>, r: QueryRange, os: Seq<PartitionOffsets>)
    requires
        os.len() == ps.len(),
        forall|i: int| 0 <= i < ps.len() ==> #[trigger] os[i] == partition_offsets_of(ps[i], r),
    ensures
        offsets_total(os) == estimated_total(ps, r),
    decreases ps.len(),
{
    if ps.len() > 0 {
        lemma_offsets_total_matches(ps.drop_last(), r, os.drop_last());
    }
}

/// Law: each estimated sub-range starts no earlier than its partition's low
/// watermark, and ends no later than its high watermark — except that a
/// query lying wholly past the retained data yields the empty sub-range
/// `(start, start)`, whose bound may sit beyond the high watermark.
pub proof fn lemma_estimate_within_watermarks(
    t: Topic,
    r: QueryRange,
    e: EstimatedQueryRange,
    i: int,
)
    requires
        t.inv(),
        estimate_matches(t, r, e),
        0 <= i < t.partitions@.len(),
    ensures
        e.offsets@[i].start.value >= t.partitions@[i].low.value,
        e.offsets@[i].end.value <= t.partitions@[i].high.value || e.offsets@[i].end.value
            == e.offsets@[i].start.value,
{
    assert(t.partitions@[i].inv());
}

/// Law: no estimated sub-range has a negative length, whatever the query —
/// an inverted query is rejected before any sub-range is produced, and a
/// query outside the retained data collapses to an empty sub-range.
pub proof fn lemma_estimate_never_negative(
    t: Topic,
    r: QueryRange,
    e: EstimatedQueryRange,
    i: int,
)
    requires
        estimate_matches(t, r, e),
        0 <= i < t.partitions@.len(),
    ensures
        e.offsets@[i].start.value <= e.offsets@[i].end.value,
{
}

/// Law: estimation is a function of the watermark snapshot and the range
/// alone — two estimates of the same topic state and the same range agree in
/// every part.
pub proof fn lemma_estimate_idempotent(
    t: Topic,
    r: QueryRange,
    e1: EstimatedQueryRange,
    e2: EstimatedQueryRange,
)
    requires
        estimate_matches(t, r, e1),
        estimate_matches(t, r, e2),
    ensures
        e1.topic_name.value@ == e2.topic_name.value@,
        e1.total_count == e2.total_count,
        e1.offsets@ == e2.offsets@,
{
    assert(e1.offsets@ =~= e2.offsets@);
    assert(e1.total_count =~= e2.total_count);
}

/// Resolves one time-based query bound to an offset within a partition.
/// `timestamps[k]` is the record timestamp at offset `low + k`; within a
/// single partition timestamps never decrease with the offset, so the first
/// offset at or after a target timestamp is found by binary search over the
/// bounded offset interval — O(log n) probes, never a linear scan. When
/// every record is older than the target, the answer is one past the
/// interval.
pub fn offset_for_timestamp(timestamps: &Vec<i64>, low: i64, target: i64) -> (r: i64)
    requires
        0 <= low,
        low + timestamps@.len() <= i64::MAX,
        forall|k1: int, k2: int|
            0 <= k1 <= k2 < timestamps@.len() ==> #[trigger] timestamps@[k1]
                <= #[trigger] timestamps@[k2],
    ensures
        low <= r <= low + timestamps@.len(),
        forall|k: int| 0 <= k < r - low ==> #[trigger] timestamps@[k] < target,
        forall|k: int| r - low <= k < timestamps@.len() ==> #[trigger] timestamps@[k] >= target,
{
    let mut lo: usize = 0;
    let mut hi: usize = timestamps.len();
    while lo < hi
        invariant
            lo <= hi <= timestamps@.len(),
            low + timestamps@.len() <= i64::MAX,
            0 <= low,
            forall|k1: int, k2: int|
                0 <= k1 <= k2 < timestamps@.len() ==> #[trigger] timestamps@[k1]
                    <= #[trigger] timestamps@[k2],
            forall|k: int| 0 <= k < lo ==> #[trigger] timestamps@[k] < target,
            forall|k: int| hi <= k < timestamps@.len() ==> #[trigger] timestamps@[k] >= target,
        decreases hi - lo,
    {
        let mid: usize = lo + (hi - lo) / 2;
        if timestamps[mid] < target {
            lo = mid + 1;
        } else {
            hi = mid;
        }
    }
    low + (lo as i64)
}

/// Resolves query ranges against the partitions' watermark snapshot by
/// clamping, as the estimation contract states.
pub struct WatermarkQueryRangeEstimator {}

impl WatermarkQueryRangeEstimator {
    pub fn new() -> (r: WatermarkQueryRangeEstimator) {
        WatermarkQueryRangeEstimator {  }
    }
}

impl QueryRangeEstimator for WatermarkQueryRangeEstimator {
    fn estimate(&self, topic: &Topic, query_range: &QueryRange) -> (r: Result<
        EstimatedQueryRange,
        K4QError,
    >) {
        match (query_range.start, query_range.end) {
            (Some(s), Some(e)) => {
                if e.value < s.value {
                    return Err(
                        K4QError::RangeError(
                            String::from_str("query range end lies before its start"),
                        ),
                    );
                }
            },
            _ => {},
        }
        let n: usize = topic.partitions.len();
        let mut offsets: Vec<PartitionOffsets> = Vec::new();
        let mut total: u64 = 0;
        let mut i: usize = 0;
        while i < n
            invariant
                n == topic.partitions@.len(),
                i <= n,
                topic.inv(),
                estimated_total(topic.partitions@, *query_range) <= u64::MAX,
                offsets@.len() == i,
                forall|k: int|
                    0 <= k < i ==> #[trigger] offsets@[k] == partition_offsets_of(
                        topic.partitions@[k],
                        *query_range,
                    ),
                forall|k: int| 0 <= k < i ==> (#[trigger] offsets@[k]).inv(),
                total == estimated_total(topic.partitions@.take(i as int), *query_range),
                total == offsets_total(offsets@),
            decreases n - i,
        {
            let p = topic.partitions[i];
            assert(p.inv());
            let cs: i64 = match query_range.start {
                Some(s) => if s.value > p.low.value {
                    s.value
                } else {
                    p.low.value
                },
                None => p.low.value,
            };
            let ce: i64 = match query_range.end {
                Some(e) => if e.value < p.high.value {
                    e.value
                } else {
                    p.high.value
                },
                None => p.high.value,
            };
            let e_off: i64 = if cs > ce {
                cs
            } else {
                ce
            };
            let c: i64 = e_off - cs;
            proof {
                lemma_total_take(topic.partitions@, *query_range, i + 1);
                assert(topic.partitions@.take(i + 1).drop_last() =~= topic.partitions@.take(
                    i as int,
                ));
                assert(topic.partitions@.take(i + 1).last() == topic.partitions@[i as int]);
                assert(cs as int == sub_range_start(p, *query_range));
                assert(e_off as int == sub_range_end(p, *query_range));
            }
            let entry = PartitionOffsets {
                partition_id: p.id,
                start: Offset { value: cs },
                end: Offset { value: e_off },
            };
            assert(entry =~= partition_offsets_of(p, *query_range));
            let ghost offsets0 = offsets@;
            total = total + (c as u64);
            offsets.push(entry);
            proof {
                assert(offsets@.drop_last() =~= offsets0);
            }
            i = i + 1;
        }
        proof {
            assert(topic.partitions@.take(n as int) =~= topic.partitions@);
        }
        let topic_name = TopicName { value: topic.name.value.clone() };
        Ok(EstimatedQueryRange { topic_name, offsets, total_count: Count { value: total } })
    }
}

} // verus!
