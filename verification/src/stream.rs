use vstd::prelude::*;

use crate::model::{EstimatedQueryRange, Offset, PartitionId, offsets_total};
use crate::progress::Progress;

verus! {

/// One record to pull: which partition, at which offset.
#[derive(Clone, Copy, Debug, PartialEq, Eq, Structural)]
#[verifier::ext_equal]
pub struct FetchTask {
    pub partition_id: PartitionId,
    pub offset: Offset,
}

/// The fetch cursor of one partition: it advances from `start` toward `end`
/// and never passes `end`, however far the live partition has grown since
/// the estimate was taken.
#[derive(Clone, Copy, Debug, PartialEq, Eq, Structural)]
#[verifier::ext_equal]
pub struct PartitionCursor {
    pub partition_id: PartitionId,
    pub start: Offset,
    pub next: Offset,
    pub end: Offset,
}

impl PartitionCursor {
    pub open spec fn inv(&self) -> bool {
        self.start.value <= self.next.value <= self.end.value
    }
}

/// A cursor that still has records to yield.
pub open spec fn cursor_live(c: PartitionCursor) -> bool {
    c.next.value < c.end.value
}

/// How many records one cursor has not yielded yet.
pub open spec fn cursor_remaining(c: PartitionCursor) -> int {
    c.end.value - c.next.value
}

/// Records left over a sequence of cursors.
pub open spec fn remaining_of(cs: Seq<PartitionCursor>) -> int
    decreases cs.len(),
{
    if cs.len() == 0 {
        0
    } else {
        remaining_of(cs.drop_last()) + cursor_remaining(cs.last())
    }
}

/// Index of the first live cursor in `[lo, hi)`, or -1 when none is live
/// there.
pub open spec fn first_live_in(cs: Seq<PartitionCursor>, lo: int, hi: int) -> int
    decreases hi - lo,
{
    if lo < 0 || lo >= hi || hi > cs.len() {
        -1
    } else if cursor_live(cs[lo]) {
        lo
    } else {
        first_live_in(cs, lo + 1, hi)
    }
}

/// The cursor the round-robin merge draws from next: the first live cursor
/// at or after `base`, wrapping to the front; -1 when every cursor is
/// exhausted.
pub open spec fn pick_live(cs: Seq<PartitionCursor>, base: int) -> int {
    if first_live_in(cs, base, cs.len() as int) >= 0 {
        first_live_in(cs, base, cs.len() as int)
    } else {
        first_live_in(cs, 0, base)
    }
}

/// The cursor after yielding one record.
pub open spec fn advanced_cursor(c: PartitionCursor) -> PartitionCursor {
    PartitionCursor { next: Offset { value: (c.next.value + 1) as i64 }, ..c }
}

/// The task's offset lies within the estimate's sub-range of the task's
/// partition.
pub open spec fn task_within_estimate(e: EstimatedQueryRange, t: FetchTask) -> bool {
    exists|i: int|
        0 <= i < e.offsets@.len() && (#[trigger] e.offsets@[i]).partition_id == t.partition_id
            && e.offsets@[i].start.value <= t.offset.value < e.offsets@[i].end.value
}

/// The task's offset lies within the bounds of the stream's cursor for the
/// task's partition.
pub open spec fn task_within_stream(s: RecordStream, t: FetchTask) -> bool {
    exists|i: int|
        0 <= i < s.cursors@.len() && (#[trigger] s.cursors@[i]).partition_id == t.partition_id
            && s.cursors@[i].start.value <= t.offset.value < s.cursors@[i].end.value
}

/// One yield step: the task came from the round-robin pick, that cursor
/// advanced by one, every other cursor is untouched, and the scan base moved
/// just past the picked cursor.
pub open spec fn yields(pre: RecordStream, post: RecordStream, t: FetchTask) -> bool {
    let j = pick_live(pre.cursors@, pre.next_index as int);
    &&& !pre.cancelled
    &&& 0 <= j < pre.cursors@.len()
    &&& cursor_live(pre.cursors@[j])
    &&& t.partition_id == pre.cursors@[j].partition_id
    &&& t.offset == pre.cursors@[j].next
    &&& pre.cursors@[j].start.value <= t.offset.value < pre.cursors@[j].end.value
    &&& post.cursors@ == pre.cursors@.update(j, advanced_cursor(pre.cursors@[j]))
    &&& post.next_index == if j + 1 == pre.cursors@.len() {
        0int
    } else {
        j + 1
    }
    &&& post.cancelled == pre.cancelled
}

proof fn lemma_remaining_nonneg(cs: Seq<PartitionCursor>)
    requires
        forall|i: int| 0 <= i < cs.len() ==> (#[trigger] cs[i]).inv(),
    ensures
        remaining_of(cs) >= 0,
    decreases cs.len(),
{
    if cs.len() > 0 {
        lemma_remaining_nonneg(cs.drop_last());
    }
}

proof fn lemma_remaining_zero_when_dead(cs: Seq<PartitionCursor>)
    requires
        forall|i: int| 0 <= i < cs.len() ==> (#[trigger] cs[i]).inv(),
        forall|i: int| 0 <= i < cs.len() ==> !cursor_live(#[trigger] cs[i]),
    ensures
        remaining_of(cs) == 0,
    decreases cs.len(),
{
    if cs.len() > 0 {
        lemma_remaining_zero_when_dead(cs.drop_last());
    }
}

proof fn lemma_remaining_update(cs: Seq<PartitionCursor>, j: int, c: PartitionCursor)
    requires
        0 <= j < cs.len(),
    ensures
        remaining_of(cs.update(j, c)) == remaining_of(cs) - cursor_remaining(cs[j])
            + cursor_remaining(c),
    decreases cs.len(),
{
    if j == cs.len() - 1 {
        assert(cs.update(j, c).drop_last() =~= cs.drop_last());
    } else {
        assert(cs.update(j, c).drop_last() =~= cs.drop_last().update(j, c));
        lemma_remaining_update(cs.drop_last(), j, c);
    }
}

proof fn lemma_first_live_none(cs: Seq<PartitionCursor>, lo: int, hi: int)
    requires
        0 <= lo <= hi <= cs.len(),
    ensures
        (first_live_in(cs, lo, hi) == -1) <==> (forall|i: int|
            lo <= i < hi ==> !cursor_live(#[trigger] cs[i])),
    decreases hi - lo,
{
    if lo < hi {
        lemma_first_live_none(cs, lo + 1, hi);
    }
}

/// The merge point of one query execution: one fetch cursor per partition,
/// drawn with round-robin fairness so one slow or very large partition does
/// not starve the others. Finite, bounded by its estimate, and not
/// restartable: a fresh query re-estimates and re-streams from scratch.
#[derive(Debug)]
pub struct RecordStream {
    pub cursors: Vec<PartitionCursor>,
    pub next_index: usize,
    pub cancelled: bool,
}

impl RecordStream {
    pub open spec fn inv(&self) -> bool {
        &&& forall|i: int| 0 <= i < self.cursors@.len() ==> (#[trigger] self.cursors@[i]).inv()
        &&& forall|i: int, j: int|
            0 <= i < j < self.cursors@.len() ==> (#[trigger] self.cursors@[i]).partition_id != (
            #[trigger] self.cursors@[j]).partition_id
        &&& if self.cursors@.len() == 0 {
            self.next_index == 0
        } else {
            (self.next_index as int) < self.cursors@.len()
        }
    }

    /// Records the stream has not yielded yet.
    pub open spec fn remaining(&self) -> int {
        remaining_of(self.cursors@)
    }

    /// Every cursor has reached its end.
    pub open spec fn exhausted(&self) -> bool {
        forall|i: int| 0 <= i < self.cursors@.len() ==> !cursor_live(#[trigger] self.cursors@[i])
    }

    /// The stream serves exactly the estimate `e`: cursor bounds mirror the
    /// estimated sub-ranges, partition by partition. The bounds never move
    /// once the stream exists — the estimate is the contract, not the live
    /// watermark.
    pub open spec fn tracks(&self, e: EstimatedQueryRange) -> bool {
        &&& self.cursors@.len() == e.offsets@.len()
        &&& forall|i: int|
            0 <= i < e.offsets@.len() ==> (#[trigger] self.cursors@[i]).partition_id
                == e.offsets@[i].partition_id && self.cursors@[i].start == e.offsets@[i].start
                && self.cursors@[i].end == e.offsets@[i].end
    }

    /// Opens a stream over an estimate: one cursor per estimated sub-range,
    /// each standing at its start, with the whole estimated total ahead.
    pub fn new(estimated_range: &EstimatedQueryRange) -> (s: RecordStream)
        requires
            estimated_range.inv(),
        ensures
            s.inv(),
            s.tracks(*estimated_range),
            !s.cancelled,
            forall|i: int|
                0 <= i < s.cursors@.len() ==> (#[trigger] s.cursors@[i]).next == s.cursors@[i].start,
            s.remaining() == estimated_range.total_count.value,
    {
        let n: usize = estimated_range.offsets.len();
        let mut cursors: Vec<PartitionCursor> = Vec::new();
        let mut i: usize = 0;
        while i < n
            invariant
                n == estimated_range.offsets@.len(),
                i <= n,
                estimated_range.inv(),
                cursors@.len() == i,
                forall|k: int|
                    0 <= k < i ==> (#[trigger] cursors@[k]).partition_id
                        == estimated_range.offsets@[k].partition_id && cursors@[k].start
                        == estimated_range.offsets@[k].start && cursors@[k].end
                        == estimated_range.offsets@[k].end && cursors@[k].next == cursors@[k].start,
                remaining_of(cursors@) == offsets_total(estimated_range.offsets@.take(i as int)),
            decreases n - i,
        {
            let o = estimated_range.offsets[i];
            assert(estimated_range.offsets@[i as int].inv());
            let cursor = PartitionCursor {
                partition_id: o.partition_id,
                start: o.start,
                next: o.start,
                end: o.end,
            };
            let ghost cursors0 = cursors@;
            cursors.push(cursor);
            proof {
                assert(cursors@.drop_last() =~= cursors0);
                assert(estimated_range.offsets@.take(i + 1).drop_last()
                    =~= estimated_range.offsets@.take(i as int));
                assert(estimated_range.offsets@.take(i + 1).last()
                    == estimated_range.offsets@[i as int]);
            }
            i = i + 1;
        }
        proof {
            assert(estimated_range.offsets@.take(n as int) =~= estimated_range.offsets@);
        }
        RecordStream { cursors, next_index: 0, cancelled: false }
    }

    /// Scans `[lo, hi)` for the first live cursor.
    fn scan_live(cursors: &Vec<PartitionCursor>, lo: usize, hi: usize) -> (r: Option<usize>)
        requires
            lo <= hi <= cursors@.len(),
        ensures
            r matches Some(j) ==> lo <= j < hi && first_live_in(cursors@, lo as int, hi as int)
                == j && cursor_live(cursors@[j as int]),
            r is None ==> first_live_in(cursors@, lo as int, hi as int) == -1,
    {
        let mut j: usize = lo;
        while j < hi
            invariant
                lo <= j <= hi <= cursors@.len(),
                first_live_in(cursors@, lo as int, hi as int) == first_live_in(
                    cursors@,
                    j as int,
                    hi as int,
                ),
            decreases hi - j,
        {
            if cursors[j].next.value < cursors[j].end.value {
                return Some(j);
            }
            j = j + 1;
        }
        None
    }

    /// Draws the next record to pull, round-robin over the live cursors.
    /// Nothing comes back exactly when the stream was cancelled or every
    /// cursor is exhausted; then nothing has changed either.
    pub fn next_fetch(&mut self) -> (r: Option<FetchTask>)
        requires
            old(self).inv(),
        ensures
            final(self).inv(),
            r is None <==> (old(self).cancelled || old(self).exhausted()),
            r is None ==> *final(self) == *old(self),
            r matches Some(t) ==> yields(*old(self), *final(self), t),
            r matches Some(t) ==> final(self).remaining() == old(self).remaining() - 1,
    {
        if self.cancelled {
            return None;
        }
        let n: usize = self.cursors.len();
        let base: usize = self.next_index;
        let first = Self::scan_live(&self.cursors, base, n);
        let picked = match first {
            Some(j) => Some(j),
            None => Self::scan_live(&self.cursors, 0, base),
        };
        match picked {
            None => {
                proof {
                    lemma_first_live_none(self.cursors@, base as int, n as int);
                    lemma_first_live_none(self.cursors@, 0, base as int);
                    assert forall|i: int| 0 <= i < self.cursors@.len() implies !cursor_live(
                        #[trigger] self.cursors@[i],
                    ) by {
                        if i < base {
                            assert(!cursor_live(self.cursors@[i]));
                        } else {
                            assert(!cursor_live(self.cursors@[i]));
                        }
                    }
                }
                None
            },
            Some(j) => {
                let c = self.cursors[j];
                let task = FetchTask { partition_id: c.partition_id, offset: c.next };
                let advanced = PartitionCursor {
                    partition_id: c.partition_id,
                    start: c.start,
                    next: Offset { value: c.next.value + 1 },
                    end: c.end,
                };
                let ghost pre = *self;
                self.cursors.set(j, advanced);
                self.next_index = if j + 1 == n {
                    0
                } else {
                    j + 1
                };
                proof {
                    assert(pick_live(pre.cursors@, pre.next_index as int) == j);
                    assert(advanced =~= advanced_cursor(pre.cursors@[j as int]));
                    lemma_remaining_update(pre.cursors@, j as int, advanced);
                    assert(!(pre.cancelled || pre.exhausted()));
                }
                Some(task)
            },
        }
    }

    /// Abandons the stream: marks it cancelled, closes every cursor, and
    /// hands back the partitions whose fetches were still open so the caller
    /// can release each one. No error is raised, and a second, defensive
    /// cancel finds nothing left open.
    pub fn cancel(&mut self) -> (open_partitions: Vec<PartitionId>)
        requires
            old(self).inv(),
        ensures
            final(self).inv(),
            final(self).cancelled,
            final(self).exhausted(),
            final(self).remaining() == 0,
            open_partitions@ == live_ids(old(self).cursors@),
            final(self).cursors@.len() == old(self).cursors@.len(),
            forall|i: int|
                0 <= i < old(self).cursors@.len() ==> (#[trigger] final(self).cursors@[i]).partition_id
                    == old(self).cursors@[i].partition_id && final(self).cursors@[i].start
                    == old(self).cursors@[i].start && final(self).cursors@[i].end
                    == old(self).cursors@[i].end,
    {
        self.cancelled = true;
        let mut open_partitions: Vec<PartitionId> = Vec::new();
        let n: usize = self.cursors.len();
        let ghost cs0 = self.cursors@;
        let mut i: usize = 0;
        while i < n
            invariant
                n == self.cursors@.len(),
                i <= n,
                cs0.len() == n,
                self.cancelled,
                if n == 0 {
                    self.next_index == 0
                } else {
                    (self.next_index as int) < n
                },
                forall|k: int| 0 <= k < n ==> (#[trigger] cs0[k]).inv(),
                forall|k: int, l: int|
                    0 <= k < l < n ==> (#[trigger] cs0[k]).partition_id != (
                    #[trigger] cs0[l]).partition_id,
                forall|k: int|
                    i <= k < n ==> (#[trigger] self.cursors@[k]) == cs0[k],
                forall|k: int|
                    0 <= k < i ==> (#[trigger] self.cursors@[k]).partition_id == cs0[k].partition_id
                        && self.cursors@[k].start == cs0[k].start && self.cursors@[k].end
                        == cs0[k].end && self.cursors@[k].next == cs0[k].end,
                open_partitions@ == live_ids(cs0.take(i as int)),
            decreases n - i,
        {
            let c = self.cursors[i];
            let closed = PartitionCursor {
                partition_id: c.partition_id,
                start: c.start,
                next: c.end,
                end: c.end,
            };
            if c.next.value < c.end.value {
                open_partitions.push(c.partition_id);
            }
            self.cursors.set(i, closed);
            proof {
                assert(cs0.take(i + 1).drop_last() =~= cs0.take(i as int));
                assert(cs0.take(i + 1).last() == cs0[i as int]);
            }
            i = i + 1;
        }
        proof {
            assert(cs0.take(n as int) =~= cs0);
            lemma_remaining_zero_when_dead(self.cursors@);
        }
        open_partitions
    }

    /// Pulls every remaining task, reporting one increment per emitted
    /// record and completing the progress handle at exhaustion. Started on a
    /// fresh handle sized by the estimate, the consumed count ends exactly
    /// at the estimated target. Within one partition the yielded offsets are
    /// strictly increasing; across partitions no order is promised.
    pub fn drain_with_progress<P: Progress>(&mut self, progress: &mut P) -> (tasks: Vec<FetchTask>)
        requires
            old(self).inv(),
            !old(self).cancelled,
            old(progress).consumed() + old(self).remaining() == old(progress).target(),
        ensures
            final(self).inv(),
            final(self).exhausted(),
            !final(self).cancelled,
            tasks@.len() == old(self).remaining(),
            forall|k: int|
                0 <= k < tasks@.len() ==> task_within_stream(*old(self), #[trigger] tasks@[k]),
            forall|k1: int, k2: int|
                0 <= k1 < k2 < tasks@.len() && (#[trigger] tasks@[k1]).partition_id == (
                #[trigger] tasks@[k2]).partition_id ==> tasks@[k1].offset.value
                    < tasks@[k2].offset.value,
            final(progress).completed(),
            final(progress).consumed() == old(progress).consumed() + tasks@.len(),
            final(progress).target() == old(progress).target(),
    {
        let mut tasks: Vec<FetchTask> = Vec::new();
        let ghost s0 = *old(self);
        let ghost consumed0 = old(progress).consumed();
        let mut done = false;
        proof {
            lemma_remaining_nonneg(self.cursors@);
        }
        while !done
            invariant
                self.inv(),
                !self.cancelled,
                self.cursors@.len() == s0.cursors@.len(),
                forall|i: int|
                    0 <= i < s0.cursors@.len() ==> (#[trigger] self.cursors@[i]).partition_id
                        == s0.cursors@[i].partition_id && self.cursors@[i].start
                        == s0.cursors@[i].start && self.cursors@[i].end == s0.cursors@[i].end,
                tasks@.len() + self.remaining() == s0.remaining(),
                self.remaining() >= 0,
                progress.consumed() == consumed0 + tasks@.len(),
                progress.target() == consumed0 + s0.remaining(),
                progress.completed() == old(progress).completed(),
                forall|k: int|
                    0 <= k < tasks@.len() ==> task_within_stream(s0, #[trigger] tasks@[k]),
                forall|k: int, i: int|
                    0 <= k < tasks@.len() && 0 <= i < self.cursors@.len() && (
                    #[trigger] self.cursors@[i]).partition_id == (
                    #[trigger] tasks@[k]).partition_id ==> tasks@[k].offset.value
                        < self.cursors@[i].next.value,
                forall|k1: int, k2: int|
                    0 <= k1 < k2 < tasks@.len() && (#[trigger] tasks@[k1]).partition_id == (
                    #[trigger] tasks@[k2]).partition_id ==> tasks@[k1].offset.value
                        < tasks@[k2].offset.value,
                done ==> self.exhausted(),
            decreases self.remaining() + if done {
                0int
            } else {
                1int
            },
        {
            let ghost pre = *self;
            let ghost tasks_before = tasks@;
            let r = self.next_fetch();
            match r {
                Some(t) => {
                    proof {
                        let j = pick_live(pre.cursors@, pre.next_index as int);
                        assert(self.cursors@ == pre.cursors@.update(j, advanced_cursor(
                            pre.cursors@[j],
                        )));
                        lemma_remaining_nonneg(self.cursors@);
                        // the task lies within the cursor bounds the stream started with
                        assert(s0.cursors@[j].partition_id == t.partition_id);
                        assert(s0.cursors@[j].start.value <= t.offset.value
                            < s0.cursors@[j].end.value);
                        assert(task_within_stream(s0, t));
                    }
                    progress.increment();
                    tasks.push(t);
                    proof {
                        let j = pick_live(pre.cursors@, pre.next_index as int);
                        assert forall|k: int, i: int|
                            0 <= k < tasks@.len() && 0 <= i < self.cursors@.len() && (
                            #[trigger] self.cursors@[i]).partition_id == (
                            #[trigger] tasks@[k]).partition_id implies tasks@[k].offset.value
                            < self.cursors@[i].next.value by {
                            if k < tasks_before.len() {
                                assert(tasks@[k] == tasks_before[k]);
                                if i == j {
                                    assert(pre.cursors@[i].partition_id
                                        == self.cursors@[i].partition_id);
                                    assert(tasks_before[k].offset.value
                                        < pre.cursors@[i].next.value);
                                } else {
                                    assert(self.cursors@[i] == pre.cursors@[i]);
                                }
                            } else {
                                assert(tasks@[k] == t);
                                if i != j {
                                    // ids are unique: no other cursor shares t's partition
                                    if i < j {
                                        assert(pre.cursors@[i].partition_id
                                            != pre.cursors@[j].partition_id);
                                    } else {
                                        assert(pre.cursors@[j].partition_id
                                            != pre.cursors@[i].partition_id);
                                    }
                                    assert(false);
                                } else {
                                    assert(self.cursors@[j].next.value == t.offset.value + 1);
                                }
                            }
                        }
                        assert forall|k1: int, k2: int|
                            0 <= k1 < k2 < tasks@.len() && (#[trigger] tasks@[k1]).partition_id
                                == (#[trigger] tasks@[k2]).partition_id implies tasks@[k1].offset.value
                            < tasks@[k2].offset.value by {
                            if k2 < tasks_before.len() {
                                assert(tasks@[k1] == tasks_before[k1]);
                                assert(tasks@[k2] == tasks_before[k2]);
                            } else {
                                assert(tasks@[k2] == t);
                                assert(tasks@[k1] == tasks_before[k1]);
                                assert(pre.cursors@[j].partition_id == t.partition_id);
                                assert(tasks_before[k1].offset.value
                                    < pre.cursors@[j].next.value);
                            }
                        }
                    }
                },
                None => {
                    done = true;
                },
            }
        }
        progress.complete();
        proof {
            lemma_remaining_zero_when_dead(self.cursors@);
        }
        tasks
    }
}

/// The partition ids of the cursors still open, in cursor order.
pub open spec fn live_ids(cs: Seq<PartitionCursor>) -> Seq<PartitionId>
    decreases cs.len(),
{
    if cs.len() == 0 {
        Seq::empty()
    } else if cursor_live(cs.last()) {
        live_ids(cs.drop_last()).push(cs.last().partition_id)
    } else {
        live_ids(cs.drop_last())
    }
}

/// Law: while a stream tracks an estimate, every record it yields lies
/// within the estimate's sub-range for that record's partition — and the
/// stream goes on tracking the estimate, so this holds of the whole run.
pub proof fn lemma_yield_within_estimate(
    pre: RecordStream,
    post: RecordStream,
    t: FetchTask,
    e: EstimatedQueryRange,
)
    requires
        pre.inv(),
        pre.tracks(e),
        yields(pre, post, t),
    ensures
        task_within_estimate(e, t),
        post.tracks(e),
{
    let j = pick_live(pre.cursors@, pre.next_index as int);
    assert(e.offsets@[j].partition_id == t.partition_id);
    assert(e.offsets@[j].start.value <= t.offset.value < e.offsets@[j].end.value);
}

} // verus!
