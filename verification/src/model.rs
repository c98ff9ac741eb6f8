use vstd::prelude::*;

verus! {

/// Name of a topic. A well-formed topic name is never empty.
#[derive(Debug, Clone, PartialEq, Eq)]
pub struct TopicName {
    pub value: String,
}

impl TopicName {
    /// A topic name is well formed when it is non-empty.
    pub open spec fn inv(&self) -> bool {
        self.value@.len() > 0
    }

    pub fn from(name: &str) -> (r: TopicName)
        ensures
            r.value@ == name@,
    {
        TopicName { value: String::from_str(name) }
    }

    pub fn as_str(&self) -> (r: &str)
        ensures
            r@ == self.value@,
    {
        self.value.as_str()
    }
}

/// One offset bound of a partition: either the earliest retained offset
/// (low watermark) or the next offset to be written (high watermark).
#[derive(Clone, Copy, Debug, PartialEq, Eq, Structural)]
#[verifier::ext_equal]
pub struct Watermark {
    pub value: i64,
}

impl Watermark {
    pub fn from(value: i64) -> (r: Watermark)
        ensures
            r.value == value,
    {
        Watermark { value }
    }
}

/// Identifier of a partition within a topic.
#[derive(Clone, Copy, Debug, PartialEq, Eq, Structural)]
#[verifier::ext_equal]
pub struct PartitionId {
    pub value: i32,
}

impl PartitionId {
    pub fn from(value: i32) -> (r: PartitionId)
        ensures
            r.value == value,
    {
        PartitionId { value }
    }
}

/// A partition-local, monotonically increasing position of a record.
#[derive(Clone, Copy, Debug, PartialEq, Eq, Structural)]
#[verifier::ext_equal]
pub struct Offset {
    pub value: i64,
}

impl Offset {
    pub fn from(value: i64) -> (r: Offset)
        ensures
            r.value == value,
    {
        Offset { value }
    }
}

/// A non-negative number of records.
#[derive(Clone, Copy, Debug, PartialEq, Eq, Structural)]
#[verifier::ext_equal]
pub struct Count {
    pub value: u64,
}

impl Count {
    pub fn from(value: u64) -> (r: Count)
        ensures
            r.value == value,
    {
        Count { value }
    }
}

/// One ordered log within a topic, with its current watermark snapshot.
#[derive(Clone, Copy, Debug, PartialEq, Eq, Structural)]
#[verifier::ext_equal]
pub struct Partition {
    pub id: PartitionId,
    pub low: Watermark,
    pub high: Watermark,
}

impl Partition {
    /// Offsets are non-negative and the low watermark never passes the high one.
    pub open spec fn inv(&self) -> bool {
        0 <= self.low.value <= self.high.value
    }

    pub fn new(id: PartitionId, low: Watermark, high: Watermark) -> (r: Partition)
        ensures
            r.id == id,
            r.low == low,
            r.high == high,
    {
        Partition { id, low, high }
    }
}

/// A named collection of partitions, fetched fresh for each query.
#[derive(Debug, Clone, PartialEq)]
pub struct Topic {
    pub name: TopicName,
    pub partitions: Vec<Partition>,
}

impl Topic {
    /// Partitions are well formed and their ids are unique within the topic.
    pub open spec fn inv(&self) -> bool {
        &&& self.name.inv()
        &&& forall|i: int|
            0 <= i < self.partitions@.len() ==> (#[trigger] self.partitions@[i]).inv()
        &&& forall|i: int, j: int|
            0 <= i < j < self.partitions@.len() ==> (#[trigger] self.partitions@[i]).id != (
            #[trigger] self.partitions@[j]).id
    }

    pub fn new(name: TopicName, partitions: Vec<Partition>) -> (r: Topic)
        ensures
            r.name == name,
            r.partitions == partitions,
    {
        Topic { name, partitions }
    }
}

/// The caller's query window in the offset domain; either bound may be open.
/// A time-based window is resolved to offset bounds before estimation.
#[derive(Clone, Copy, Debug, PartialEq, Eq)]
pub struct QueryRange {
    pub start: Option<Offset>,
    pub end: Option<Offset>,
}

impl QueryRange {
    /// Both bounds are given and the end lies before the start: the range is malformed.
    pub open spec fn inverted(&self) -> bool {
        match (self.start, self.end) {
            (Some(s), Some(e)) => e.value < s.value,
            _ => false,
        }
    }

    pub fn of(start: Option<Offset>, end: Option<Offset>) -> (r: QueryRange)
        ensures
            r.start == start,
            r.end == end,
    {
        QueryRange { start, end }
    }
}

/// The resolved offset bounds of one partition; `end` is exclusive.
#[derive(Clone, Copy, Debug, PartialEq, Eq, Structural)]
#[verifier::ext_equal]
pub struct PartitionOffsets {
    pub partition_id: PartitionId,
    pub start: Offset,
    pub end: Offset,
}

impl PartitionOffsets {
    pub open spec fn inv(&self) -> bool {
        0 <= self.start.value <= self.end.value
    }

    /// How many records this sub-range covers.
    pub open spec fn count(&self) -> int {
        self.end.value - self.start.value
    }
}

/// Sum of the lengths of a sequence of per-partition sub-ranges.
pub open spec fn offsets_total(s: Seq<PartitionOffsets>) -> int
    decreases s.len(),
{
    if s.len() == 0 {
        0
    } else {
        offsets_total(s.drop_last()) + s.last().count()
    }
}

/// Watermark-clamped per-partition offset bounds for one query execution,
/// plus the total expected record count. Immutable once computed: the stream
/// engine treats it as an authoritative cap even if watermarks move later.
#[derive(Debug, Clone, PartialEq)]
pub struct EstimatedQueryRange {
    pub topic_name: TopicName,
    pub offsets: Vec<PartitionOffsets>,
    pub total_count: Count,
}

impl EstimatedQueryRange {
    /// Sub-ranges are well formed, keyed by unique partition ids, and the
    /// total is exactly the sum of the sub-range lengths.
    pub open spec fn inv(&self) -> bool {
        &&& forall|i: int|
            0 <= i < self.offsets@.len() ==> (#[trigger] self.offsets@[i]).inv()
        &&& forall|i: int, j: int|
            0 <= i < j < self.offsets@.len() ==> (#[trigger] self.offsets@[i]).partition_id != (
            #[trigger] self.offsets@[j]).partition_id
        &&& self.total_count.value == offsets_total(self.offsets@)
    }
}

/// A key of a retrieved record.
#[derive(Debug, Clone, PartialEq, Eq)]
pub struct KeyValue {
    pub value: String,
}

impl KeyValue {
    pub fn from(value: &str) -> (r: KeyValue)
        ensures
            r.value@ == value@,
    {
        KeyValue { value: String::from_str(value) }
    }
}

/// The payload of a retrieved record.
#[derive(Debug, Clone, PartialEq, Eq)]
pub struct Payload {
    pub value: String,
}

impl Payload {
    pub fn from(value: &str) -> (r: Payload)
        ensures
            r.value@ == value@,
    {
        Payload { value: String::from_str(value) }
    }
}

/// One retrieved message, identified by topic, partition and offset.
#[derive(Debug, Clone, PartialEq)]
pub struct Record {
    pub topic: TopicName,
    pub key: KeyValue,
    pub partition: PartitionId,
    pub offset: Offset,
    pub payload: Payload,
}

impl Record {
    pub fn of(
        topic: TopicName,
        key: KeyValue,
        partition: PartitionId,
        offset: Offset,
        payload: Payload,
    ) -> (r: Record)
        ensures
            r.topic == topic,
            r.key == key,
            r.partition == partition,
            r.offset == offset,
            r.payload == payload,
    {
        Record { topic, key, partition, offset, payload }
    }
}

/// How the topics of a query are selected: an explicit list of names.
#[derive(Debug, Clone, PartialEq, Eq)]
pub enum TopicsMatcherType {
    DIRECT(Vec<String>),
}

/// A recognized command: query a set of topics over a range.
#[derive(Debug, Clone, PartialEq)]
pub enum Command {
    QueryByRange { topics: TopicsMatcherType, range: QueryRange },
}

/// Failure taxonomy of the core. A per-partition empty sub-range is
/// deliberately not represented here: it is not an error.
#[derive(Debug, Clone, PartialEq, Eq)]
pub enum K4QError {
    /// A topic or partition is absent.
    NotFoundError(String),
    /// Metadata or fetch failure, including a timeout.
    BrokerError(String),
    /// An inverted or otherwise malformed query range.
    RangeError(String),
    /// Configuration could not be read or understood.
    ConfigError(String),
}

} // verus!
