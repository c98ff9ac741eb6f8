use vstd::prelude::*;

use crate::estimator::{estimate_matches, estimated_total};
use crate::model::{
    Command, Count, EstimatedQueryRange, K4QError, QueryRange, Record, Topic, TopicName,
    TopicsMatcherType,
};
use crate::progress::Progress;

verus! {

/// Pulls the records of one topic. A production adapter reaches the broker;
/// a test double fabricates records.
pub trait RecordFinder {
    fn find_by(&self, topic_name: &TopicName) -> Vec<Record>;
}

/// Recognizes a command in raw command-line arguments. A pure parse: the
/// absence of a match is "no command", not an error.
pub trait CommandRecognizer {
    fn recognize(&self, args: &Vec<&str>) -> Option<Command>;
}

/// Starts and feeds a progress indicator sized by an estimate.
pub trait ProgressNotifier {
    type Handle: Progress;

    /// Out-of-band textual status; carries no count semantics.
    fn notify(&self, message: &str);

    /// Opens a fresh handle whose target is the estimated record count.
    fn start(&self, estimated_max_size: &Count) -> (h: Self::Handle)
        ensures
            h.target() == estimated_max_size.value,
            h.consumed() == 0,
            !h.completed(),
    ;
}

/// Resolves topic matchers to topics carrying a current partition and
/// watermark snapshot. Resolution failures are per topic: an absent topic or
/// an unreachable broker poisons that entry alone.
pub trait TopicsFinder {
    fn find_by(&self, topics_matcher_type: &TopicsMatcherType) -> Vec<Result<Topic, K4QError>>;
}

/// Converts a logical query range into concrete per-partition offset bounds
/// using the partitions' watermarks.
pub trait QueryRangeEstimator {
    /// An inverted range fails with a `RangeError` before any partition is
    /// touched; any other range yields exactly the watermark-clamped
    /// estimate, whose total is the sum of the sub-range lengths.
    fn estimate(&self, topic: &Topic, query_range: &QueryRange) -> (r: Result<
        EstimatedQueryRange,
        K4QError,
    >)
        requires
            topic.inv(),
            estimated_total(topic.partitions@, *query_range) <= u64::MAX,
        ensures
            query_range.inverted() <==> r is Err,
            r matches Err(e) ==> e is RangeError,
            r matches Ok(e) ==> estimate_matches(*topic, *query_range, e) && e.inv(),
    ;
}

/// Configuration of the application, read once at start.
pub trait ApplicationProperties {
    fn value_of(&self, key: &str) -> Option<String>;
}

/// Loads configuration. Failures are I/O or format conditions, irrelevant to
/// the core's correctness.
pub trait PropertiesSource {
    type Properties: ApplicationProperties;

    fn load(&self, config_location: &str) -> Result<Self::Properties, K4QError>;
}

/// One broker context, built from configuration, handing out the ports that
/// depend on it.
pub trait ConfiguredContext {
    type Topics: TopicsFinder;
    type Estimator: QueryRangeEstimator;
    type Records: RecordFinder;

    fn topics_finder(&self) -> &Self::Topics;

    fn query_range_estimator(&self) -> &Self::Estimator;

    fn record_finder(&self) -> &Self::Records;
}

/// Builds a configured context from loaded properties.
pub trait ConfiguredContextFactory {
    type Properties: ApplicationProperties;
    type Context: ConfiguredContext;

    fn create(&self, properties: &Self::Properties) -> Self::Context;
}

} // verus!
