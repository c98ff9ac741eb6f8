use vstd::prelude::*;

use crate::model::Count;
use crate::ports::ProgressNotifier;

verus! {

/// A mutable consumption tracker for one query execution, driven by the
/// core: one `increment` per emitted record, one `complete` at stream end or
/// cancellation. Only the task driving the stream calls it — no concurrent
/// writers.
pub trait Progress: Sized {
    /// Records consumed so far.
    spec fn consumed(&self) -> int;

    /// The estimated target this tracker was started with.
    spec fn target(&self) -> int;

    /// Whether the tracker has been finalized.
    spec fn completed(&self) -> bool;

    /// Called once per emitted record. The stream engine never emits past
    /// the estimated target, so the consumed count never passes it either.
    fn increment(&mut self)
        requires
            old(self).consumed() < old(self).target(),
        ensures
            final(self).consumed() == old(self).consumed() + 1,
            final(self).target() == old(self).target(),
            final(self).completed() == old(self).completed(),
    ;

    /// Finalizes the tracker. Completion is monotonic and idempotent: a
    /// second, defensive call changes nothing further.
    fn complete(&mut self)
        ensures
            final(self).completed(),
            final(self).consumed() == old(self).consumed(),
            final(self).target() == old(self).target(),
    ;
}

/// A plain counting progress handle: target, consumed count and completion
/// flag, nothing else.
#[derive(Clone, Copy, Debug, PartialEq, Eq, Structural)]
pub struct ProgressCounter {
    pub max: u64,
    pub count: u64,
    pub done: bool,
}

impl Progress for ProgressCounter {
    open spec fn consumed(&self) -> int {
        self.count as int
    }

    open spec fn target(&self) -> int {
        self.max as int
    }

    open spec fn completed(&self) -> bool {
        self.done
    }

    fn increment(&mut self) {
        self.count = self.count + 1;
    }

    fn complete(&mut self) {
        self.done = true;
    }
}

/// A progress notifier that renders nothing itself: it hands out plain
/// counting handles sized by the estimate. A console adapter decorates the
/// same counts with visible output.
pub struct CountingProgressNotifier {}

impl ProgressNotifier for CountingProgressNotifier {
    type Handle = ProgressCounter;

    fn notify(&self, _message: &str) {
    }

    fn start(&self, estimated_max_size: &Count) -> (h: ProgressCounter) {
        ProgressCounter { max: estimated_max_size.value, count: 0, done: false }
    }
}

} // verus!
