//! Times of a segment on the clock of the whole recording.

use vstd::prelude::*;

use crate::duration::Duration;

verus! {

/// How far into a recording one of its segments starts: `index` segments, each `segment`
/// long. Its view is that time in nanoseconds.
#[derive(Clone, Copy, Debug, PartialEq, Eq)]
pub struct Offset {
    pub segment: Duration,
    pub index: usize,
}

impl View for Offset {
    type V = nat;

    open spec fn view(&self) -> nat {
        self.index as nat * self.segment@
    }
}

/// A time that was read on the clock of a segment, and what is to be added to it. The time
/// is kept as it was read, so that nothing of it is lost.
#[derive(Clone, Copy, Debug, PartialEq, Eq)]
pub struct Moved<S> {
    pub read: S,
    pub offset: Offset,
}

/// The time on the clock of the whole recording, in nanoseconds, `reading` being how the
/// time that was read is understood.
pub open spec fn time_of<S>(reading: spec_fn(S) -> int, time: Moved<S>) -> int {
    reading(time.read) + time.offset@
}

} // verus!
