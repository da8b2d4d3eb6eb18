use vstd::prelude::*;

use crate::ops::Operation;
use crate::units::SamplePosition;

verus! {

/// An operation bound to the span of the sample clock on which it acts:
/// `[start, start + duration)`, or `[start, ∞)` while its end is unknown.
#[derive(Clone, Copy, Debug, PartialEq, Eq)]
pub struct Entry {
    pub start: SamplePosition,
    pub duration: Option<SamplePosition>,
    pub operation: Operation,
}

/// The entries relevant to one processing window. No ordering between
/// entries is assumed or required.
pub type OpSequence = Vec<Entry>;

/// Whether `entry` is active at `clock`: at or past its start, and before
/// the exclusive end `start + duration` when a duration is known.
pub open spec fn spec_op_active(entry: Entry, clock: int) -> bool {
    &&& entry.start <= clock
    &&& match entry.duration {
        Some(d) => clock < entry.start + d,
        None => true,
    }
}

/// The single membership test used by the transform engine.
///
/// `start + duration` is an exclusive bound; when that sum exceeds the
/// clock's range the entry simply never ends within it, so the test stays
/// exact without wrapping.
pub fn op_active(entry: &Entry, clock: SamplePosition) -> (r: bool)
    ensures
        r == spec_op_active(*entry, clock as int),
{
    let started = clock >= entry.start;
    let finished = match entry.duration {
        Some(duration) => match entry.start.checked_add(duration) {
            Some(end) => clock >= end,
            None => false,
        },
        None => false,
    };
    started && !finished
}

} // verus!
