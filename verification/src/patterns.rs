//! Predefined patterns that trigger operations on a beat grid.

use vstd::prelude::*;

use crate::op_sequence::Entry;
use crate::ops::Operation;
use crate::units::{scaled_position, BeatFraction, SampleScale};

verus! {

/// A source of operations keyed to musical time. A pattern states its
/// behaviour as `spec_op_for_beat`, and its executable method is held to
/// it.
pub trait Pattern {
    /// The entry this pattern contributes at `beat`, if any.
    spec fn spec_op_for_beat(&self, beat: BeatFraction, scale: SampleScale) -> Option<Entry>;

    fn op_for_beat(&mut self, beat: BeatFraction, scale: SampleScale) -> (r: Option<Entry>)
        requires
            scale.valid(),
        ensures
            r == old(self).spec_op_for_beat(beat, scale),
    ;
}

/// Reverse playback on a regular grid: every beat that is a whole
/// multiple of `period` starts a reverse lasting `duration`.
pub struct CheckersReverse {
    pub period: BeatFraction,
    pub duration: BeatFraction,
}

impl CheckersReverse {
    /// Reverse every second beat, for one beat.
    pub fn new(_bpm: u32, _sample_rate: i32) -> (r: CheckersReverse)
        ensures
            r.period == (BeatFraction { value: 32 }),
            r.duration == (BeatFraction { value: 16 }),
    {
        CheckersReverse {
            period: BeatFraction::from_sixteenths(32),
            duration: BeatFraction::from_sixteenths(16),
        }
    }
}

impl Pattern for CheckersReverse {
    open spec fn spec_op_for_beat(&self, beat: BeatFraction, scale: SampleScale) -> Option<
        Entry,
    > {
        if self.period.value > 0 && (beat.value as int) % (self.period.value as int) == 0 {
            Some(
                Entry {
                    start: scaled_position(beat.value as int, scale) as usize,
                    duration: Some(scaled_position(self.duration.value as int, scale) as usize),
                    operation: Operation::Reverse,
                },
            )
        } else {
            None
        }
    }

    fn op_for_beat(&mut self, beat: BeatFraction, scale: SampleScale) -> (r: Option<Entry>) {
        if self.period.value <= 0 {
            return None;
        }
        match beat.value.checked_rem_euclid(self.period.value) {
            Some(0) => Some(
                Entry {
                    start: beat.as_sample_position(scale),
                    duration: Some(self.duration.as_sample_position(scale)),
                    operation: Operation::Reverse,
                },
            ),
            _ => None,
        }
    }
}

} // verus!
