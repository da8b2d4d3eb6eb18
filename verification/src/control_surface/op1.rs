//! Keyboard map for the OP-1 control surface.

use vstd::prelude::*;

use crate::control_surface::midi::{
    is_note_off, is_note_on, spec_map_midi_message, MidiControlSurface, MidiNote, NOTE_A4,
    NOTE_A5, NOTE_AB4, NOTE_AB5, NOTE_B4, NOTE_B5, NOTE_C5, NOTE_C6, NOTE_D5, NOTE_D6, NOTE_DB5,
    NOTE_DB6, NOTE_E5, NOTE_E6, NOTE_EB5, NOTE_EB6, NOTE_F4, NOTE_G4, NOTE_G5, NOTE_GB4,
    NOTE_GB5,
};
use crate::event::StateChange;
use crate::ops::Operation;
use crate::units::BeatFraction;

verus! {

/// The operation each key of the two playing octaves stands for: the
/// lower octave jumps backward, the upper jumps forward, the keys in
/// between repeat ever larger loops, and E5 reverses. Parameters are in
/// sixteenths of a beat.
pub open spec fn op1_note_operation(note: MidiNote) -> Operation {
    if note == NOTE_F4 {
        Operation::Jump { offset: BeatFraction { value: -128i32 } }
    } else if note == NOTE_GB4 {
        Operation::Jump { offset: BeatFraction { value: -64i32 } }
    } else if note == NOTE_G4 {
        Operation::Jump { offset: BeatFraction { value: -32i32 } }
    } else if note == NOTE_AB4 {
        Operation::Jump { offset: BeatFraction { value: -16i32 } }
    } else if note == NOTE_A4 {
        Operation::Jump { offset: BeatFraction { value: -8i32 } }
    } else if note == NOTE_B4 {
        Operation::Jump { offset: BeatFraction { value: -4i32 } }
    } else if note == NOTE_C5 {
        Operation::Repeat { loop_size: BeatFraction { value: 1 } }
    } else if note == NOTE_DB5 {
        Operation::Repeat { loop_size: BeatFraction { value: 2 } }
    } else if note == NOTE_D5 {
        Operation::Repeat { loop_size: BeatFraction { value: 4 } }
    } else if note == NOTE_EB5 {
        Operation::Repeat { loop_size: BeatFraction { value: 8 } }
    } else if note == NOTE_E5 {
        Operation::Reverse
    } else if note == NOTE_GB5 {
        Operation::Repeat { loop_size: BeatFraction { value: 16 } }
    } else if note == NOTE_G5 {
        Operation::Repeat { loop_size: BeatFraction { value: 32 } }
    } else if note == NOTE_AB5 {
        Operation::Repeat { loop_size: BeatFraction { value: 64 } }
    } else if note == NOTE_A5 {
        Operation::Repeat { loop_size: BeatFraction { value: 128 } }
    } else if note == NOTE_B5 {
        Operation::Jump { offset: BeatFraction { value: 4 } }
    } else if note == NOTE_C6 {
        Operation::Jump { offset: BeatFraction { value: 8 } }
    } else if note == NOTE_DB6 {
        Operation::Jump { offset: BeatFraction { value: 16 } }
    } else if note == NOTE_D6 {
        Operation::Jump { offset: BeatFraction { value: 32 } }
    } else if note == NOTE_EB6 {
        Operation::Jump { offset: BeatFraction { value: 64 } }
    } else if note == NOTE_E6 {
        Operation::Jump { offset: BeatFraction { value: 128 } }
    } else {
        Operation::NoOp
    }
}

/// The Teenage Engineering OP-1 as a control surface.
pub struct Op1 {}

impl MidiControlSurface for Op1 {
    open spec fn spec_map_midi_note(&self, note: MidiNote) -> Operation {
        op1_note_operation(note)
    }

    fn map_midi_note(&self, note: MidiNote) -> (op: Operation) {
        if note == NOTE_F4 {
            Operation::Jump { offset: BeatFraction::from_sixteenths(-128) }
        } else if note == NOTE_GB4 {
            Operation::Jump { offset: BeatFraction::from_sixteenths(-64) }
        } else if note == NOTE_G4 {
            Operation::Jump { offset: BeatFraction::from_sixteenths(-32) }
        } else if note == NOTE_AB4 {
            Operation::Jump { offset: BeatFraction::from_sixteenths(-16) }
        } else if note == NOTE_A4 {
            Operation::Jump { offset: BeatFraction::from_sixteenths(-8) }
        } else if note == NOTE_B4 {
            Operation::Jump { offset: BeatFraction::from_sixteenths(-4) }
        } else if note == NOTE_C5 {
            Operation::Repeat { loop_size: BeatFraction::from_sixteenths(1) }
        } else if note == NOTE_DB5 {
            Operation::Repeat { loop_size: BeatFraction::from_sixteenths(2) }
        } else if note == NOTE_D5 {
            Operation::Repeat { loop_size: BeatFraction::from_sixteenths(4) }
        } else if note == NOTE_EB5 {
            Operation::Repeat { loop_size: BeatFraction::from_sixteenths(8) }
        } else if note == NOTE_E5 {
            Operation::Reverse
        } else if note == NOTE_GB5 {
            Operation::Repeat { loop_size: BeatFraction::from_sixteenths(16) }
        } else if note == NOTE_G5 {
            Operation::Repeat { loop_size: BeatFraction::from_sixteenths(32) }
        } else if note == NOTE_AB5 {
            Operation::Repeat { loop_size: BeatFraction::from_sixteenths(64) }
        } else if note == NOTE_A5 {
            Operation::Repeat { loop_size: BeatFraction::from_sixteenths(128) }
        } else if note == NOTE_B5 {
            Operation::Jump { offset: BeatFraction::from_sixteenths(4) }
        } else if note == NOTE_C6 {
            Operation::Jump { offset: BeatFraction::from_sixteenths(8) }
        } else if note == NOTE_DB6 {
            Operation::Jump { offset: BeatFraction::from_sixteenths(16) }
        } else if note == NOTE_D6 {
            Operation::Jump { offset: BeatFraction::from_sixteenths(32) }
        } else if note == NOTE_EB6 {
            Operation::Jump { offset: BeatFraction::from_sixteenths(64) }
        } else if note == NOTE_E6 {
            Operation::Jump { offset: BeatFraction::from_sixteenths(128) }
        } else {
            Operation::NoOp
        }
    }

    fn map_midi_message(&self, status: u8, data1: u8) -> (r: (StateChange, Operation)) {
        if is_note_on(status) {
            (StateChange::On, self.map_midi_note(data1))
        } else if is_note_off(status) {
            (StateChange::Off, self.map_midi_note(data1))
        } else {
            (StateChange::NoChange, Operation::NoOp)
        }
    }
}

} // verus!
