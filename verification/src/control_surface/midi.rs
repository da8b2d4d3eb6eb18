use vstd::prelude::*;

use crate::event::StateChange;
use crate::ops::Operation;

verus! {

/// A MIDI note number.
pub type MidiNote = u8;

pub const NOTE_C4: MidiNote = 48;
pub const NOTE_DB4: MidiNote = 49;
pub const NOTE_D4: MidiNote = 50;
pub const NOTE_EB4: MidiNote = 51;
pub const NOTE_E4: MidiNote = 52;
pub const NOTE_F4: MidiNote = 53;
pub const NOTE_GB4: MidiNote = 54;
pub const NOTE_G4: MidiNote = 55;
pub const NOTE_AB4: MidiNote = 56;
pub const NOTE_A4: MidiNote = 57;
pub const NOTE_BB4: MidiNote = 58;
pub const NOTE_B4: MidiNote = 59;
pub const NOTE_C5: MidiNote = 60;
pub const NOTE_DB5: MidiNote = 61;
pub const NOTE_D5: MidiNote = 62;
pub const NOTE_EB5: MidiNote = 63;
pub const NOTE_E5: MidiNote = 64;
pub const NOTE_F5: MidiNote = 65;
pub const NOTE_GB5: MidiNote = 66;
pub const NOTE_G5: MidiNote = 67;
pub const NOTE_AB5: MidiNote = 68;
pub const NOTE_A5: MidiNote = 69;
pub const NOTE_BB5: MidiNote = 70;
pub const NOTE_B5: MidiNote = 71;
pub const NOTE_C6: MidiNote = 72;
pub const NOTE_DB6: MidiNote = 73;
pub const NOTE_D6: MidiNote = 74;
pub const NOTE_EB6: MidiNote = 75;
pub const NOTE_E6: MidiNote = 76;

/// Whether a raw MIDI status byte is a note-on message.
pub open spec fn spec_is_note_on(midi_status: u8) -> bool {
    midi_status & 0xf0 == 0x90
}

/// Whether a raw MIDI status byte is a note-off message.
pub open spec fn spec_is_note_off(midi_status: u8) -> bool {
    midi_status & 0xf0 == 0x80
}

pub fn is_note_on(midi_status: u8) -> (r: bool)
    ensures
        r == spec_is_note_on(midi_status),
{
    (midi_status & 0xf0) == 0x90
}

pub fn is_note_off(midi_status: u8) -> (r: bool)
    ensures
        r == spec_is_note_off(midi_status),
{
    (midi_status & 0xf0) == 0x80
}

/// What a surface with keyboard map `note_map` turns a raw MIDI message
/// into: a note-on is a trigger press, a note-off a release, and any
/// other message carries no transition.
pub open spec fn spec_map_midi_message(
    note_map: spec_fn(MidiNote) -> Operation,
    status: u8,
    data1: u8,
) -> (StateChange, Operation) {
    if spec_is_note_on(status) {
        (StateChange::On, note_map(data1))
    } else if spec_is_note_off(status) {
        (StateChange::Off, note_map(data1))
    } else {
        (StateChange::NoChange, Operation::NoOp)
    }
}

/// A control surface that reads raw MIDI messages. A surface states its
/// keyboard map as `spec_map_midi_note`, and its executable methods are
/// held to that map.
pub trait MidiControlSurface {
    /// The surface's keyboard map.
    spec fn spec_map_midi_note(&self, note: MidiNote) -> Operation;

    /// The operation `note` stands for on this surface.
    fn map_midi_note(&self, note: MidiNote) -> (op: Operation)
        ensures
            op == self.spec_map_midi_note(note),
    ;

    /// Split a raw MIDI message into the transition it carries and the
    /// operation its key stands for.
    fn map_midi_message(&self, status: u8, data1: u8) -> (r: (StateChange, Operation))
        ensures
            r == spec_map_midi_message(
                |n: MidiNote| self.spec_map_midi_note(n),
                status,
                data1,
            ),
    ;
}

} // verus!
