use boucle::buffers::{create_buffers, load_loop, record_chunk, InputBuffer, LoopBuffers};
use boucle::control_surface::midi::{self, MidiControlSurface};
use boucle::control_surface::op1::Op1;
use boucle::control_surface::organelle::{interpret_osc, map_key, PatchAction};
use boucle::op_sequence::{op_active, Entry};
use boucle::patterns::{CheckersReverse, Pattern};
use boucle::{BeatFraction, Boucle, Config, Operation, SampleScale, StateChange};

#[test]
fn beat_fraction_scales_to_samples() {
    // At 44100 samples per beat, one beat (16 sixteenths) is 44100 samples.
    let scale = SampleScale::new(44100, 16);
    assert_eq!(
        BeatFraction::from_sixteenths(16).as_sample_position(scale),
        44100
    );
    assert_eq!(
        BeatFraction::from_sixteenths(16).as_sample_offset(scale),
        44100
    );
    // Fractional results floor: one sixteenth is floor(44100 / 16) = 2756.
    assert_eq!(
        BeatFraction::from_sixteenths(1).as_sample_position(scale),
        2756
    );
    // Negative offsets floor away from zero.
    assert_eq!(
        BeatFraction::from_sixteenths(-1).as_sample_offset(scale),
        -2757
    );
    // A negative value has no sample count: the position saturates at zero.
    assert_eq!(
        BeatFraction::from_sixteenths(-16).as_sample_position(scale),
        0
    );
}

#[test]
fn op_active_bounds() {
    let entry = Entry {
        start: 3,
        duration: Some(10),
        operation: Operation::Reverse,
    };
    assert!(!op_active(&entry, 2));
    assert!(op_active(&entry, 3));
    assert!(op_active(&entry, 12));
    assert!(!op_active(&entry, 13));

    let open = Entry {
        start: 3,
        duration: None,
        operation: Operation::Reverse,
    };
    assert!(!op_active(&open, 0));
    assert!(op_active(&open, usize::MAX));

    // An end past the clock's range never arrives.
    let huge = Entry {
        start: usize::MAX,
        duration: Some(2),
        operation: Operation::Reverse,
    };
    assert!(op_active(&huge, usize::MAX));
}

#[test]
fn record_chunk_wraps_and_flips() {
    let mut buffers = create_buffers(4, 0.0f32);
    assert!(buffers.current_input == InputBuffer::B);
    record_chunk(&mut buffers, &[1.0, 2.0, 3.0, 4.0, 5.0, 6.0]);
    // The first four samples fill buffer B; at the wrap the input side
    // flips to A and starts over.
    assert_eq!(buffers.input_b, vec![1.0, 2.0, 3.0, 4.0]);
    assert_eq!(buffers.input_a, vec![5.0, 6.0, 0.0, 0.0]);
    assert!(buffers.current_input == InputBuffer::A);
    assert_eq!(buffers.record_pos, 2);
    assert_eq!(buffers.play_clock, 0);
}

#[test]
fn load_loop_pads_with_silence() {
    let mut buffers = create_buffers(4, 0.0f32);
    load_loop(&mut buffers, &[7.0, 8.0], 0.0f32);
    assert_eq!(buffers.input_a, vec![7.0, 8.0, 0.0, 0.0]);
    assert_eq!(buffers.input_b, vec![7.0, 8.0, 0.0, 0.0]);
}

#[test]
fn render_block_flips_output_at_wrap() {
    let config = Config {
        sample_rate: 44100,
        beat_fraction_to_samples: SampleScale::new(1, 16),
    };
    let mut boucle = Boucle::new(&config, 4);
    let mut buffers: LoopBuffers<f32> = LoopBuffers {
        input_a: vec![1.0, 2.0, 3.0, 4.0],
        input_b: vec![5.0, 6.0, 7.0, 8.0],
        current_input: InputBuffer::B,
        current_output: InputBuffer::A,
        record_pos: 0,
        play_clock: 2,
    };
    // A block crossing the wrap: the span to the end of the loop plays
    // from A, the remainder from B after the flip.
    let out = boucle.render_block(&mut buffers, 4, 123);
    assert_eq!(out, vec![3.0, 4.0, 5.0, 6.0]);
    assert!(buffers.current_output == InputBuffer::B);
    assert_eq!(buffers.play_clock, 6);
    // The sync point republishes at the clock reached.
    assert_eq!(boucle.event_recorder.event_sync_time, 123);
    assert_eq!(boucle.event_recorder.event_sync_sample_position, 6);
}

#[test]
fn render_block_keeps_buffer_without_wrap() {
    let config = Config {
        sample_rate: 44100,
        beat_fraction_to_samples: SampleScale::new(1, 16),
    };
    let mut boucle = Boucle::new(&config, 8);
    let mut buffers = create_buffers(8, 0.0f32);
    load_loop(&mut buffers, &[1.0, 2.0, 3.0, 4.0, 5.0, 6.0, 7.0, 8.0], 0.0);
    let out = boucle.render_block(&mut buffers, 4, 0);
    assert_eq!(out, vec![1.0, 2.0, 3.0, 4.0]);
    assert!(buffers.current_output == InputBuffer::A);
    let out = boucle.render_block(&mut buffers, 4, 0);
    assert_eq!(out, vec![5.0, 6.0, 7.0, 8.0]);
    assert!(buffers.current_output == InputBuffer::A);
    assert_eq!(buffers.play_clock, 8);
}

#[test]
fn op1_keyboard_map() {
    let surface = Op1 {};
    assert_eq!(surface.map_midi_note(midi::NOTE_E5), Operation::Reverse);
    assert_eq!(
        surface.map_midi_note(midi::NOTE_F4),
        Operation::Jump {
            offset: BeatFraction::from_sixteenths(-128)
        }
    );
    assert_eq!(
        surface.map_midi_note(midi::NOTE_A5),
        Operation::Repeat {
            loop_size: BeatFraction::from_sixteenths(128)
        }
    );
    assert_eq!(surface.map_midi_note(midi::NOTE_BB4), Operation::NoOp);
}

#[test]
fn op1_midi_messages() {
    let surface = Op1 {};
    assert_eq!(
        surface.map_midi_message(0x90, midi::NOTE_E5),
        (StateChange::On, Operation::Reverse)
    );
    assert_eq!(
        surface.map_midi_message(0x83, midi::NOTE_E5),
        (StateChange::Off, Operation::Reverse)
    );
    assert_eq!(
        surface.map_midi_message(0xb0, midi::NOTE_E5),
        (StateChange::NoChange, Operation::NoOp)
    );
}

#[test]
fn organelle_keyboard_map() {
    assert_eq!(map_key(12), Operation::Reverse);
    assert_eq!(
        map_key(1),
        Operation::Jump {
            offset: BeatFraction::from_sixteenths(-128)
        }
    );
    assert_eq!(
        map_key(24),
        Operation::Jump {
            offset: BeatFraction::from_sixteenths(128)
        }
    );
    assert_eq!(map_key(0), Operation::NoOp);
    assert_eq!(map_key(99), Operation::NoOp);
}

#[test]
fn osc_key_messages_become_key_actions() {
    assert_eq!(
        interpret_osc("/keys", &vec![12, 1]),
        PatchAction::Key {
            key: 12,
            pressed: true
        }
    );
    assert_eq!(
        interpret_osc("/keys", &vec![12, 0]),
        PatchAction::Key {
            key: 12,
            pressed: false
        }
    );
    // An out-of-range key or a malformed message is left unhandled.
    assert_eq!(interpret_osc("/keys", &vec![25, 1]), PatchAction::Unhandled);
    assert_eq!(interpret_osc("/keys", &vec![12]), PatchAction::Unhandled);
}

#[test]
fn osc_knob_messages_become_knob_actions() {
    assert_eq!(
        interpret_osc("/knobs", &vec![0, 100, 200, 300, 400, 1023]),
        PatchAction::Knobs {
            positions: vec![0, 100, 200, 300, 400, 1023]
        }
    );
    assert_eq!(
        interpret_osc("/knobs", &vec![0, 100, 200, 300, 400, 1024]),
        PatchAction::Unhandled
    );
    assert_eq!(
        interpret_osc("/oled/line/1", &vec![1, 2]),
        PatchAction::Unhandled
    );
}

#[test]
fn checkers_reverse_fires_on_period() {
    let mut pattern = CheckersReverse::new(60, 44100);
    let scale = SampleScale::new(1, 1);
    let on_beat = pattern.op_for_beat(BeatFraction::from_sixteenths(32), scale);
    let entry = on_beat.unwrap();
    assert_eq!(entry.start, 32);
    assert_eq!(entry.duration, Some(16));
    assert_eq!(entry.operation, Operation::Reverse);
    assert!(pattern
        .op_for_beat(BeatFraction::from_sixteenths(16), scale)
        .is_none());
}
