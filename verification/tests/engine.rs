use boucle::op_sequence::Entry;
use boucle::{Boucle, Config, OpSequence, Operation};
use boucle::{BeatFraction, SampleScale};

fn test_config() -> Config {
    Config {
        sample_rate: 44100,
        // Map beats 1:1 to samples: one sixteenth of a beat is 1/16 sample.
        beat_fraction_to_samples: SampleScale::new(1, 16),
    }
}

fn make_buffer(data: &[i16]) -> Vec<f32> {
    data.iter().map(|s| f32::from(*s)).collect()
}

#[test]
fn basic_reverse() {
    let input = make_buffer(&[1, 2, 3, 4, 5, 6, 7, 8]);
    let boucle: Boucle = Boucle::new(&test_config(), input.len());

    let ops: OpSequence = vec![Entry {
        start: 3,
        duration: Some(10),
        operation: Operation::Reverse,
    }];
    let expected_output = make_buffer(&[1, 2, 3, 4, 3, 2, 1, 8, 7, 6, 5, 4, 3, 6, 7, 8]);

    let output = boucle.process_buffer(&input, 0, input.len() * 2, &ops);
    assert_eq!(output, expected_output);
}

#[test]
fn basic_jump() {
    let input = make_buffer(&[1, 2, 3, 4, 5, 6, 7, 8, 9, 10, 11, 12, 13, 14, 15, 16]);
    let boucle: Boucle = Boucle::new(&test_config(), input.len());

    let ops: OpSequence = vec![
        Entry {
            start: 4,
            duration: Some(4),
            operation: Operation::Jump {
                offset: BeatFraction::from_sixteenths(-64),
            },
        },
        Entry {
            start: 12,
            duration: Some(4),
            operation: Operation::Jump {
                offset: BeatFraction::from_sixteenths(128),
            },
        },
    ];
    let expected_output = make_buffer(&[1, 2, 3, 4, 1, 2, 3, 4, 9, 10, 11, 12, 5, 6, 7, 8]);

    let output = boucle.process_buffer(&input, 0, input.len(), &ops);
    assert_eq!(output, expected_output);
}

#[test]
fn basic_repeat() {
    let input = make_buffer(&[
        1, 2, 3, 4, 5, 6, 7, 8, 9, 10, 11, 12, 13, 14, 15, 16, 17, 18, 19, 20, 21, 22, 23, 24,
    ]);
    let boucle: Boucle = Boucle::new(&test_config(), input.len());

    let ops: OpSequence = vec![Entry {
        start: 0,
        duration: Some(20),
        operation: Operation::Repeat {
            loop_size: BeatFraction::from_sixteenths(128),
        },
    }];
    let expected_output = make_buffer(&[
        1, 2, 3, 4, 5, 6, 7, 8, 1, 2, 3, 4, 5, 6, 7, 8, 1, 2, 3, 4, 21, 22, 23, 24,
    ]);

    let output = boucle.process_buffer(&input, 0, input.len(), &ops);
    assert_eq!(output, expected_output);
}

#[test]
fn empty_sequence_reproduces_buffer() {
    let input = make_buffer(&[9, 8, 7, 6, 5, 4]);
    let boucle: Boucle = Boucle::new(&test_config(), input.len());
    let ops: OpSequence = Vec::new();

    let output = boucle.process_buffer(&input, 0, input.len() * 3, &ops);
    for (k, s) in output.iter().enumerate() {
        assert_eq!(*s, input[k % input.len()]);
    }
}

#[test]
fn entry_order_does_not_matter() {
    let input = make_buffer(&[1, 2, 3, 4, 5, 6, 7, 8, 9, 10, 11, 12, 13, 14, 15, 16]);
    let boucle: Boucle = Boucle::new(&test_config(), input.len());

    let jump = Entry {
        start: 2,
        duration: Some(10),
        operation: Operation::Jump {
            offset: BeatFraction::from_sixteenths(32),
        },
    };
    let reverse = Entry {
        start: 4,
        duration: Some(6),
        operation: Operation::Reverse,
    };

    let one_way: OpSequence = vec![jump.clone(), reverse.clone()];
    let other_way: OpSequence = vec![reverse, jump];
    let a = boucle.process_buffer(&input, 0, input.len(), &one_way);
    let b = boucle.process_buffer(&input, 0, input.len(), &other_way);
    assert_eq!(a, b);
}

#[test]
fn loop_position_wraps_both_signs() {
    // Plain remainder for non-negative clocks.
    assert_eq!(boucle::loop_position(0, 5), 0);
    assert_eq!(boucle::loop_position(10, 8), 2);
    assert_eq!(boucle::loop_position(7, 8), 7);
    // Mirrored remainder for negative clocks.
    assert_eq!(boucle::loop_position(-3, 8), 5);
    assert_eq!(boucle::loop_position(-8, 8), 0);
    assert_eq!(boucle::loop_position(-16, 16), 0);
    assert_eq!(boucle::loop_position(-17, 16), 15);
}

#[test]
fn get_transform_per_operation() {
    let scale = SampleScale::new(1, 16);
    // A jump moves by its offset in samples, whatever the clock.
    assert_eq!(
        boucle::ops::get_transform(
            Operation::Jump {
                offset: BeatFraction::from_sixteenths(-64)
            },
            scale,
            9,
            4,
            16
        ),
        -4
    );
    // Reverse mirrors time around the start of the operation.
    assert_eq!(
        boucle::ops::get_transform(Operation::Reverse, scale, 5, 3, 16),
        -4
    );
    // Repeat pulls the clock back a whole number of inner loops.
    assert_eq!(
        boucle::ops::get_transform(
            Operation::Repeat {
                loop_size: BeatFraction::from_sixteenths(128)
            },
            scale,
            19,
            0,
            24
        ),
        -16
    );
    // The no-op and the speed-ramp stub contribute nothing.
    assert_eq!(
        boucle::ops::get_transform(Operation::NoOp, scale, 10, 0, 16),
        0
    );
    assert_eq!(
        boucle::ops::get_transform(
            Operation::SpeedRamp {
                start_speed: boucle::ops::Speed { thousandths: 500 },
                end_speed: boucle::ops::Speed { thousandths: 2000 },
            },
            scale,
            10,
            0,
            16
        ),
        0
    );
}

#[test]
fn set_loop_length_changes_wrap() {
    let input = make_buffer(&[1, 2, 3, 4, 5, 6, 7, 8]);
    let mut boucle: Boucle = Boucle::new(&test_config(), input.len());
    assert_eq!(boucle.loop_length(), 8);
    boucle.set_loop_length(4);
    assert_eq!(boucle.loop_length(), 4);
    let ops: OpSequence = Vec::new();
    let output = boucle.process_buffer(&input, 0, 8, &ops);
    assert_eq!(output, make_buffer(&[1, 2, 3, 4, 1, 2, 3, 4]));
}
