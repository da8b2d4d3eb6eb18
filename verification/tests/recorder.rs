use boucle::{BeatFraction, EventRecorder, Operation, SamplePosition, StateChange};

const TEST_SAMPLE_RATE: u32 = 44100;
const ONE_SECOND: SamplePosition = TEST_SAMPLE_RATE as SamplePosition;
const ONE_SECOND_NANOS: u64 = 1_000_000_000;

fn recorder_with_one_event(sync_point: u64) -> EventRecorder {
    let mut recorder = EventRecorder::new(TEST_SAMPLE_RATE);
    recorder.set_event_sync_point(sync_point, 0);

    recorder.record_event(sync_point, StateChange::On, Operation::Reverse);
    recorder.record_event(
        sync_point + ONE_SECOND_NANOS,
        StateChange::Off,
        Operation::Reverse,
    );
    recorder
}

fn recorder_with_two_event_combo(sync_point: u64) -> EventRecorder {
    let mut recorder = EventRecorder::new(TEST_SAMPLE_RATE);
    recorder.set_event_sync_point(sync_point, 0);

    let op_1 = Operation::Jump {
        offset: BeatFraction::from_sixteenths(16),
    };
    let op_2 = Operation::Jump {
        offset: BeatFraction::from_sixteenths(32),
    };
    recorder.record_event(sync_point, StateChange::On, op_1);
    recorder.record_event(sync_point + ONE_SECOND_NANOS, StateChange::On, op_2);
    recorder.record_event(sync_point + 2 * ONE_SECOND_NANOS, StateChange::Off, op_1);
    recorder.record_event(sync_point + 3 * ONE_SECOND_NANOS, StateChange::Off, op_2);
    recorder
}

#[test]
fn one_event_one_second() {
    let instant: u64 = 5_000_000_000;
    let mut recorder = recorder_with_one_event(instant);

    let ops_one_second = recorder.ops_for_period(0, ONE_SECOND);
    assert_eq!(ops_one_second.len(), 1);
    assert_eq!(ops_one_second[0].start, 0);
    // The op didn't end in the period, so no duration here.
    assert_eq!(ops_one_second[0].duration, None);
    assert_eq!(ops_one_second[0].operation, Operation::Reverse);
}

#[test]
fn one_event_two_seconds() {
    let instant: u64 = 5_000_000_000;
    let mut recorder = recorder_with_one_event(instant);

    let ops_two_seconds = recorder.ops_for_period(0, ONE_SECOND * 2);
    assert_eq!(ops_two_seconds.len(), 1);
    assert_eq!(ops_two_seconds[0].start, 0);
    assert_eq!(ops_two_seconds[0].duration, Some(ONE_SECOND));
    assert_eq!(ops_two_seconds[0].operation, Operation::Reverse);
}

#[test]
fn one_event_half_second() {
    let instant: u64 = 5_000_000_000;
    let mut recorder = recorder_with_one_event(instant);
    // Query ops *after* the period began.
    let ops_half_second = recorder.ops_for_period(ONE_SECOND / 2, ONE_SECOND);
    assert_eq!(ops_half_second.len(), 1);
    assert_eq!(ops_half_second[0].start, 0);
    assert_eq!(ops_half_second[0].duration, Some(ONE_SECOND / 2));
    assert_eq!(ops_half_second[0].operation, Operation::Reverse);
}

#[test]
fn two_event_combo() {
    let instant: u64 = 5_000_000_000;
    let mut recorder = recorder_with_two_event_combo(instant);

    let op_1 = Operation::Jump {
        offset: BeatFraction::from_sixteenths(16),
    };
    let op_2 = Operation::Jump {
        offset: BeatFraction::from_sixteenths(32),
    };

    let ops_first = recorder.ops_for_period(0, ONE_SECOND);
    assert_eq!(ops_first.len(), 1);
    assert_eq!(ops_first[0].start, 0);
    assert_eq!(ops_first[0].duration, None);
    assert_eq!(ops_first[0].operation, op_1);

    let ops_second = recorder.ops_for_period(ONE_SECOND, ONE_SECOND * 2);
    // Both ops are active; they have distinct parameters, so both appear
    // as independent entries.
    assert_eq!(ops_second.len(), 2);
    assert_eq!(ops_second[0].start, 0);
    assert_eq!(ops_second[0].duration, Some(ONE_SECOND));
    assert_eq!(ops_second[0].operation, op_1);
    assert_eq!(ops_second[1].start, ONE_SECOND);
    assert_eq!(ops_second[1].duration, None);
    assert_eq!(ops_second[1].operation, op_2);

    let ops_third = recorder.ops_for_period(ONE_SECOND * 2, ONE_SECOND * 3);
    assert_eq!(ops_third.len(), 1);
    assert_eq!(ops_third[0].start, ONE_SECOND);
    assert_eq!(ops_third[0].duration, Some(ONE_SECOND));
    assert_eq!(ops_third[0].operation, op_2);
}

#[test]
fn overlapping_distinct_jumps_both_open() {
    let mut recorder = EventRecorder::new(TEST_SAMPLE_RATE);
    recorder.set_event_sync_point(0, 0);
    let op_1 = Operation::Jump {
        offset: BeatFraction::from_sixteenths(-8),
    };
    let op_2 = Operation::Jump {
        offset: BeatFraction::from_sixteenths(8),
    };
    recorder.record_event(0, StateChange::On, op_1);
    recorder.record_event(0, StateChange::On, op_2);

    let ops = recorder.ops_for_period(0, ONE_SECOND);
    assert_eq!(ops.len(), 2);
    assert_eq!(ops[0].operation, op_1);
    assert_eq!(ops[0].duration, None);
    assert_eq!(ops[1].operation, op_2);
    assert_eq!(ops[1].duration, None);
}

#[test]
fn same_parameter_second_press_dropped() {
    let mut recorder = EventRecorder::new(TEST_SAMPLE_RATE);
    recorder.set_event_sync_point(0, 0);
    let op = Operation::Jump {
        offset: BeatFraction::from_sixteenths(16),
    };
    // A second press of the held trigger is a mismatched transition: it
    // is dropped, not opened as a second entry.
    recorder.record_event(0, StateChange::On, op);
    recorder.record_event(ONE_SECOND_NANOS / 2, StateChange::On, op);

    let ops = recorder.ops_for_period(0, ONE_SECOND);
    assert_eq!(ops.len(), 1);
    assert_eq!(ops[0].start, 0);
    assert_eq!(ops[0].duration, None);
    assert_eq!(ops[0].operation, op);
}

#[test]
fn release_without_press_dropped() {
    let mut recorder = EventRecorder::new(TEST_SAMPLE_RATE);
    recorder.set_event_sync_point(0, 0);
    recorder.record_event(0, StateChange::Off, Operation::Reverse);

    let ops = recorder.ops_for_period(0, ONE_SECOND);
    assert_eq!(ops.len(), 0);
}

#[test]
fn no_change_events_ignored() {
    let mut recorder = EventRecorder::new(TEST_SAMPLE_RATE);
    recorder.set_event_sync_point(0, 0);
    recorder.record_event(0, StateChange::NoChange, Operation::Reverse);

    let ops = recorder.ops_for_period(0, ONE_SECOND);
    assert_eq!(ops.len(), 0);
}

#[test]
fn timestamps_translate_against_sync_point() {
    let mut recorder = EventRecorder::new(TEST_SAMPLE_RATE);
    recorder.set_event_sync_point(5_000_000_000, 1000);
    assert_eq!(
        recorder.time_to_sample_position(6_000_000_000),
        Some(1000 + ONE_SECOND)
    );
    assert_eq!(recorder.time_to_sample_position(5_000_000_000), Some(1000));
    // A timestamp from before the sync point cannot be placed.
    assert_eq!(recorder.time_to_sample_position(4_000_000_000), None);
}

#[test]
fn future_events_stay_buffered() {
    let mut recorder = EventRecorder::new(TEST_SAMPLE_RATE);
    recorder.set_event_sync_point(0, 0);
    recorder.record_event(2 * ONE_SECOND_NANOS, StateChange::On, Operation::Reverse);

    // The event lies past this window: nothing is resolved yet.
    let ops = recorder.ops_for_period(0, ONE_SECOND);
    assert_eq!(ops.len(), 0);

    // Once a window reaches it, it opens.
    let later = recorder.ops_for_period(2 * ONE_SECOND, ONE_SECOND);
    assert_eq!(later.len(), 1);
    assert_eq!(later[0].start, 2 * ONE_SECOND);
    assert_eq!(later[0].duration, None);
}
