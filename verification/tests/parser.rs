use boucle::ops::{new_from_string, ops_from_lines, Speed};
use boucle::{BeatFraction, Operation};

#[test]
fn parse_reverse_line() {
    let (start, duration, op) = new_from_string("reverse 1.5 2").unwrap();
    assert_eq!(start, 1_500_000_000);
    assert_eq!(duration, 2_000_000_000);
    assert_eq!(op, Operation::Reverse);
}

#[test]
fn parse_jump_line() {
    let (start, duration, op) = new_from_string("jump 0 1 -4.0").unwrap();
    assert_eq!(start, 0);
    assert_eq!(duration, 1_000_000_000);
    assert_eq!(
        op,
        Operation::Jump {
            offset: BeatFraction::from_sixteenths(-64)
        }
    );
}

#[test]
fn parse_repeat_line() {
    let (_, _, op) = new_from_string("repeat 0 1 0.0625").unwrap();
    assert_eq!(
        op,
        Operation::Repeat {
            loop_size: BeatFraction::from_sixteenths(1)
        }
    );
}

#[test]
fn parse_speed_ramp_line() {
    let (_, _, op) = new_from_string("speed-ramp 0 1 0.5 2").unwrap();
    assert_eq!(
        op,
        Operation::SpeedRamp {
            start_speed: Speed { thousandths: 500 },
            end_speed: Speed { thousandths: 2000 },
        }
    );
}

#[test]
fn parse_quantises_to_sixteenths() {
    // from a beat value, the fixed-point parameter is floor(value * 16).
    let (_, _, op) = new_from_string("jump 0 1 0.3").unwrap();
    assert_eq!(
        op,
        Operation::Jump {
            offset: BeatFraction::from_sixteenths(4)
        }
    );
    let (_, _, op) = new_from_string("jump 0 1 -0.3").unwrap();
    assert_eq!(
        op,
        Operation::Jump {
            offset: BeatFraction::from_sixteenths(-5)
        }
    );
}

#[test]
fn parse_tolerates_extra_whitespace() {
    let (start, duration, op) = new_from_string("  reverse \t 1   2  ").unwrap();
    assert_eq!(start, 1_000_000_000);
    assert_eq!(duration, 2_000_000_000);
    assert_eq!(op, Operation::Reverse);
}

#[test]
fn parse_rejects_unknown_kind() {
    assert!(new_from_string("wobble 1 2").is_err());
}

#[test]
fn parse_rejects_short_line() {
    assert!(new_from_string("").is_err());
    assert!(new_from_string("reverse").is_err());
    assert!(new_from_string("reverse 1").is_err());
}

#[test]
fn parse_rejects_bad_numbers() {
    assert!(new_from_string("reverse abc 2").is_err());
    assert!(new_from_string("reverse 1 2.x").is_err());
    assert!(new_from_string("jump 1 2 1.2.3").is_err());
    assert!(new_from_string("jump 1 2 -").is_err());
}

#[test]
fn parse_rejects_missing_params() {
    assert!(new_from_string("jump 1 2").is_err());
    assert!(new_from_string("repeat 1 2").is_err());
    assert!(new_from_string("speed-ramp 1 2 0.5").is_err());
}

#[test]
fn ops_from_lines_builds_entries() {
    let lines = vec![
        String::from("reverse 1.5 2"),
        String::from("jump 0 1 -4.0"),
    ];
    let ops = ops_from_lines(10, &lines).unwrap();
    assert_eq!(ops.len(), 2);
    assert_eq!(ops[0].start, 15);
    assert_eq!(ops[0].duration, Some(20));
    assert_eq!(ops[0].operation, Operation::Reverse);
    assert_eq!(ops[1].start, 0);
    assert_eq!(ops[1].duration, Some(10));
}

#[test]
fn ops_from_lines_clamps_negative_start() {
    let lines = vec![String::from("reverse -1 1")];
    let ops = ops_from_lines(10, &lines).unwrap();
    assert_eq!(ops[0].start, 0);
    assert_eq!(ops[0].duration, Some(10));
}

#[test]
fn ops_from_lines_stops_at_bad_line() {
    let lines = vec![
        String::from("reverse 1 2"),
        String::from("wobble 1 2"),
    ];
    assert!(ops_from_lines(10, &lines).is_err());
}
