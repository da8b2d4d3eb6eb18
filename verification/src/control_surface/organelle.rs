//! Keyboard map for the Organelle's 25 keys.

use vstd::prelude::*;
use vstd::string::StringSliceAdditionalSpecFns;

use crate::ops::{bytes_eq, Operation};
use crate::units::BeatFraction;

verus! {

/// What one OSC message from the synthesizer shell asks of the patch: a
/// key went down or up, the knobs moved, or nothing the patch handles.
#[derive(Debug, PartialEq, Eq)]
pub enum PatchAction {
    Key { key: i32, pressed: bool },
    Knobs { positions: Vec<i32> },
    Unhandled,
}

pub open spec fn is_keys_addr(addr: Seq<u8>) -> bool {
    addr == ("/keys").spec_bytes()
}

pub open spec fn is_knobs_addr(addr: Seq<u8>) -> bool {
    addr == ("/knobs").spec_bytes()
}

/// A well-formed key message: a key number in range and its state.
pub open spec fn keys_message_ok(args: Seq<i32>) -> bool {
    args.len() == 2 && 0 <= args[0] <= 24
}

/// A well-formed knobs message: six positions, each within the knobs'
/// 10-bit range.
pub open spec fn knobs_message_ok(args: Seq<i32>) -> bool {
    args.len() == 6 && (forall|i: int| 0 <= i < 6 ==> 0 <= #[trigger] args[i] < 1024)
}

/// Decide what an OSC message asks of the patch.
///
/// A `/keys` message with a key number 0 to 24 and a state is a key
/// action, pressed when the state is positive; a `/knobs` message with
/// six in-range positions is a knobs action; everything else is
/// unhandled.
pub fn interpret_osc(addr: &str, args: &Vec<i32>) -> (r: PatchAction)
    ensures
        is_keys_addr(addr.spec_bytes()) ==> r == (if keys_message_ok(args@) {
            PatchAction::Key { key: args@[0], pressed: args@[1] >= 1 }
        } else {
            PatchAction::Unhandled
        }),
        !is_keys_addr(addr.spec_bytes()) && is_knobs_addr(addr.spec_bytes())
            && knobs_message_ok(args@) ==> (r matches PatchAction::Knobs { positions }
            && positions@ == args@),
        !is_keys_addr(addr.spec_bytes()) && is_knobs_addr(addr.spec_bytes())
            && !knobs_message_ok(args@) ==> r == PatchAction::Unhandled,
        !is_keys_addr(addr.spec_bytes()) && !is_knobs_addr(addr.spec_bytes()) ==> r
            == PatchAction::Unhandled,
{
    if bytes_eq(addr.as_bytes(), "/keys".as_bytes()) {
        if args.len() == 2 {
            let key = args[0];
            let state = args[1];
            if 0 <= key && key <= 24 {
                return PatchAction::Key { key, pressed: state >= 1 };
            }
        }
        PatchAction::Unhandled
    } else if bytes_eq(addr.as_bytes(), "/knobs".as_bytes()) {
        if args.len() != 6 {
            return PatchAction::Unhandled;
        }
        let mut positions: Vec<i32> = Vec::new();
        let mut i: usize = 0;
        while i < 6
            invariant
                i <= 6,
                args@.len() == 6,
                positions@ == args@.subrange(0, i as int),
                forall|j: int| 0 <= j < i ==> 0 <= #[trigger] args@[j] < 1024,
            decreases 6 - i,
        {
            let p = args[i];
            if p < 0 || p >= 1024 {
                return PatchAction::Unhandled;
            }
            positions.push(p);
            proof {
                assert(args@.subrange(0, i + 1) =~= args@.subrange(0, i as int).push(
                    args@[i as int],
                ));
            }
            i += 1;
        }
        proof {
            assert(args@.subrange(0, 6) =~= args@);
        }
        PatchAction::Knobs { positions }
    } else {
        PatchAction::Unhandled
    }
}

/// The operation each Organelle key (0 is the auxiliary key, 1 to 24 the
/// keyboard) stands for. Parameters are in sixteenths of a beat.
pub open spec fn spec_map_key(key: int) -> Operation {
    if key == 1 {
        Operation::Jump { offset: BeatFraction { value: -128i32 } }
    } else if key == 2 {
        Operation::Jump { offset: BeatFraction { value: -64i32 } }
    } else if key == 3 {
        Operation::Jump { offset: BeatFraction { value: -32i32 } }
    } else if key == 4 {
        Operation::Jump { offset: BeatFraction { value: -16i32 } }
    } else if key == 5 {
        Operation::Jump { offset: BeatFraction { value: -8i32 } }
    } else if key == 6 {
        Operation::Jump { offset: BeatFraction { value: -4i32 } }
    } else if key == 8 {
        Operation::Repeat { loop_size: BeatFraction { value: 1 } }
    } else if key == 9 {
        Operation::Repeat { loop_size: BeatFraction { value: 2 } }
    } else if key == 10 {
        Operation::Repeat { loop_size: BeatFraction { value: 4 } }
    } else if key == 11 {
        Operation::Repeat { loop_size: BeatFraction { value: 8 } }
    } else if key == 12 {
        Operation::Reverse
    } else if key == 14 {
        Operation::Repeat { loop_size: BeatFraction { value: 16 } }
    } else if key == 15 {
        Operation::Repeat { loop_size: BeatFraction { value: 32 } }
    } else if key == 16 {
        Operation::Repeat { loop_size: BeatFraction { value: 64 } }
    } else if key == 17 {
        Operation::Repeat { loop_size: BeatFraction { value: 128 } }
    } else if key == 18 {
        Operation::Jump { offset: BeatFraction { value: 4 } }
    } else if key == 20 {
        Operation::Jump { offset: BeatFraction { value: 8 } }
    } else if key == 21 {
        Operation::Jump { offset: BeatFraction { value: 16 } }
    } else if key == 22 {
        Operation::Jump { offset: BeatFraction { value: 32 } }
    } else if key == 23 {
        Operation::Jump { offset: BeatFraction { value: 64 } }
    } else if key == 24 {
        Operation::Jump { offset: BeatFraction { value: 128 } }
    } else {
        Operation::NoOp
    }
}

/// The operation an Organelle key triggers; unmapped keys are no-ops.
pub fn map_key(key: i32) -> (op: Operation)
    ensures
        op == spec_map_key(key as int),
{
    if key == 1 {
        Operation::Jump { offset: BeatFraction::from_sixteenths(-128) }
    } else if key == 2 {
        Operation::Jump { offset: BeatFraction::from_sixteenths(-64) }
    } else if key == 3 {
        Operation::Jump { offset: BeatFraction::from_sixteenths(-32) }
    } else if key == 4 {
        Operation::Jump { offset: BeatFraction::from_sixteenths(-16) }
    } else if key == 5 {
        Operation::Jump { offset: BeatFraction::from_sixteenths(-8) }
    } else if key == 6 {
        Operation::Jump { offset: BeatFraction::from_sixteenths(-4) }
    } else if key == 8 {
        Operation::Repeat { loop_size: BeatFraction::from_sixteenths(1) }
    } else if key == 9 {
        Operation::Repeat { loop_size: BeatFraction::from_sixteenths(2) }
    } else if key == 10 {
        Operation::Repeat { loop_size: BeatFraction::from_sixteenths(4) }
    } else if key == 11 {
        Operation::Repeat { loop_size: BeatFraction::from_sixteenths(8) }
    } else if key == 12 {
        Operation::Reverse
    } else if key == 14 {
        Operation::Repeat { loop_size: BeatFraction::from_sixteenths(16) }
    } else if key == 15 {
        Operation::Repeat { loop_size: BeatFraction::from_sixteenths(32) }
    } else if key == 16 {
        Operation::Repeat { loop_size: BeatFraction::from_sixteenths(64) }
    } else if key == 17 {
        Operation::Repeat { loop_size: BeatFraction::from_sixteenths(128) }
    } else if key == 18 {
        Operation::Jump { offset: BeatFraction::from_sixteenths(4) }
    } else if key == 20 {
        Operation::Jump { offset: BeatFraction::from_sixteenths(8) }
    } else if key == 21 {
        Operation::Jump { offset: BeatFraction::from_sixteenths(16) }
    } else if key == 22 {
        Operation::Jump { offset: BeatFraction::from_sixteenths(32) }
    } else if key == 23 {
        Operation::Jump { offset: BeatFraction::from_sixteenths(64) }
    } else if key == 24 {
        Operation::Jump { offset: BeatFraction::from_sixteenths(128) }
    } else {
        Operation::NoOp
    }
}

} // verus!
