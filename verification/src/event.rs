use vstd::prelude::*;

verus! {

/// The transition carried by one control event: a trigger was pressed,
/// released, or the message carried no transition at all.
#[derive(Clone, Copy, Debug, PartialEq, Eq, Structural)]
pub enum StateChange {
    On,
    Off,
    NoChange,
}

} // verus!
