//! Adapters from control-surface inputs to operations: static lookup
//! tables from device keys to the operations they trigger.

pub mod midi;
pub mod op1;
pub mod organelle;
