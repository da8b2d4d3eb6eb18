use vstd::prelude::*;

verus! {

/// A fatal error while bringing up or running the synthesizer patch,
/// carried as a human-readable message.
#[derive(Debug)]
pub struct PatchError {
    pub message: String,
}

impl PatchError {
    pub fn new(message: String) -> (r: PatchError)
        ensures
            r.message == message,
    {
        PatchError { message }
    }
}

} // verus!
