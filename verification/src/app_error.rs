use vstd::prelude::*;

verus! {

/// A fatal configuration error surfaced at the application boundary —
/// a device, port or file that could not be opened — carried as a
/// human-readable message.
#[derive(Debug)]
pub struct AppError {
    pub message: String,
}

impl AppError {
    pub fn new(message: String) -> (r: AppError)
        ensures
            r.message == message,
    {
        AppError { message }
    }
}

} // verus!
