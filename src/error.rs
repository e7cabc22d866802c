use vstd::prelude::*;

verus! {

/// Failure reported by the phonemizer engine.
#[derive(Debug, Clone)]
pub struct ESpeakError(pub String);

/// Failure of a synthesis operation.
#[derive(Debug, Clone)]
pub enum PiperError {
    /// A model or its configuration could not be loaded.
    FailedToLoadResource(String),
    /// The phonemizer failed on the given text.
    PhonemizationError(String),
    /// An inference call or another model operation failed.
    OperationError(String),
    /// The requested speaker id is not in the voice's speaker map.
    InvalidSpeaker(i64),
}

} // verus!
