use vstd::prelude::*;

verus! {

/// Errors reported by the core library.
#[derive(Debug, Clone, PartialEq, Eq)]
pub enum CoreError {
    NotFound(String),
    ValidationFailed { field: String, reason: String },
    MemoryLimitExceeded { requested: usize, available: usize },
    IoError(String),
    PlatformError(String),
    SerializationError(String),
    ImageProcessingError(String),
    LockPoisoned(String),
    Internal(String),
}

/// Result type of the core library.
pub type CoreResult<T> = Result<T, CoreError>;

} // verus!
