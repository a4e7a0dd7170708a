//! The failures that the storage layer reports.

use vstd::prelude::*;
use vstd::string::StringExecFns;

verus! {

/// Why an operation was refused. A refused operation leaves no partial change
/// behind, and nothing is retried.
#[derive(Debug, Clone, PartialEq, Eq)]
pub enum StorageError {
    /// The operation addresses bytes beyond the hard upper bound of a region.
    RegionCapacityExceeded,
    /// The path has no mount entry, or the handle refers to no open file.
    FileNotMounted,
    /// The requested position lies before the start of the file or beyond what
    /// a position can hold; the cursor is unchanged.
    InvalidSeek,
    /// A failure of the SQL engine, with the engine's own description.
    EngineError { message: String },
}

/// What a failure says of itself: a fixed phrase for a failure of the storage,
/// and for a failure of the engine the engine's description, word for word.
pub open spec fn error_text(error: StorageError) -> Seq<char> {
    match error {
        StorageError::RegionCapacityExceeded => "region capacity exceeded"@,
        StorageError::FileNotMounted => "file not mounted"@,
        StorageError::InvalidSeek => "invalid seek"@,
        StorageError::EngineError { message } => message@,
    }
}

impl StorageError {
    /// What the failure says of itself.
    pub fn message(&self) -> (text: String)
        ensures
            text@ == error_text(*self),
    {
        match self {
            StorageError::RegionCapacityExceeded => String::from_str("region capacity exceeded"),
            StorageError::FileNotMounted => String::from_str("file not mounted"),
            StorageError::InvalidSeek => String::from_str("invalid seek"),
            StorageError::EngineError { message } => message.clone(),
        }
    }
}

} // verus!
