//! The ways in which the cache fails.

use vstd::prelude::*;

verus! {

/// Why an operation of the cache did not give what was asked for.
#[derive(Debug, Clone, Copy, PartialEq, Eq, Structural)]
pub enum CacheError {
    /// The word cannot be resolved right now.
    CacheMiss,
    /// A file could not be read or written.
    Io,
    /// What a file holds is not what the cache wrote.
    Decode,
}

impl CacheError {
    /// The name of the error, as text.
    pub fn name(&self) -> (text: String)
        ensures
            text@ == match *self {
                CacheError::CacheMiss => "CacheMiss"@,
                CacheError::Io => "Io"@,
                CacheError::Decode => "Decode"@,
            },
    {
        match self {
            CacheError::CacheMiss => "CacheMiss".to_owned(),
            CacheError::Io => "Io".to_owned(),
            CacheError::Decode => "Decode".to_owned(),
        }
    }
}

} // verus!
