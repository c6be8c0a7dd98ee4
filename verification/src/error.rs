//! The error reported when a pool cannot be built.

use vstd::prelude::*;
use vstd::string::*;

verus! {

/// Why a pool could not be built.
#[derive(Debug, Clone, Copy, PartialEq, Eq, Structural)]
pub enum PoolCreationError {
    /// The requested number of workers was zero.
    InvalidSize,
}

impl PoolCreationError {
    /// The text of the message for this error.
    pub open spec fn message_text(self) -> Seq<char> {
        match self {
            PoolCreationError::InvalidSize => "Invalid pool size provided"@,
        }
    }

    /// A human-readable description of the error.
    pub fn message(&self) -> (text: String)
        ensures
            text@ == self.message_text(),
    {
        match self {
            PoolCreationError::InvalidSize => String::from_str("Invalid pool size provided"),
        }
    }
}

} // verus!
