//! Why a work unit failed.

use vstd::prelude::*;
use vstd::string::*;

verus! {

/// The failure of one work unit. It is reported and never stops the others.
#[derive(Debug, Clone, PartialEq, Eq)]
pub enum UnitError {
    /// A file could not be created, or could not be read within the allowed
    /// attempts.
    FileSystem { detail: String },
    /// A file did not hold a record.
    Malformed { detail: String },
    /// The payload of a record is not hexadecimal text.
    Encoding,
    /// Content could not be compressed, or a payload could not be
    /// decompressed.
    Compression,
    /// The content read back does not have the hash stored with it.
    HashMismatch,
    /// The unit stopped before it could report.
    Aborted { detail: String },
}

impl UnitError {
    /// The reason as it appears in a report line.
    pub open spec fn reason(self) -> Seq<char> {
        match self {
            UnitError::FileSystem { detail } => detail@,
            UnitError::Malformed { detail } => detail@,
            UnitError::Encoding => "Invalid hexadecimal payload"@,
            UnitError::Compression => "Corrupt compressed payload"@,
            UnitError::HashMismatch => "Hash mismatch"@,
            UnitError::Aborted { detail } => detail@,
        }
    }

    /// Renders the reason for a report line.
    pub fn message(&self) -> (text: String)
        ensures
            text@ == self.reason(),
    {
        match self {
            UnitError::FileSystem { detail } => detail.clone(),
            UnitError::Malformed { detail } => detail.clone(),
            UnitError::Encoding => String::from_str("Invalid hexadecimal payload"),
            UnitError::Compression => String::from_str("Corrupt compressed payload"),
            UnitError::HashMismatch => String::from_str("Hash mismatch"),
            UnitError::Aborted { detail } => detail.clone(),
        }
    }
}

} // verus!
