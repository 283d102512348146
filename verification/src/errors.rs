//! The error taxonomy shared by every operation of the library.

use vstd::prelude::*;
use vstd::string::StringExecFns;

verus! {

/// Why an operation failed. Each variant carries the detail that a caller
/// shows to the user; [`ConfigError::message`] renders the full text.
#[derive(Debug, PartialEq)]
pub enum ConfigError {
    /// A referenced file or entry is absent.
    FileNotFound(String),
    /// Malformed JSON, or a document whose shape does not fit its schema.
    ParseError(String),
    /// Serialization or I/O failure while writing.
    WriteError(String),
    /// The operating system rejected a read or write.
    PermissionDenied(String),
}

impl ConfigError {
    /// The user-displayable message: a tag naming the failure, then the detail.
    pub fn message(&self) -> (r: String)
        ensures
            r@ == match *self {
                ConfigError::FileNotFound(ref s) => "File not found: "@ + s@,
                ConfigError::ParseError(ref s) => "Parse error: "@ + s@,
                ConfigError::WriteError(ref s) => "Write error: "@ + s@,
                ConfigError::PermissionDenied(ref s) => "Permission denied: "@ + s@,
            },
    {
        match self {
            ConfigError::FileNotFound(s) => "File not found: ".to_owned().concat(s.as_str()),
            ConfigError::ParseError(s) => "Parse error: ".to_owned().concat(s.as_str()),
            ConfigError::WriteError(s) => "Write error: ".to_owned().concat(s.as_str()),
            ConfigError::PermissionDenied(s) => "Permission denied: ".to_owned().concat(
                s.as_str(),
            ),
        }
    }
}

} // verus!
