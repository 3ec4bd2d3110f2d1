//! What can go wrong while the application starts up. Once the loop runs,
//! nothing in it fails.

use vstd::prelude::*;
use vstd::string::StringExecFns;

verus! {

/// Where a failure comes from.
#[derive(Clone, Copy, Debug, PartialEq, Eq, Structural)]
pub enum ErrorKind {
    /// The windowing system, the graphics context or the surface.
    Platform,
    /// Configuration that is required and is missing or invalid.
    Config,
    /// Anything else that a collaborator reports.
    Runtime,
}

/// A failure, with a message for the user.
#[derive(Debug, PartialEq, Eq)]
pub struct RunError {
    pub kind: ErrorKind,
    pub message: String,
}

/// The words that a description of a failure of the given kind begins with.
pub open spec fn kind_label(kind: ErrorKind) -> Seq<char> {
    match kind {
        ErrorKind::Platform => "platform error: "@,
        ErrorKind::Config => "configuration error: "@,
        ErrorKind::Runtime => "runtime error: "@,
    }
}

/// The message of a failure to find required configuration under `key`.
pub open spec fn missing_config_message(key: Seq<char>) -> Seq<char> {
    "missing or invalid configuration: "@ + key
}

impl RunError {
    /// A failure of the windowing system, the graphics context or the surface.
    pub fn platform(message: String) -> (r: RunError)
        ensures
            r.kind == ErrorKind::Platform,
            r.message == message,
    {
        RunError { kind: ErrorKind::Platform, message }
    }

    /// A failure to find valid configuration.
    pub fn config(message: String) -> (r: RunError)
        ensures
            r.kind == ErrorKind::Config,
            r.message == message,
    {
        RunError { kind: ErrorKind::Config, message }
    }

    /// A failure that a collaborator reports.
    pub fn runtime(message: String) -> (r: RunError)
        ensures
            r.kind == ErrorKind::Runtime,
            r.message == message,
    {
        RunError { kind: ErrorKind::Runtime, message }
    }

    /// The one line that tells the user of this failure: the kind, then the
    /// message.
    pub fn describe(&self) -> (r: String)
        ensures
            r@ == kind_label(self.kind) + self.message@,
    {
        let label = match self.kind {
            ErrorKind::Platform => "platform error: ",
            ErrorKind::Config => "configuration error: ",
            ErrorKind::Runtime => "runtime error: ",
        };
        String::from_str(label).concat(self.message.as_str())
    }
}

/// Insists on a configuration value that the resource provider was asked for
/// under `key`: the value if there is one, a configuration failure that names
/// the key if there is none.
pub fn require_config<T>(key: &str, value: Option<T>) -> (r: Result<T, RunError>)
    ensures
        match value {
            Some(v) => r == Ok::<T, RunError>(v),
            None => r matches Err(e) && e.kind == ErrorKind::Config && e.message@
                == missing_config_message(key@),
        },
{
    match value {
        Some(v) => Ok(v),
        None => Err(
            RunError::config(String::from_str("missing or invalid configuration: ").concat(key)),
        ),
    }
}

} // verus!
