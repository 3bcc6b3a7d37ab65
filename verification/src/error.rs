//! Error values of sharing operations.

use vstd::prelude::*;
use crate::text::{extend_str, string_of};

verus! {

/// What went wrong in a sharing operation.
#[derive(Debug, Clone)]
pub enum TunshareError {
    /// A command could not run or reported failure.
    CommandFailed { command: String, message: String },
    /// The process lacks the privilege it needs.
    PermissionDenied,
    /// Command output was not in the expected form.
    ParseError(String),
    /// pf refused or failed an operation.
    FirewallError(String),
    /// A file operation failed; holds the system's message.
    Io(String),
}

/// The text that describes an error.
pub open spec fn error_text(e: TunshareError) -> Seq<char> {
    match e {
        TunshareError::CommandFailed { command, message } => "Command failed: "@ + command@
            + " - "@ + message@,
        TunshareError::PermissionDenied => "Permission denied. Run with sudo."@,
        TunshareError::ParseError(m) => "Failed to parse output: "@ + m@,
        TunshareError::FirewallError(m) => "Firewall error: "@ + m@,
        TunshareError::Io(m) => "IO error: "@ + m@,
    }
}

/// `e` is a firewall error with text `text`.
pub open spec fn is_firewall_error(e: TunshareError, text: Seq<char>) -> bool {
    match e {
        TunshareError::FirewallError(m) => m@ == text,
        _ => false,
    }
}

/// `e` is a parse error with text `text`.
pub open spec fn is_parse_error(e: TunshareError, text: Seq<char>) -> bool {
    match e {
        TunshareError::ParseError(m) => m@ == text,
        _ => false,
    }
}

/// `e` is a failed command `command` with message `message`.
pub open spec fn is_command_failed(e: TunshareError, command: Seq<char>, message: Seq<char>) -> bool {
    match e {
        TunshareError::CommandFailed { command: c, message: m } => c@ == command && m@ == message,
        _ => false,
    }
}

impl TunshareError {
    /// The text that describes this error.
    pub fn message(&self) -> (s: String)
        ensures
            s@ == error_text(*self),
    {
        let mut out: Vec<char> = Vec::new();
        match self {
            TunshareError::CommandFailed { command, message } => {
                extend_str(&mut out, "Command failed: ");
                extend_str(&mut out, command.as_str());
                extend_str(&mut out, " - ");
                extend_str(&mut out, message.as_str());
            },
            TunshareError::PermissionDenied => {
                extend_str(&mut out, "Permission denied. Run with sudo.");
            },
            TunshareError::ParseError(m) => {
                extend_str(&mut out, "Failed to parse output: ");
                extend_str(&mut out, m.as_str());
            },
            TunshareError::FirewallError(m) => {
                extend_str(&mut out, "Firewall error: ");
                extend_str(&mut out, m.as_str());
            },
            TunshareError::Io(m) => {
                extend_str(&mut out, "IO error: ");
                extend_str(&mut out, m.as_str());
            },
        }
        assert(out@ =~= error_text(*self));
        string_of(out.as_slice())
    }
}

} // verus!
