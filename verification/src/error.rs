//! The errors of the resolver operations.

use crate::text::{append, chars_of, string_of};
use vstd::prelude::*;

verus! {

/// What can go wrong in a resolver operation.
#[derive(Clone, Debug)]
pub enum DnsError {
    /// The text is no IP address; it is carried along for diagnosis.
    InvalidIpAddress(String),
    /// A command ran and reported failure.
    CommandFailed { command: String, stderr: String },
    /// No network adapter was found.
    AdapterNotFound,
    /// The operation needs rights that the process does not have.
    PermissionDenied,
    /// The operation took longer than it was allowed to.
    Timeout,
    /// A report matched none of the known formats.
    ParseError(String),
    /// Anything else, with its message.
    Other(String),
}

/// The result of a resolver operation.
pub type DnsResult<T> = Result<T, DnsError>;

/// The mathematical value of a `DnsError`.
pub enum DnsErrorView {
    InvalidIpAddress(Seq<char>),
    CommandFailed { command: Seq<char>, stderr: Seq<char> },
    AdapterNotFound,
    PermissionDenied,
    Timeout,
    ParseError(Seq<char>),
    Other(Seq<char>),
}

impl View for DnsError {
    type V = DnsErrorView;

    open spec fn view(&self) -> DnsErrorView {
        match self {
            DnsError::InvalidIpAddress(ip) => DnsErrorView::InvalidIpAddress(ip@),
            DnsError::CommandFailed { command, stderr } => DnsErrorView::CommandFailed {
                command: command@,
                stderr: stderr@,
            },
            DnsError::AdapterNotFound => DnsErrorView::AdapterNotFound,
            DnsError::PermissionDenied => DnsErrorView::PermissionDenied,
            DnsError::Timeout => DnsErrorView::Timeout,
            DnsError::ParseError(message) => DnsErrorView::ParseError(message@),
            DnsError::Other(message) => DnsErrorView::Other(message@),
        }
    }
}

/// The line that tells a reader of `error`.
pub open spec fn error_message(error: DnsErrorView) -> Seq<char> {
    match error {
        DnsErrorView::InvalidIpAddress(ip) => "Invalid IP address: "@ + ip,
        DnsErrorView::CommandFailed { command, stderr } => "Command '"@ + command + "' failed: "@
            + stderr,
        DnsErrorView::AdapterNotFound => "Network adapter not found"@,
        DnsErrorView::PermissionDenied => "Permission denied. Please run as administrator."@,
        DnsErrorView::Timeout => "Operation timed out"@,
        DnsErrorView::ParseError(message) => "Parse error: "@ + message,
        DnsErrorView::Other(message) => message,
    }
}

impl DnsError {
    /// The line that tells a reader of this error.
    pub fn to_message(&self) -> (message: String)
        ensures
            message@ == error_message(self@),
    {
        match self {
            DnsError::InvalidIpAddress(ip) => {
                let mut text = chars_of("Invalid IP address: ");
                append(&mut text, &chars_of(ip.as_str()));
                string_of(&text)
            },
            DnsError::CommandFailed { command, stderr } => {
                let mut text = chars_of("Command '");
                append(&mut text, &chars_of(command.as_str()));
                append(&mut text, &chars_of("' failed: "));
                append(&mut text, &chars_of(stderr.as_str()));
                string_of(&text)
            },
            DnsError::AdapterNotFound => "Network adapter not found".to_owned(),
            DnsError::PermissionDenied => "Permission denied. Please run as administrator.".to_owned(),
            DnsError::Timeout => "Operation timed out".to_owned(),
            DnsError::ParseError(message) => {
                let mut text = chars_of("Parse error: ");
                append(&mut text, &chars_of(message.as_str()));
                string_of(&text)
            },
            DnsError::Other(message) => message.clone(),
        }
    }
}

} // verus!
