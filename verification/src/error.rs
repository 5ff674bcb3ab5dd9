//! The errors of a scan, each with the code and the message under which the
//! host reports it.

use vstd::prelude::*;
use vstd::string::StringExecFns;

verus! {

/// Why a scan could not start or go on. Every error ends the scan.
#[derive(Debug, PartialEq, Eq)]
pub enum Error {
    /// The server has no `address` option.
    AddressOptionRequired,
    /// The table has no `query` option.
    QueryOptionRequired,
    /// The template names a placeholder that no predicate binds.
    VariableNotFound(String),
    /// The predicate on `time` has an operator other than `=`.
    TimeRequiresEquals,
    /// The predicate on `time` compares with something that is no timestamp.
    TimeRequiresTimestamp,
    /// A timestamp names no instant that can be represented.
    TimestampInvalid,
    /// The backend's client failed; the text is the client's own.
    PrometheusError(String),
    /// The backend answered without a result.
    NoResult,
    /// An input or output operation failed; the text is the system's own.
    IoError(String),
}

/// The mathematical value of an [`Error`].
pub enum ErrorView {
    AddressOptionRequired,
    QueryOptionRequired,
    VariableNotFound(Seq<char>),
    TimeRequiresEquals,
    TimeRequiresTimestamp,
    TimestampInvalid,
    PrometheusError(Seq<char>),
    NoResult,
    IoError(Seq<char>),
}

impl View for Error {
    type V = ErrorView;

    open spec fn view(&self) -> ErrorView {
        match self {
            Error::AddressOptionRequired => ErrorView::AddressOptionRequired,
            Error::QueryOptionRequired => ErrorView::QueryOptionRequired,
            Error::VariableNotFound(name) => ErrorView::VariableNotFound(name@),
            Error::TimeRequiresEquals => ErrorView::TimeRequiresEquals,
            Error::TimeRequiresTimestamp => ErrorView::TimeRequiresTimestamp,
            Error::TimestampInvalid => ErrorView::TimestampInvalid,
            Error::PrometheusError(text) => ErrorView::PrometheusError(text@),
            Error::NoResult => ErrorView::NoResult,
            Error::IoError(text) => ErrorView::IoError(text@),
        }
    }
}

/// The class under which the host files an error.
#[derive(Debug, Clone, Copy, PartialEq, Eq, Structural)]
pub enum ErrorCode {
    /// A value for a parameter of the query is needed and was not given.
    FdwDynamicParameterValueNeeded,
    /// Any other failure of the wrapper.
    FdwError,
}

/// The code of an error: a missing binding has its own, all others share one.
pub open spec fn code_of(error: ErrorView) -> ErrorCode {
    match error {
        ErrorView::VariableNotFound(_) => ErrorCode::FdwDynamicParameterValueNeeded,
        _ => ErrorCode::FdwError,
    }
}

/// The message of an error, one sentence for each kind.
pub open spec fn message_of(error: ErrorView) -> Seq<char> {
    match error {
        ErrorView::VariableNotFound(name) => "Variable "@ + name
            + " required, but not found in where clause"@,
        ErrorView::QueryOptionRequired => "Query option required"@,
        ErrorView::AddressOptionRequired => "Address option required"@,
        ErrorView::TimeRequiresEquals => "Time where clause requires '=' operator"@,
        ErrorView::TimeRequiresTimestamp => "Time where clause requires timestamp value"@,
        ErrorView::TimestampInvalid => "Invalid timestamp"@,
        ErrorView::NoResult => "No result"@,
        ErrorView::PrometheusError(text) => "Prometheus error: "@ + text,
        ErrorView::IoError(text) => "IO error: "@ + text,
    }
}

impl Error {
    /// The class under which the host files this error.
    pub fn code(&self) -> (code: ErrorCode)
        ensures
            code == code_of(self@),
    {
        match self {
            Error::VariableNotFound(_) => ErrorCode::FdwDynamicParameterValueNeeded,
            _ => ErrorCode::FdwError,
        }
    }

    /// The sentence under which the host reports this error.
    pub fn message(&self) -> (message: String)
        ensures
            message@ == message_of(self@),
    {
        match self {
            Error::VariableNotFound(name) => {
                let mut message = String::from_str("Variable ");
                message.append(name.as_str());
                message.append(" required, but not found in where clause");
                message
            },
            Error::QueryOptionRequired => String::from_str("Query option required"),
            Error::AddressOptionRequired => String::from_str("Address option required"),
            Error::TimeRequiresEquals => String::from_str(
                "Time where clause requires '=' operator",
            ),
            Error::TimeRequiresTimestamp => String::from_str(
                "Time where clause requires timestamp value",
            ),
            Error::TimestampInvalid => String::from_str("Invalid timestamp"),
            Error::NoResult => String::from_str("No result"),
            Error::PrometheusError(text) => {
                let mut message = String::from_str("Prometheus error: ");
                message.append(text.as_str());
                message
            },
            Error::IoError(text) => {
                let mut message = String::from_str("IO error: ");
                message.append(text.as_str());
                message
            },
        }
    }
}

} // verus!
