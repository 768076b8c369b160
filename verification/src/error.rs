//! Error type shared by the whole library.

use vstd::prelude::*;
use vstd::string::{StringExecFns};

verus! {

/// Errors raised by the library.
#[derive(Debug, Clone)]
pub enum BmapError {
    /// The link to the device could not be set up or used.
    Connection(String),
    /// The device did not answer (or answered with nothing parseable).
    Timeout(String),
    /// The device refused the request for want of authentication.
    Auth(String),
    /// The device reported an error, or answered with unusable data.
    Device { message: String, code: u8 },
    /// A caller-supplied argument was rejected.
    InvalidArg(String),
    /// The device does not offer the requested feature.
    Unsupported(String),
    /// No device was found.
    NotFound(String),
}

/// The mathematical value of a [`BmapError`]: its variant and the text it holds.
pub enum ErrorView {
    Connection(Seq<char>),
    Timeout(Seq<char>),
    Auth(Seq<char>),
    Device { message: Seq<char>, code: u8 },
    InvalidArg(Seq<char>),
    Unsupported(Seq<char>),
    NotFound(Seq<char>),
}

impl View for BmapError {
    type V = ErrorView;

    open spec fn view(&self) -> ErrorView {
        match self {
            BmapError::Connection(m) => ErrorView::Connection(m@),
            BmapError::Timeout(m) => ErrorView::Timeout(m@),
            BmapError::Auth(m) => ErrorView::Auth(m@),
            BmapError::Device { message, code } => ErrorView::Device { message: message@, code: *code },
            BmapError::InvalidArg(m) => ErrorView::InvalidArg(m@),
            BmapError::Unsupported(m) => ErrorView::Unsupported(m@),
            BmapError::NotFound(m) => ErrorView::NotFound(m@),
        }
    }
}

/// Result type of the library.
pub type BmapResult<T> = Result<T, BmapError>;

/// The value of a result: the view of the `Ok` value or of the error.
pub open spec fn res_view<T: View>(r: BmapResult<T>) -> Result<T::V, ErrorView> {
    match r {
        Ok(v) => Ok(v@),
        Err(e) => Err(e@),
    }
}

impl BmapError {
    /// Human-readable description: a prefix naming the kind of error, then its message.
    pub fn describe(&self) -> (s: String)
        ensures
            s@ == self.describe_spec(),
    {
        match self {
            BmapError::Connection(m) => String::from_str("Connection error: ").concat(m.as_str()),
            BmapError::Timeout(m) => String::from_str("Timeout: ").concat(m.as_str()),
            BmapError::Auth(m) => String::from_str("Authentication required: ").concat(m.as_str()),
            BmapError::Device { message, code: _ } => String::from_str("Device error: ").concat(message.as_str()),
            BmapError::InvalidArg(m) => String::from_str("Invalid argument: ").concat(m.as_str()),
            BmapError::Unsupported(m) => String::from_str("Unsupported: ").concat(m.as_str()),
            BmapError::NotFound(m) => String::from_str("Not found: ").concat(m.as_str()),
        }
    }

    /// The text that [`BmapError::describe`] returns.
    pub open spec fn describe_spec(&self) -> Seq<char> {
        describe_view(self@)
    }
}

/// Human-readable description of an error value: a prefix naming the kind of
/// error, then its message.
pub open spec fn describe_view(e: ErrorView) -> Seq<char> {
    match e {
        ErrorView::Connection(m) => "Connection error: "@ + m,
        ErrorView::Timeout(m) => "Timeout: "@ + m,
        ErrorView::Auth(m) => "Authentication required: "@ + m,
        ErrorView::Device { message, code: _ } => "Device error: "@ + message,
        ErrorView::InvalidArg(m) => "Invalid argument: "@ + m,
        ErrorView::Unsupported(m) => "Unsupported: "@ + m,
        ErrorView::NotFound(m) => "Not found: "@ + m,
    }
}

} // verus!
