//! The library's error type.

use vstd::prelude::*;

verus! {

/// The primary error type.
#[derive(Debug)]
pub enum Error {
    /// Configuration parsing failed (invalid YAML or schema violation).
    Parse(String),
    /// A key binding conflict was detected.
    Conflict(String),
    /// The OS adapter for the current platform is not available.
    AdapterNotAvailable(String),
    /// An invalid key or key stroke was encountered.
    InvalidKey(String),
}

/// An [`Error`] with its payload taken as a character sequence.
pub enum ErrorView {
    Parse(Seq<char>),
    Conflict(Seq<char>),
    AdapterNotAvailable(Seq<char>),
    InvalidKey(Seq<char>),
}

impl View for Error {
    type V = ErrorView;

    open spec fn view(&self) -> ErrorView {
        match self {
            Error::Parse(m) => ErrorView::Parse(m@),
            Error::Conflict(m) => ErrorView::Conflict(m@),
            Error::AdapterNotAvailable(m) => ErrorView::AdapterNotAvailable(m@),
            Error::InvalidKey(m) => ErrorView::InvalidKey(m@),
        }
    }
}

impl ErrorView {
    /// The human-readable text of the error: a fixed prefix per kind,
    /// followed by the payload.
    pub open spec fn message(self) -> Seq<char> {
        match self {
            ErrorView::Parse(m) => "config parse error: "@ + m,
            ErrorView::Conflict(m) => "conflict detected: "@ + m,
            ErrorView::AdapterNotAvailable(m) => "OS adapter not available: "@ + m,
            ErrorView::InvalidKey(m) => "invalid key: "@ + m,
        }
    }
}

impl Error {
    /// The human-readable text of the error.
    pub fn to_string(&self) -> (r: String)
        ensures
            r@ == self@.message(),
    {
        match self {
            Error::Parse(m) => {
                let mut s = String::from_str("config parse error: ");
                s.append(m.as_str());
                s
            },
            Error::Conflict(m) => {
                let mut s = String::from_str("conflict detected: ");
                s.append(m.as_str());
                s
            },
            Error::AdapterNotAvailable(m) => {
                let mut s = String::from_str("OS adapter not available: ");
                s.append(m.as_str());
                s
            },
            Error::InvalidKey(m) => {
                let mut s = String::from_str("invalid key: ");
                s.append(m.as_str());
                s
            },
        }
    }
}

} // verus!
