//! Errors that reading a tag can produce.
use vstd::prelude::*;

verus! {

/// Kinds of errors that may occur while performing metadata operations.
#[derive(Debug, Clone, PartialEq, Eq)]
pub enum ErrorKind {
    /// The data ended before the structure being read was complete, or the
    /// underlying reader or writer failed.
    InternalIoError,
    /// A string decoding error occurred. Holds the bytes that could not be decoded.
    StringDecodingError(Vec<u8>),
    /// The tag was malformed.
    InvalidTag,
    /// The tag uses a feature that is not supported.
    UnsupportedFeature,
}

/// An error that may occur while performing metadata operations.
#[derive(Debug, Clone, PartialEq, Eq)]
pub struct Error {
    /// The kind of error.
    pub kind: ErrorKind,
    /// A human readable string describing the error.
    pub description: &'static str,
}

impl Error {
    /// Creates a new `Error` using the error kind and description.
    pub fn new(kind: ErrorKind, description: &'static str) -> (r: Error)
        ensures
            r.kind == kind,
            r.description == description,
    {
        Error { kind, description }
    }

    /// Returns true if the error kind is `InternalIoError`.
    pub fn is_io_error(&self) -> (r: bool)
        ensures
            r <==> self.kind is InternalIoError,
    {
        match self.kind {
            ErrorKind::InternalIoError => true,
            _ => false,
        }
    }
}

/// The error for data that ends too early.
pub fn unexpected_end() -> (r: Error)
    ensures
        r.kind is InternalIoError,
{
    Error::new(ErrorKind::InternalIoError, "unexpected end of stream")
}

} // verus!
