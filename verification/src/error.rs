//! The error type shared by every layer.

use vstd::prelude::*;

verus! {

/// What went wrong, without the message.
#[derive(Debug, Clone, Copy, PartialEq, Eq, Structural)]
pub enum ErrorKind {
    BadImage,
    Unsupported,
    InvalidOperation,
    Argument,
}

/// Error type shared by every layer.
#[derive(Debug)]
pub enum Error {
    /// The input is not a valid PE / CLI image or metadata root.
    BadImage(String),
    /// A feature exists in the format but is not supported by this build.
    Unsupported(String),
    /// An operation is invalid for the current state of an object.
    InvalidOperation(String),
    /// An argument passed by the caller is invalid.
    Argument(String),
}

impl Error {
    /// The variant of the error.
    pub open spec fn kind(self) -> ErrorKind {
        match self {
            Error::BadImage(_) => ErrorKind::BadImage,
            Error::Unsupported(_) => ErrorKind::Unsupported,
            Error::InvalidOperation(_) => ErrorKind::InvalidOperation,
            Error::Argument(_) => ErrorKind::Argument,
        }
    }

    /// The text of the error.
    pub open spec fn text(self) -> Seq<char> {
        match self {
            Error::BadImage(m) => m@,
            Error::Unsupported(m) => m@,
            Error::InvalidOperation(m) => m@,
            Error::Argument(m) => m@,
        }
    }

    pub fn bad_image(msg: &str) -> (e: Error)
        ensures
            e.kind() == ErrorKind::BadImage,
            e.text() == msg@,
    {
        Error::BadImage(msg.to_owned())
    }

    pub fn unsupported(msg: &str) -> (e: Error)
        ensures
            e.kind() == ErrorKind::Unsupported,
            e.text() == msg@,
    {
        Error::Unsupported(msg.to_owned())
    }

    pub fn invalid_op(msg: &str) -> (e: Error)
        ensures
            e.kind() == ErrorKind::InvalidOperation,
            e.text() == msg@,
    {
        Error::InvalidOperation(msg.to_owned())
    }

    pub fn argument(msg: &str) -> (e: Error)
        ensures
            e.kind() == ErrorKind::Argument,
            e.text() == msg@,
    {
        Error::Argument(msg.to_owned())
    }

    /// The error as one line: what kind it is, a colon and its text.
    pub fn message(&self) -> (s: String)
        ensures
            s@ == error_prefix(self.kind()) + self.text(),
    {
        match self {
            Error::BadImage(m) => "bad image: ".to_owned().concat(m.as_str()),
            Error::Unsupported(m) => "unsupported: ".to_owned().concat(m.as_str()),
            Error::InvalidOperation(m) => "invalid operation: ".to_owned().concat(m.as_str()),
            Error::Argument(m) => "bad argument: ".to_owned().concat(m.as_str()),
        }
    }
}

/// The words that [`Error::message`] starts with.
pub open spec fn error_prefix(kind: ErrorKind) -> Seq<char> {
    match kind {
        ErrorKind::BadImage => "bad image: "@,
        ErrorKind::Unsupported => "unsupported: "@,
        ErrorKind::InvalidOperation => "invalid operation: "@,
        ErrorKind::Argument => "bad argument: "@,
    }
}

} // verus!
