//! Cursor-based reading and append-only writing of binary data held in memory:
//! unsigned integers in big-endian byte order, and text in UTF-8 or UTF-16,
//! either of a length that the caller gives or ended by a zero code unit.

use vstd::prelude::*;

pub mod byte_order;
pub mod layout;
pub mod numbers;
pub mod reader;
pub mod round_trip;
pub mod utf16;
pub mod utf8;
pub mod writer;

verus! {

/// `std::io::Error`, carried through as an opaque value.
#[verifier::external_type_specification]
#[verifier::external_body]
pub struct ExIoError(std::io::Error);

/// `std::string::FromUtf8Error`, carried through as an opaque value.
#[verifier::external_type_specification]
#[verifier::external_body]
pub struct ExFromUtf8Error(std::string::FromUtf8Error);

/// `std::string::FromUtf16Error`, carried through as an opaque value.
#[verifier::external_type_specification]
#[verifier::external_body]
pub struct ExFromUtf16Error(std::string::FromUtf16Error);

/// What can go wrong while a stream is read.
#[derive(Debug)]
pub enum ByteStreamError {
    /// A failure of whatever supplied the bytes. The reader and the writer
    /// never produce it themselves.
    IOError(std::io::Error),
    /// The bytes of a narrow text are not UTF-8.
    FromUtf8Error(std::string::FromUtf8Error),
    /// The code units of a wide text are not UTF-16.
    FromUtf16Error(std::string::FromUtf16Error),
    /// A scan for the end of a text failed; the message says how.
    Message(String),
}

/// The ways in which reading a text fails.
#[derive(Clone, Copy, Debug, PartialEq, Eq)]
pub enum Failure {
    /// No zero code unit lies between the cursor and the end of the bytes.
    Unterminated,
    /// The distance in bytes to the end of a wide text is odd.
    Misaligned,
    /// The bytes of a narrow text are not valid UTF-8.
    InvalidUtf8,
    /// The code units of a wide text are not valid UTF-16.
    InvalidUtf16,
}

/// The message of the error for a text without a terminator.
pub open spec fn unterminated_message() -> Seq<char> {
    "Unable to find null terminator for string."@
}

/// The message of the error for a wide text of an odd number of bytes.
pub open spec fn misaligned_message() -> Seq<char> {
    "The determined string length must be a multiple of 2."@
}

impl ByteStreamError {
    /// True where this error is the one that stands for `failure`.
    pub open spec fn reports(&self, failure: Failure) -> bool {
        match failure {
            Failure::Unterminated => self matches ByteStreamError::Message(m) && m@
                == unterminated_message(),
            Failure::Misaligned => self matches ByteStreamError::Message(m) && m@
                == misaligned_message(),
            Failure::InvalidUtf8 => self is FromUtf8Error,
            Failure::InvalidUtf16 => self is FromUtf16Error,
        }
    }

    /// The error for a text without a terminator.
    pub fn unterminated() -> (error: ByteStreamError)
        ensures
            error.reports(Failure::Unterminated),
    {
        ByteStreamError::Message("Unable to find null terminator for string.".to_owned())
    }

    /// The error for a wide text of an odd number of bytes.
    pub fn misaligned() -> (error: ByteStreamError)
        ensures
            error.reports(Failure::Misaligned),
    {
        ByteStreamError::Message("The determined string length must be a multiple of 2.".to_owned())
    }
}

} // verus!
