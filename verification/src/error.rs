//! Failures of the protocol engine.

use vstd::prelude::*;

verus! {

/// Why an operation on the device failed.
#[derive(Debug, PartialEq, Eq)]
pub enum Error {
    /// No byte arrived within the read timeout. The only failure after
    /// which a caller may reasonably try the same read again.
    Timeout,
    /// The transport failed for any other reason; the session is lost.
    Transport,
    /// A line grew beyond `limit` bytes before its terminator arrived.
    LineTooLong { limit: usize },
    /// The device answered with an error line; `message` is its text,
    /// trimmed.
    DeviceError { message: Vec<u8> },
    /// A response does not have the shape that the command calls for:
    /// `expected` is the response, or the start of it, that was awaited.
    ProtocolMismatch { response: Vec<u8>, expected: Vec<u8> },
    /// The payload of a read response is not the awaited number of
    /// hexadecimal digits.
    DecodeError { response: Vec<u8> },
    /// A request reaches beyond the device's address space.
    OutOfRange { offset: u16, size: usize, memory_size: usize },
    /// Bytes read back differ from the bytes written, somewhere in the
    /// `len` addresses from `start` on.
    VerificationFailed { start: u16, len: usize },
    /// The synchronization deadline passed without the awaited reply.
    SyncTimeout,
    /// No candidate port was found.
    NoDevice,
    /// More than one candidate port was found.
    AmbiguousDevice,
}

/// An [`Error`] with its byte strings as sequences.
pub enum ErrorView {
    Timeout,
    Transport,
    LineTooLong { limit: usize },
    DeviceError { message: Seq<u8> },
    ProtocolMismatch { response: Seq<u8>, expected: Seq<u8> },
    DecodeError { response: Seq<u8> },
    OutOfRange { offset: u16, size: usize, memory_size: usize },
    VerificationFailed { start: u16, len: usize },
    SyncTimeout,
    NoDevice,
    AmbiguousDevice,
}

impl View for Error {
    type V = ErrorView;

    open spec fn view(&self) -> ErrorView {
        match *self {
            Error::Timeout => ErrorView::Timeout,
            Error::Transport => ErrorView::Transport,
            Error::LineTooLong { limit } => ErrorView::LineTooLong { limit },
            Error::DeviceError { message } => ErrorView::DeviceError { message: message@ },
            Error::ProtocolMismatch { response, expected } => ErrorView::ProtocolMismatch {
                response: response@,
                expected: expected@,
            },
            Error::DecodeError { response } => ErrorView::DecodeError { response: response@ },
            Error::OutOfRange { offset, size, memory_size } => ErrorView::OutOfRange {
                offset,
                size,
                memory_size,
            },
            Error::VerificationFailed { start, len } => ErrorView::VerificationFailed { start, len },
            Error::SyncTimeout => ErrorView::SyncTimeout,
            Error::NoDevice => ErrorView::NoDevice,
            Error::AmbiguousDevice => ErrorView::AmbiguousDevice,
        }
    }
}

/// The view of a result that carries bytes.
pub open spec fn bytes_result(r: Result<Vec<u8>, Error>) -> Result<Seq<u8>, ErrorView> {
    match r {
        Ok(bytes) => Ok(bytes@),
        Err(e) => Err(e@),
    }
}

/// The view of a result that carries nothing.
pub open spec fn unit_result(r: Result<(), Error>) -> Result<(), ErrorView> {
    match r {
        Ok(()) => Ok(()),
        Err(e) => Err(e@),
    }
}

/// Whether `err` is the read timeout, after which a retry is in order.
pub fn is_timeout(err: &Error) -> (b: bool)
    ensures
        b <==> err@ == ErrorView::Timeout,
{
    match err {
        Error::Timeout => true,
        _ => false,
    }
}

} // verus!
