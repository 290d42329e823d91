//! Errors that reassembly and payload decoding can produce.

use vstd::prelude::*;

verus! {

/// An error of the message layer.
///
/// `ProtocolError` reports a violation of the framing invariants with a
/// descriptive reason.  `Utf8Error` reports that the payload of a text
/// message, or the reason of a close message, was not valid UTF-8.
/// `IoError` reports a short read: a close payload that is too short to
/// hold its two-byte status code.
#[derive(Debug)]
pub enum WebSocketError {
    /// A violation of the framing invariants, with the reason.
    ProtocolError(String),
    /// Payload bytes that had to be UTF-8 were not.
    Utf8Error,
    /// A read that ended before the bytes it needed.
    IoError,
}

/// The mathematical model of a [`WebSocketError`]: the same three
/// variants, with the reason as a sequence of characters.
pub ghost enum ErrorView {
    ProtocolError(Seq<char>),
    Utf8Error,
    IoError,
}

impl View for WebSocketError {
    type V = ErrorView;

    open spec fn view(&self) -> ErrorView {
        match self {
            WebSocketError::ProtocolError(reason) => ErrorView::ProtocolError(reason@),
            WebSocketError::Utf8Error => ErrorView::Utf8Error,
            WebSocketError::IoError => ErrorView::IoError,
        }
    }
}

} // verus!
