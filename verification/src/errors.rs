//! The error kinds of the packet and message layer.

use vstd::prelude::*;

verus! {

/// Everything decoding or a discovery session can report.
///
/// `Incomplete` is not a true failure: it signals that the buffer does not yet
/// hold a full packet and nothing was consumed.
#[derive(Debug, PartialEq)]
pub enum Error {
    /// The terminator sequence has not arrived yet; more bytes are needed.
    Incomplete,
    /// The first line of the packet is none of the three recognized lines.
    MalformedRequestLine(String),
    /// A header line holds no colon.
    MalformedHeaderLine(String),
    /// A required header of the matched message variant is absent.
    MissingRequiredHeader(String),
    /// A header value failed its field's parser: field name, then raw value.
    MalformedFieldValue(String, String),
    /// No message variant matches the packet.
    UnrecognizedPacket,
    /// An I/O failure on the socket; raised by the callers that perform I/O.
    TransportFailure(String),
}

/// The mathematical image of an [`Error`].
pub ghost enum SpecError {
    Incomplete,
    MalformedRequestLine(Seq<char>),
    MalformedHeaderLine(Seq<char>),
    MissingRequiredHeader(Seq<char>),
    MalformedFieldValue(Seq<char>, Seq<char>),
    UnrecognizedPacket,
    TransportFailure(Seq<char>),
}

impl View for Error {
    type V = SpecError;

    open spec fn view(&self) -> SpecError {
        match self {
            Error::Incomplete => SpecError::Incomplete,
            Error::MalformedRequestLine(s) => SpecError::MalformedRequestLine(s@),
            Error::MalformedHeaderLine(s) => SpecError::MalformedHeaderLine(s@),
            Error::MissingRequiredHeader(s) => SpecError::MissingRequiredHeader(s@),
            Error::MalformedFieldValue(n, v) => SpecError::MalformedFieldValue(n@, v@),
            Error::UnrecognizedPacket => SpecError::UnrecognizedPacket,
            Error::TransportFailure(s) => SpecError::TransportFailure(s@),
        }
    }
}

} // verus!
