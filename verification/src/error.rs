//! The failures that the core reports.

use vstd::prelude::*;

verus! {

/// The listening endpoint could not be bound. This ends the server before
/// it accepts anything, and nothing is tried again.
#[derive(Clone, Copy, Debug, PartialEq, Eq, Structural)]
pub struct BindError {}

/// An application-level failure raised by a handler.
#[derive(Clone, Copy, Debug, PartialEq, Eq, Structural)]
pub struct HandlerError {}

/// The failure of a decoder: the bytes are not the encoding of any value.
#[derive(Clone, Copy, Debug, PartialEq, Eq, Structural)]
pub struct DecodeError {}

/// Why a request was answered with an error instead of a value.
#[derive(Clone, Copy, Debug, PartialEq, Eq, Structural)]
pub enum ErrorKind {
    /// The request names a method that the service does not define.
    UnknownMethod,
    /// The arguments do not decode into the parameters of the method.
    ArgumentDecode,
    /// The handler ran and failed.
    Handler,
    /// The frame that carried the request does not decode into a request.
    Decode,
}

/// What a transport reports in place of a message.
#[derive(Clone, Copy, Debug, PartialEq, Eq, Structural)]
pub enum TransportError {
    /// The underlying stream is closed or has failed.
    Io,
    /// The peer closed the stream cleanly and nothing is left to read.
    EndOfStream,
    /// The inbound bytes are not the encoding of any message. Where they
    /// are a whole frame that is long enough to start with a correlation
    /// id, this is the id.
    Decode(Option<u64>),
}

} // verus!
