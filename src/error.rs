use vstd::prelude::*;

verus! {

/// Every failure the library reports.
#[derive(Debug)]
pub enum SLError {
    /// Reading from or writing to the connection failed; holds the transport's message.
    TransportFailure(String),
    /// The first two bytes of a record header are not `SL`.
    BadMagic,
    /// The six-byte header field is neither a sentinel nor hexadecimal; holds that field.
    BadSequenceNumber(Vec<u8>),
    /// The server acknowledged a command with `ERROR`.
    ServerRejected,
    /// The server answered with something other than `OK` or `ERROR`; holds that answer.
    UnexpectedResponse(String),
    /// A time range whose start and end are the same instant.
    InvalidTimeRange,
    /// The catalog text is not a well-formed catalog document.
    CatalogParseError,
    /// A command was issued after the session was closed.
    SessionClosed,
}

} // verus!
