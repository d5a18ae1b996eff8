use vstd::prelude::*;

verus! {

/// The errors a websocket client operation can surface to its caller.
#[derive(Debug, Clone, Copy, PartialEq, Eq, Structural)]
pub enum WebSocketError {
    /// The TCP connection to the server could not be opened.
    UnreachableHost,
    /// The opening handshake was rejected or its accept hash was wrong.
    HandShake,
    /// A frame with an undefined flag or opcode arrived.
    InvalidFrame,
    /// The connection is closed; no further work is possible.
    ConnectionClose,
    /// A text message did not hold valid UTF-8.
    DecodingFromUTF8,
    /// The transport failed for a reason other than "would block".
    IOError,
}

pub type WebSocketResult<T> = Result<T, WebSocketError>;

/// Error reported when a byte sequence cannot be decoded into the value asked for.
#[derive(Debug, Clone, Copy, PartialEq, Eq, Structural)]
pub struct ParseError;

/// Status kinds in the shape used across a C-ABI boundary: the success case,
/// then one case for each `WebSocketError` variant.
#[derive(Debug, Clone, Copy, PartialEq, Eq, Structural)]
pub enum WSStatus {
    OK,
    UnreachableHost,
    HandShake,
    InvalidFrame,
    ConnectionClose,
    DecodingFromUTF8,
    IOError,
}

/// The `WSStatus` that stands for a given error.
pub open spec fn status_of_error(error: WebSocketError) -> WSStatus {
    match error {
        WebSocketError::UnreachableHost => WSStatus::UnreachableHost,
        WebSocketError::HandShake => WSStatus::HandShake,
        WebSocketError::InvalidFrame => WSStatus::InvalidFrame,
        WebSocketError::ConnectionClose => WSStatus::ConnectionClose,
        WebSocketError::DecodingFromUTF8 => WSStatus::DecodingFromUTF8,
        WebSocketError::IOError => WSStatus::IOError,
    }
}

/// Maps a library error onto the status value handed across a C-ABI boundary.
pub fn rust_error_to_c_error(error: WebSocketError) -> (r: WSStatus)
    ensures
        r == status_of_error(error),
{
    match error {
        WebSocketError::UnreachableHost => WSStatus::UnreachableHost,
        WebSocketError::HandShake => WSStatus::HandShake,
        WebSocketError::InvalidFrame => WSStatus::InvalidFrame,
        WebSocketError::ConnectionClose => WSStatus::ConnectionClose,
        WebSocketError::DecodingFromUTF8 => WSStatus::DecodingFromUTF8,
        WebSocketError::IOError => WSStatus::IOError,
    }
}

} // verus!
