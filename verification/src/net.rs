//! The non-blocking read adapter: turns the conflated outcomes of a raw
//! read call into two differently-actionable ones.

use vstd::prelude::*;
use crate::result::{WebSocketError, WebSocketResult};

verus! {

/// What one raw read call on a non-blocking source yielded: a byte count
/// (zero meaning the peer closed the stream), a "would block" indication,
/// or any other failure.
#[derive(Debug, Clone, Copy, PartialEq, Eq, Structural)]
pub enum RawRead {
    Count(usize),
    WouldBlock,
    Failed,
}

/// Classifies a raw read outcome: "would block" becomes `Ok(0)` (no data
/// right now, not an error), a zero-byte read becomes a `ConnectionClose`
/// error (end of stream is a hard signal), a positive count passes through,
/// and any other failure is an I/O error.
pub fn read_into_buffer(raw: RawRead) -> (r: WebSocketResult<usize>)
    ensures
        raw matches RawRead::Count(n) ==> r == (if n > 0 {
            WebSocketResult::<usize>::Ok(n)
        } else {
            WebSocketResult::<usize>::Err(WebSocketError::ConnectionClose)
        }),
        raw is WouldBlock ==> r == WebSocketResult::<usize>::Ok(0usize),
        raw is Failed ==> r == WebSocketResult::<usize>::Err(WebSocketError::IOError),
{
    match raw {
        RawRead::Count(n) => {
            if n == 0 {
                Err(WebSocketError::ConnectionClose)
            } else {
                Ok(n)
            }
        },
        RawRead::WouldBlock => Ok(0),
        RawRead::Failed => Err(WebSocketError::IOError),
    }
}

} // verus!
