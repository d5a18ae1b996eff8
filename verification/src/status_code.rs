//! Close status codes and their classification.

use vstd::prelude::*;

verus! {

/// Clean close.
pub const NORMAL_CLOSURE: u16 = 1000;

/// Clean close: the peer is going away.
pub const GOING_AWAY: u16 = 1001;

/// The status echoed back for any close code that signals an error.
pub const PROTOCOL_ERROR: u16 = 1002;

/// Reserved by the protocol; treated as neither an error nor a close.
pub const RESERVED_1004: u16 = 1004;

/// Sentinel for a close frame that carried no status code; never sent on
/// the wire as such.
pub const EXPECTED_STATUS_CODE: u16 = 1005;

/// Classifies a close status code: whether it signals an error, and whether
/// the connection should close. 1000 and 1001 are clean closes, 1004 is
/// reserved and closes nothing; every other code is an error.
pub open spec fn spec_evaluate_status_code(status: u16) -> (bool, bool) {
    if status == NORMAL_CLOSURE || status == GOING_AWAY {
        (false, true)
    } else if status == RESERVED_1004 {
        (false, false)
    } else {
        (true, true)
    }
}

/// Returns whether the status signals an error and whether the connection
/// should be closed.
pub fn evaulate_status_code(status: u16) -> (r: (bool, bool))
    ensures
        r == spec_evaluate_status_code(status),
{
    let mut is_error = true;
    let mut should_close = true;
    if status == NORMAL_CLOSURE {
        is_error = false;
    } else if status == GOING_AWAY {
        is_error = false;
    } else if status == RESERVED_1004 {
        is_error = false;
        should_close = false;
    }
    (is_error, should_close)
}

/// The status a close echo carries back: a clean or reserved status is kept,
/// everything else is escalated to `PROTOCOL_ERROR`.
pub open spec fn spec_echo_status(status: u16) -> u16 {
    if spec_evaluate_status_code(status).0 {
        PROTOCOL_ERROR
    } else {
        status
    }
}

} // verus!
