//! Texts that unsolicited result codes are recognised by, as bytes.
use vstd::prelude::*;

verus! {

/// `RDY`
pub const RDY: [u8; 3] = [82u8, 68, 89];

/// `NORMAL POWER DOWN`
pub const NORMAL_POWER_DOWN: [u8; 17] = [78u8, 79, 82, 77, 65, 76, 32, 80, 79, 87, 69, 82, 32, 68, 79, 87, 78];

/// `POWER DOWN`
pub const POWER_DOWN: [u8; 10] = [80u8, 79, 87, 69, 82, 32, 68, 79, 87, 78];

/// `RING`
pub const RING: [u8; 4] = [82u8, 73, 78, 71];

/// `+CREG:`
pub const CREG: [u8; 6] = [43u8, 67, 82, 69, 71, 58];

/// `+CGREG:`
pub const CGREG: [u8; 7] = [43u8, 67, 71, 82, 69, 71, 58];

/// `+CEREG:`
pub const CEREG: [u8; 7] = [43u8, 67, 69, 82, 69, 71, 58];

/// `+CSQ:`
pub const CSQ: [u8; 5] = [43u8, 67, 83, 81, 58];

/// `+QIURC:`
pub const QIURC: [u8; 7] = [43u8, 81, 73, 85, 82, 67, 58];

/// `recv`
pub const RECV: [u8; 4] = [114u8, 101, 99, 118];

/// `"recv"`
pub const QRECV: [u8; 6] = [34u8, 114, 101, 99, 118, 34];

/// `closed`
pub const CLOSED: [u8; 6] = [99u8, 108, 111, 115, 101, 100];

/// `+CMT:`
pub const CMT: [u8; 5] = [43u8, 67, 77, 84, 58];

/// `+LORARX`
pub const LORARX: [u8; 7] = [43u8, 76, 79, 82, 65, 82, 88];

/// `+RECV`
pub const RECV_URC: [u8; 5] = [43u8, 82, 69, 67, 86];

/// `+LORATX`
pub const LORATX: [u8; 7] = [43u8, 76, 79, 82, 65, 84, 88];

/// `+SEND`
pub const SEND_URC: [u8; 5] = [43u8, 83, 69, 78, 68];

/// `JOIN`
pub const JOIN: [u8; 4] = [74u8, 79, 73, 78];

/// `OK`
pub const OK: [u8; 2] = [79u8, 75];

/// `Success`
pub const SUCCESS: [u8; 7] = [83u8, 117, 99, 99, 101, 115, 115];

/// `+`
pub const PLUS: [u8; 1] = [43u8];

/// `AT+`
pub const AT_PLUS: [u8; 3] = [65u8, 84, 43];

/// `ERROR`
pub const ERROR: [u8; 5] = [69u8, 82, 82, 79, 82];

/// `+CME ERROR:`
pub const CME_ERROR: [u8; 11] = [43u8, 67, 77, 69, 32, 69, 82, 82, 79, 82, 58];

} // verus!
