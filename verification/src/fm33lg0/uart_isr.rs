//! UART ISR bit fields.
use vstd::prelude::*;

verus! {

/// 发送移位寄存器空
pub const TXSE: u32 = 1 << 0;
/// 发送缓存空
pub const TXBE: u32 = 1 << 1;
/// 接收缓存满
pub const RXBF: u32 = 1 << 8;
/// 溢出错误 (写1清零)
pub const OERR: u32 = 1 << 16;
/// 帧错误 (写1清零)
pub const FERR: u32 = 1 << 17;
/// 校验错误 (写1清零)
pub const PERR: u32 = 1 << 18;
/// 接收超时 (写1清零)
pub const RXTO: u32 = 1 << 11;

} // verus!
