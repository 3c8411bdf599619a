//! UART IER bit fields.
use vstd::prelude::*;

verus! {

/// 发送完成中断
pub const TXSE_IE: u32 = 1 << 0;
/// 发送空中断
pub const TXBE_IE: u32 = 1 << 1;
/// 接收满中断
pub const RXBF_IE: u32 = 1 << 8;
/// 接收错误中断
pub const RXERR_IE: u32 = 1 << 9;
/// 接收超时中断
pub const RXTO_IE: u32 = 1 << 11;

} // verus!
