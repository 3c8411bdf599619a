//! UART CSR bit fields.
use vstd::prelude::*;

verus! {

/// 发送使能
pub const TXEN: u32 = 1 << 0;
/// 接收使能
pub const RXEN: u32 = 1 << 1;
/// 发送极性反转
pub const TXPOL: u32 = 1 << 2;
/// 接收极性反转
pub const RXPOL: u32 = 1 << 3;
/// 校验: 00=无, 01=偶, 10=奇
pub const PARITY_SHIFT: u32 = 4;
/// PARITY_MASK
pub const PARITY_MASK: u32 = 0x03;
/// 数据长度: 00=7bit, 01=8bit, 10=9bit, 11=6bit
pub const PDSEL_SHIFT: u32 = 6;
/// PDSEL_MASK
pub const PDSEL_MASK: u32 = 0x03;
/// 停止位: 0=1位, 1=2位
pub const STOPCFG: u32 = 1 << 8;
/// 位序: 0=LSB, 1=MSB
pub const BITORD: u32 = 1 << 9;
/// RX/TX 引脚交换
pub const IOSWAP: u32 = 1 << 12;
/// 接收超时使能
pub const RXTOEN: u32 = 1 << 16;
/// 红外调制发送使能
pub const TXIREN: u32 = 1 << 17;
/// 忙标志 (RO)
pub const BUSY: u32 = 1 << 24;

} // verus!
