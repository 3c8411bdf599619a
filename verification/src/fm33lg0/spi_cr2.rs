//! SPI CR2 bit fields.
use vstd::prelude::*;

verus! {

/// SSN 引脚电平
pub const SSN: u32 = 1 << 0;
/// SSN 软件控制
pub const SSNSEN: u32 = 1 << 1;
/// 发送输出使能
pub const TXOEN: u32 = 1 << 2;
/// 接收输出使能
pub const RXOEN: u32 = 1 << 3;
/// 数据长度 [7:4]
pub const DLEN_SHIFT: u32 = 4;
/// DLEN_MASK
pub const DLEN_MASK: u32 = 0x0F;

} // verus!
