//! SPI CR1 bit fields.
use vstd::prelude::*;

verus! {

/// 时钟相位
pub const CPHA: u32 = 1 << 0;
/// 时钟极性
pub const CPOL: u32 = 1 << 1;
/// LSB first
pub const LSBF: u32 = 1 << 2;
/// Master模式 (默认1=主机)
pub const MM: u32 = 1 << 8;
/// SSN空闲电平
pub const SSPA: u32 = 1 << 9;
/// SCLK空闲电平
pub const MSPA: u32 = 1 << 10;
/// 波特率分频 [5:3]
pub const BAUD_SHIFT: u32 = 3;
/// BAUD_MASK
pub const BAUD_MASK: u32 = 0x07;
/// 等待时间 [7:6]
pub const WAIT_SHIFT: u32 = 6;
/// 引脚交换
pub const IOSWAP: u32 = 1 << 11;

} // verus!
