//! LCD CR bit fields.
use vstd::prelude::*;

verus! {

/// LCD 使能
pub const EN: u32 = 1 << 0;
/// COM数: 00=4COM, 01=6COM, 10/11=8COM
pub const LMUX_SHIFT: u32 = 1;
/// LMUX_MASK
pub const LMUX_MASK: u32 = 0x03;
/// 波形: 0=A类, 1=B类
pub const WFT: u32 = 1 << 3;
/// 防极化
pub const ANTIPOLAR: u32 = 1 << 4;
/// 偏置: 1=1/3bias, 0=1/4bias
pub const BIASMD: u32 = 1 << 5;
/// 偏置电压 [11:8]
pub const BIAS_SHIFT: u32 = 8;
/// BIAS_MASK
pub const BIAS_MASK: u32 = 0x0F;
/// 闪烁使能
pub const FLICK: u32 = 1 << 14;
/// 驱动模式: 1=片内电阻型
pub const ENMODE: u32 = 1 << 15;
/// 偏置电流 [17:16]
pub const IC_CTRL_SHIFT: u32 = 16;
/// IC_CTRL_MASK
pub const IC_CTRL_MASK: u32 = 0x03;

} // verus!
