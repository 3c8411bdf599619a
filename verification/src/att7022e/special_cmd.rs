//! Special command codes (bits 7 and 6 set).
use vstd::prelude::*;

verus! {

/// 启动波形数据缓冲, data = 0x00CCCX (X=通道号)
pub const WAVE_START: u8 = 0xC0;
/// 设置缓冲数据读指针, data = 0~1023
pub const WAVE_PTR: u8 = 0xC1;
/// 清校表数据 (恢复默认值)
pub const CLEAR_CALIB: u8 = 0xC3;
/// 同步数据系数设置
pub const SYNC_COEFF: u8 = 0xC4;
/// 同步数据启动/停止 (0x02=自动, 0x03=手动, 0x00=停止)
pub const SYNC_START: u8 = 0xC5;
/// 切换读出校表数据 (data=0x00005A → 校表数据, else → 计量数据)
pub const READ_CALIB: u8 = 0xC6;
/// 校表数据写使能 (data=0x00005A)
pub const WRITE_EN: u8 = 0xC9;
/// 软件复位
pub const SOFT_RESET: u8 = 0xD3;

} // verus!
