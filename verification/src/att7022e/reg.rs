//! Measurement register addresses (read only).
use vstd::prelude::*;

verus! {

/// A相有功功率
pub const PA: u8 = 0x01;
/// B相有功功率
pub const PB: u8 = 0x02;
/// C相有功功率
pub const PC: u8 = 0x03;
/// 合相有功功率
pub const PT: u8 = 0x04;
/// A相无功功率
pub const QA: u8 = 0x05;
/// B相无功功率
pub const QB: u8 = 0x06;
/// C相无功功率
pub const QC: u8 = 0x07;
/// 合相无功功率
pub const QT: u8 = 0x08;
/// A相视在功率
pub const SA: u8 = 0x09;
/// B相视在功率
pub const SB: u8 = 0x0A;
/// C相视在功率
pub const SC: u8 = 0x0B;
/// 合相视在功率
pub const ST: u8 = 0x0C;
/// A相电压有效值
pub const UA_RMS: u8 = 0x0D;
/// B相电压有效值
pub const UB_RMS: u8 = 0x0E;
/// C相电压有效值
pub const UC_RMS: u8 = 0x0F;
/// A相电流有效值
pub const IA_RMS: u8 = 0x10;
/// B相电流有效值
pub const IB_RMS: u8 = 0x11;
/// C相电流有效值
pub const IC_RMS: u8 = 0x12;
/// 三相电流矢量和有效值
pub const IT_RMS: u8 = 0x13;
/// 零线电流有效值
pub const I0_RMS: u8 = 0x29;
/// 三相电压矢量和有效值
pub const UT_RMS: u8 = 0x2B;
/// A相功率因数
pub const PFA: u8 = 0x14;
/// B相功率因数
pub const PFB: u8 = 0x15;
/// C相功率因数
pub const PFC: u8 = 0x16;
/// 合相功率因数
pub const PFT: u8 = 0x17;
/// A相电流与电压相角
pub const PGA: u8 = 0x18;
/// B相电流与电压相角
pub const PGB: u8 = 0x19;
/// C相电流与电压相角
pub const PGC: u8 = 0x1A;
/// Ua与Ub电压夹角
pub const Y_UA_UB: u8 = 0x26;
/// Ua与Uc电压夹角
pub const Y_UA_UC: u8 = 0x27;
/// Ub与Uc电压夹角
pub const Y_UB_UC: u8 = 0x28;
/// 线频率
pub const FREQ: u8 = 0x1C;
/// 中断标志(读后清零)
pub const INT_FLAG: u8 = 0x1B;
/// 电能工作状态(读后清零)
pub const E_FLAG: u8 = 0x1D;
/// 断相/相序/SIG标志
pub const S_FLAG: u8 = 0x2C;
/// A相有功电能
pub const EPA: u8 = 0x1E;
/// B相有功电能
pub const EPB: u8 = 0x1F;
/// C相有功电能
pub const EPC: u8 = 0x20;
/// 合相有功电能
pub const EPT: u8 = 0x21;
/// A相无功电能
pub const EQA: u8 = 0x22;
/// B相无功电能
pub const EQB: u8 = 0x23;
/// C相无功电能
pub const EQC: u8 = 0x24;
/// 合相无功电能
pub const EQT: u8 = 0x25;
/// A相视在电能
pub const ESA: u8 = 0x35;
/// B相视在电能
pub const ESB: u8 = 0x36;
/// C相视在电能
pub const ESC: u8 = 0x37;
/// 合相视在电能
pub const EST: u8 = 0x38;
/// A相基波有功功率
pub const LINE_PA: u8 = 0x40;
/// B相基波有功功率
pub const LINE_PB: u8 = 0x41;
/// C相基波有功功率
pub const LINE_PC: u8 = 0x42;
/// 合相基波有功功率
pub const LINE_PT: u8 = 0x43;
/// A相基波有功电能
pub const LINE_EPA: u8 = 0x44;
/// B相基波有功电能
pub const LINE_EPB: u8 = 0x45;
/// C相基波有功电能
pub const LINE_EPC: u8 = 0x46;
/// 合相基波有功电能
pub const LINE_EPT: u8 = 0x47;
/// 基波A相电压有效值
pub const LINE_UA: u8 = 0x48;
/// 基波B相电压有效值
pub const LINE_UB: u8 = 0x49;
/// 基波C相电压有效值
pub const LINE_UC: u8 = 0x4A;
/// 基波A相电流有效值
pub const LINE_IA: u8 = 0x4B;
/// 基波B相电流有效值
pub const LINE_IB: u8 = 0x4C;
/// 基波C相电流有效值
pub const LINE_IC: u8 = 0x4D;
/// 基波电能状态
pub const LINE_EFLAG: u8 = 0x4E;
/// A相电流ADC采样
pub const SAMPLE_IA: u8 = 0x2F;
/// B相电流ADC采样
pub const SAMPLE_IB: u8 = 0x30;
/// C相电流ADC采样
pub const SAMPLE_IC: u8 = 0x31;
/// A相电压ADC采样
pub const SAMPLE_UA: u8 = 0x32;
/// B相电压ADC采样
pub const SAMPLE_UB: u8 = 0x33;
/// C相电压ADC采样
pub const SAMPLE_UC: u8 = 0x34;
/// 零线电流ADC采样
pub const SAMPLE_I0: u8 = 0x3F;
/// A相快速脉冲计数
pub const FST_CNT_A: u8 = 0x39;
/// B相快速脉冲计数
pub const FST_CNT_B: u8 = 0x3A;
/// C相快速脉冲计数
pub const FST_CNT_C: u8 = 0x3B;
/// 合相快速脉冲计数
pub const FST_CNT_T: u8 = 0x3C;
/// 功率方向标志
pub const P_FLAG: u8 = 0x3D;
/// 校表数据校验和
pub const CHKSUM: u8 = 0x3E;
/// 温度传感器输出
pub const TPSD: u8 = 0x2A;
/// Device ID (复位值 0x7122A0)
pub const DEVICE_ID: u8 = 0x00;
/// 缓冲数据指针
pub const PTR_WAVE: u8 = 0x7E;
/// 缓冲数据寄存器
pub const WAVE_BUFF: u8 = 0x7F;
/// 通讯数据备份
pub const BCK_REG: u8 = 0x2D;
/// 通讯校验和
pub const COM_CHKSUM: u8 = 0x2E;

} // verus!
