//! Calibration register addresses (after switching to the calibration space).
use vstd::prelude::*;

verus! {

/// 模式配置
pub const MODE_CFG: u8 = 0x01;
/// ADC增益配置
pub const ADC_GAIN: u8 = 0x02;
/// EMU单元配置
pub const EMU_CFG: u8 = 0x03;
/// A相有功功率增益
pub const PA_GAIN: u8 = 0x04;
/// B相有功功率增益
pub const PB_GAIN: u8 = 0x05;
/// C相有功功率增益
pub const PC_GAIN: u8 = 0x06;
/// A相无功功率增益
pub const QA_GAIN: u8 = 0x07;
/// B相无功功率增益
pub const QB_GAIN: u8 = 0x08;
/// C相无功功率增益
pub const QC_GAIN: u8 = 0x09;
/// A相视在功率增益
pub const SA_GAIN: u8 = 0x0A;
/// B相视在功率增益
pub const SB_GAIN: u8 = 0x0B;
/// C相视在功率增益
pub const SC_GAIN: u8 = 0x0C;
/// A相相位校正
pub const PHA_CAL: u8 = 0x10;
/// B相相位校正
pub const PHB_CAL: u8 = 0x11;
/// C相相位校正
pub const PHC_CAL: u8 = 0x12;
/// A相有功offset
pub const PA_OFFSET: u8 = 0x13;
/// B相有功offset
pub const PB_OFFSET: u8 = 0x14;
/// C相有功offset
pub const PC_OFFSET: u8 = 0x15;
/// A相无功offset
pub const QA_OFFSET: u8 = 0x21;
/// B相无功offset
pub const QB_OFFSET: u8 = 0x22;
/// C相无功offset
pub const QC_OFFSET: u8 = 0x23;
/// 无功相位校正
pub const Q_PH_CAL: u8 = 0x16;
/// A相电压增益
pub const UA_GAIN: u8 = 0x17;
/// B相电压增益
pub const UB_GAIN: u8 = 0x18;
/// C相电压增益
pub const UC_GAIN: u8 = 0x19;
/// A相电流增益
pub const IA_GAIN: u8 = 0x1A;
/// B相电流增益
pub const IB_GAIN: u8 = 0x1B;
/// C相电流增益
pub const IC_GAIN: u8 = 0x1C;
/// 零线电流增益
pub const I0_GAIN: u8 = 0x20;
/// 起动电流设置
pub const START_I: u8 = 0x1D;
/// 高频脉冲常数
pub const HF_CONST: u8 = 0x1E;
/// 失压阈值
pub const FAIL_VOLT: u8 = 0x1F;
/// A相电压RMS offset
pub const UA_RMS_OFF: u8 = 0x24;
/// B相电压RMS offset
pub const UB_RMS_OFF: u8 = 0x25;
/// C相电压RMS offset
pub const UC_RMS_OFF: u8 = 0x26;
/// A相电流RMS offset
pub const IA_RMS_OFF: u8 = 0x27;
/// B相电流RMS offset
pub const IB_RMS_OFF: u8 = 0x28;
/// C相电流RMS offset
pub const IC_RMS_OFF: u8 = 0x29;
/// ADC_OFF_0
pub const ADC_OFF_0: u8 = 0x2A;
/// ADC_OFF_1
pub const ADC_OFF_1: u8 = 0x2B;
/// ADC_OFF_2
pub const ADC_OFF_2: u8 = 0x2C;
/// ADC_OFF_3
pub const ADC_OFF_3: u8 = 0x2D;
/// ADC_OFF_4
pub const ADC_OFF_4: u8 = 0x2E;
/// ADC_OFF_5
pub const ADC_OFF_5: u8 = 0x2F;
/// 中断使能
pub const INT_EN: u8 = 0x30;
/// 模拟模块使能
pub const ANA_EN: u8 = 0x31;
/// 全通道增益
pub const ALL_GAIN: u8 = 0x32;
/// 脉冲加倍
pub const PULSE_DOUBLE: u8 = 0x33;
/// 基波增益
pub const LINE_GAIN: u8 = 0x34;
/// IO状态配置
pub const IO_CFG: u8 = 0x35;
/// 起动功率
pub const START_P: u8 = 0x36;

} // verus!
