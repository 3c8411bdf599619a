//! Pin assignment of the meter board.
use vstd::prelude::*;

use crate::hal::GpioPin;

verus! {

/// SPI0_SCK (PF14)
pub fn spi0_sck() -> (r: GpioPin)
    ensures
        r.port == 5 && r.pin == 14,
{
    GpioPin { port: 5, pin: 14 }
}
/// SPI0_MISO (PF13)
pub fn spi0_miso() -> (r: GpioPin)
    ensures
        r.port == 5 && r.pin == 13,
{
    GpioPin { port: 5, pin: 13 }
}
/// SPI0_MOSI (PF12)
pub fn spi0_mosi() -> (r: GpioPin)
    ensures
        r.port == 5 && r.pin == 12,
{
    GpioPin { port: 5, pin: 12 }
}
/// SPI0_CSN (计量芯片片选) (PF15)
pub fn spi0_csn() -> (r: GpioPin)
    ensures
        r.port == 5 && r.pin == 15,
{
    GpioPin { port: 5, pin: 15 }
}
/// PA5
pub fn spi1_sck() -> (r: GpioPin)
    ensures
        r.port == 0 && r.pin == 5,
{
    GpioPin { port: 0, pin: 5 }
}
/// PA6
pub fn spi1_miso() -> (r: GpioPin)
    ensures
        r.port == 0 && r.pin == 6,
{
    GpioPin { port: 0, pin: 6 }
}
/// PA7
pub fn spi1_mosi() -> (r: GpioPin)
    ensures
        r.port == 0 && r.pin == 7,
{
    GpioPin { port: 0, pin: 7 }
}
/// PA4
pub fn spi1_csn() -> (r: GpioPin)
    ensures
        r.port == 0 && r.pin == 4,
{
    GpioPin { port: 0, pin: 4 }
}
/// PG9
pub fn uart0_tx() -> (r: GpioPin)
    ensures
        r.port == 6 && r.pin == 9,
{
    GpioPin { port: 6, pin: 9 }
}
/// PG8
pub fn uart0_rx() -> (r: GpioPin)
    ensures
        r.port == 6 && r.pin == 8,
{
    GpioPin { port: 6, pin: 8 }
}
/// RS485 方向控制 (高=发送, 低=接收) (PF2)
pub fn rs485_de() -> (r: GpioPin)
    ensures
        r.port == 5 && r.pin == 2,
{
    GpioPin { port: 5, pin: 2 }
}
/// PE4
pub fn uart1_tx() -> (r: GpioPin)
    ensures
        r.port == 4 && r.pin == 4,
{
    GpioPin { port: 4, pin: 4 }
}
/// PE3
pub fn uart1_rx() -> (r: GpioPin)
    ensures
        r.port == 4 && r.pin == 3,
{
    GpioPin { port: 4, pin: 3 }
}
/// PB3
pub fn uart2_tx() -> (r: GpioPin)
    ensures
        r.port == 1 && r.pin == 3,
{
    GpioPin { port: 1, pin: 3 }
}
/// PB2
pub fn uart2_rx() -> (r: GpioPin)
    ensures
        r.port == 1 && r.pin == 2,
{
    GpioPin { port: 1, pin: 2 }
}
/// PB15
pub fn uart3_tx() -> (r: GpioPin)
    ensures
        r.port == 1 && r.pin == 15,
{
    GpioPin { port: 1, pin: 15 }
}
/// PB14
pub fn uart3_rx() -> (r: GpioPin)
    ensures
        r.port == 1 && r.pin == 14,
{
    GpioPin { port: 1, pin: 14 }
}
/// 蜂窝模组电源控制 (PE2)
pub fn cell_pwrkey() -> (r: GpioPin)
    ensures
        r.port == 4 && r.pin == 2,
{
    GpioPin { port: 4, pin: 2 }
}
/// 蜂窝模组复位 (PE7)
pub fn cell_reset() -> (r: GpioPin)
    ensures
        r.port == 4 && r.pin == 7,
{
    GpioPin { port: 4, pin: 7 }
}
/// 电源指示 (绿) (PA8)
pub fn led_power() -> (r: GpioPin)
    ensures
        r.port == 0 && r.pin == 8,
{
    GpioPin { port: 0, pin: 8 }
}
/// 通信指示 (黄) (PA9)
pub fn led_comm() -> (r: GpioPin)
    ensures
        r.port == 0 && r.pin == 9,
{
    GpioPin { port: 0, pin: 9 }
}
/// 告警指示 (红) (PA10)
pub fn led_alarm() -> (r: GpioPin)
    ensures
        r.port == 0 && r.pin == 10,
{
    GpioPin { port: 0, pin: 10 }
}
/// 有功脉冲 LED (红) (PA11)
pub fn led_pulse_p() -> (r: GpioPin)
    ensures
        r.port == 0 && r.pin == 11,
{
    GpioPin { port: 0, pin: 11 }
}
/// 无功脉冲 LED (绿) (PA12)
pub fn led_pulse_q() -> (r: GpioPin)
    ensures
        r.port == 0 && r.pin == 12,
{
    GpioPin { port: 0, pin: 12 }
}
/// PA15
pub fn buzzer() -> (r: GpioPin)
    ensures
        r.port == 0 && r.pin == 15,
{
    GpioPin { port: 0, pin: 15 }
}
/// 翻页键 (外部中断唤醒) (PB0)
pub fn key_page() -> (r: GpioPin)
    ensures
        r.port == 1 && r.pin == 0,
{
    GpioPin { port: 1, pin: 0 }
}
/// 编程键 (PB1)
pub fn key_prog() -> (r: GpioPin)
    ensures
        r.port == 1 && r.pin == 1,
{
    GpioPin { port: 1, pin: 1 }
}
/// 有功脉冲输出 (PB4)
pub fn pulse_p() -> (r: GpioPin)
    ensures
        r.port == 1 && r.pin == 4,
{
    GpioPin { port: 1, pin: 4 }
}
/// 无功脉冲输出 (PB5)
pub fn pulse_q() -> (r: GpioPin)
    ensures
        r.port == 1 && r.pin == 5,
{
    GpioPin { port: 1, pin: 5 }
}
/// 上盖检测 (微动开关) (PD8)
pub fn cover_det() -> (r: GpioPin)
    ensures
        r.port == 3 && r.pin == 8,
{
    GpioPin { port: 3, pin: 8 }
}
/// 端子盖检测 (微动开关) (PD9)
pub fn terminal_det() -> (r: GpioPin)
    ensures
        r.port == 3 && r.pin == 9,
{
    GpioPin { port: 3, pin: 9 }
}
/// 磁场检测 (霍尔传感器) (PA13)
pub fn magnetic_det() -> (r: GpioPin)
    ensures
        r.port == 0 && r.pin == 13,
{
    GpioPin { port: 0, pin: 13 }
}
/// 掉电检测 (外部比较器输出) (PB1)
pub fn power_fail() -> (r: GpioPin)
    ensures
        r.port == 1 && r.pin == 1,
{
    GpioPin { port: 1, pin: 1 }
}
/// 电池电压 ADC 输入 (PF6 (ADC_IN5))
pub fn bat_adc() -> (r: GpioPin)
    ensures
        r.port == 5 && r.pin == 6,
{
    GpioPin { port: 5, pin: 6 }
}
/// SIM 卡检测 (PD7)
pub fn sim_det() -> (r: GpioPin)
    ensures
        r.port == 3 && r.pin == 7,
{
    GpioPin { port: 3, pin: 7 }
}

} // verus!
