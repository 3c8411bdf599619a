//! Peripheral base addresses (product manual, peripheral bus address table).
use vstd::prelude::*;

verus! {

/// GPIO 基地址 (各 port 偏移见下方)
pub const GPIO: usize = 0x4000_0000;
/// SCU + PMU + CMU + RMU
pub const SCU: usize = 0x4000_0400;
/// DMA
pub const DMA: usize = 0x4000_0800;
/// Flash 接口
pub const NVMIF: usize = 0x4000_1000;
/// USB Controller
pub const USB: usize = 0x5000_0000;
/// GPIOA
pub const GPIOA: usize = 0x4000_0C00;
/// GPIOB
pub const GPIOB: usize = 0x4000_0C40;
/// GPIOC
pub const GPIOC: usize = 0x4000_0C80;
/// GPIOD
pub const GPIOD: usize = 0x4000_0CC0;
/// ISO7816_0
pub const ISO7816_0: usize = 0x4001_0000;
/// LPUART0
pub const LPUART0: usize = 0x4001_0400;
/// SPI2
pub const SPI2: usize = 0x4001_0800;
/// LCD
pub const LCD: usize = 0x4001_0C00;
/// RTC
pub const RTC: usize = 0x4001_1000;
/// IWDT
pub const IWDT: usize = 0x4001_1400;
/// WWDT
pub const WWDT: usize = 0x4001_1800;
/// UART0
pub const UART0: usize = 0x4001_1C00;
/// UART1
pub const UART1: usize = 0x4001_2000;
/// I2C
pub const I2C: usize = 0x4001_2400;
/// RAMBIST
pub const RAMBIST: usize = 0x4001_3000;
/// LPTIM32
pub const LPTIM32: usize = 0x4001_3800;
/// GTIMER0
pub const GTIMER0: usize = 0x4001_3C00;
/// GTIMER1
pub const GTIMER1: usize = 0x4001_8000;
/// CRC
pub const CRC: usize = 0x4001_8400;
/// LPUART1
pub const LPUART1: usize = 0x4001_8800;
/// SPI1
pub const SPI1: usize = 0x4001_9400;
/// UART4
pub const UART4: usize = 0x4001_A000;
/// UART5
pub const UART5: usize = 0x4001_A400;
/// SVD_OPA_COMP
pub const SVD_OPA_COMP: usize = 0x4001_A800;
/// ADC
pub const ADC: usize = 0x4001_AC00;
/// Advanced Timer
pub const ATIM: usize = 0x4001_B000;
/// Basic Timer 32-bit
pub const BSTIM32: usize = 0x4001_B400;
/// AES
pub const AES: usize = 0x4001_B800;
/// TRNG
pub const TRNG: usize = 0x4001_BC00;
/// Flash 起始
pub const FLASH_MAIN: usize = 0x0000_0000;
/// Option bytes
pub const FLASH_OPT: usize = 0x1FFF_F000;
/// SRAM 24KB
pub const SRAM: usize = 0x2000_0000;

} // verus!
