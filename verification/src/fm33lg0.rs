//! FM33LG0xx / FM33LC0xx microcontroller constants: peripheral base
//! addresses, register bit fields, memory sizes and the UART baud-rate
//! divider. The register blocks themselves are memory-mapped and are
//! accessed by the application.
use vstd::prelude::*;

pub mod base;
pub mod lcd_cr;
pub mod spi_cr1;
pub mod spi_cr2;
pub mod uart_csr;
pub mod uart_ier;
pub mod uart_isr;

verus! {

/// SRAM size: 24 KB
pub const SRAM_SIZE: usize = 24 * 1024;
/// Flash size: 256 KB
pub const FLASH_SIZE: usize = 256 * 1024;
/// Highest system clock
pub const SYSCLK_MAX: u32 = 64_000_000;

/// UART baud-rate divider SPBRG = SYSCLK / baud rate: a quotient of at
/// most 0x000F gives 0x000F, a larger one is used as is (narrowed to 16
/// bits).
pub fn calc_spbrg(sysclk: u32, baudrate: u32) -> (r: u16)
    requires
        baudrate > 0,
    ensures
        r == (if sysclk / baudrate <= 0x0F { 0x0F } else { (sysclk / baudrate) as u16 }),
{
    let div = sysclk / baudrate;
    if div <= 0x000F {
        0x000F
    } else {
        div as u16
    }
}

} // verus!
