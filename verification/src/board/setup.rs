//! How each pin of the board is set up at start-up.
use vstd::prelude::*;

use crate::board::pins;
use crate::hal::GpioPin;

verus! {

/// Set-up of one pin.
#[derive(Clone, Copy, Debug, PartialEq, Eq, Structural)]
pub enum PinSetup {
    /// Digital function `func` of the pin, input buffer enabled.
    Digital { func: u8 },
    /// Push-pull output, driven high.
    OutputHigh,
    /// Push-pull output, driven low.
    OutputLow,
    /// Input with pull-up.
    InputPullUp,
    /// Analog input.
    Analog,
}

/// The start-up pin plan, in the order it is applied: the metering SPI
/// (chip select high), the flash SPI, the four UARTs (RS-485 driver
/// disabled), the cellular module's power key (low) and reset (high), the
/// LEDs, buzzer and pulse outputs (low), the keys and tamper inputs
/// (pulled up) and the battery sense input (analog).
pub open spec fn gpio_plan_spec() -> Seq<(GpioPin, PinSetup)> {
    seq![
        (GpioPin { port: 5, pin: 14 }, PinSetup::Digital { func: 0 }),
        (GpioPin { port: 5, pin: 13 }, PinSetup::Digital { func: 0 }),
        (GpioPin { port: 5, pin: 12 }, PinSetup::Digital { func: 0 }),
        (GpioPin { port: 5, pin: 15 }, PinSetup::OutputHigh),
        (GpioPin { port: 0, pin: 5 }, PinSetup::Digital { func: 1 }),
        (GpioPin { port: 0, pin: 6 }, PinSetup::Digital { func: 1 }),
        (GpioPin { port: 0, pin: 7 }, PinSetup::Digital { func: 1 }),
        (GpioPin { port: 0, pin: 4 }, PinSetup::OutputHigh),
        (GpioPin { port: 6, pin: 9 }, PinSetup::Digital { func: 0 }),
        (GpioPin { port: 6, pin: 8 }, PinSetup::Digital { func: 0 }),
        (GpioPin { port: 5, pin: 2 }, PinSetup::OutputLow),
        (GpioPin { port: 4, pin: 4 }, PinSetup::Digital { func: 1 }),
        (GpioPin { port: 4, pin: 3 }, PinSetup::Digital { func: 1 }),
        (GpioPin { port: 1, pin: 3 }, PinSetup::Digital { func: 2 }),
        (GpioPin { port: 1, pin: 2 }, PinSetup::Digital { func: 2 }),
        (GpioPin { port: 1, pin: 15 }, PinSetup::Digital { func: 3 }),
        (GpioPin { port: 1, pin: 14 }, PinSetup::Digital { func: 3 }),
        (GpioPin { port: 4, pin: 2 }, PinSetup::OutputLow),
        (GpioPin { port: 4, pin: 7 }, PinSetup::OutputHigh),
        (GpioPin { port: 0, pin: 8 }, PinSetup::OutputLow),
        (GpioPin { port: 0, pin: 9 }, PinSetup::OutputLow),
        (GpioPin { port: 0, pin: 10 }, PinSetup::OutputLow),
        (GpioPin { port: 0, pin: 11 }, PinSetup::OutputLow),
        (GpioPin { port: 0, pin: 12 }, PinSetup::OutputLow),
        (GpioPin { port: 0, pin: 15 }, PinSetup::OutputLow),
        (GpioPin { port: 1, pin: 0 }, PinSetup::InputPullUp),
        (GpioPin { port: 1, pin: 1 }, PinSetup::InputPullUp),
        (GpioPin { port: 1, pin: 4 }, PinSetup::OutputLow),
        (GpioPin { port: 1, pin: 5 }, PinSetup::OutputLow),
        (GpioPin { port: 3, pin: 8 }, PinSetup::InputPullUp),
        (GpioPin { port: 3, pin: 9 }, PinSetup::InputPullUp),
        (GpioPin { port: 3, pin: 7 }, PinSetup::InputPullUp),
        (GpioPin { port: 0, pin: 13 }, PinSetup::InputPullUp),
        (GpioPin { port: 5, pin: 6 }, PinSetup::Analog),
    ]
}

/// The start-up pin plan (see `gpio_plan_spec`).
pub fn gpio_plan() -> (r: Vec<(GpioPin, PinSetup)>)
    ensures
        r@ == gpio_plan_spec(),
{
    let mut r: Vec<(GpioPin, PinSetup)> = Vec::new();
    r.push((pins::spi0_sck(), PinSetup::Digital { func: 0 }));
    r.push((pins::spi0_miso(), PinSetup::Digital { func: 0 }));
    r.push((pins::spi0_mosi(), PinSetup::Digital { func: 0 }));
    r.push((pins::spi0_csn(), PinSetup::OutputHigh));
    r.push((pins::spi1_sck(), PinSetup::Digital { func: 1 }));
    r.push((pins::spi1_miso(), PinSetup::Digital { func: 1 }));
    r.push((pins::spi1_mosi(), PinSetup::Digital { func: 1 }));
    r.push((pins::spi1_csn(), PinSetup::OutputHigh));
    r.push((pins::uart0_tx(), PinSetup::Digital { func: 0 }));
    r.push((pins::uart0_rx(), PinSetup::Digital { func: 0 }));
    r.push((pins::rs485_de(), PinSetup::OutputLow));
    r.push((pins::uart1_tx(), PinSetup::Digital { func: 1 }));
    r.push((pins::uart1_rx(), PinSetup::Digital { func: 1 }));
    r.push((pins::uart2_tx(), PinSetup::Digital { func: 2 }));
    r.push((pins::uart2_rx(), PinSetup::Digital { func: 2 }));
    r.push((pins::uart3_tx(), PinSetup::Digital { func: 3 }));
    r.push((pins::uart3_rx(), PinSetup::Digital { func: 3 }));
    r.push((pins::cell_pwrkey(), PinSetup::OutputLow));
    r.push((pins::cell_reset(), PinSetup::OutputHigh));
    r.push((pins::led_power(), PinSetup::OutputLow));
    r.push((pins::led_comm(), PinSetup::OutputLow));
    r.push((pins::led_alarm(), PinSetup::OutputLow));
    r.push((pins::led_pulse_p(), PinSetup::OutputLow));
    r.push((pins::led_pulse_q(), PinSetup::OutputLow));
    r.push((pins::buzzer(), PinSetup::OutputLow));
    r.push((pins::key_page(), PinSetup::InputPullUp));
    r.push((pins::key_prog(), PinSetup::InputPullUp));
    r.push((pins::pulse_p(), PinSetup::OutputLow));
    r.push((pins::pulse_q(), PinSetup::OutputLow));
    r.push((pins::cover_det(), PinSetup::InputPullUp));
    r.push((pins::terminal_det(), PinSetup::InputPullUp));
    r.push((pins::sim_det(), PinSetup::InputPullUp));
    r.push((pins::magnetic_det(), PinSetup::InputPullUp));
    r.push((pins::bat_adc(), PinSetup::Analog));
    assert(r@ =~= gpio_plan_spec());
    r
}

} // verus!
