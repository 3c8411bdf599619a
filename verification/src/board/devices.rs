//! State of the board's simple output and input devices: energy pulse
//! accounting, indicator LED states and the tamper switch latches. The
//! application drives the pins these decide on.
use vstd::prelude::*;

use crate::board::pins;
use crate::hal::{GpioPin, Led, PulseConfig, PulseType, TamperEvent};

verus! {

/* ---------------- energy pulses ---------------- */

/// Energy pulse accounting of the active and reactive pulse outputs.
pub struct PulseOutputImpl {
    active_constant: u32,
    reactive_constant: u32,
    pulse_width_ms: u16,
    active_accum_wh: u32,
    reactive_accum_varh: u32,
    active_pulse_count: u32,
    reactive_pulse_count: u32,
}

/// Energy towards the next pulse, in units of 1/1000 of a pulse (Wh
/// times the constant in imp/kWh), after adding `delta_wh` to `acc`.
pub open spec fn pulse_total(acc: u32, constant: u32, delta_wh: u32) -> int {
    acc + delta_wh * constant
}

impl PulseOutputImpl {
    /// Pulse constants (active, reactive).
    pub closed spec fn constants(&self) -> (u32, u32) {
        (self.active_constant, self.reactive_constant)
    }

    /// Pulse width (ms).
    pub closed spec fn width(&self) -> u16 {
        self.pulse_width_ms
    }

    /// Energy accumulated towards the next pulse (active, reactive).
    pub closed spec fn accumulated(&self) -> (u32, u32) {
        (self.active_accum_wh, self.reactive_accum_varh)
    }

    /// Pulses emitted so far (active, reactive).
    pub closed spec fn pulses(&self) -> (u32, u32) {
        (self.active_pulse_count, self.reactive_pulse_count)
    }

    /// Outputs at 6400 imp/kWh, 80 ms pulses, nothing accumulated.
    pub fn new() -> (r: Self)
        ensures
            r.constants() == (6400u32, 6400u32),
            r.width() == 80,
            r.accumulated() == (0u32, 0u32),
            r.pulses() == (0u32, 0u32),
    {
        PulseOutputImpl {
            active_constant: 6400,
            reactive_constant: 6400,
            pulse_width_ms: 80,
            active_accum_wh: 0,
            reactive_accum_varh: 0,
            active_pulse_count: 0,
            reactive_pulse_count: 0,
        }
    }

    /// Take the pulse constant (for both outputs) and width.
    pub fn configure(&mut self, config: &PulseConfig)
        ensures
            final(self).constants() == (config.constant_imp, config.constant_imp),
            final(self).width() == config.pulse_width_ms,
            final(self).accumulated() == old(self).accumulated(),
            final(self).pulses() == old(self).pulses(),
    {
        self.active_constant = config.constant_imp;
        self.reactive_constant = config.constant_imp;
        self.pulse_width_ms = config.pulse_width_ms;
    }

    /// Pulse width (ms).
    pub fn pulse_width_ms(&self) -> (r: u16)
        ensures
            r == self.width(),
    {
        self.pulse_width_ms
    }

    /// The pulse constant of the output is not zero and its pulse count
    /// does not overflow by adding `delta_wh`.
    pub open spec fn update_ok(&self, pulse_type: PulseType, delta_wh: u32) -> bool {
        match pulse_type {
            PulseType::Active => 1 <= self.constants().0
                && self.pulses().0 + pulse_total(self.accumulated().0, self.constants().0, delta_wh) / 1000 <= u32::MAX,
            PulseType::Reactive => 1 <= self.constants().1
                && self.pulses().1 + pulse_total(self.accumulated().1, self.constants().1, delta_wh) / 1000 <= u32::MAX,
        }
    }

    /// Whether `update_energy(pulse_type, delta_wh)` can be applied.
    pub fn can_update(&self, pulse_type: PulseType, delta_wh: u32) -> (r: bool)
        ensures
            r == self.update_ok(pulse_type, delta_wh),
    {
        let (c, acc, cnt) = match pulse_type {
            PulseType::Active => (self.active_constant, self.active_accum_wh, self.active_pulse_count),
            PulseType::Reactive => (self.reactive_constant, self.reactive_accum_varh, self.reactive_pulse_count),
        };
        if c < 1 {
            return false;
        }
        let total = step_total(acc, c, delta_wh);
        let n: u64 = total / 1000;
        n <= (u32::MAX - cnt) as u64
    }

    /// Add energy to one output: each pulse stands for 1000/constant Wh, so
    /// `delta_wh` adds `delta_wh * constant` thousandths of a pulse; the
    /// whole pulses are counted and returned (to be emitted), the rest
    /// stays accumulated.
    pub fn update_energy(&mut self, pulse_type: PulseType, delta_wh: u32) -> (r: u32)
        requires
            old(self).update_ok(pulse_type, delta_wh),
        ensures
            final(self).constants() == old(self).constants(),
            final(self).width() == old(self).width(),
            pulse_type == PulseType::Active ==> {
                let total = pulse_total(old(self).accumulated().0, old(self).constants().0, delta_wh);
                &&& r == total / 1000
                &&& final(self).accumulated() == ((total % 1000) as u32, old(self).accumulated().1)
                &&& final(self).pulses() == ((old(self).pulses().0 + r) as u32, old(self).pulses().1)
            },
            pulse_type == PulseType::Reactive ==> {
                let total = pulse_total(old(self).accumulated().1, old(self).constants().1, delta_wh);
                &&& r == total / 1000
                &&& final(self).accumulated() == (old(self).accumulated().0, (total % 1000) as u32)
                &&& final(self).pulses() == (old(self).pulses().0, (old(self).pulses().1 + r) as u32)
            },
    {
        match pulse_type {
            PulseType::Active => {
                let total = step_total(self.active_accum_wh, self.active_constant, delta_wh);
                let n: u32 = (total / 1000) as u32;
                self.active_accum_wh = (total % 1000) as u32;
                self.active_pulse_count = self.active_pulse_count + n;
                n
            },
            PulseType::Reactive => {
                let total = step_total(self.reactive_accum_varh, self.reactive_constant, delta_wh);
                let n: u32 = (total / 1000) as u32;
                self.reactive_accum_varh = (total % 1000) as u32;
                self.reactive_pulse_count = self.reactive_pulse_count + n;
                n
            },
        }
    }
}

/// `pulse_total` in 64 bits.
fn step_total(acc: u32, constant: u32, delta_wh: u32) -> (r: u64)
    ensures
        r == pulse_total(acc, constant, delta_wh),
{
    let d = delta_wh as u64;
    let c = constant as u64;
    assert(d * c <= 0xFFFF_FFFE_0000_0001) by (nonlinear_arith)
        requires d <= 0xFFFF_FFFF, c <= 0xFFFF_FFFF;
    acc as u64 + d * c
}

/* ---------------- indicators ---------------- */

/// LED states: bit 0 power, 1 communication, 2 alarm, 3 active pulse,
/// 4 reactive pulse.
pub struct IndicatorImpl {
    led_states: u8,
}

/// Bit of an LED in the state byte.
pub open spec fn led_bit(led: Led) -> u8 {
    match led {
        Led::Power => 0,
        Led::Communication => 1,
        Led::Alarm => 2,
        Led::PulseActive => 3,
        Led::PulseReactive => 4,
    }
}

/// Pin that drives an LED.
pub fn led_pin(led: Led) -> (r: GpioPin)
    ensures
        r.port == 0,
        r.pin == 8 + led_bit(led),
{
    match led {
        Led::Power => pins::led_power(),
        Led::Communication => pins::led_comm(),
        Led::Alarm => pins::led_alarm(),
        Led::PulseActive => pins::led_pulse_p(),
        Led::PulseReactive => pins::led_pulse_q(),
    }
}

impl IndicatorImpl {
    /// The LED state byte.
    pub closed spec fn states(&self) -> u8 {
        self.led_states
    }

    /// All LEDs off.
    pub fn new() -> (r: Self)
        ensures
            r.states() == 0,
    {
        IndicatorImpl { led_states: 0 }
    }

    /// The LED state byte.
    pub fn led_states(&self) -> (r: u8)
        ensures
            r == self.states(),
    {
        self.led_states
    }

    /// Record an LED switched on or off: its bit set or cleared.
    pub fn set_led_state(&mut self, led: Led, on: bool)
        ensures
            final(self).states() == (if on { old(self).states() | (1u8 << led_bit(led)) } else {
                old(self).states() & !(1u8 << led_bit(led)) }),
    {
        let bit: u8 = match led {
            Led::Power => 0,
            Led::Communication => 1,
            Led::Alarm => 2,
            Led::PulseActive => 3,
            Led::PulseReactive => 4,
        };
        if on {
            self.led_states = self.led_states | (1u8 << bit);
        } else {
            self.led_states = self.led_states & !(1u8 << bit);
        }
    }

    /// Record an LED toggled: its bit flipped.
    pub fn toggle_led_state(&mut self, led: Led)
        ensures
            final(self).states() == old(self).states() ^ (1u8 << led_bit(led)),
    {
        let bit: u8 = match led {
            Led::Power => 0,
            Led::Communication => 1,
            Led::Alarm => 2,
            Led::PulseActive => 3,
            Led::PulseReactive => 4,
        };
        self.led_states = self.led_states ^ (1u8 << bit);
    }
}

/* ---------------- tamper switches ---------------- */

/// Latched tamper conditions.
pub struct TamperImpl {
    cover_open: bool,
    terminal_open: bool,
    magnetic_detected: bool,
}

impl TamperImpl {
    /// Latched conditions (cover, terminal cover, magnetic field).
    pub closed spec fn latched(&self) -> (bool, bool, bool) {
        (self.cover_open, self.terminal_open, self.magnetic_detected)
    }

    /// Nothing latched.
    pub fn new() -> (r: Self)
        ensures
            r.latched() == (false, false, false),
    {
        TamperImpl { cover_open: false, terminal_open: false, magnetic_detected: false }
    }

    /// Take the switch levels (a low level is a detection, latched), then
    /// report and clear the first latched condition in the order cover,
    /// terminal cover, magnetic field.
    pub fn check(&mut self, cover_low: bool, terminal_low: bool, magnetic_low: bool) -> (r: Option<TamperEvent>)
        ensures
            ({
                let c = old(self).latched().0 || cover_low;
                let t = old(self).latched().1 || terminal_low;
                let m = old(self).latched().2 || magnetic_low;
                if c {
                    r == Some(TamperEvent::CoverOpen) && final(self).latched() == (false, t, m)
                } else if t {
                    r == Some(TamperEvent::TerminalCoverOpen) && final(self).latched() == (false, false, m)
                } else if m {
                    r == Some(TamperEvent::MagneticFieldDetected) && final(self).latched() == (false, false, false)
                } else {
                    r is None && final(self).latched() == (false, false, false)
                }
            }),
    {
        if cover_low {
            self.cover_open = true;
        }
        if terminal_low {
            self.terminal_open = true;
        }
        if magnetic_low {
            self.magnetic_detected = true;
        }
        if self.cover_open {
            self.cover_open = false;
            return Some(TamperEvent::CoverOpen);
        }
        if self.terminal_open {
            self.terminal_open = false;
            return Some(TamperEvent::TerminalCoverOpen);
        }
        if self.magnetic_detected {
            self.magnetic_detected = false;
            return Some(TamperEvent::MagneticFieldDetected);
        }
        None
    }
}

} // verus!
