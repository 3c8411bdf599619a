//! Content handed from the application to the LCD layer.

use vstd::prelude::*;

verus! {

/// Values shown on the LCD pages, filled by the application.
#[derive(Clone, Copy, Debug)]
pub struct LcdContent {
    /// Display voltage (0.01 V)
    pub voltage: u16,
    /// Display current (mA)
    pub current: u16,
    /// Phase A voltage (0.01 V)
    pub voltage_a: u16,
    /// Phase B voltage (0.01 V)
    pub voltage_b: u16,
    /// Phase C voltage (0.01 V)
    pub voltage_c: u16,
    /// Phase A current (mA)
    pub current_a: u16,
    /// Phase B current (mA)
    pub current_b: u16,
    /// Phase C current (mA)
    pub current_c: u16,
    /// Total active power (W)
    pub active_power: i32,
    /// Total reactive power (var)
    pub reactive_power: i32,
    /// Apparent power (VA)
    pub apparent_power: u32,
    /// Neutral current (mA)
    pub neutral_current: u16,
    /// Power factor (0..1000)
    pub power_factor: u16,
    /// Frequency (0.01 Hz)
    pub frequency: u16,
    /// Active import energy (0.01 kWh)
    pub active_import_energy: u64,
    /// Active export energy (0.01 kWh)
    pub active_export_energy: u64,
    /// Current demand (W)
    pub demand_power: u32,
    /// Maximum demand (W)
    pub max_demand_power: u32,
    /// Date: year
    pub date_year: u16,
    /// Date: month
    pub date_month: u8,
    /// Date: day
    pub date_day: u8,
    /// Time: hour
    pub time_hour: u8,
    /// Time: minute
    pub time_min: u8,
    /// Time: second
    pub time_sec: u8,
    /// Current tariff (0..3)
    pub tariff: u8,
    /// Communication status (bit0 RS-485, bit1 IR, bit2 LoRa, bit3 cellular)
    pub comm_status: u8,
    /// Alarm flags (bit0 over-voltage, bit1 under-voltage, bit2 over-current, bit3 reverse)
    pub alarm_flags: u8,
}

/// The all-zero content record.
pub open spec fn lcd_content_zero() -> LcdContent {
    LcdContent {
        voltage: 0,
        current: 0,
        voltage_a: 0,
        voltage_b: 0,
        voltage_c: 0,
        current_a: 0,
        current_b: 0,
        current_c: 0,
        active_power: 0,
        reactive_power: 0,
        apparent_power: 0,
        neutral_current: 0,
        power_factor: 0,
        frequency: 0,
        active_import_energy: 0,
        active_export_energy: 0,
        demand_power: 0,
        max_demand_power: 0,
        date_year: 0,
        date_month: 0,
        date_day: 0,
        time_hour: 0,
        time_min: 0,
        time_sec: 0,
        tariff: 0,
        comm_status: 0,
        alarm_flags: 0,
    }
}

impl Default for LcdContent {
    fn default() -> (r: Self)
        ensures
            r == lcd_content_zero(),
    {
        LcdContent {
            voltage: 0,
            current: 0,
            voltage_a: 0,
            voltage_b: 0,
            voltage_c: 0,
            current_a: 0,
            current_b: 0,
            current_c: 0,
            active_power: 0,
            reactive_power: 0,
            apparent_power: 0,
            neutral_current: 0,
            power_factor: 0,
            frequency: 0,
            active_import_energy: 0,
            active_export_energy: 0,
            demand_power: 0,
            max_demand_power: 0,
            date_year: 0,
            date_month: 0,
            date_day: 0,
            time_hour: 0,
            time_min: 0,
            time_sec: 0,
            tariff: 0,
            comm_status: 0,
            alarm_flags: 0,
        }
    }
}

/// LCD display mode.
#[derive(Clone, Copy, Debug, PartialEq, Eq, Structural)]
pub enum LcdDisplayMode {
    /// Automatic page rotation every `interval_sec` seconds
    AutoRotate { interval_sec: u8 },
    /// Manual paging by key
    Manual,
    /// Power-off hold (energy only)
    PowerOffHold,
    /// Test mode (all segments on)
    TestAllOn,
    /// Display off
    Off,
}

impl Default for LcdDisplayMode {
    fn default() -> (r: Self)
        ensures
            r == LcdDisplayMode::Off,
    {
        LcdDisplayMode::Off
    }
}

/// LCD bias mode.
#[derive(Clone, Copy, Debug, PartialEq, Eq, Structural)]
pub enum LcdBias {
    /// 1/3 bias
    Third,
    /// 1/4 bias
    Quarter,
}

impl Default for LcdBias {
    fn default() -> (r: Self)
        ensures
            r == LcdBias::Third,
    {
        LcdBias::Third
    }
}

} // verus!
