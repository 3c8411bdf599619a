//! Low-power management decisions: the NormalRun -> LowPowerRun -> Sleep
//! -> DeepSleep progression on idle time, battery mode, wake-up source
//! classification and battery voltage alerts. The application performs
//! the hardware side (clock gating, WFI, ADC conversion, pin reads).
use vstd::prelude::*;

verus! {

/// Power state.
#[derive(Clone, Copy, PartialEq, Eq, Debug, Structural)]
pub enum PowerState {
    /// Normal run (64 MHz, all peripherals on)
    NormalRun,
    /// Low-power run (reduced clock, non-essential peripherals off)
    LowPowerRun,
    /// Light sleep (WFI, UART wake-up, LCD kept)
    Sleep,
    /// Deep sleep (main clock off, LPUART wake-up, LCD off)
    DeepSleep,
    /// Deep sleep with RAM retention (lowest consumption)
    DeepSleepRamRetain,
}

/// Wake-up source.
#[derive(Clone, Copy, PartialEq, Eq, Debug, Structural)]
pub enum WakeupSource {
    Rs485,
    Infrared,
    Key,
    RtcAlarm,
    LoRaWAN,
    PowerFail,
    LpUart,
    Gpio,
    Unknown,
}

/// Battery voltage alert level.
#[derive(Clone, Copy, PartialEq, Eq, Debug, Structural)]
pub enum BatteryAlert {
    Normal,
    Low,
    Critical,
}

/// Peripheral clock gating masks.
#[derive(Clone, Copy, Debug)]
pub struct ClockGateConfig {
    /// PCLKEN1 bits switched off in sleep
    pub sleep_mask_pclken1: u32,
    /// PCLKEN1 bits switched off in deep sleep
    pub deep_sleep_mask_pclken1: u32,
    /// PCLKEN2 bits switched off in deep sleep
    pub deep_sleep_mask_pclken2: u32,
    /// PCLKEN3 bits switched off in deep sleep
    pub deep_sleep_mask_pclken3: u32,
}

impl Default for ClockGateConfig {
    fn default() -> (r: Self)
        ensures
            r.sleep_mask_pclken1 == 0x00,
            r.deep_sleep_mask_pclken1 == 0x7E,
            r.deep_sleep_mask_pclken2 == 0x4D,
            r.deep_sleep_mask_pclken3 == 0x43,
    {
        ClockGateConfig {
            sleep_mask_pclken1: 0x00,
            deep_sleep_mask_pclken1: 0x7E,
            deep_sleep_mask_pclken2: 0x4D,
            deep_sleep_mask_pclken3: 0x43,
        }
    }
}

/// Idle time before low-power run (s).
pub const LP_RUN_TIMEOUT_SEC: u32 = 2 * 60;
/// Idle time before sleep (s).
pub const SLEEP_TIMEOUT_SEC: u32 = 5 * 60;
/// Idle time before deep sleep (s).
pub const DEEP_SLEEP_TIMEOUT_SEC: u32 = 30 * 60;
/// Battery low threshold (mV, ER26500 cell, 3.6 V nominal).
pub const BAT_LOW_MV: u16 = 3300;
/// Battery critical threshold (mV).
pub const BAT_CRITICAL_MV: u16 = 3000;

/// Alert level of a battery voltage.
pub open spec fn battery_alert_of(mv: u16) -> BatteryAlert {
    if mv <= BAT_CRITICAL_MV {
        BatteryAlert::Critical
    } else if mv <= BAT_LOW_MV {
        BatteryAlert::Low
    } else {
        BatteryAlert::Normal
    }
}

/// Battery voltage (mV) of a 12-bit ADC sample behind a 1:2 divider with a
/// 3.3 V reference.
pub open spec fn battery_mv_of(sample: u32) -> u16 {
    ((sample % 0x1000) * 3300 * 2 / 4096) as u16
}

/// Pin and flag readings taken right after a wake-up.
#[derive(Clone, Copy, Debug)]
pub struct WakeupProbe {
    /// RS-485 UART has a received byte
    pub rs485_rx: bool,
    /// Infrared UART has a received byte
    pub infrared_rx: bool,
    /// UART2 RX line is low
    pub uart2_rx_low: bool,
    /// A key is pressed
    pub key_low: bool,
    /// Power-fail comparator output is low
    pub power_fail_low: bool,
}

/// Wake-up source from the readings, by priority: RS-485, infrared, UART2
/// (LPUART in deep sleep, LoRaWAN otherwise), key, power fail, else GPIO.
pub open spec fn wakeup_source_of(state: PowerState, p: WakeupProbe) -> WakeupSource {
    if p.rs485_rx {
        WakeupSource::Rs485
    } else if p.infrared_rx {
        WakeupSource::Infrared
    } else if p.uart2_rx_low {
        if state == PowerState::DeepSleep || state == PowerState::DeepSleepRamRetain {
            WakeupSource::LpUart
        } else {
            WakeupSource::LoRaWAN
        }
    } else if p.key_low {
        WakeupSource::Key
    } else if p.power_fail_low {
        WakeupSource::PowerFail
    } else {
        WakeupSource::Gpio
    }
}

/// Low-power manager.
#[derive(Clone, Copy, Debug)]
pub struct PowerManager {
    /// Current state
    pub state: PowerState,
    /// State before the last sleep
    pub pre_sleep_state: PowerState,
    /// Running from the battery
    pub battery_powered: bool,
    /// Tick of the last communication activity (ms)
    pub last_activity_tick: u32,
    /// Last battery voltage (mV)
    pub battery_mv: u16,
    /// Battery alert
    pub battery_alert: BatteryAlert,
    /// Last wake-up source
    pub last_wakeup: WakeupSource,
    /// Current tick (ms)
    pub current_tick: u32,
    /// Clock gating masks
    pub clock_gate: ClockGateConfig,
    /// In programming mode (no low power)
    pub programming_mode: bool,
    /// RTC alarm wake-up enabled
    pub rtc_alarm_wakeup: bool,
    /// LPUART wake-up enabled
    pub lpuart_wakeup: bool,
    /// Number of wake-ups
    pub wakeup_count: u32,
}

/// Idle seconds at `tick` since `last` (tick wrap-around included).
pub open spec fn idle_seconds(tick: u32, last: u32) -> int {
    (if tick >= last { tick - last } else { tick + 0x1_0000_0000 - last }) / 1000
}

impl PowerManager {
    /// A manager on mains, running normally, battery at 3600 mV.
    pub fn new() -> (r: Self)
        ensures
            r.state == PowerState::NormalRun,
            r.pre_sleep_state == PowerState::NormalRun,
            !r.battery_powered,
            r.last_activity_tick == 0,
            r.battery_mv == 3600,
            r.battery_alert == BatteryAlert::Normal,
            r.last_wakeup == WakeupSource::Unknown,
            r.current_tick == 0,
            r.clock_gate.sleep_mask_pclken1 == 0x00,
            r.clock_gate.deep_sleep_mask_pclken1 == 0x7E,
            r.clock_gate.deep_sleep_mask_pclken2 == 0x4D,
            r.clock_gate.deep_sleep_mask_pclken3 == 0x43,
            !r.programming_mode,
            !r.rtc_alarm_wakeup,
            r.lpuart_wakeup,
            r.wakeup_count == 0,
    {
        PowerManager {
            state: PowerState::NormalRun,
            pre_sleep_state: PowerState::NormalRun,
            battery_powered: false,
            last_activity_tick: 0,
            battery_mv: 3600,
            battery_alert: BatteryAlert::Normal,
            last_wakeup: WakeupSource::Unknown,
            current_tick: 0,
            clock_gate: ClockGateConfig::default(),
            programming_mode: false,
            rtc_alarm_wakeup: false,
            lpuart_wakeup: true,
            wakeup_count: 0,
        }
    }

    /// Periodic decision at `tick` (ms). In programming mode the meter
    /// runs normally. On battery it goes to deep sleep with RAM retention.
    /// On mains, after 30 min idle it goes to deep sleep, after 5 min to
    /// sleep, after 2 min from normal to low-power run (whose clock gating
    /// the application applies); the state only goes deeper until activity
    /// is recorded. Returns whether the caller should now
    /// enter low power.
    pub fn tick(&mut self, tick: u32, programming_mode: bool) -> (r: bool)
        ensures
            final(self).current_tick == tick,
            final(self).programming_mode == programming_mode,
            ({
                let o = *old(self);
                let idle = idle_seconds(tick, o.last_activity_tick);
                let base = PowerManager { current_tick: tick, programming_mode, ..o };
                if programming_mode {
                    !r && *final(self) == (PowerManager { state: PowerState::NormalRun, ..base })
                } else if o.battery_powered {
                    if o.state != PowerState::DeepSleepRamRetain {
                        r && *final(self) == (PowerManager {
                            pre_sleep_state: o.state,
                            state: PowerState::DeepSleepRamRetain,
                            ..base
                        })
                    } else {
                        !r && *final(self) == base
                    }
                } else if idle >= DEEP_SLEEP_TIMEOUT_SEC && o.state != PowerState::DeepSleep {
                    r && *final(self) == (PowerManager { pre_sleep_state: o.state, state: PowerState::DeepSleep, ..base })
                } else if idle >= SLEEP_TIMEOUT_SEC && (o.state == PowerState::NormalRun || o.state == PowerState::LowPowerRun) {
                    r && *final(self) == (PowerManager { pre_sleep_state: o.state, state: PowerState::Sleep, ..base })
                } else if idle >= LP_RUN_TIMEOUT_SEC && o.state == PowerState::NormalRun {
                    !r && *final(self) == (PowerManager { state: PowerState::LowPowerRun, ..base })
                } else {
                    !r && *final(self) == base
                }
            }),
    {
        self.current_tick = tick;
        self.programming_mode = programming_mode;
        if programming_mode {
            if self.state != PowerState::NormalRun {
                self.state = PowerState::NormalRun;
            }
            return false;
        }
        let idle_ms: u32 = tick.wrapping_sub(self.last_activity_tick);
        let idle_sec: u32 = idle_ms / 1000;
        if self.battery_powered {
            if self.state != PowerState::DeepSleepRamRetain {
                self.pre_sleep_state = self.state;
                self.state = PowerState::DeepSleepRamRetain;
                return true;
            }
            return false;
        }
        if idle_sec >= DEEP_SLEEP_TIMEOUT_SEC && self.state != PowerState::DeepSleep {
            self.pre_sleep_state = self.state;
            self.state = PowerState::DeepSleep;
            return true;
        } else if idle_sec >= SLEEP_TIMEOUT_SEC && (self.state == PowerState::NormalRun || self.state == PowerState::LowPowerRun) {
            self.pre_sleep_state = self.state;
            self.state = PowerState::Sleep;
            return true;
        } else if idle_sec >= LP_RUN_TIMEOUT_SEC && self.state == PowerState::NormalRun {
            self.state = PowerState::LowPowerRun;
            return false;
        }
        false
    }

    /// Communication activity at `tick`: restarts the idle time and
    /// returns to normal run (the application restores the clocks).
    pub fn record_activity(&mut self, tick: u32)
        ensures
            *final(self) == (PowerManager { last_activity_tick: tick, state: PowerState::NormalRun, ..*old(self) }),
    {
        self.last_activity_tick = tick;
        if self.state != PowerState::NormalRun {
            self.state = PowerState::NormalRun;
        }
    }

    /// Account for a low-power period. In normal or low-power run nothing
    /// sleeps and the source is `Unknown`; after a sleep (performed by the
    /// application) the wake-up is counted and its source classified from
    /// the readings taken on wake-up.
    pub fn enter_low_power(&mut self, probe: WakeupProbe) -> (r: WakeupSource)
        ensures
            old(self).state == PowerState::NormalRun || old(self).state == PowerState::LowPowerRun ==> r
                == WakeupSource::Unknown && *final(self) == *old(self),
            !(old(self).state == PowerState::NormalRun || old(self).state == PowerState::LowPowerRun) ==> {
                &&& r == wakeup_source_of(old(self).state, probe)
                &&& *final(self) == (PowerManager {
                    wakeup_count: old(self).wakeup_count.wrapping_add(1),
                    last_wakeup: r,
                    ..*old(self)
                })
            },
    {
        match self.state {
            PowerState::NormalRun => {
                return WakeupSource::Unknown;
            },
            PowerState::LowPowerRun => {
                return WakeupSource::Unknown;
            },
            _ => {},
        }
        self.wakeup_count = self.wakeup_count.wrapping_add(1);
        let src = if probe.rs485_rx {
            WakeupSource::Rs485
        } else if probe.infrared_rx {
            WakeupSource::Infrared
        } else if probe.uart2_rx_low {
            if self.state == PowerState::DeepSleep || self.state == PowerState::DeepSleepRamRetain {
                WakeupSource::LpUart
            } else {
                WakeupSource::LoRaWAN
            }
        } else if probe.key_low {
            WakeupSource::Key
        } else if probe.power_fail_low {
            WakeupSource::PowerFail
        } else {
            WakeupSource::Gpio
        };
        self.last_wakeup = src;
        src
    }

    /// Battery voltage (mV) of an ADC sample (low 12 bits).
    pub fn battery_mv_from_sample(sample: u32) -> (r: u16)
        ensures
            r == battery_mv_of(sample),
    {
        let val: u32 = sample & 0x0FFF;
        assert(val == sample % 0x1000) by (bit_vector)
            requires
                val == sample & 0x0FFF,
        ;
        (val * 3300 * 2 / 4096) as u16
    }

    /// Periodic battery check with the ADC sample taken (`None` when the
    /// conversion timed out, read as 0 mV): stores the voltage and its
    /// alert level and returns the level.
    pub fn check_battery(&mut self, sample: Option<u32>) -> (r: BatteryAlert)
        ensures
            ({
                let mv = match sample {
                    Some(s) => battery_mv_of(s),
                    None => 0u16,
                };
                &&& r == battery_alert_of(mv)
                &&& *final(self) == (PowerManager { battery_mv: mv, battery_alert: r, ..*old(self) })
            }),
    {
        self.battery_mv = match sample {
            Some(s) => Self::battery_mv_from_sample(s),
            None => 0,
        };
        self.battery_alert = if self.battery_mv <= BAT_CRITICAL_MV {
            BatteryAlert::Critical
        } else if self.battery_mv <= BAT_LOW_MV {
            BatteryAlert::Low
        } else {
            BatteryAlert::Normal
        };
        self.battery_alert
    }

    /// Current state.
    pub fn state(&self) -> (r: PowerState)
        ensures
            r == self.state,
    {
        self.state
    }

    /// State before the last sleep.
    pub fn pre_sleep_state(&self) -> (r: PowerState)
        ensures
            r == self.pre_sleep_state,
    {
        self.pre_sleep_state
    }

    /// Last battery voltage (mV).
    pub fn battery_voltage_mv(&self) -> (r: u16)
        ensures
            r == self.battery_mv,
    {
        self.battery_mv
    }

    /// Battery alert.
    pub fn battery_alert(&self) -> (r: BatteryAlert)
        ensures
            r == self.battery_alert,
    {
        self.battery_alert
    }

    /// Running from the battery.
    pub fn is_battery_powered(&self) -> (r: bool)
        ensures
            r == self.battery_powered,
    {
        self.battery_powered
    }

    /// Last wake-up source.
    pub fn last_wakeup(&self) -> (r: WakeupSource)
        ensures
            r == self.last_wakeup,
    {
        self.last_wakeup
    }

    /// Force the state.
    pub fn set_state(&mut self, state: PowerState)
        ensures
            *final(self) == (PowerManager { state, ..*old(self) }),
    {
        self.state = state;
    }

    /// Enable or disable RTC alarm wake-up.
    pub fn set_rtc_alarm_wakeup(&mut self, enable: bool)
        ensures
            *final(self) == (PowerManager { rtc_alarm_wakeup: enable, ..*old(self) }),
    {
        self.rtc_alarm_wakeup = enable;
    }

    /// Enable or disable LPUART wake-up.
    pub fn set_lpuart_wakeup(&mut self, enable: bool)
        ensures
            *final(self) == (PowerManager { lpuart_wakeup: enable, ..*old(self) }),
    {
        self.lpuart_wakeup = enable;
    }

    /// Number of wake-ups.
    pub fn wakeup_count(&self) -> (r: u32)
        ensures
            r == self.wakeup_count,
    {
        self.wakeup_count
    }

    /// Set the clock gating masks.
    pub fn set_clock_gate_config(&mut self, config: ClockGateConfig)
        ensures
            *final(self) == (PowerManager { clock_gate: config, ..*old(self) }),
    {
        self.clock_gate = config;
    }
}

/// Expected sleep time (ms) before the RTOS enters tickless idle: none in
/// normal run, 10 ms in low-power run, 1 s in sleep, unbounded in deep sleep.
pub fn freertos_pre_sleep_processing(pm: &PowerManager) -> (r: u32)
    ensures
        r == (match pm.state {
            PowerState::NormalRun => 0u32,
            PowerState::LowPowerRun => 10u32,
            PowerState::Sleep => 1000u32,
            _ => u32::MAX,
        }),
{
    match pm.state() {
        PowerState::NormalRun => 0,
        PowerState::LowPowerRun => 10,
        PowerState::Sleep => 1000,
        PowerState::DeepSleep | PowerState::DeepSleepRamRetain => u32::MAX,
    }
}

/// Actual sleep time (ms) after tickless idle: the expected time (the
/// lost ticks are not measured).
pub fn freertos_post_sleep_processing(pm: &mut PowerManager, expected_ms: u32) -> (r: u32)
    ensures
        r == expected_ms,
        *final(pm) == *old(pm),
{
    expected_ms
}

} // verus!
