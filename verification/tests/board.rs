use femeter::board::adc::raw_to_celsius;
use femeter::board::devices::{led_pin, IndicatorImpl, PulseOutputImpl, TamperImpl};
use femeter::board::pins;
use femeter::board::setup::{gpio_plan, PinSetup};
use femeter::fm33lg0::calc_spbrg;
use femeter::hal::{Led, PulseConfig, PulseType, TamperEvent};

#[test]
fn board_temperature_conversion() {
    assert_eq!(raw_to_celsius(1775), 25);
    assert_eq!(raw_to_celsius(0), -8);
}

#[test]
fn board_uart_divider() {
    assert_eq!(calc_spbrg(64_000_000, 9600), 6666);
    assert_eq!(calc_spbrg(64_000_000, 8_000_000), 0x0F);
    assert_eq!(calc_spbrg(1_000_000, 115200), 0x0F);
    assert_eq!(calc_spbrg(64_000_000, 4_000_000), 0x10);
}

#[test]
fn board_pin_map() {
    let p = pins::key_page();
    assert_eq!((p.port, p.pin), (1, 0));
    let p = pins::rs485_de();
    assert_eq!((p.port, p.pin), (5, 2));
    let p = led_pin(Led::Alarm);
    assert_eq!((p.port, p.pin), (0, 10));
}

#[test]
fn board_pulse_accounting() {
    let mut pulse = PulseOutputImpl::new();
    // 6400 imp/kWh: one kWh gives 6400 pulses
    assert_eq!(pulse.update_energy(PulseType::Active, 1000), 6400);
    assert_eq!(pulse.update_energy(PulseType::Active, 0), 0);
    pulse.configure(&PulseConfig { constant_imp: 1000, pulse_width_ms: 40 });
    assert_eq!(pulse.pulse_width_ms(), 40);
    // 1000 imp/kvarh: one pulse per varh
    assert_eq!(pulse.update_energy(PulseType::Reactive, 2500), 2500);
    pulse.configure(&PulseConfig { constant_imp: 1, pulse_width_ms: 40 });
    // 1 imp/kWh: 600 Wh are not a pulse yet, 1000 Wh more complete one
    assert_eq!(pulse.update_energy(PulseType::Active, 600), 0);
    assert_eq!(pulse.update_energy(PulseType::Active, 1000), 1);
}

#[test]
fn board_indicator_bits() {
    let mut ind = IndicatorImpl::new();
    ind.set_led_state(Led::Alarm, true);
    ind.set_led_state(Led::Power, true);
    assert_eq!(ind.led_states(), 0b101);
    ind.toggle_led_state(Led::Alarm);
    assert_eq!(ind.led_states(), 0b001);
    ind.set_led_state(Led::Power, false);
    assert_eq!(ind.led_states(), 0);
}

#[test]
fn board_tamper_latch_order() {
    let mut t = TamperImpl::new();
    assert_eq!(t.check(false, false, false), None);
    assert_eq!(t.check(true, true, true), Some(TamperEvent::CoverOpen));
    assert_eq!(t.check(false, false, false), Some(TamperEvent::TerminalCoverOpen));
    assert_eq!(t.check(false, false, false), Some(TamperEvent::MagneticFieldDetected));
    assert_eq!(t.check(false, false, false), None);
}

#[test]
fn pulse_update_checked_before_use() {
    let mut pulse = PulseOutputImpl::new();
    // 6400 imp/kWh: u32::MAX Wh would be more pulses than the counter holds
    assert!(pulse.can_update(PulseType::Active, 1000));
    assert!(!pulse.can_update(PulseType::Active, u32::MAX));
    pulse.configure(&PulseConfig { constant_imp: 0, pulse_width_ms: 80 });
    assert!(!pulse.can_update(PulseType::Reactive, 1));
    pulse.configure(&PulseConfig { constant_imp: 1, pulse_width_ms: 80 });
    assert!(pulse.can_update(PulseType::Active, u32::MAX));
}

#[test]
fn gpio_plan_sets_up_every_pin_once() {
    let plan = gpio_plan();
    assert_eq!(plan.len(), 34);
    assert_eq!(plan[0], (pins::spi0_sck(), PinSetup::Digital { func: 0 }));
    assert_eq!(plan[3], (pins::spi0_csn(), PinSetup::OutputHigh));
    assert_eq!(plan[10], (pins::rs485_de(), PinSetup::OutputLow));
    assert_eq!(plan[16], (pins::uart3_rx(), PinSetup::Digital { func: 3 }));
    assert_eq!(plan[33], (pins::bat_adc(), PinSetup::Analog));
    for i in 0..plan.len() {
        for j in i + 1..plan.len() {
            assert_ne!(plan[i].0, plan[j].0);
        }
    }
}
