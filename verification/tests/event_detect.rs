use femeter::event_detect::{calc_voltage_unbalance, crc32, EventDetector, MeterEvent, VoltageThresholds, MAX_EVENT_LOG};
use femeter::hal::PhaseData;


fn default_data() -> PhaseData {
    PhaseData::default()
}

#[test]
fn test_normal_no_events() {
    let mut det = EventDetector::new();
    assert_eq!(det.check(&default_data()), 0);
}

#[test]
fn test_over_voltage_after_duration() {
    let mut det = EventDetector::new();
    let mut d = default_data();
    d.voltage_a = 27000;
    for _ in 0..20 {
        let ev = det.check(&d);
        if ev != 0 {
            assert_ne!(ev & MeterEvent::OverVoltageA.mask(), 0);
            return;
        }
    }
    panic!("over voltage should trigger within 20 polls");
}

#[test]
fn test_under_voltage() {
    let mut det = EventDetector::new();
    let mut d = default_data();
    d.voltage_b = 17000;
    for _ in 0..20 {
        if det.check(&d) & MeterEvent::UnderVoltageB.mask() != 0 {
            return;
        }
    }
    panic!("under voltage should trigger");
}

#[test]
fn test_phase_loss() {
    let mut det = EventDetector::new();
    let mut d = default_data();
    d.voltage_c = 500;
    for _ in 0..20 {
        if det.check(&d) & MeterEvent::PhaseLossC.mask() != 0 {
            return;
        }
    }
    panic!("phase loss should trigger");
}

#[test]
fn test_over_current_after_duration() {
    let mut det = EventDetector::new();
    let mut d = default_data();
    d.current_a = 65000;
    for _ in 0..30 {
        if det.check(&d) & MeterEvent::OverCurrentA.mask() != 0 {
            return;
        }
    }
    panic!("over current should trigger");
}

#[test]
fn test_frequency_deviation() {
    let mut det = EventDetector::new();
    let mut d = default_data();
    d.frequency = 4700;
    for _ in 0..20 {
        if det.check(&d) & MeterEvent::FrequencyDeviation.mask() != 0 {
            return;
        }
    }
    panic!("frequency deviation should trigger");
}

#[test]
fn test_reverse_power() {
    let mut det = EventDetector::new();
    let mut d = default_data();
    d.active_power_total = -500;
    assert_ne!(det.check(&d) & MeterEvent::ReversePower.mask(), 0);
}

#[test]
fn test_recovery_clears() {
    let mut det = EventDetector::new();
    let mut d = default_data();
    d.voltage_a = 27000;
    for _ in 0..16 {
        det.check(&d);
    }
    d.voltage_a = 22000;
    assert_eq!(det.check(&d) & MeterEvent::OverVoltageA.mask(), 0);
}

#[test]
fn test_event_log() {
    let mut det = EventDetector::new();
    det.set_timestamp(12345);
    det.trigger_external(MeterEvent::CoverOpen);
    let log = det.event_log();
    assert_eq!(log.len(), 1);
    assert_eq!(log[0].event, MeterEvent::CoverOpen);
    assert_eq!(log[0].timestamp, 12345);
}

#[test]
fn test_event_log_overflow() {
    let mut det = EventDetector::new();
    for _ in 0..300 {
        det.trigger_external(MeterEvent::BatteryLow);
    }
    assert_eq!(det.event_log().len(), MAX_EVENT_LOG);
}

#[test]
fn test_consume_events() {
    let mut det = EventDetector::new();
    det.trigger_external(MeterEvent::MagneticTamper);
    let c1 = det.consume_events();
    assert_ne!(c1, 0, "first consume should have events");
    let c2 = det.consume_events();
    assert_eq!(c2, 0, "second consume should be empty");
}

#[test]
fn test_custom_thresholds_instant() {
    let mut det = EventDetector::new();
    det.set_voltage_thresholds(VoltageThresholds {
        over_voltage: 25000,
        under_voltage: 19000,
        lost_voltage: 5000,
        duration_ms: 0,
    });
    let mut d = default_data();
    d.voltage_a = 25500;
    assert_ne!(det.check(&d) & MeterEvent::OverVoltageA.mask(), 0);
}

#[test]
fn test_multi_phase() {
    let mut det = EventDetector::new();
    det.set_voltage_thresholds(VoltageThresholds {
        over_voltage: 25000,
        under_voltage: 19000,
        lost_voltage: 5000,
        duration_ms: 0,
    });
    let mut d = default_data();
    d.voltage_a = 27000;
    d.voltage_b = 18000;
    d.voltage_c = 1000;
    let ev = det.check(&d);
    assert_ne!(ev & MeterEvent::OverVoltageA.mask(), 0);
    assert_ne!(ev & MeterEvent::UnderVoltageB.mask(), 0);
    assert_ne!(ev & MeterEvent::PhaseLossC.mask(), 0);
}

#[test]
fn test_clear_log() {
    let mut det = EventDetector::new();
    det.trigger_external(MeterEvent::CoverOpen);
    det.trigger_external(MeterEvent::TerminalCoverOpen);
    assert_eq!(det.event_log().len(), 2);
    det.clear_log();
    assert_eq!(det.event_log().len(), 0);
}

#[test]
fn test_voltage_unbalance() {
    // 220, 220, 180 → avg=207, max_dev=27, unbalance=27/207*10000=1304 (13.04%)
    let ub = calc_voltage_unbalance(22000, 22000, 18000);
    assert!(ub > 1000 && ub < 1500);
}

#[test]
fn test_voltage_unbalance_balanced() {
    let ub = calc_voltage_unbalance(22000, 22000, 22000);
    assert_eq!(ub, 0);
}

#[test]
fn test_crc32() {
    let data = [0x01, 0x02, 0x03, 0x04];
    let crc = crc32(&data);
    assert_ne!(crc, 0);
}

#[test]
fn test_magnetic_detection() {
    let mut det = EventDetector::new();
    // 默认阈值 500, duration 1000ms, poll 200ms → 需要 5 次
    for _ in 0..10 {
        if det.check_magnetic(600) {
            return;
        }
    }
    panic!("magnetic tamper should trigger");
}

#[test]
fn test_event_active_query() {
    let mut det = EventDetector::new();
    det.set_voltage_thresholds(VoltageThresholds {
        over_voltage: 25000,
        under_voltage: 19000,
        lost_voltage: 5000,
        duration_ms: 0,
    });
    let mut d = default_data();
    d.voltage_a = 26000;
    det.check(&d);
    assert!(det.is_event_active(MeterEvent::OverVoltageA));
    assert!(!det.is_event_active(MeterEvent::OverVoltageB));
}

// ---- further cases ----

#[test]
fn event_crc32_check_value() {
    assert_eq!(crc32(b"123456789"), 0xCBF4_3926);
}

#[test]
fn event_over_voltage_fires_once() {
    let mut det = EventDetector::new();
    det.set_voltage_thresholds(VoltageThresholds {
        over_voltage: 25000,
        under_voltage: 19000,
        lost_voltage: 5000,
        duration_ms: 0,
    });
    let mut d = PhaseData::default();
    d.voltage_a = 26000;
    d.voltage_b = 22000;
    d.voltage_c = 22000;
    assert_ne!(det.check(&d) & MeterEvent::OverVoltageA.mask(), 0);
    // still over: no new event
    assert_eq!(det.check(&d) & MeterEvent::OverVoltageA.mask(), 0);
    assert!(det.is_event_active(MeterEvent::OverVoltageA));
}

#[test]
fn event_log_records_in_order() {
    let mut det = EventDetector::new();
    det.set_timestamp(7);
    det.trigger_external(MeterEvent::CoverOpen);
    det.set_timestamp(9);
    det.trigger_external_with_value(MeterEvent::BatteryLow, 33);
    let log = det.event_log();
    assert_eq!(log.len(), 2);
    assert_eq!(log[0].event, MeterEvent::CoverOpen);
    assert_eq!(log[0].timestamp, 7);
    assert_eq!(log[1].event, MeterEvent::BatteryLow);
    assert_eq!(log[1].value, 33);
    let recent = det.recent_events(1);
    assert_eq!(recent.len(), 1);
    assert_eq!(recent[0].event, MeterEvent::BatteryLow);
}

#[test]
fn event_log_wraps_at_capacity() {
    let mut det = EventDetector::new();
    for _ in 0..(MAX_EVENT_LOG + 5) {
        det.trigger_external(MeterEvent::BatteryLow);
    }
    assert_eq!(det.event_log().len(), MAX_EVENT_LOG);
}

#[test]
fn event_voltage_unbalance_value() {
    // max deviation 2666 over average 20666 -> 1290 hundredths of a percent
    assert_eq!(calc_voltage_unbalance(22000, 22000, 18000), 1290);
}

#[test]
fn neutral_over_current_reported_once() {
    let mut det = EventDetector::new();
    det.set_neutral_current(60001);
    let mut d = default_data();
    d.voltage_a = 22000;
    d.voltage_b = 22000;
    d.voltage_c = 22000;
    d.frequency = 5000;
    assert_eq!(det.check(&d), 1 << 25);
    assert_eq!(det.event_log().len(), 1);
    assert!(det.is_event_active(MeterEvent::NeutralOverCurrent));
    assert_eq!(det.check(&d), 0);
    assert_eq!(det.event_log().len(), 1);
    det.set_neutral_current(100);
    assert_eq!(det.check(&d), 0);
    assert!(!det.is_event_active(MeterEvent::NeutralOverCurrent));
    det.set_neutral_current(60001);
    assert_eq!(det.check(&d), 1 << 25);
    assert_eq!(det.event_log().len(), 2);
}

#[test]
fn recent_events_after_wrap_are_newest_in_order() {
    let mut det = EventDetector::new();
    for i in 1..=258u32 {
        det.set_timestamp(i);
        det.trigger_external(MeterEvent::BatteryLow);
    }
    let r = det.recent_events(5);
    assert_eq!(r.len(), 5);
    let ts: Vec<u32> = r.iter().map(|e| e.timestamp).collect();
    assert_eq!(ts, vec![254, 255, 256, 257, 258]);
    let all = det.recent_events(1000);
    assert_eq!(all.len(), MAX_EVENT_LOG);
    assert_eq!(all[0].timestamp, 3);
    assert_eq!(all[MAX_EVENT_LOG - 1].timestamp, 258);
}
