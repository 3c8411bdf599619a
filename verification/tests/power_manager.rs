use femeter::power_manager::{BatteryAlert, PowerManager, PowerState};

#[test]
fn power_idle_timeouts() {
    let mut pm = PowerManager::new();
    assert!(!pm.tick(60_000, false));
    assert_eq!(pm.state(), PowerState::NormalRun);
    assert!(!pm.tick(120_000, false));
    assert_eq!(pm.state(), PowerState::LowPowerRun);
    assert!(pm.tick(300_000, false));
    assert_eq!(pm.state(), PowerState::Sleep);
    assert!(pm.tick(1_800_000, false));
    assert_eq!(pm.state(), PowerState::DeepSleep);
    // still idle: stays in deep sleep, no new change
    assert!(!pm.tick(1_801_000, false));
    assert_eq!(pm.state(), PowerState::DeepSleep);
    pm.record_activity(1_800_500);
    assert_eq!(pm.state(), PowerState::NormalRun);
}

#[test]
fn power_programming_mode_keeps_running() {
    let mut pm = PowerManager::new();
    assert!(!pm.tick(3_600_000, true));
    assert_eq!(pm.state(), PowerState::NormalRun);
}

#[test]
fn power_battery_levels() {
    let mut pm = PowerManager::new();
    // 12-bit sample, 3.3 V reference, divider by two
    assert_eq!(PowerManager::battery_mv_from_sample(2048), 3300);
    assert_eq!(pm.check_battery(Some(2500)), BatteryAlert::Normal);
    assert_eq!(pm.check_battery(Some(2048)), BatteryAlert::Low);
    assert_eq!(pm.check_battery(Some(1800)), BatteryAlert::Critical);
    assert_eq!(pm.check_battery(None), BatteryAlert::Critical);
    assert_eq!(pm.battery_voltage_mv(), 0);
}
