use femeter::calibration::{CalCommand, CalState, CalibrationData, CalibrationManager};

#[test]
fn test_calibration_data_default() {
    let data = CalibrationData::new();
    assert_eq!(data.magic, CalibrationData::MAGIC);
    assert_eq!(data.version, 1);
    assert_eq!(data.voltage_gain, [0x0001_0000; 3]);
}

#[test]
fn test_calibration_data_crc() {
    let mut data = CalibrationData::new();
    data.update_crc();
    assert!(data.verify_crc());

    data.voltage_gain[0] = 0;
    assert!(!data.verify_crc());
}

#[test]
fn test_calibration_data_is_valid() {
    let mut data = CalibrationData::new();
    assert!(!data.is_valid());

    data.update_crc();
    assert!(data.is_valid());

    data.magic = 0;
    assert!(!data.is_valid());
}

#[test]
fn test_cal_manager_enter_exit() {
    let mut mgr = CalibrationManager::new();
    assert!(!mgr.is_cal_mode());
    assert!(mgr.enter_cal_mode().is_ok());
    assert!(mgr.is_cal_mode());
    mgr.exit_cal_mode();
    assert!(!mgr.is_cal_mode());
}

#[test]
fn test_cal_manager_double_enter() {
    let mut mgr = CalibrationManager::new();
    mgr.enter_cal_mode().unwrap();
    assert!(mgr.enter_cal_mode().is_err());
}

#[test]
fn test_cal_command_from_byte() {
    assert_eq!(CalCommand::from_byte(0x01), Some(CalCommand::EnterCalMode));
    assert_eq!(CalCommand::from_byte(0x50), Some(CalCommand::FactoryReset));
    assert_eq!(CalCommand::from_byte(0xFF), None);
}

#[test]
fn test_calibrate_active_power_exact() {
    let mut mgr = CalibrationManager::new();
    mgr.enter_cal_mode().unwrap();
    mgr.state = CalState::CalActivePower;

    let result = mgr.calibrate_active_power(10000, 10000, 0);
    assert_eq!(result.error_pct, 0);
    assert!(result.passed);
    assert_eq!(mgr.state(), CalState::Done);
}

#[test]
fn test_calibrate_active_power_positive_error() {
    let mut mgr = CalibrationManager::new();
    mgr.enter_cal_mode().unwrap();
    mgr.state = CalState::CalActivePower;

    let result = mgr.calibrate_active_power(10000, 10100, 0);
    assert_eq!(result.error_pct, 100);
    assert!(!result.passed);
    assert_eq!(mgr.state(), CalState::CalActivePower);
}

#[test]
fn test_calibrate_active_power_gain_adjustment() {
    let mut mgr = CalibrationManager::new();
    mgr.enter_cal_mode().unwrap();
    let gain_before = mgr.params.power_gain[0];

    mgr.state = CalState::CalActivePower;
    mgr.calibrate_active_power(10000, 9900, 0);

    assert!(mgr.params.power_gain[0] > gain_before);
}

#[test]
fn test_calibrate_reactive_power() {
    let mut mgr = CalibrationManager::new();
    mgr.enter_cal_mode().unwrap();
    mgr.state = CalState::CalReactivePower;

    let result = mgr.calibrate_reactive_power(5000, 5000, 1);
    assert_eq!(result.error_pct, 0);
    assert!(result.passed);
}

#[test]
fn test_calibrate_voltage() {
    let mut mgr = CalibrationManager::new();
    mgr.enter_cal_mode().unwrap();
    mgr.state = CalState::CalVoltage;

    let result = mgr.calibrate_voltage(0, 22000, 22000);
    assert_eq!(result.error_pct, 0);
    assert!(result.passed);
}

#[test]
fn test_calibrate_current() {
    let mut mgr = CalibrationManager::new();
    mgr.enter_cal_mode().unwrap();
    mgr.state = CalState::CalCurrent;

    let result = mgr.calibrate_current(0, 5000, 5000);
    assert_eq!(result.error_pct, 0);
    assert!(result.passed);
}

#[test]
fn test_calibrate_phase() {
    let mut mgr = CalibrationManager::new();
    mgr.enter_cal_mode().unwrap();
    mgr.state = CalState::CalPhase;

    let result = mgr.calibrate_phase(0, 1000, 1000);
    assert_eq!(result.error_pct, 0);
    assert!(result.passed);
}

#[test]
fn test_start_test_timeout() {
    let mut mgr = CalibrationManager::new();
    mgr.enter_cal_mode().unwrap();
    mgr.state = CalState::StartTest;

    for _ in 0..599 {
        assert!(!mgr.start_test_tick());
    }
    assert!(mgr.start_test_tick());
}

#[test]
fn test_start_test_pulse_detected() {
    let mut mgr = CalibrationManager::new();
    mgr.enter_cal_mode().unwrap();
    mgr.state = CalState::StartTest;

    assert!(mgr.start_test_report(true));
    assert_eq!(mgr.state(), CalState::Done);
}

#[test]
fn test_start_test_no_pulse_timeout() {
    let mut mgr = CalibrationManager::new();
    mgr.enter_cal_mode().unwrap();
    mgr.state = CalState::StartTest;

    for _ in 0..599 {
        assert!(!mgr.start_test_report(false));
    }
    assert!(!mgr.start_test_report(false));
    assert_eq!(mgr.state(), CalState::Failed);
    assert_eq!(mgr.error_code(), 30);
}

#[test]
fn test_creep_test_pass() {
    let mut mgr = CalibrationManager::new();
    mgr.enter_cal_mode().unwrap();
    mgr.state = CalState::CreepTest;

    for _ in 0..599 {
        assert!(!mgr.creep_test_tick(false));
    }
    assert!(mgr.creep_test_tick(false));
    assert_eq!(mgr.state(), CalState::Done);
}

#[test]
fn test_creep_test_fail() {
    let mut mgr = CalibrationManager::new();
    mgr.enter_cal_mode().unwrap();
    mgr.state = CalState::CreepTest;

    mgr.creep_test_tick(true);
    for _ in 0..598 {
        mgr.creep_test_tick(false);
    }
    assert!(!mgr.creep_test_tick(false));
    assert_eq!(mgr.state(), CalState::Failed);
    assert_eq!(mgr.error_code(), 31);
}

#[test]
fn test_cal_mode_timeout() {
    let mut mgr = CalibrationManager::new();
    mgr.enter_cal_mode().unwrap();
    assert!(mgr.is_cal_mode());

    for _ in 0..1800 {
        mgr.tick_second();
    }
    assert!(!mgr.is_cal_mode());
}

#[test]
fn test_handle_command_not_in_cal_mode() {
    let mut mgr = CalibrationManager::new();
    assert!(mgr.handle_command(CalCommand::StartVoltageCal, &[]).is_err());
}

#[test]
fn test_handle_command_save() {
    let mut mgr = CalibrationManager::new();
    assert!(mgr.handle_command(CalCommand::SaveToFlash, &[]).is_err());
    mgr.enter_cal_mode().unwrap();
    assert!(mgr.handle_command(CalCommand::SaveToFlash, &[]).is_ok());
}

#[test]
fn test_factory_reset() {
    let mut mgr = CalibrationManager::new();
    mgr.enter_cal_mode().unwrap();
    mgr.params.voltage_gain[0] = 999;
    mgr.handle_command(CalCommand::FactoryReset, &[]).unwrap();
    assert_eq!(mgr.params.voltage_gain[0], 0x0001_0000);
}

#[test]
fn test_calibrate_zero_std_pulses() {
    let mut mgr = CalibrationManager::new();
    mgr.enter_cal_mode().unwrap();
    mgr.state = CalState::CalActivePower;

    let result = mgr.calibrate_active_power(0, 1000, 0);
    assert!(!result.passed);
    assert_eq!(mgr.error_code(), 20);
}

#[test]
fn test_save_params_slot_toggle() {
    let mut mgr = CalibrationManager::new();
    assert_eq!(mgr.params.active_slot, 0);
    mgr.save_params();
    assert_eq!(mgr.params.active_slot, 1);
    mgr.save_params();
    assert_eq!(mgr.params.active_slot, 0);
}

// ---- further cases ----

#[test]
fn calibration_record_roundtrip() {
    let mut data = CalibrationData::new();
    data.voltage_gain[1] = -12345;
    data.phase_offset[2] = -7;
    data.operator_id = *b"OPER0001";
    data.update_crc();
    let bytes = data.to_bytes();
    assert_eq!(bytes.len(), CalibrationData::RECORD_SIZE);
    let back = CalibrationData::from_bytes(&bytes);
    assert_eq!(back.voltage_gain, data.voltage_gain);
    assert_eq!(back.phase_offset, data.phase_offset);
    assert_eq!(back.operator_id, data.operator_id);
    assert_eq!(back.crc, data.crc);
    assert!(back.is_valid());
}

#[test]
fn calibration_command_codes() {
    assert_eq!(CalCommand::from_byte(0x02), Some(CalCommand::ExitCalMode));
    assert_eq!(CalCommand::from_byte(0x10), Some(CalCommand::StartVoltageCal));
    assert_eq!(CalCommand::from_byte(0x14), Some(CalCommand::StartPhaseCal));
    assert_eq!(CalCommand::from_byte(0x00), None);
    assert_eq!(CalCommand::from_byte(0x05), None);
}

#[test]
fn calibration_commands_refused_outside_cal_mode() {
    let mut mgr = CalibrationManager::new();
    assert!(mgr.handle_command(CalCommand::CreepTest, &[]).is_err());
    assert_eq!(mgr.state(), CalState::Idle);
}

#[test]
fn calibration_huge_error_fails() {
    let mut mgr = CalibrationManager::new();
    mgr.enter_cal_mode().unwrap();
    // true error +409600 (0.01 %), kept saturated, far outside +/-0.50 %
    let r = mgr.calibrate_active_power(1, 4097, 0);
    assert!(!r.passed);
    assert_eq!(r.error_pct, 32767);
    assert_ne!(mgr.state, CalState::Done);
}
