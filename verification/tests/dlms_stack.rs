use femeter::dlms_stack::{
    cosem_value, llc_wrap, CosemValue, DlmsDataProvider, DlmsStack, MeterInfo, FRAME_ESCAPE, FRAME_FLAG, OBIS_CLOCK,
    OBIS_CURRENT_A, OBIS_FREQUENCY, OBIS_POSITIVE_ACTIVE_ENERGY, OBIS_VOLTAGE_A, OBIS_VOLTAGE_B,
};
use femeter::hal::{EnergyData, PhaseData};

struct MockProvider {
    phase: PhaseData,
    energy: EnergyData,
}

impl DlmsDataProvider for MockProvider {
    fn get_phase_data(&self) -> PhaseData {
        self.phase
    }
    fn get_energy_data(&self) -> EnergyData {
        self.energy
    }
    fn get_meter_info(&self) -> MeterInfo {
        MeterInfo::default()
    }
}

fn make_provider() -> MockProvider {
    let mut phase = PhaseData::default();
    phase.voltage_a = 22000;
    phase.voltage_b = 22100;
    phase.voltage_c = 21950;
    phase.current_a = 5000;
    phase.frequency = 5000;
    phase.power_factor_total = 980;
    phase.active_power_total = 1000;
    phase.reactive_power_total = 200;

    let mut energy = EnergyData::default();
    energy.active_import = 12345678;

    MockProvider { phase, energy }
}

#[test]
fn test_stack_creation() {
    let provider = make_provider();
    let _stack = DlmsStack::new(&provider);
}

#[test]
fn test_feed_byte_flag_detection() {
    let provider = make_provider();
    let mut stack = DlmsStack::new(&provider);

    stack.feed_byte(FRAME_FLAG);
    assert!(!stack.frame_ready);
    stack.feed_byte(FRAME_FLAG);
    assert!(!stack.frame_ready);
}

#[test]
fn test_sn_password() {
    let provider = make_provider();
    let mut stack = DlmsStack::new(&provider);
    stack.set_sn_password([0x12, 0x34, 0x56, 0x78]);
    assert_eq!(stack.sn_password, [0x12, 0x34, 0x56, 0x78]);
}

// ---- further cases ----

#[test]
fn dlms_frame_with_stuffed_flag_is_ready() {
    let provider = make_provider();
    let mut stack = DlmsStack::new(&provider);
    // payload 0x41 0x7E 0x42, the flag byte sent as an escape pair
    for &b in &[FRAME_FLAG, 0x41, FRAME_ESCAPE, 0x5E, 0x42, FRAME_FLAG] {
        stack.feed_byte(b);
    }
    assert!(stack.frame_ready);
}

#[test]
fn dlms_bytes_outside_frame_ignored() {
    let provider = make_provider();
    let mut stack = DlmsStack::new(&provider);
    stack.feed_byte(0x41);
    stack.feed_byte(0x42);
    assert!(!stack.frame_ready);
    stack.feed_byte(FRAME_FLAG);
    stack.feed_byte(0x43);
    stack.feed_byte(FRAME_FLAG);
    assert!(stack.frame_ready);
}

#[test]
fn dlms_meter_info_default() {
    let info = MeterInfo::default();
    assert_eq!(info.serial_number, 0);
    assert_eq!(info.meter_address, [0u8; 12]);
}

#[test]
fn dlms_cosem_values_of_readings() {
    let provider = make_provider();
    let mut stack = DlmsStack::new(&provider);
    assert_eq!(stack.read_cosem_attribute(&OBIS_VOLTAGE_A, 2), Some(CosemValue::Int16(220)));
    assert_eq!(stack.read_cosem_attribute(&OBIS_VOLTAGE_B, 2), Some(CosemValue::Int16(221)));
    assert_eq!(stack.read_cosem_attribute(&OBIS_CURRENT_A, 2), Some(CosemValue::Integer(5000)));
    assert_eq!(stack.read_cosem_attribute(&OBIS_FREQUENCY, 2), Some(CosemValue::UInt16(50)));
    assert_eq!(
        stack.read_cosem_attribute(&OBIS_POSITIVE_ACTIVE_ENERGY, 2),
        Some(CosemValue::Integer(12345678))
    );
    assert_eq!(
        stack.read_cosem_attribute(&OBIS_CLOCK, 2),
        Some(CosemValue::Clock { year: 2026, month: 4, day: 2, rest: 0 })
    );
}

#[test]
fn dlms_unknown_object_undefined() {
    let provider = make_provider();
    let mut stack = DlmsStack::new(&provider);
    assert_eq!(stack.read_cosem_attribute(&[1, 0, 99, 8, 0, 255], 2), None);
}

#[test]
fn dlms_voltage_above_i16_wraps_negative() {
    // 40000 (0.01 V) read as a signed 16-bit number is -25536; toward zero: -255
    let mut phase = PhaseData::default();
    phase.voltage_a = 40000;
    let energy = EnergyData::default();
    assert_eq!(cosem_value(&OBIS_VOLTAGE_A, &phase, &energy), Some(CosemValue::Int16(-255)));
}

#[test]
fn dlms_strip_llc_and_wrap() {
    let provider = make_provider();
    let stack = DlmsStack::new(&provider);
    assert_eq!(stack.strip_llc(&[0xE6, 0xC0, 0x01]), &[0xC0, 0x01][..]);
    assert_eq!(stack.strip_llc(&[0xE6]), &[0xE6][..]);
    assert_eq!(llc_wrap(&[0xC4, 0x01]), vec![0xE7, 0xE7, 0x03, 0xC4, 0x01]);
}

#[test]
fn dlms_send_sequence_wraps_at_eight() {
    let provider = make_provider();
    let mut stack = DlmsStack::new(&provider);
    for _ in 0..7 {
        stack.advance_send_seq();
    }
    assert_eq!(stack.sequence_numbers(), (7, 0));
    stack.advance_send_seq();
    assert_eq!(stack.sequence_numbers(), (0, 0));
}
