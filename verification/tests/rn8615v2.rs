use femeter::hal::{MeteringError, Phase, PowerQuality, PowerQualityEvent, SpiTransfer};
use femeter::rn8615v2::{crc8, decode_sag_swell, reg, signed24, RN8615V2};

#[test]
fn test_crc8_v2() {
    assert_eq!(crc8(&[0x00]), 0x00);
}

#[test]
fn test_signed24_v2() {
    assert_eq!(signed24(0x000000), 0);
    assert_eq!(signed24(0x7FFFFF), 8388607);
    assert_eq!(signed24(0x800000), -8388608);
    assert_eq!(signed24(0xFFFFFF), -1);
}

#[test]
fn test_reg_v2_addresses() {
    assert_eq!(reg::CHIP_ID, 0x00);
    assert_eq!(reg::PA_FUND, 0x1C);
    assert_eq!(reg::ACTIVE_IMPORT_A, 0x44);
    assert_eq!(reg::INTERHARMONIC_UA, 0x58);
    assert_eq!(reg::VOLTAGE_UNBALANCE, 0x70);
    assert_eq!(reg::FLICKER_PST, 0x72);
    assert_eq!(reg::DC_COMPONENT_UA, 0x74);
    assert_eq!(reg::SAG_SWELL_STATUS, 0x78);
    assert_eq!(reg::ANTI_TAMPER_STAT, 0x80);
    assert_eq!(reg::UGAIN_A, 0x90);
}

// ---- further cases ----

struct Broken;

impl SpiTransfer for Broken {
    fn transfer(&mut self, _tx: &[u8], _rx: &mut [u8]) -> Result<(), MeteringError> {
        Err(MeteringError::NotReady)
    }
}

#[test]
fn rn8615v2_sag_swell_decode() {
    assert!(matches!(decode_sag_swell(0x02), Some(PowerQualityEvent::VoltageSag { phase: 1, .. })));
    assert!(matches!(decode_sag_swell(0x06), Some(PowerQualityEvent::VoltageSag { phase: 1, .. })));
    assert!(matches!(decode_sag_swell(0x21), Some(PowerQualityEvent::VoltageSag { phase: 0, .. })));
    assert!(matches!(decode_sag_swell(0x20), Some(PowerQualityEvent::VoltageSwell { phase: 2, .. })));
    assert!(decode_sag_swell(0x40).is_none());
}

#[test]
fn rn8615v2_interharmonic_order_limit() {
    let mut chip = RN8615V2::new(Broken);
    assert_eq!(chip.read_interharmonic(Phase::A, 64), Err(MeteringError::InvalidRegister));
    assert_eq!(chip.read_interharmonic(Phase::A, 3), Err(MeteringError::SpiError));
    assert!(chip.check_pq_event().is_none());
    assert!(chip.check_sag_swell().is_none());
    assert_eq!(chip.configure_sag_swell([18000; 3], [26000; 3]), Err(MeteringError::SpiError));
}
