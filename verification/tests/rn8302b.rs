use femeter::hal::{MeteringError, SpiTransfer};
use femeter::rn8302b::{crc8, decode_read_reply, reg, signed24, spi_read, write_frame, Rn8302b};

#[test]
fn test_crc8() {
    assert_eq!(crc8(&[0x00]), 0x00);
    assert_eq!(crc8(&[0x80, 0x00, 0x00, 0xA5]), crc8(&[0x80, 0x00, 0x00, 0xA5]));
}

#[test]
fn test_signed24() {
    assert_eq!(signed24(0x000000), 0);
    assert_eq!(signed24(0x7FFFFF), 8388607);
    assert_eq!(signed24(0x800000), -8388608);
    assert_eq!(signed24(0xFFFFFF), -1);
}

#[test]
fn test_reg_addresses() {
    assert_eq!(reg::CHIP_ID, 0x00);
    assert_eq!(reg::PA, 0x10);
    assert_eq!(reg::UA_RMS, 0x20);
    assert_eq!(reg::FREQ, 0x30);
    assert_eq!(reg::ACTIVE_IMPORT, 0x40);
    assert_eq!(reg::HARMONIC_UA, 0x50);
    assert_eq!(reg::THD_UA, 0x60);
    assert_eq!(reg::UGAIN_A, 0x80);
}

// ---- further cases ----

/// SPI link that answers every read with a fixed 24-bit word.
struct FixedReply {
    word: u32,
    last_cmd: u8,
    sent: Vec<Vec<u8>>,
}

impl SpiTransfer for FixedReply {
    fn transfer(&mut self, tx: &[u8], rx: &mut [u8]) -> Result<(), MeteringError> {
        self.sent.push(tx.to_vec());
        if tx.len() == 2 {
            self.last_cmd = tx[0];
        } else if rx.len() == 4 {
            let b = [(self.word >> 16) as u8, (self.word >> 8) as u8, self.word as u8];
            rx[0] = b[0];
            rx[1] = b[1];
            rx[2] = b[2];
            rx[3] = crc8(&[self.last_cmd, b[0], b[1], b[2]]);
        }
        Ok(())
    }
}

struct Broken;

impl SpiTransfer for Broken {
    fn transfer(&mut self, _tx: &[u8], _rx: &mut [u8]) -> Result<(), MeteringError> {
        Err(MeteringError::NotReady)
    }
}

#[test]
fn rn8302b_crc8_check_value() {
    // CRC-8 (poly 0x07, init 0) check value of "123456789"
    assert_eq!(crc8(b"123456789"), 0xF4);
}

#[test]
fn rn8302b_write_frame_layout() {
    let f = write_frame(reg::SOFT_RESET, 0xA5);
    assert_eq!(&f[..4], &[0x81, 0x00, 0x00, 0xA5]);
    assert_eq!(f[4], crc8(&[0x81, 0x00, 0x00, 0xA5]));
}

#[test]
fn rn8302b_decode_reply() {
    let crc = crc8(&[0x20, 0x12, 0x34, 0x56]);
    assert_eq!(decode_read_reply(0x20, &[0x12, 0x34, 0x56, crc]), Ok(0x123456));
    assert_eq!(
        decode_read_reply(0x20, &[0x12, 0x34, 0x56, crc ^ 1]),
        Err(MeteringError::ChecksumError)
    );
}

#[test]
fn rn8302b_read_over_link() {
    let mut link = FixedReply { word: 0x830220, last_cmd: 0, sent: Vec::new() };
    assert_eq!(spi_read(&mut link, reg::CHIP_ID), Ok(0x830220));
    assert_eq!(link.sent[0], vec![0x00, 0x00]);
    assert_eq!(link.sent[1], vec![0xFF; 4]);
    let mut chip = Rn8302b::new(FixedReply { word: 0xFFFFFE, last_cmd: 0, sent: Vec::new() });
    assert_eq!(chip.read_fundamental_power(), Ok([-2, -2, -2]));
    let h = chip.read_voltage_harmonics(femeter::hal::Phase::B).unwrap();
    assert_eq!(h.thd, 0xFFFE);
    assert_eq!(h.harmonics[19], 0xFFFE);
    assert_eq!(h.harmonics[20], 0);
}

#[test]
fn rn8302b_link_errors() {
    let mut chip = Rn8302b::new(Broken);
    assert_eq!(chip.reset(), Err(MeteringError::SpiError));
    assert_eq!(chip.chip_id(), Err(MeteringError::SpiError));
    assert!(chip.read_current_harmonics(femeter::hal::Phase::A).is_err());
    assert!(Rn8302b::<Broken>::id_matches(0x8302_2ABC));
    assert!(!Rn8302b::<Broken>::id_matches(0x8615_5000));
}

#[test]
fn rn8302b_instant_registers_read_in_order() {
    let mut chip = Rn8302b::new(FixedReply { word: 0x00_1234, last_cmd: 0, sent: Vec::new() });
    let w = chip.read_instant_raw().unwrap();
    assert_eq!(w, [0x1234; 19]);
    let link = chip.spi_mut();
    let cmds: Vec<u8> = link.sent.iter().filter(|f| f.len() == 2).map(|f| f[0]).collect();
    assert_eq!(
        cmds,
        vec![0x20, 0x21, 0x22, 0x23, 0x24, 0x25, 0x10, 0x11, 0x12, 0x13, 0x14, 0x15, 0x16, 0x17, 0x30, 0x31, 0x32, 0x33, 0x34]
    );
    let mut broken = Rn8302b::new(Broken);
    assert_eq!(broken.read_instant_raw(), Err(MeteringError::SpiError));
}
