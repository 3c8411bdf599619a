use femeter::att7022e::{assemble24, cmd_read, cmd_special, cmd_write, data_bytes, is_valid_device_id, power_to_watts, signed24};

#[test]
fn att_command_bytes() {
    assert_eq!(cmd_read(0x7F), 0x7F);
    assert_eq!(cmd_read(0x85), 0x05);
    assert_eq!(cmd_write(0x7F), 0xBF);
    assert_eq!(cmd_special(0x03), 0xC3);
}

#[test]
fn att_register_words() {
    assert_eq!(assemble24(0x12, 0x34, 0x56), 0x123456);
    assert_eq!(data_bytes(0x00AB_CDEF), [0xAB, 0xCD, 0xEF]);
    assert_eq!(signed24(0xFFFFFF), -1);
    assert_eq!(signed24(0x7FFFFF), 8388607);
}

#[test]
fn att_device_id() {
    assert!(is_valid_device_id(0x7122A0));
    assert!(!is_valid_device_id(0));
}

#[test]
fn att_power_scale_follows_formula() {
    // K = 2.592e10 / (1 * 1 * 2^23) = 3089.9 W per LSB
    assert_eq!(power_to_watts(1, 1, 1), 3089);
    assert_eq!(power_to_watts(0xFF_FFFF, 1, 1), -3089);
    assert_eq!(power_to_watts(0, 100, 3200), 0);
}

struct ScriptedSpi {
    sent: Vec<u8>,
    replies: Vec<u8>,
}

impl femeter::att7022e::SpiOps for ScriptedSpi {
    fn transfer(&mut self, tx: u8) -> u8 {
        self.sent.push(tx);
        if self.replies.is_empty() {
            0
        } else {
            self.replies.remove(0)
        }
    }
}

struct NoCs;
impl femeter::att7022e::CsPin for NoCs {
    fn set_low(&self) {}
    fn set_high(&self) {}
}

#[test]
fn att_read_reg_assembles_clocked_bytes() {
    let spi = ScriptedSpi { sent: Vec::new(), replies: vec![0xFF, 0x71, 0x22, 0xA0] };
    let mut chip = femeter::att7022e::Att7022e::new(spi, NoCs);
    assert_eq!(chip.read_device_id(), 0x7122A0);
    let (spi, _) = chip.release();
    assert_eq!(spi.sent, vec![0x00, 0, 0, 0]);
}

#[test]
fn att_power_read_is_signed() {
    // PA reads 0xFFFFFF (-1); the rest read zeros
    let spi = ScriptedSpi { sent: Vec::new(), replies: vec![0, 0xFF, 0xFF, 0xFF] };
    let mut chip = femeter::att7022e::Att7022e::new(spi, NoCs);
    let p = chip.read_power();
    assert_eq!(p.pa, -1);
    assert_eq!(p.pb, 0);
    let (spi, _) = chip.release();
    assert_eq!(spi.sent.len(), 48);
    assert_eq!(&spi.sent[0..4], &[0x01, 0, 0, 0]);
}

#[test]
fn att_wave_buffer_start_sends_channel_nibble() {
    let spi = ScriptedSpi { sent: Vec::new(), replies: Vec::new() };
    let mut chip = femeter::att7022e::Att7022e::new(spi, NoCs);
    chip.start_wave_buffer(3);
    chip.set_hfconst(0x000123);
    let (spi, _) = chip.release();
    assert_eq!(&spi.sent[0..4], &[0xC0, 0x00, 0xCC, 0xC3]);
    // enable writes, calibration space, HFCONST, measurement space, disable writes
    assert_eq!(
        &spi.sent[4..],
        &[
            0xC9, 0x00, 0x00, 0x5A, 0xC6, 0x00, 0x00, 0x5A, 0x9E, 0x00, 0x01, 0x23, 0xC6, 0x00, 0x00,
            0x00, 0xC9, 0x00, 0x00, 0x00
        ]
    );
}
