use femeter::boot::{
    boot_decision, boot_sequence, copy_len, jumps_to_app, parse_ota_header, rollback_outcome, BootDevice, BootFlash,
    BootStatus, NORMAL_BASE, OTA_BASE, OTA_MAGIC,
};
use femeter::event_detect::crc32;

/// Flash image in memory; erased bytes read 0xFF.
struct MemFlash {
    mem: Vec<u8>,
    broken_writes: bool,
}

impl MemFlash {
    fn new() -> Self {
        MemFlash { mem: vec![0xFF; 0x48000], broken_writes: false }
    }
}

impl BootFlash for MemFlash {
    fn read_byte(&self, addr: u32) -> u8 {
        self.mem[addr as usize]
    }
    fn erase_sector(&mut self, addr: u32) {
        let a = addr as usize;
        for b in &mut self.mem[a..a + 2048] {
            *b = 0xFF;
        }
    }
    fn write_page(&mut self, addr: u32, data: &[u8]) {
        if self.broken_writes {
            return;
        }
        let a = addr as usize;
        self.mem[a..a + data.len()].copy_from_slice(data);
    }
}

/// Run the boot sequence on `flash`, returning its outcome.
fn boot(flash: &mut MemFlash) -> BootStatus {
    let mem = std::mem::take(&mut flash.mem);
    let mut dev = BootDevice::new(MemFlash { mem, broken_writes: flash.broken_writes });
    let r = boot_sequence(&mut dev);
    flash.mem = dev.into_inner().mem;
    r
}

fn stage(flash: &mut MemFlash, image: &[u8], crc: u32) {
    let base = OTA_BASE as usize;
    flash.mem[base..base + 4].copy_from_slice(&OTA_MAGIC.to_le_bytes());
    flash.mem[base + 4..base + 8].copy_from_slice(&(image.len() as u32).to_le_bytes());
    flash.mem[base + 8..base + 12].copy_from_slice(&crc.to_le_bytes());
    flash.mem[base + 32..base + 32 + image.len()].copy_from_slice(image);
}

#[test]
fn boot_without_image() {
    let mut flash = MemFlash::new();
    assert_eq!(boot(&mut flash), BootStatus::NormalBoot);
}

#[test]
fn boot_installs_image() {
    let mut flash = MemFlash::new();
    let image: Vec<u8> = (0..1300u32).map(|i| (i * 7) as u8).collect();
    stage(&mut flash, &image, crc32(&image));
    assert_eq!(boot(&mut flash), BootStatus::OtaDone);
    let n = NORMAL_BASE as usize;
    assert_eq!(&flash.mem[n..n + image.len()], &image[..]);
    // the last partial page is padded with 0xFF
    assert_eq!(flash.mem[n + image.len()], 0xFF);
    // the header is erased
    assert_eq!(boot(&mut flash), BootStatus::NormalBoot);
}

#[test]
fn boot_bad_crc_discards_image() {
    let mut flash = MemFlash::new();
    let image = vec![1u8, 2, 3, 4];
    stage(&mut flash, &image, crc32(&image) ^ 1);
    assert_eq!(boot(&mut flash), BootStatus::NormalBoot);
    assert_eq!(flash.mem[OTA_BASE as usize], 0xFF);
}

#[test]
fn boot_failed_copy_rolls_back() {
    let mut flash = MemFlash::new();
    flash.broken_writes = true;
    let image = vec![9u8; 600];
    stage(&mut flash, &image, crc32(&image));
    assert_eq!(boot(&mut flash), BootStatus::OtaFailedRollback);
    assert!(jumps_to_app(BootStatus::OtaFailedRollback));
    assert!(!jumps_to_app(BootStatus::FatalError));
}

#[test]
fn boot_helpers() {
    assert_eq!(copy_len(1300, 0), 512);
    assert_eq!(copy_len(1300, 2), 276);
    assert_eq!(copy_len(1024, 1), 512);
    assert_eq!(rollback_outcome(5, 5), BootStatus::OtaFailedRollback);
    assert_eq!(rollback_outcome(5, 6), BootStatus::FatalError);
    let mut raw = [0u8; 32];
    raw[0..4].copy_from_slice(&OTA_MAGIC.to_le_bytes());
    raw[12] = 3;
    let h = parse_ota_header(&raw);
    assert_eq!(h.magic, OTA_MAGIC);
    assert_eq!(h.version, [3, 0, 0, 0]);
}

#[test]
fn boot_decision_table() {
    let mut raw = [0u8; 32];
    raw[0..4].copy_from_slice(&OTA_MAGIC.to_le_bytes());
    raw[4..8].copy_from_slice(&100u32.to_le_bytes());
    raw[8..12].copy_from_slice(&7u32.to_le_bytes());
    let h = parse_ota_header(&raw);
    assert_eq!(boot_decision(&h, 7, true, 1, 2), BootStatus::OtaDone);
    assert_eq!(boot_decision(&h, 8, true, 1, 2), BootStatus::NormalBoot);
    assert_eq!(boot_decision(&h, 7, false, 1, 1), BootStatus::OtaFailedRollback);
    assert_eq!(boot_decision(&h, 7, false, 1, 2), BootStatus::FatalError);
    raw[0] = 0;
    let bad = parse_ota_header(&raw);
    assert_eq!(boot_decision(&bad, 7, true, 1, 2), BootStatus::NormalBoot);
}

#[test]
fn boot_oversized_image_is_discarded() {
    let mut flash = MemFlash::new();
    let base = OTA_BASE as usize;
    flash.mem[base..base + 4].copy_from_slice(&OTA_MAGIC.to_le_bytes());
    flash.mem[base + 4..base + 8].copy_from_slice(&200_000u32.to_le_bytes());
    assert_eq!(boot(&mut flash), BootStatus::NormalBoot);
    assert_eq!(flash.mem[base], 0xFF);
}
