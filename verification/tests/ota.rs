use femeter::ota::addr;
use femeter::ota::{crc32_calc, install_plan, FirmwareHeader, FirmwareVersion, OtaFlash, OtaManager, OtaState};


struct MockFlash;
impl OtaFlash for MockFlash {
    fn flash_read(_a: u32, _b: &mut [u8]) -> Result<(), ()> {
        Ok(())
    }
    fn flash_write(_a: u32, _b: &[u8]) -> Result<(), ()> {
        Ok(())
    }
    fn flash_erase_sector(_a: u32) -> Result<(), ()> {
        Ok(())
    }
    fn get_active_bank() -> u8 {
        1
    }
    fn set_boot_bank(_b: u8) -> Result<(), ()> {
        Ok(())
    }
}

#[test]
fn test_version_parse() {
    let v = FirmwareVersion::new(1, 2, 3, 4);
    assert_eq!(v.major, 1);
    assert_eq!(v.as_u32(), 0x01020304);
}

#[test]
fn test_version_compare() {
    assert!(
        FirmwareVersion::new(1, 3, 0, 0).as_u32() > FirmwareVersion::new(1, 2, 0, 0).as_u32()
    );
    assert!(
        FirmwareVersion::new(2, 0, 0, 0).as_u32() > FirmwareVersion::new(1, 9, 9, 9).as_u32()
    );
}

#[test]
fn test_version_to_str() {
    let s = FirmwareVersion::new(1, 2, 3, 0).to_str();
    assert_eq!(&s[0..8], b"v01.02.0");
}

#[test]
fn test_crc32_known() {
    // 半字节查表 CRC32 (非标准 ISO CRC-32)
    let crc = crc32_calc(b"123456789");
    assert_eq!(crc, 3412128017);
}

#[test]
fn test_crc32_deterministic() {
    let data = [0xDE, 0xAD, 0xBE, 0xEF];
    assert_eq!(crc32_calc(&data), crc32_calc(&data));
}

#[test]
fn test_header_valid() {
    let h = FirmwareHeader {
        magic: FirmwareHeader::MAGIC,
        version: FirmwareVersion::new(1, 0, 0, 0),
        firmware_size: 100000,
        crc32: 0,
        target_bank: 1,
        flags: 0,
        timestamp: 0,
        prev_version: FirmwareVersion::new(0, 9, 0, 0),
        reserved: [0; 16],
    };
    assert!(h.is_valid());
}

#[test]
fn test_header_bad_magic() {
    let h = FirmwareHeader {
        magic: 0xBAD00000,
        version: FirmwareVersion::new(1, 0, 0, 0),
        firmware_size: 100000,
        crc32: 0,
        target_bank: 1,
        flags: 0,
        timestamp: 0,
        prev_version: FirmwareVersion::new(0, 9, 0, 0),
        reserved: [0; 16],
    };
    assert!(!h.is_valid());
}

#[test]
fn test_header_too_large() {
    let h = FirmwareHeader {
        magic: FirmwareHeader::MAGIC,
        version: FirmwareVersion::new(1, 0, 0, 0),
        firmware_size: addr::APP_MAX_SIZE + 1,
        crc32: 0,
        target_bank: 1,
        flags: 0,
        timestamp: 0,
        prev_version: FirmwareVersion::new(0, 9, 0, 0),
        reserved: [0; 16],
    };
    assert!(!h.is_valid());
}

#[test]
fn test_ota_initial_state() {
    let mgr = OtaManager::<MockFlash>::new();
    assert_eq!(mgr.state(), OtaState::Idle);
    assert_eq!(mgr.active_bank(), 1);
}

#[test]
fn test_ota_start_receive() {
    let mut mgr = OtaManager::<MockFlash>::new();
    assert!(mgr.start_receive().is_ok());
    assert_eq!(mgr.state(), OtaState::Receiving);
}

#[test]
fn test_ota_double_start_fails() {
    let mut mgr = OtaManager::<MockFlash>::new();
    mgr.start_receive().unwrap();
    assert!(mgr.start_receive().is_err());
}

#[test]
fn test_ota_write_chunk() {
    let mut mgr = OtaManager::<MockFlash>::new();
    mgr.start_receive().unwrap();
    mgr.write_chunk(0, &[0xAA; 100]).unwrap();
    assert_eq!(mgr.received_bytes(), 100);
}

#[test]
fn test_ota_write_chunk_out_of_range() {
    let mut mgr = OtaManager::<MockFlash>::new();
    mgr.start_receive().unwrap();
    assert!(mgr.write_chunk(addr::OTA_SIZE - 10, &[0; 100]).is_err());
}

#[test]
fn test_ota_write_chunk_wrong_state() {
    let mut mgr = OtaManager::<MockFlash>::new();
    assert!(mgr.write_chunk(0, &[0; 10]).is_err());
}

#[test]
fn test_upgrade_history_size() {
    let mgr = OtaManager::<MockFlash>::new();
    assert_eq!(mgr.upgrade_history().len(), 8);
}

#[test]
fn test_ota_state_values() {
    assert_eq!(OtaState::Idle as u8, 0);
    assert_eq!(OtaState::Failed as u8, 6);
}

#[test]
fn test_version_anti_rollback() {
    let cur = FirmwareVersion::new(1, 2, 0, 0);
    assert!(OtaManager::<MockFlash>::check_version_allow(
        &cur,
        &FirmwareVersion::new(1, 2, 0, 0)
    ));
    assert!(OtaManager::<MockFlash>::check_version_allow(
        &cur,
        &FirmwareVersion::new(1, 3, 0, 0)
    ));
    assert!(!OtaManager::<MockFlash>::check_version_allow(
        &cur,
        &FirmwareVersion::new(1, 1, 0, 0)
    ));
    assert!(!OtaManager::<MockFlash>::check_version_allow(
        &cur,
        &FirmwareVersion::new(0, 9, 0, 0)
    ));
}

#[test]
fn test_progress_percent() {
    let mut mgr = OtaManager::<MockFlash>::new();
    assert_eq!(mgr.progress_percent(), 0);
    mgr.start_receive().unwrap();
    mgr.write_chunk(0, &[0; 1000]).unwrap();
    assert!(mgr.progress_percent() > 0);
}

#[test]
fn test_rollback() {
    let mut mgr = OtaManager::<MockFlash>::new();
    assert_eq!(mgr.active_bank(), 1);
    mgr.rollback().unwrap();
    assert_eq!(mgr.active_bank(), 2);
    mgr.rollback().unwrap();
    assert_eq!(mgr.active_bank(), 1);
}

#[test]
fn test_target_bank() {
    let mgr = OtaManager::<MockFlash>::new();
    assert_eq!(mgr.active_bank(), 1);
    assert_eq!(mgr.target_bank(), 2);
}

#[test]
fn test_verify_ota_image_invalid() {
    // MockFlash returns zeros, so header magic won't match
    let mut mgr = OtaManager::<MockFlash>::new();
    let result = mgr.verify_ota_image();
    assert!(result.is_err());
}

#[test]
fn test_clear_ota_area() {
    let mut mgr = OtaManager::<MockFlash>::new();
    assert!(mgr.clear_ota_area().is_ok());
}

#[test]
fn test_version_edge_cases() {
    let v = FirmwareVersion::new(0, 0, 0, 0);
    assert_eq!(v.as_u32(), 0);

    let v = FirmwareVersion::new(255, 255, 255, 255);
    assert_eq!(v.as_u32(), 0xFFFFFFFF);
}

#[test]
fn test_firmware_header_size() {
    // FirmwareHeader should have a reasonable size
    assert!(FirmwareHeader::SIZE >= 40);
    assert!(FirmwareHeader::SIZE <= 128);
}

#[test]
fn test_addr_layout() {
    // Verify flash layout doesn't overlap
    assert!(addr::BOOT_START < addr::APP1_START);
    assert!(addr::APP1_START + addr::APP1_SIZE <= addr::APP2_START);
    assert!(addr::APP2_START + addr::APP2_SIZE <= addr::OTA_START);
    assert!(addr::OTA_START + addr::OTA_SIZE > addr::UPGRADE_INFO_ADDR);
}

#[test]
fn test_ota_state_transitions() {
    let mut mgr = OtaManager::<MockFlash>::new();
    assert_eq!(mgr.state(), OtaState::Idle);
    mgr.start_receive().unwrap();
    assert_eq!(mgr.state(), OtaState::Receiving);
    mgr.write_chunk(0, &[0; 10]).unwrap();
    assert_eq!(mgr.received_bytes(), 10);
}

// ---- further cases ----

#[test]
fn ota_crc_of_zero_sector() {
    // the nibble-table CRC of 256 zero bytes, as read from erased-to-zero flash
    let crc = OtaManager::<MockFlash>::compute_flash_crc(0x1000, 256).unwrap();
    assert_eq!(crc, crc32_calc(&[0u8; 256]));
    assert_eq!(crc, 0x74DE_004F);
}

#[test]
fn ota_header_from_bytes() {
    let mut b = [0u8; 42];
    b[0..4].copy_from_slice(&FirmwareHeader::MAGIC.to_le_bytes());
    b[4] = 1;
    b[5] = 2;
    b[6] = 3;
    b[7] = 4;
    b[8..12].copy_from_slice(&1000u32.to_le_bytes());
    b[16] = 2;
    let h = FirmwareHeader::from_bytes(&b);
    assert_eq!(h.magic, FirmwareHeader::MAGIC);
    assert_eq!(h.version.as_u32(), 0x0102_0304);
    assert_eq!(h.firmware_size, 1000);
    assert_eq!(h.target_bank, 2);
    assert!(h.is_valid());
}

#[test]
fn ota_check_image_crc_mismatch() {
    let h = FirmwareHeader {
        magic: FirmwareHeader::MAGIC,
        version: FirmwareVersion::new(1, 0, 0, 0),
        firmware_size: 100,
        crc32: 5,
        target_bank: 2,
        flags: 0,
        timestamp: 0,
        prev_version: FirmwareVersion::new(0, 9, 0, 0),
        reserved: [0; 16],
    };
    assert!(OtaManager::<MockFlash>::check_image(&h, 6).is_err());
    assert_eq!(OtaManager::<MockFlash>::check_image(&h, 5).unwrap().as_u32(), 0x0100_0000);
}

#[test]
fn ota_write_chunk_exact_end() {
    let mut mgr = OtaManager::<MockFlash>::new();
    mgr.start_receive().unwrap();
    assert!(mgr.write_chunk(addr::OTA_SIZE - 10, &[0; 10]).is_ok());
    assert_eq!(mgr.received_bytes(), addr::OTA_SIZE);
    assert_eq!(mgr.progress_percent(), 100);
}

#[test]
fn ota_crc_of_nothing_needs_no_read() {
    assert_eq!(OtaManager::<MockFlash>::compute_flash_crc(0x1000, 0), Ok(0));
}

fn header_bytes(version: [u8; 4], size: u32, crc: u32) -> [u8; 42] {
    let mut b = [0u8; 42];
    b[0..4].copy_from_slice(&FirmwareHeader::MAGIC.to_le_bytes());
    b[4..8].copy_from_slice(&version);
    b[8..12].copy_from_slice(&size.to_le_bytes());
    b[12..16].copy_from_slice(&crc.to_le_bytes());
    b
}

#[test]
fn ota_install_plan_accepts_matching_image() {
    let b = header_bytes([1, 2, 3, 4], 1000, 0x1234_5678);
    let p = install_plan(&b, &FirmwareVersion::new(1, 0, 0, 0), 0x1234_5678, 1).unwrap();
    assert_eq!(p.version.as_u32(), 0x0102_0304);
    assert_eq!(p.target_bank, 2);
    assert_eq!(p.target_addr, addr::APP2_START);
    assert_eq!(p.target_size, addr::APP2_SIZE);
    assert_eq!(p.image_addr, addr::OTA_START + 42);
    assert_eq!(p.image_size, 1000);
    let p1 = install_plan(&b, &FirmwareVersion::new(1, 0, 0, 0), 0x1234_5678, 2).unwrap();
    assert_eq!(p1.target_bank, 1);
    assert_eq!(p1.target_addr, addr::APP1_START);
    assert_eq!(p1.target_size, addr::APP1_SIZE);
}

#[test]
fn ota_install_plan_errors() {
    let b = header_bytes([1, 2, 3, 4], 1000, 0x1234_5678);
    // CRC of the received bytes differs from the header's
    assert_eq!(install_plan(&b, &FirmwareVersion::new(1, 0, 0, 0), 0x1234_5679, 1).err(), Some(2));
    // downgrade
    assert_eq!(install_plan(&b, &FirmwareVersion::new(1, 2, 3, 5), 0x1234_5678, 1).err(), Some(3));
    // bad magic
    let mut bad = b;
    bad[0] = 0;
    assert_eq!(install_plan(&bad, &FirmwareVersion::new(1, 0, 0, 0), 0x1234_5678, 1).err(), Some(1));
    // image larger than a bank
    let big = header_bytes([1, 2, 3, 4], addr::APP_MAX_SIZE + 1, 0x1234_5678);
    assert_eq!(install_plan(&big, &FirmwareVersion::new(1, 0, 0, 0), 0x1234_5678, 1).err(), Some(1));
}

#[test]
fn ota_finalize_rejects_blank_header() {
    let mut mgr = OtaManager::<MockFlash>::new();
    assert_eq!(
        mgr.finalize_and_install_with_version_check(0, &FirmwareVersion::new(1, 0, 0, 0)),
        Err(OtaState::Idle)
    );
    mgr.start_receive().unwrap();
    mgr.write_chunk(0, &[1, 2, 3]).unwrap();
    // the mock flash reads zeros: no magic, so error 1
    assert_eq!(
        mgr.finalize_and_install_with_version_check(0, &FirmwareVersion::new(1, 0, 0, 0)),
        Err(OtaState::Failed)
    );
    assert_eq!(mgr.upgrade_info.error_code, 1);
    assert_eq!(mgr.active_bank(), 1);
}

#[test]
fn ota_verify_blank_area_reports_bad_header() {
    let mut mgr = OtaManager::<MockFlash>::new();
    assert_eq!(mgr.verify_ota_image().err(), Some(1));
}

#[test]
fn ota_crc_at_top_of_address_space() {
    // every chunk start fits in 32 bits, so the last sector can be read
    let crc = OtaManager::<MockFlash>::compute_flash_crc(0xFFFF_FF00, 0x100).unwrap();
    assert_eq!(crc, 0x74DE_004F);
}

#[test]
fn ota_install_region_is_clear_of_running_bank() {
    // a plan made while bank 1 runs writes only inside bank 2, and the other way round
    let b = header_bytes([1, 0, 0, 0], addr::APP_MAX_SIZE, 7);
    let p = install_plan(&b, &FirmwareVersion::new(1, 0, 0, 0), 7, 1).unwrap();
    assert!(p.target_addr >= addr::APP1_START + addr::APP1_SIZE);
    assert!(p.image_size <= p.target_size);
    let q = install_plan(&b, &FirmwareVersion::new(1, 0, 0, 0), 7, 2).unwrap();
    assert!(q.target_addr + q.target_size <= addr::APP2_START);
    assert!(q.image_size <= q.target_size);
}
