//! Flash layout (512 KB internal flash).
use vstd::prelude::*;

verus! {

/// Bootloader start
pub const BOOT_START: u32 = 0x0000_0000;
/// Bootloader size (4 KB)
pub const BOOT_SIZE: u32 = 0x0000_1000;
/// Application bank 1 start
pub const APP1_START: u32 = 0x0000_1000;
/// Application bank 1 size (252 KB)
pub const APP1_SIZE: u32 = 0x0003_F000;
/// Application bank 2 start
pub const APP2_START: u32 = 0x0004_0000;
/// Application bank 2 size (256 KB)
pub const APP2_SIZE: u32 = 0x0004_0000;
/// OTA staging area start
pub const OTA_START: u32 = 0x0008_0000;
/// OTA staging area size (512 KB)
pub const OTA_SIZE: u32 = 0x0008_0000;
/// Largest application image
pub const APP_MAX_SIZE: u32 = APP1_SIZE;
/// Upgrade information record (last sector of the OTA area)
pub const UPGRADE_INFO_ADDR: u32 = OTA_START + OTA_SIZE - 0x1000;

} // verus!
