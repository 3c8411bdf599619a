//! Verified core logic of a three-phase smart electricity meter firmware:
//! DLMS/HDLC framing, IEC 62056-21 parsing, event detection, calibration,
//! display formatting, OTA bookkeeping and metering-chip data conversion.

pub mod asr6601;
pub mod at_parser;
pub mod att7022e;
pub mod board;
pub mod boot;
pub mod calibration;
pub mod comm;
pub mod display;
pub mod dlms_stack;
pub mod event_detect;
pub mod fm33lg0;
pub mod freertos;
pub mod hal;
pub mod key_scan;
pub mod lcd;
pub mod lcd_content;
pub mod metering;
pub mod ota;
pub mod power_manager;
pub mod quectel;
pub mod rn8302b;
pub mod rn8615v2;
