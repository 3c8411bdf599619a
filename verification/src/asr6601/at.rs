//! AT commands of the ASR6601 module, as bytes.
use vstd::prelude::*;

verus! {

/// `AT\r\n`
pub const TEST: [u8; 4] = [65u8, 84, 13, 10];

/// `ATZ\r\n`
pub const RESET: [u8; 5] = [65u8, 84, 90, 13, 10];

/// `AT+FDEFAULT\r\n`
pub const RESTORE: [u8; 13] = [65u8, 84, 43, 70, 68, 69, 70, 65, 85, 76, 84, 13, 10];

/// `AT+VER?\r\n`
pub const VERSION: [u8; 9] = [65u8, 84, 43, 86, 69, 82, 63, 13, 10];

/// `AT+ID=DevEui\r\n`
pub const DEVEUI: [u8; 14] = [65u8, 84, 43, 73, 68, 61, 68, 101, 118, 69, 117, 105, 13, 10];

/// `AT+ID=DevEui,"`
pub const SET_DEVEUI: [u8; 14] = [65u8, 84, 43, 73, 68, 61, 68, 101, 118, 69, 117, 105, 44, 34];

/// `AT+ID=AppEui\r\n`
pub const APPEUI: [u8; 14] = [65u8, 84, 43, 73, 68, 61, 65, 112, 112, 69, 117, 105, 13, 10];

/// `AT+ID=AppEui,"`
pub const SET_APPEUI: [u8; 14] = [65u8, 84, 43, 73, 68, 61, 65, 112, 112, 69, 117, 105, 44, 34];

/// `AT+KEY=AppKey,"`
pub const SET_APPKEY: [u8; 15] = [65u8, 84, 43, 75, 69, 89, 61, 65, 112, 112, 75, 101, 121, 44, 34];

/// `AT+MODE=LWOTAA\r\n`
pub const SET_OTAA: [u8; 16] = [65u8, 84, 43, 77, 79, 68, 69, 61, 76, 87, 79, 84, 65, 65, 13, 10];

/// `AT+MODE=LWABP\r\n`
pub const SET_ABP: [u8; 15] = [65u8, 84, 43, 77, 79, 68, 69, 61, 76, 87, 65, 66, 80, 13, 10];

/// `AT+JOIN\r\n`
pub const JOIN: [u8; 9] = [65u8, 84, 43, 74, 79, 73, 78, 13, 10];

/// `AT+MSG=`
pub const SEND_UC: [u8; 7] = [65u8, 84, 43, 77, 83, 71, 61];

/// `AT+CMSG=`
pub const SEND_CF: [u8; 8] = [65u8, 84, 43, 67, 77, 83, 71, 61];

/// `AT+RSSI?\r\n`
pub const RSSI: [u8; 10] = [65u8, 84, 43, 82, 83, 83, 73, 63, 13, 10];

/// `AT+UART=BAUDRATE,`
pub const BAUDRATE: [u8; 17] = [65u8, 84, 43, 85, 65, 82, 84, 61, 66, 65, 85, 68, 82, 65, 84, 69, 44];

/// `AT+ID=DevAddr,"`
pub const SET_DEVADDR: [u8; 15] = [65u8, 84, 43, 73, 68, 61, 68, 101, 118, 65, 100, 100, 114, 44, 34];

/// `AT+KEY=NwkSKey,"`
pub const SET_NWKSKEY: [u8; 16] = [65u8, 84, 43, 75, 69, 89, 61, 78, 119, 107, 83, 75, 101, 121, 44, 34];

/// `AT+KEY=AppSKey,"`
pub const SET_APPSKEY: [u8; 16] = [65u8, 84, 43, 75, 69, 89, 61, 65, 112, 112, 83, 75, 101, 121, 44, 34];

/// `AT+BAND=CN470\r\n`
pub const SET_BAND: [u8; 15] = [65u8, 84, 43, 66, 65, 78, 68, 61, 67, 78, 52, 55, 48, 13, 10];

/// `AT+DR=`
pub const SET_DR: [u8; 6] = [65u8, 84, 43, 68, 82, 61];

/// `AT+POWER=`
pub const SET_PWR: [u8; 9] = [65u8, 84, 43, 80, 79, 87, 69, 82, 61];

/// `AT+ADR=`
pub const SET_ADR: [u8; 7] = [65u8, 84, 43, 65, 68, 82, 61];

/// `AT+CLASS=`
pub const SET_CLASS: [u8; 9] = [65u8, 84, 43, 67, 76, 65, 83, 83, 61];

/// `AT+SLEEP=ON\r\n`
pub const SLEEP: [u8; 13] = [65u8, 84, 43, 83, 76, 69, 69, 80, 61, 79, 78, 13, 10];

/// `AT\r\n`
pub const WAKEUP: [u8; 4] = [65u8, 84, 13, 10];

/// `AT+ADR=ON\r\n`
pub const ADR_ON: [u8; 11] = [65u8, 84, 43, 65, 68, 82, 61, 79, 78, 13, 10];

} // verus!
