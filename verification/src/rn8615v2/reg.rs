//! Register addresses of the RN8615V2.
use vstd::prelude::*;

verus! {

pub const CHIP_ID: u8 = 0x00;
pub const SOFT_RESET: u8 = 0x01;
pub const SYSCON: u8 = 0x02;
pub const EMU: u8 = 0x03;
pub const STARTCURRENT: u8 = 0x04;
pub const PQ_CTRL: u8 = 0x05;

pub const PA: u8 = 0x10;
pub const PB: u8 = 0x11;
pub const PC: u8 = 0x12;
pub const PT: u8 = 0x13;

pub const QA: u8 = 0x14;
pub const QB: u8 = 0x15;
pub const QC: u8 = 0x16;
pub const QT: u8 = 0x17;

pub const SA: u8 = 0x18;
pub const SB: u8 = 0x19;
pub const SC: u8 = 0x1A;
pub const ST: u8 = 0x1B;

pub const PA_FUND: u8 = 0x1C;
pub const PB_FUND: u8 = 0x1D;
pub const PC_FUND: u8 = 0x1E;
pub const PT_FUND: u8 = 0x1F;

pub const UA_RMS: u8 = 0x20;
pub const UB_RMS: u8 = 0x21;
pub const UC_RMS: u8 = 0x22;

pub const IA_RMS: u8 = 0x23;
pub const IB_RMS: u8 = 0x24;
pub const IC_RMS: u8 = 0x25;
pub const IN_RMS: u8 = 0x26;

pub const FREQ: u8 = 0x30;
pub const PFA: u8 = 0x31;
pub const PFB: u8 = 0x32;
pub const PFC: u8 = 0x33;
pub const PFT: u8 = 0x34;
pub const PHA_UA_IA: u8 = 0x35;
pub const PHA_UB_IB: u8 = 0x36;
pub const PHA_UC_IC: u8 = 0x37;

pub const ACTIVE_IMPORT: u8 = 0x40;
pub const ACTIVE_EXPORT: u8 = 0x41;
pub const REACTIVE_IMPORT: u8 = 0x42;
pub const REACTIVE_EXPORT: u8 = 0x43;
pub const ACTIVE_IMPORT_A: u8 = 0x44;
pub const ACTIVE_IMPORT_B: u8 = 0x45;
pub const ACTIVE_IMPORT_C: u8 = 0x46;

pub const HARMONIC_UA: u8 = 0x50;
pub const HARMONIC_UB: u8 = 0x51;
pub const HARMONIC_UC: u8 = 0x52;
pub const HARMONIC_IA: u8 = 0x53;
pub const HARMONIC_IB: u8 = 0x54;
pub const HARMONIC_IC: u8 = 0x55;

pub const INTERHARMONIC_UA: u8 = 0x58;
pub const INTERHARMONIC_UB: u8 = 0x59;
pub const INTERHARMONIC_UC: u8 = 0x5A;
pub const INTERHARMONIC_IA: u8 = 0x5B;
pub const INTERHARMONIC_IB: u8 = 0x5C;
pub const INTERHARMONIC_IC: u8 = 0x5D;

pub const THD_UA: u8 = 0x60;
pub const THD_UB: u8 = 0x61;
pub const THD_UC: u8 = 0x62;
pub const THD_IA: u8 = 0x63;
pub const THD_IB: u8 = 0x64;
pub const THD_IC: u8 = 0x65;

pub const VOLTAGE_UNBALANCE: u8 = 0x70;
pub const CURRENT_UNBALANCE: u8 = 0x71;
pub const FLICKER_PST: u8 = 0x72;
pub const FLICKER_PLT: u8 = 0x73;
pub const DC_COMPONENT_UA: u8 = 0x74;
pub const DC_COMPONENT_UB: u8 = 0x75;
pub const DC_COMPONENT_UC: u8 = 0x76;

pub const SAG_SWELL_STATUS: u8 = 0x78;
pub const SAG_SWELL_CFG: u8 = 0x79;
pub const SAG_UA_THRESHOLD: u8 = 0x7A;
pub const SWELL_UA_THRESHOLD: u8 = 0x7B;
pub const SAG_UB_THRESHOLD: u8 = 0x7C;
pub const SWELL_UB_THRESHOLD: u8 = 0x7D;
pub const SAG_UC_THRESHOLD: u8 = 0x7E;
pub const SWELL_UC_THRESHOLD: u8 = 0x7F;

pub const ANTI_TAMPER_STAT: u8 = 0x80;
pub const ANTI_TAMPER_CFG: u8 = 0x81;
pub const DC_TAMPER_CFG: u8 = 0x82;

pub const UGAIN_A: u8 = 0x90;
pub const UGAIN_B: u8 = 0x91;
pub const UGAIN_C: u8 = 0x92;
pub const IGAIN_A: u8 = 0x93;
pub const IGAIN_B: u8 = 0x94;
pub const IGAIN_C: u8 = 0x95;
pub const PGAIN_A: u8 = 0x96;
pub const PGAIN_B: u8 = 0x97;
pub const PGAIN_C: u8 = 0x98;
pub const QGAIN_A: u8 = 0x99;
pub const QGAIN_B: u8 = 0x9A;
pub const QGAIN_C: u8 = 0x9B;
pub const PHCAL_A: u8 = 0x9C;
pub const PHCAL_B: u8 = 0x9D;
pub const PHCAL_C: u8 = 0x9E;
pub const POFFSET_A: u8 = 0x9F;
pub const POFFSET_B: u8 = 0xA0;
pub const POFFSET_C: u8 = 0xA1;
pub const QOFFSET_A: u8 = 0xA2;
pub const QOFFSET_B: u8 = 0xA3;
pub const QOFFSET_C: u8 = 0xA4;

} // verus!
