//! Production calibration: pulse-comparison energy calibration, channel
//! gain and phase calibration, start/creep tests, and the CRC-protected
//! calibration record kept in two alternating flash slots.
use vstd::prelude::*;
use vstd::slice::slice_subrange;

use crate::event_detect::{crc32, crc32_spec};

verus! {

/* ---------------- little-endian field encoding ---------------- */

/// Little-endian bytes of a `u16`.
pub open spec fn u16_le(x: u16) -> Seq<u8> {
    seq![x as u8, (x >> 8) as u8]
}

/// Little-endian bytes of a `u32`.
pub open spec fn u32_le(x: u32) -> Seq<u8> {
    seq![x as u8, (x >> 8) as u8, (x >> 16) as u8, (x >> 24) as u8]
}

/// Two's-complement little-endian bytes of an `i16`.
pub open spec fn i16_le(x: i16) -> Seq<u8> {
    u16_le(x as u16)
}

/// Two's-complement little-endian bytes of an `i32`.
pub open spec fn i32_le(x: i32) -> Seq<u8> {
    u32_le(x as u32)
}

/// The `u16` stored little-endian at `off`.
pub open spec fn le_u16_at(s: Seq<u8>, off: int) -> u16 {
    ((s[off] as u16) | ((s[off + 1] as u16) << 8)) as u16
}

/// The `u32` stored little-endian at `off`.
pub open spec fn le_u32_at(s: Seq<u8>, off: int) -> u32 {
    ((s[off] as u32) | ((s[off + 1] as u32) << 8) | ((s[off + 2] as u32) << 16) | ((s[off + 3] as u32) << 24)) as u32
}

/// The `i16` stored little-endian at `off`.
pub open spec fn le_i16_at(s: Seq<u8>, off: int) -> i16 {
    le_u16_at(s, off) as i16
}

/// The `i32` stored little-endian at `off`.
pub open spec fn le_i32_at(s: Seq<u8>, off: int) -> i32 {
    le_u32_at(s, off) as i32
}

proof fn lemma_u16_roundtrip(x: u16)
    ensures
        le_u16_at(u16_le(x), 0) == x,
{
    let b0 = x as u8;
    let b1 = (x >> 8) as u8;
    assert(((b0 as u16) | ((b1 as u16) << 8)) as u16 == x) by (bit_vector)
        requires
            b0 == x as u8,
            b1 == (x >> 8) as u8,
    ;
}

proof fn lemma_u32_roundtrip(x: u32)
    ensures
        le_u32_at(u32_le(x), 0) == x,
{
    let b0 = x as u8;
    let b1 = (x >> 8) as u8;
    let b2 = (x >> 16) as u8;
    let b3 = (x >> 24) as u8;
    assert(((b0 as u32) | ((b1 as u32) << 8) | ((b2 as u32) << 16) | ((b3 as u32) << 24)) as u32 == x)
        by (bit_vector)
        requires
            b0 == x as u8,
            b1 == (x >> 8) as u8,
            b2 == (x >> 16) as u8,
            b3 == (x >> 24) as u8,
    ;
}

proof fn lemma_i16_roundtrip(x: i16)
    ensures
        le_i16_at(i16_le(x), 0) == x,
{
    lemma_u16_roundtrip(x as u16);
    let u = x as u16;
    assert(u as i16 == x) by (bit_vector)
        requires
            u == x as u16,
    ;
}

proof fn lemma_i32_roundtrip(x: i32)
    ensures
        le_i32_at(i32_le(x), 0) == x,
{
    lemma_u32_roundtrip(x as u32);
    let u = x as u32;
    assert(u as i32 == x) by (bit_vector)
        requires
            u == x as u32,
    ;
}

/// Reading a field back at its offset inside a longer sequence.
proof fn lemma_read_at(s: Seq<u8>, off: int, f: Seq<u8>)
    requires
        0 <= off,
        off + f.len() <= s.len(),
        s.subrange(off, off + f.len()) == f,
    ensures
        f.len() >= 2 ==> le_u16_at(s, off) == le_u16_at(f, 0),
        f.len() >= 4 ==> le_u32_at(s, off) == le_u32_at(f, 0),
{
    if f.len() >= 2 {
        assert(s[off] == f[0] && s[off + 1] == f[1]) by {
            assert(s.subrange(off, off + f.len())[0] == s[off]);
            assert(s.subrange(off, off + f.len())[1] == s[off + 1]);
        }
    }
    if f.len() >= 4 {
        assert(s[off + 2] == f[2] && s[off + 3] == f[3]) by {
            assert(s.subrange(off, off + f.len())[2] == s[off + 2]);
            assert(s.subrange(off, off + f.len())[3] == s[off + 3]);
        }
    }
}

fn push_u16_le(v: &mut Vec<u8>, x: u16)
    ensures
        final(v)@ == old(v)@ + u16_le(x),
{
    v.push(x as u8);
    v.push((x >> 8) as u8);
    assert(v@ =~= old(v)@ + u16_le(x));
}

fn push_u32_le(v: &mut Vec<u8>, x: u32)
    ensures
        final(v)@ == old(v)@ + u32_le(x),
{
    v.push(x as u8);
    v.push((x >> 8) as u8);
    v.push((x >> 16) as u8);
    v.push((x >> 24) as u8);
    assert(v@ =~= old(v)@ + u32_le(x));
}

fn push_bytes(v: &mut Vec<u8>, b: &[u8])
    ensures
        final(v)@ == old(v)@ + b@,
{
    let mut i: usize = 0;
    while i < b.len()
        invariant
            i <= b.len(),
            v@ == old(v)@ + b@.subrange(0, i as int),
        decreases b.len() - i,
    {
        v.push(b[i]);
        assert(b@.subrange(0, i + 1) =~= b@.subrange(0, i as int).push(b[i as int]));
        i = i + 1;
    }
    assert(b@.subrange(0, b.len() as int) =~= b@);
}

/* ---------------- calibration record ---------------- */

/// Calibration parameters, kept in two alternating flash slots; the
/// record is laid out as a C struct (little-endian, 120 bytes) with the
/// CRC-32 over its first 116 bytes in the last four.
#[derive(Clone, Copy, Debug)]
pub struct CalibrationData {
    /// Validity magic (`MAGIC`)
    pub magic: u32,
    /// Parameter version
    pub version: u16,
    /// Active slot (0 = A, 1 = B)
    pub active_slot: u16,
    /// Voltage gain [A, B, C] (Q15.16, 1.0 = no correction)
    pub voltage_gain: [i32; 3],
    /// Current gain [A, B, C] (Q15.16)
    pub current_gain: [i32; 3],
    /// Active power gain [A, B, C] (Q15.16)
    pub power_gain: [i32; 3],
    /// Reactive power gain [A, B, C] (Q15.16)
    pub reactive_gain: [i32; 3],
    /// Phase compensation [A, B, C] (degrees, Q8.8, positive = lag)
    pub phase_offset: [i16; 3],
    /// Active start current threshold (mA, Q8.8)
    pub active_start_threshold: u16,
    /// Reactive start current threshold (mA, Q8.8)
    pub reactive_start_threshold: u16,
    /// Creep threshold (pulses per minute)
    pub creep_threshold: u8,
    /// Calibration time (Unix)
    pub cal_timestamp: u32,
    /// Operator ID
    pub operator_id: [u8; 8],
    /// Calibration temperature (0.1 degC)
    pub cal_temperature: i16,
    /// Reserved
    pub reserved: [u8; 32],
    /// CRC-32 over the record's first `DATA_SIZE` bytes
    pub crc: u32,
}

/// The 116 bytes covered by the CRC: every field but the CRC, in layout
/// order, with zero padding after `creep_threshold` and after `reserved`.
pub open spec fn cal_data_image(d: CalibrationData) -> Seq<u8> {
    u32_le(d.magic) + u16_le(d.version) + u16_le(d.active_slot)
        + i32_le(d.voltage_gain[0]) + i32_le(d.voltage_gain[1]) + i32_le(d.voltage_gain[2])
        + i32_le(d.current_gain[0]) + i32_le(d.current_gain[1]) + i32_le(d.current_gain[2])
        + i32_le(d.power_gain[0]) + i32_le(d.power_gain[1]) + i32_le(d.power_gain[2])
        + i32_le(d.reactive_gain[0]) + i32_le(d.reactive_gain[1]) + i32_le(d.reactive_gain[2])
        + i16_le(d.phase_offset[0]) + i16_le(d.phase_offset[1]) + i16_le(d.phase_offset[2])
        + u16_le(d.active_start_threshold) + u16_le(d.reactive_start_threshold)
        + seq![d.creep_threshold, 0u8]
        + u32_le(d.cal_timestamp)
        + d.operator_id@
        + i16_le(d.cal_temperature)
        + d.reserved@
        + seq![0u8, 0u8]
}

/// The full 120-byte record: the image followed by the CRC.
pub open spec fn cal_data_record(d: CalibrationData) -> Seq<u8> {
    cal_data_image(d) + u32_le(d.crc)
}

/// The calibration record read from the first 120 bytes of `s`.
pub open spec fn cal_data_parse(s: Seq<u8>) -> CalibrationData {
    CalibrationData {
        magic: le_u32_at(s, 0),
        version: le_u16_at(s, 4),
        active_slot: le_u16_at(s, 6),
        voltage_gain: [le_i32_at(s, 8), le_i32_at(s, 12), le_i32_at(s, 16)],
        current_gain: [le_i32_at(s, 20), le_i32_at(s, 24), le_i32_at(s, 28)],
        power_gain: [le_i32_at(s, 32), le_i32_at(s, 36), le_i32_at(s, 40)],
        reactive_gain: [le_i32_at(s, 44), le_i32_at(s, 48), le_i32_at(s, 52)],
        phase_offset: [le_i16_at(s, 56), le_i16_at(s, 58), le_i16_at(s, 60)],
        active_start_threshold: le_u16_at(s, 62),
        reactive_start_threshold: le_u16_at(s, 64),
        creep_threshold: s[66],
        cal_timestamp: le_u32_at(s, 68),
        operator_id: [s[72], s[73], s[74], s[75], s[76], s[77], s[78], s[79]],
        cal_temperature: le_i16_at(s, 80),
        reserved: [
            s[82], s[83], s[84], s[85], s[86], s[87], s[88], s[89],
            s[90], s[91], s[92], s[93], s[94], s[95], s[96], s[97],
            s[98], s[99], s[100], s[101], s[102], s[103], s[104], s[105],
            s[106], s[107], s[108], s[109], s[110], s[111], s[112], s[113],
        ],
        crc: le_u32_at(s, 116),
    }
}

/// The CRC a record should carry: CRC-32 of its image.
pub open spec fn cal_data_crc(d: CalibrationData) -> u32 {
    crc32_spec(cal_data_image(d))
}

/// The record with its CRC filled in.
pub open spec fn cal_data_sealed(d: CalibrationData) -> CalibrationData {
    CalibrationData { crc: cal_data_crc(d), ..d }
}

/// Default calibration parameters: unity gains, no phase offset, start
/// thresholds 5 and 10, creep threshold 1, 25.0 degC, CRC not yet set.
pub open spec fn cal_data_default() -> CalibrationData {
    CalibrationData {
        magic: 0xCA1B_DA7A,
        version: 1,
        active_slot: 0,
        voltage_gain: [0x0001_0000i32, 0x0001_0000i32, 0x0001_0000i32],
        current_gain: [0x0001_0000i32, 0x0001_0000i32, 0x0001_0000i32],
        power_gain: [0x0001_0000i32, 0x0001_0000i32, 0x0001_0000i32],
        reactive_gain: [0x0001_0000i32, 0x0001_0000i32, 0x0001_0000i32],
        phase_offset: [0i16, 0i16, 0i16],
        active_start_threshold: 5,
        reactive_start_threshold: 10,
        creep_threshold: 1,
        cal_timestamp: 0,
        operator_id: [0u8, 0u8, 0u8, 0u8, 0u8, 0u8, 0u8, 0u8],
        cal_temperature: 250,
        reserved: [
            0u8, 0u8, 0u8, 0u8, 0u8, 0u8, 0u8, 0u8,
            0u8, 0u8, 0u8, 0u8, 0u8, 0u8, 0u8, 0u8,
            0u8, 0u8, 0u8, 0u8, 0u8, 0u8, 0u8, 0u8,
            0u8, 0u8, 0u8, 0u8, 0u8, 0u8, 0u8, 0u8,
        ],
        crc: 0,
    }
}

/// A record with every field zero.
pub open spec fn cal_data_zero() -> CalibrationData {
    CalibrationData {
        magic: 0,
        version: 0,
        active_slot: 0,
        voltage_gain: [0i32, 0i32, 0i32],
        current_gain: [0i32, 0i32, 0i32],
        power_gain: [0i32, 0i32, 0i32],
        reactive_gain: [0i32, 0i32, 0i32],
        phase_offset: [0i16, 0i16, 0i16],
        active_start_threshold: 0,
        reactive_start_threshold: 0,
        creep_threshold: 0,
        cal_timestamp: 0,
        operator_id: [0u8, 0u8, 0u8, 0u8, 0u8, 0u8, 0u8, 0u8],
        cal_temperature: 0,
        reserved: [
            0u8, 0u8, 0u8, 0u8, 0u8, 0u8, 0u8, 0u8,
            0u8, 0u8, 0u8, 0u8, 0u8, 0u8, 0u8, 0u8,
            0u8, 0u8, 0u8, 0u8, 0u8, 0u8, 0u8, 0u8,
            0u8, 0u8, 0u8, 0u8, 0u8, 0u8, 0u8, 0u8,
        ],
        crc: 0,
    }
}

impl Default for CalibrationData {
    fn default() -> (r: Self)
        ensures
            r == cal_data_zero(),
    {
        let r = CalibrationData {
            magic: 0,
            version: 0,
            active_slot: 0,
            voltage_gain: [0, 0, 0],
            current_gain: [0, 0, 0],
            power_gain: [0, 0, 0],
            reactive_gain: [0, 0, 0],
            phase_offset: [0, 0, 0],
            active_start_threshold: 0,
            reactive_start_threshold: 0,
            creep_threshold: 0,
            cal_timestamp: 0,
            operator_id: [0u8; 8],
            cal_temperature: 0,
            reserved: [0u8; 32],
            crc: 0,
        };
        proof {
            lemma_cal_arrays_ext(r, cal_data_zero());
        }
        r
    }
}

/// Two records with equal fields, array fields compared element-wise, are equal.
proof fn lemma_cal_arrays_ext(a: CalibrationData, b: CalibrationData)
    requires
        a.magic == b.magic,
        a.version == b.version,
        a.active_slot == b.active_slot,
        a.voltage_gain@ =~= b.voltage_gain@,
        a.current_gain@ =~= b.current_gain@,
        a.power_gain@ =~= b.power_gain@,
        a.reactive_gain@ =~= b.reactive_gain@,
        a.phase_offset@ =~= b.phase_offset@,
        a.active_start_threshold == b.active_start_threshold,
        a.reactive_start_threshold == b.reactive_start_threshold,
        a.creep_threshold == b.creep_threshold,
        a.cal_timestamp == b.cal_timestamp,
        a.operator_id@ =~= b.operator_id@,
        a.cal_temperature == b.cal_temperature,
        a.reserved@ =~= b.reserved@,
        a.crc == b.crc,
    ensures
        a == b,
{
    assert(a.voltage_gain == b.voltage_gain);
    assert(a.current_gain == b.current_gain);
    assert(a.power_gain == b.power_gain);
    assert(a.reactive_gain == b.reactive_gain);
    assert(a.phase_offset == b.phase_offset);
    assert(a.operator_id == b.operator_id);
    assert(a.reserved == b.reserved);
}


/// Reading back a written record gives the same record.
#[verifier::spinoff_prover]
pub proof fn lemma_record_roundtrip(d: CalibrationData)
    ensures
        cal_data_record(d).len() == 120,
        cal_data_parse(cal_data_record(d)) == d,
{
    let s = cal_data_record(d);
    assert(s.len() == 120);
    assert(le_u32_at(s, 0) == d.magic) by {
        assert(s.subrange(0, 4) =~= u32_le(d.magic));
        lemma_read_at(s, 0, u32_le(d.magic));
        lemma_u32_roundtrip(d.magic);
    }
    assert(le_u16_at(s, 4) == d.version) by {
        assert(s.subrange(4, 6) =~= u16_le(d.version));
        lemma_read_at(s, 4, u16_le(d.version));
        lemma_u16_roundtrip(d.version);
    }
    assert(le_u16_at(s, 6) == d.active_slot) by {
        assert(s.subrange(6, 8) =~= u16_le(d.active_slot));
        lemma_read_at(s, 6, u16_le(d.active_slot));
        lemma_u16_roundtrip(d.active_slot);
    }
    assert(le_i32_at(s, 8) == d.voltage_gain[0]) by {
        assert(s.subrange(8, 12) =~= i32_le(d.voltage_gain[0]));
        lemma_read_at(s, 8, i32_le(d.voltage_gain[0]));
        lemma_i32_roundtrip(d.voltage_gain[0]);
    }
    assert(le_i32_at(s, 12) == d.voltage_gain[1]) by {
        assert(s.subrange(12, 16) =~= i32_le(d.voltage_gain[1]));
        lemma_read_at(s, 12, i32_le(d.voltage_gain[1]));
        lemma_i32_roundtrip(d.voltage_gain[1]);
    }
    assert(le_i32_at(s, 16) == d.voltage_gain[2]) by {
        assert(s.subrange(16, 20) =~= i32_le(d.voltage_gain[2]));
        lemma_read_at(s, 16, i32_le(d.voltage_gain[2]));
        lemma_i32_roundtrip(d.voltage_gain[2]);
    }
    assert(le_i32_at(s, 20) == d.current_gain[0]) by {
        assert(s.subrange(20, 24) =~= i32_le(d.current_gain[0]));
        lemma_read_at(s, 20, i32_le(d.current_gain[0]));
        lemma_i32_roundtrip(d.current_gain[0]);
    }
    assert(le_i32_at(s, 24) == d.current_gain[1]) by {
        assert(s.subrange(24, 28) =~= i32_le(d.current_gain[1]));
        lemma_read_at(s, 24, i32_le(d.current_gain[1]));
        lemma_i32_roundtrip(d.current_gain[1]);
    }
    assert(le_i32_at(s, 28) == d.current_gain[2]) by {
        assert(s.subrange(28, 32) =~= i32_le(d.current_gain[2]));
        lemma_read_at(s, 28, i32_le(d.current_gain[2]));
        lemma_i32_roundtrip(d.current_gain[2]);
    }
    assert(le_i32_at(s, 32) == d.power_gain[0]) by {
        assert(s.subrange(32, 36) =~= i32_le(d.power_gain[0]));
        lemma_read_at(s, 32, i32_le(d.power_gain[0]));
        lemma_i32_roundtrip(d.power_gain[0]);
    }
    assert(le_i32_at(s, 36) == d.power_gain[1]) by {
        assert(s.subrange(36, 40) =~= i32_le(d.power_gain[1]));
        lemma_read_at(s, 36, i32_le(d.power_gain[1]));
        lemma_i32_roundtrip(d.power_gain[1]);
    }
    assert(le_i32_at(s, 40) == d.power_gain[2]) by {
        assert(s.subrange(40, 44) =~= i32_le(d.power_gain[2]));
        lemma_read_at(s, 40, i32_le(d.power_gain[2]));
        lemma_i32_roundtrip(d.power_gain[2]);
    }
    assert(le_i32_at(s, 44) == d.reactive_gain[0]) by {
        assert(s.subrange(44, 48) =~= i32_le(d.reactive_gain[0]));
        lemma_read_at(s, 44, i32_le(d.reactive_gain[0]));
        lemma_i32_roundtrip(d.reactive_gain[0]);
    }
    assert(le_i32_at(s, 48) == d.reactive_gain[1]) by {
        assert(s.subrange(48, 52) =~= i32_le(d.reactive_gain[1]));
        lemma_read_at(s, 48, i32_le(d.reactive_gain[1]));
        lemma_i32_roundtrip(d.reactive_gain[1]);
    }
    assert(le_i32_at(s, 52) == d.reactive_gain[2]) by {
        assert(s.subrange(52, 56) =~= i32_le(d.reactive_gain[2]));
        lemma_read_at(s, 52, i32_le(d.reactive_gain[2]));
        lemma_i32_roundtrip(d.reactive_gain[2]);
    }
    assert(le_i16_at(s, 56) == d.phase_offset[0]) by {
        assert(s.subrange(56, 58) =~= i16_le(d.phase_offset[0]));
        lemma_read_at(s, 56, i16_le(d.phase_offset[0]));
        lemma_i16_roundtrip(d.phase_offset[0]);
    }
    assert(le_i16_at(s, 58) == d.phase_offset[1]) by {
        assert(s.subrange(58, 60) =~= i16_le(d.phase_offset[1]));
        lemma_read_at(s, 58, i16_le(d.phase_offset[1]));
        lemma_i16_roundtrip(d.phase_offset[1]);
    }
    assert(le_i16_at(s, 60) == d.phase_offset[2]) by {
        assert(s.subrange(60, 62) =~= i16_le(d.phase_offset[2]));
        lemma_read_at(s, 60, i16_le(d.phase_offset[2]));
        lemma_i16_roundtrip(d.phase_offset[2]);
    }
    assert(le_u16_at(s, 62) == d.active_start_threshold) by {
        assert(s.subrange(62, 64) =~= u16_le(d.active_start_threshold));
        lemma_read_at(s, 62, u16_le(d.active_start_threshold));
        lemma_u16_roundtrip(d.active_start_threshold);
    }
    assert(le_u16_at(s, 64) == d.reactive_start_threshold) by {
        assert(s.subrange(64, 66) =~= u16_le(d.reactive_start_threshold));
        lemma_read_at(s, 64, u16_le(d.reactive_start_threshold));
        lemma_u16_roundtrip(d.reactive_start_threshold);
    }
    assert(le_u32_at(s, 68) == d.cal_timestamp) by {
        assert(s.subrange(68, 72) =~= u32_le(d.cal_timestamp));
        lemma_read_at(s, 68, u32_le(d.cal_timestamp));
        lemma_u32_roundtrip(d.cal_timestamp);
    }
    assert(le_i16_at(s, 80) == d.cal_temperature) by {
        assert(s.subrange(80, 82) =~= i16_le(d.cal_temperature));
        lemma_read_at(s, 80, i16_le(d.cal_temperature));
        lemma_i16_roundtrip(d.cal_temperature);
    }
    assert(le_u32_at(s, 116) == d.crc) by {
        assert(s.subrange(116, 120) =~= u32_le(d.crc));
        lemma_read_at(s, 116, u32_le(d.crc));
        lemma_u32_roundtrip(d.crc);
    }
    assert(s[66] == d.creep_threshold);
    assert forall|i: int| 0 <= i < 8 implies s[72 + i] == d.operator_id@[i] by {
        assert(s.subrange(72, 80) =~= d.operator_id@);
        assert(s.subrange(72, 80)[i] == s[72 + i]);
    }
    assert forall|i: int| 0 <= i < 32 implies s[82 + i] == d.reserved@[i] by {
        assert(s.subrange(82, 114) =~= d.reserved@);
        assert(s.subrange(82, 114)[i] == s[82 + i]);
    }
    let p = cal_data_parse(s);
    assert(p.operator_id@ =~= d.operator_id@);
    assert(p.reserved@ =~= d.reserved@);
    lemma_cal_arrays_ext(p, d);
}

/// A sealed record passes its CRC check: the CRC covers every field but
/// itself, so filling it in does not change what it covers.
pub proof fn lemma_sealed_crc_matches(d: CalibrationData)
    ensures
        cal_data_crc(cal_data_sealed(d)) == cal_data_sealed(d).crc,
        cal_data_sealed(cal_data_sealed(d)) == cal_data_sealed(d),
{
    assert(cal_data_image(cal_data_sealed(d)) =~= cal_data_image(d));
}

impl CalibrationData {
    /// Validity magic.
    pub const MAGIC: u32 = 0xCA1B_DA7A;
    /// Size of the CRC-covered part of the record.
    pub const DATA_SIZE: usize = 116;
    /// Size of the whole record.
    pub const RECORD_SIZE: usize = 120;

    /// Default calibration data (unity gains).
    pub fn new() -> (r: Self)
        ensures
            r == cal_data_default(),
    {
        let r = CalibrationData {
            magic: Self::MAGIC,
            version: 1,
            active_slot: 0,
            voltage_gain: [0x0001_0000, 0x0001_0000, 0x0001_0000],
            current_gain: [0x0001_0000, 0x0001_0000, 0x0001_0000],
            power_gain: [0x0001_0000, 0x0001_0000, 0x0001_0000],
            reactive_gain: [0x0001_0000, 0x0001_0000, 0x0001_0000],
            phase_offset: [0, 0, 0],
            active_start_threshold: 5,
            reactive_start_threshold: 10,
            creep_threshold: 1,
            cal_timestamp: 0,
            operator_id: [0u8; 8],
            cal_temperature: 250,
            reserved: [0u8; 32],
            crc: 0,
        };
        proof {
            lemma_cal_arrays_ext(r, cal_data_default());
        }
        r
    }

    /// The CRC-covered image of the record (116 bytes).
    pub fn data_bytes(&self) -> (r: Vec<u8>)
        ensures
            r@ == cal_data_image(*self),
    {
        let mut v: Vec<u8> = Vec::new();
        push_u32_le(&mut v, self.magic);
        push_u16_le(&mut v, self.version);
        push_u16_le(&mut v, self.active_slot);
        push_u32_le(&mut v, self.voltage_gain[0] as u32);
        push_u32_le(&mut v, self.voltage_gain[1] as u32);
        push_u32_le(&mut v, self.voltage_gain[2] as u32);
        push_u32_le(&mut v, self.current_gain[0] as u32);
        push_u32_le(&mut v, self.current_gain[1] as u32);
        push_u32_le(&mut v, self.current_gain[2] as u32);
        push_u32_le(&mut v, self.power_gain[0] as u32);
        push_u32_le(&mut v, self.power_gain[1] as u32);
        push_u32_le(&mut v, self.power_gain[2] as u32);
        push_u32_le(&mut v, self.reactive_gain[0] as u32);
        push_u32_le(&mut v, self.reactive_gain[1] as u32);
        push_u32_le(&mut v, self.reactive_gain[2] as u32);
        push_u16_le(&mut v, self.phase_offset[0] as u16);
        push_u16_le(&mut v, self.phase_offset[1] as u16);
        push_u16_le(&mut v, self.phase_offset[2] as u16);
        push_u16_le(&mut v, self.active_start_threshold);
        push_u16_le(&mut v, self.reactive_start_threshold);
        v.push(self.creep_threshold);
        v.push(0u8);
        push_u32_le(&mut v, self.cal_timestamp);
        push_bytes(&mut v, &self.operator_id);
        push_u16_le(&mut v, self.cal_temperature as u16);
        push_bytes(&mut v, &self.reserved);
        v.push(0u8);
        v.push(0u8);
        assert(v@ =~= cal_data_image(*self));
        v
    }

    /// The whole 120-byte record, as written to a flash slot.
    pub fn to_bytes(&self) -> (r: Vec<u8>)
        ensures
            r@ == cal_data_record(*self),
    {
        let mut v = self.data_bytes();
        push_u32_le(&mut v, self.crc);
        v
    }

    /// Read a record from the first 120 bytes of `b`.
    pub fn from_bytes(b: &[u8]) -> (r: Self)
        requires
            b@.len() >= 120,
        ensures
            r == cal_data_parse(b@),
    {
        let r = CalibrationData {
            magic: read_u32_le(b, 0),
            version: read_u16_le(b, 4),
            active_slot: read_u16_le(b, 6),
            voltage_gain: [read_u32_le(b, 8) as i32, read_u32_le(b, 12) as i32, read_u32_le(b, 16) as i32],
            current_gain: [read_u32_le(b, 20) as i32, read_u32_le(b, 24) as i32, read_u32_le(b, 28) as i32],
            power_gain: [read_u32_le(b, 32) as i32, read_u32_le(b, 36) as i32, read_u32_le(b, 40) as i32],
            reactive_gain: [read_u32_le(b, 44) as i32, read_u32_le(b, 48) as i32, read_u32_le(b, 52) as i32],
            phase_offset: [read_u16_le(b, 56) as i16, read_u16_le(b, 58) as i16, read_u16_le(b, 60) as i16],
            active_start_threshold: read_u16_le(b, 62),
            reactive_start_threshold: read_u16_le(b, 64),
            creep_threshold: b[66],
            cal_timestamp: read_u32_le(b, 68),
            operator_id: [b[72], b[73], b[74], b[75], b[76], b[77], b[78], b[79]],
            cal_temperature: read_u16_le(b, 80) as i16,
            reserved: [
                b[82], b[83], b[84], b[85], b[86], b[87], b[88], b[89],
                b[90], b[91], b[92], b[93], b[94], b[95], b[96], b[97],
                b[98], b[99], b[100], b[101], b[102], b[103], b[104], b[105],
                b[106], b[107], b[108], b[109], b[110], b[111], b[112], b[113],
            ],
            crc: read_u32_le(b, 116),
        };
        proof {
            lemma_cal_arrays_ext(r, cal_data_parse(b@));
        }
        r
    }

    /// Compute the CRC over the record's image and store it.
    pub fn update_crc(&mut self)
        ensures
            *final(self) == cal_data_sealed(*old(self)),
    {
        let bytes = self.data_bytes();
        self.crc = crc32(bytes.as_slice());
    }

    /// Whether the stored CRC matches the record's image.
    pub fn verify_crc(&self) -> (r: bool)
        ensures
            r == (cal_data_crc(*self) == self.crc),
    {
        let bytes = self.data_bytes();
        crc32(bytes.as_slice()) == self.crc
    }

    /// Valid: magic present and CRC correct.
    pub fn is_valid(&self) -> (r: bool)
        ensures
            r == (self.magic == 0xCA1B_DA7Au32 && cal_data_crc(*self) == self.crc),
    {
        self.magic == Self::MAGIC && self.verify_crc()
    }
}


/* ---------------- calibration state machine ---------------- */

/// Calibration flow state.
#[derive(Clone, Copy, PartialEq, Eq, Debug, Structural)]
pub enum CalState {
    /// Idle
    Idle,
    /// Voltage calibration
    CalVoltage,
    /// Current calibration
    CalCurrent,
    /// Active power calibration
    CalActivePower,
    /// Reactive power calibration
    CalReactivePower,
    /// Phase compensation
    CalPhase,
    /// Start test running
    StartTest,
    /// Creep test running
    CreepTest,
    /// Calibration done, waiting to be saved
    Done,
    /// Calibration failed
    Failed,
}

/// Calibration commands (RS-485 / infrared interface).
#[derive(Clone, Copy, PartialEq, Eq, Debug, Structural)]
pub enum CalCommand {
    /// Enter calibration mode
    EnterCalMode,
    /// Leave calibration mode
    ExitCalMode,
    /// Read parameters
    ReadParams,
    /// Write parameters
    WriteParams,
    /// Start voltage calibration
    StartVoltageCal,
    /// Start current calibration
    StartCurrentCal,
    /// Start active power calibration (pulse comparison)
    StartActivePowerCal,
    /// Start reactive power calibration
    StartReactivePowerCal,
    /// Start phase compensation
    StartPhaseCal,
    /// Start test
    StartTest,
    /// Creep test
    CreepTest,
    /// Read calibration result
    ReadResult,
    /// Save to flash
    SaveToFlash,
    /// Restore factory defaults
    FactoryReset,
}

/// Wire code of a calibration command.
pub open spec fn cal_command_code(c: CalCommand) -> u8 {
    match c {
        CalCommand::EnterCalMode => 0x01,
        CalCommand::ExitCalMode => 0x02,
        CalCommand::ReadParams => 0x03,
        CalCommand::WriteParams => 0x04,
        CalCommand::StartVoltageCal => 0x10,
        CalCommand::StartCurrentCal => 0x11,
        CalCommand::StartActivePowerCal => 0x12,
        CalCommand::StartReactivePowerCal => 0x13,
        CalCommand::StartPhaseCal => 0x14,
        CalCommand::StartTest => 0x20,
        CalCommand::CreepTest => 0x21,
        CalCommand::ReadResult => 0x30,
        CalCommand::SaveToFlash => 0x40,
        CalCommand::FactoryReset => 0x50,
    }
}

/// The command with wire code `b`, if any.
pub open spec fn cal_command_from_code(b: u8) -> Option<CalCommand> {
    if b == 0x01 { Some(CalCommand::EnterCalMode) }
    else if b == 0x02 { Some(CalCommand::ExitCalMode) }
    else if b == 0x03 { Some(CalCommand::ReadParams) }
    else if b == 0x04 { Some(CalCommand::WriteParams) }
    else if b == 0x10 { Some(CalCommand::StartVoltageCal) }
    else if b == 0x11 { Some(CalCommand::StartCurrentCal) }
    else if b == 0x12 { Some(CalCommand::StartActivePowerCal) }
    else if b == 0x13 { Some(CalCommand::StartReactivePowerCal) }
    else if b == 0x14 { Some(CalCommand::StartPhaseCal) }
    else if b == 0x20 { Some(CalCommand::StartTest) }
    else if b == 0x21 { Some(CalCommand::CreepTest) }
    else if b == 0x30 { Some(CalCommand::ReadResult) }
    else if b == 0x40 { Some(CalCommand::SaveToFlash) }
    else if b == 0x50 { Some(CalCommand::FactoryReset) }
    else { None }
}

/// Decoding a command's code gives the command back, and every decoded
/// code is the code of the command it decodes to.
pub proof fn lemma_command_code_roundtrip(c: CalCommand, b: u8)
    ensures
        cal_command_from_code(cal_command_code(c)) == Some(c),
        cal_command_from_code(b) is Some ==> cal_command_code(cal_command_from_code(b)->0) == b,
{
}

impl CalCommand {
    /// Parse a command code.
    pub fn from_byte(b: u8) -> (r: Option<Self>)
        ensures
            r == cal_command_from_code(b),
    {
        match b {
            0x01 => Some(CalCommand::EnterCalMode),
            0x02 => Some(CalCommand::ExitCalMode),
            0x03 => Some(CalCommand::ReadParams),
            0x04 => Some(CalCommand::WriteParams),
            0x10 => Some(CalCommand::StartVoltageCal),
            0x11 => Some(CalCommand::StartCurrentCal),
            0x12 => Some(CalCommand::StartActivePowerCal),
            0x13 => Some(CalCommand::StartReactivePowerCal),
            0x14 => Some(CalCommand::StartPhaseCal),
            0x20 => Some(CalCommand::StartTest),
            0x21 => Some(CalCommand::CreepTest),
            0x30 => Some(CalCommand::ReadResult),
            0x40 => Some(CalCommand::SaveToFlash),
            0x50 => Some(CalCommand::FactoryReset),
            _ => None,
        }
    }
}

/// One calibration measurement.
#[derive(Clone, Copy, Debug)]
pub struct CalMeasurement {
    /// Reference meter value (0.01 units)
    pub reference: i32,
    /// Meter under calibration (0.01 units)
    pub measured: i32,
    /// Error (0.01 %, e.g. 50 = 0.50 %)
    pub error_pct: i16,
    /// Within tolerance
    pub passed: bool,
}

/// The all-zero, not-passed measurement reported on a rejected request.
pub open spec fn measurement_none() -> CalMeasurement {
    CalMeasurement { reference: 0, measured: 0, error_pct: 0, passed: false }
}

impl Default for CalMeasurement {
    fn default() -> (r: Self)
        ensures
            r == measurement_none(),
    {
        CalMeasurement { reference: 0, measured: 0, error_pct: 0, passed: false }
    }
}

/// Rust integer division (rounding toward zero) by a positive divisor.
pub open spec fn div_trunc(a: int, b: int) -> int {
    if a >= 0 { a / b } else { -((-a) / b) }
}

/// Relative error of `measured` against `reference` in 0.01 %, before
/// narrowing to 16 bits.
pub open spec fn cal_error_raw(measured: int, reference: int) -> int {
    div_trunc((measured - reference) * 10000, reference)
}

/// The error as stored in 16 bits: saturated at +/-327.67 %.
pub open spec fn cal_error_pct(measured: int, reference: int) -> i16 {
    let x = cal_error_raw(measured, reference);
    (if x > 32767 { 32767 } else if x < -32767 { -32767 } else { x }) as i16
}

/// Corrected Q15.16 gain: `old_gain * reference / measured`, computed as
/// `old_gain * reference * 65536 / measured / 65536` and narrowed to 32 bits.
pub open spec fn cal_new_gain(old_gain: i32, reference: int, measured: int) -> i32 {
    div_trunc(div_trunc(old_gain * reference * 65536, measured), 65536) as i32
}

/// The 64-bit intermediate of the gain correction does not overflow.
pub open spec fn cal_gain_fits(old_gain: i32, reference: int) -> bool {
    -0x7FFF_FFFF_FFFF_FFFF <= old_gain * reference * 65536 <= 0x7FFF_FFFF_FFFF_FFFF
}

/// Magnitude of a 16-bit error value.
pub open spec fn abs_i16(x: i16) -> int {
    if x < 0 { -x } else { x as int }
}

/// Start-test duration (s).
pub const START_TEST_SECONDS: u32 = 600;
/// Creep-test duration (s).
pub const CREEP_TEST_SECONDS: u32 = 600;
/// Default calibration-mode timeout (s): 30 minutes.
pub const CAL_TIMEOUT_DEFAULT: u32 = 1800;

/// Calibration manager: parameters, the calibration flow, pulse
/// comparison and the start/creep tests.
pub struct CalibrationManager {
    /// Calibration state
    pub state: CalState,
    /// Current calibration parameters
    pub params: CalibrationData,
    /// In calibration mode
    pub cal_mode: bool,
    /// Seconds spent in calibration mode
    pub cal_timeout_sec: u32,
    /// Calibration-mode timeout (s)
    pub cal_timeout_max: u32,
    /// Most recent measurement
    pub last_measurement: CalMeasurement,
    /// Error code
    pub error_code: u32,
    /// Pulses seen during the creep test
    pub creep_pulse_count: u32,
    /// Seconds of the start test
    pub start_test_seconds: u32,
    /// Seconds of the creep test
    pub creep_seconds: u32,
}

/// Outcome of a calibration step: the measurement, the corrected gain array
/// and the next state.
pub open spec fn cal_step_measurement(reference: u32, measured: u32, limit: int) -> CalMeasurement {
    let e = cal_error_pct(measured as int, reference as int);
    CalMeasurement {
        reference: reference as i32,
        measured: measured as i32,
        error_pct: e,
        passed: abs_i16(e) <= limit,
    }
}

impl CalibrationManager {
    /// Create a manager in the idle state with default parameters.
    pub fn new() -> (r: Self)
        ensures
            r == cal_manager_initial(),
    {
        CalibrationManager {
            state: CalState::Idle,
            params: CalibrationData::new(),
            cal_mode: false,
            cal_timeout_sec: 0,
            cal_timeout_max: CAL_TIMEOUT_DEFAULT,
            last_measurement: CalMeasurement::default(),
            error_code: 0,
            creep_pulse_count: 0,
            start_test_seconds: 0,
            creep_seconds: 0,
        }
    }

    /// The calibration state.
    pub fn state(&self) -> (r: CalState)
        ensures
            r == self.state,
    {
        self.state
    }

    /// Whether calibration mode is on.
    pub fn is_cal_mode(&self) -> (r: bool)
        ensures
            r == self.cal_mode,
    {
        self.cal_mode
    }

    /// The calibration parameters.
    pub fn params(&self) -> (r: &CalibrationData)
        ensures
            *r == self.params,
    {
        &self.params
    }

    /// The most recent measurement.
    pub fn last_measurement(&self) -> (r: &CalMeasurement)
        ensures
            *r == self.last_measurement,
    {
        &self.last_measurement
    }

    /// The error code.
    pub fn error_code(&self) -> (r: u32)
        ensures
            r == self.error_code,
    {
        self.error_code
    }

    /// Enter calibration mode; error 1 when already in it.
    pub fn enter_cal_mode(&mut self) -> (r: Result<(), u32>)
        ensures
            old(self).cal_mode ==> r == Err::<(), u32>(1) && *final(self) == *old(self),
            !old(self).cal_mode ==> r == Ok::<(), u32>(()) && *final(self) == (CalibrationManager {
                cal_mode: true,
                cal_timeout_sec: 0,
                state: CalState::Idle,
                ..*old(self)
            }),
    {
        if self.cal_mode {
            return Err(1);
        }
        self.cal_mode = true;
        self.cal_timeout_sec = 0;
        self.state = CalState::Idle;
        Ok(())
    }

    /// Leave calibration mode.
    pub fn exit_cal_mode(&mut self)
        ensures
            *final(self) == (CalibrationManager {
                cal_mode: false,
                state: CalState::Idle,
                cal_timeout_sec: 0,
                ..*old(self)
            }),
    {
        self.cal_mode = false;
        self.state = CalState::Idle;
        self.cal_timeout_sec = 0;
    }

    /// Handle a calibration command. Errors: 1 entering calibration mode
    /// twice, 2 a calibration step or save outside calibration mode, 10 a
    /// parameter block shorter than `DATA_SIZE`, 11 a parameter block that
    /// is not a valid record.
    pub fn handle_command(&mut self, cmd: CalCommand, data: &[u8]) -> (r: Result<(), u32>)
        requires
            cmd == CalCommand::WriteParams ==> data@.len() < 116 || data@.len() >= 120,
        ensures
            (match cmd {
                CalCommand::EnterCalMode => if old(self).cal_mode {
                    r == Err::<(), u32>(1) && *final(self) == *old(self)
                } else {
                    r == Ok::<(), u32>(()) && *final(self) == (CalibrationManager {
                        cal_mode: true,
                        cal_timeout_sec: 0,
                        state: CalState::Idle,
                        ..*old(self)
                    })
                },
                CalCommand::ExitCalMode => r == Ok::<(), u32>(()) && *final(self) == (CalibrationManager {
                    cal_mode: false,
                    state: CalState::Idle,
                    cal_timeout_sec: 0,
                    ..*old(self)
                }),
                CalCommand::ReadParams => r == Ok::<(), u32>(()) && *final(self) == *old(self),
                CalCommand::ReadResult => r == Ok::<(), u32>(()) && *final(self) == *old(self),
                CalCommand::WriteParams => if data@.len() < 116 {
                    r == Err::<(), u32>(10) && *final(self) == *old(self)
                } else {
                    let p = cal_data_parse(data@);
                    if p.magic == 0xCA1B_DA7Au32 && cal_data_crc(p) == p.crc {
                        r == Ok::<(), u32>(()) && *final(self) == (CalibrationManager { params: p, ..*old(self) })
                    } else {
                        r == Err::<(), u32>(11) && *final(self) == *old(self)
                    }
                },
                CalCommand::StartVoltageCal => cal_step_started(*old(self), *final(self), r, CalState::CalVoltage),
                CalCommand::StartCurrentCal => cal_step_started(*old(self), *final(self), r, CalState::CalCurrent),
                CalCommand::StartActivePowerCal => cal_step_started(*old(self), *final(self), r, CalState::CalActivePower),
                CalCommand::StartReactivePowerCal => cal_step_started(*old(self), *final(self), r, CalState::CalReactivePower),
                CalCommand::StartPhaseCal => cal_step_started(*old(self), *final(self), r, CalState::CalPhase),
                CalCommand::StartTest => if !old(self).cal_mode {
                    r == Err::<(), u32>(2) && *final(self) == *old(self)
                } else {
                    r == Ok::<(), u32>(()) && *final(self) == (CalibrationManager {
                        state: CalState::StartTest,
                        start_test_seconds: 0,
                        ..*old(self)
                    })
                },
                CalCommand::CreepTest => if !old(self).cal_mode {
                    r == Err::<(), u32>(2) && *final(self) == *old(self)
                } else {
                    r == Ok::<(), u32>(()) && *final(self) == (CalibrationManager {
                        state: CalState::CreepTest,
                        creep_pulse_count: 0,
                        ..*old(self)
                    })
                },
                CalCommand::SaveToFlash => if !old(self).cal_mode {
                    r == Err::<(), u32>(2) && *final(self) == *old(self)
                } else {
                    r == Ok::<(), u32>(()) && *final(self) == cal_manager_saved(*old(self))
                },
                CalCommand::FactoryReset => r == Ok::<(), u32>(()) && *final(self) == (CalibrationManager {
                    params: cal_data_default(),
                    state: CalState::Idle,
                    ..*old(self)
                }),
            }),
    {
        match cmd {
            CalCommand::EnterCalMode => self.enter_cal_mode(),
            CalCommand::ExitCalMode => {
                self.exit_cal_mode();
                Ok(())
            },
            CalCommand::ReadParams => {
                // the caller reads the parameters through `params()`
                Ok(())
            },
            CalCommand::WriteParams => {
                if data.len() < CalibrationData::DATA_SIZE {
                    return Err(10);
                }
                let new_params = CalibrationData::from_bytes(data);
                if !new_params.is_valid() {
                    return Err(11);
                }
                self.params = new_params;
                Ok(())
            },
            CalCommand::StartVoltageCal => {
                if !self.cal_mode {
                    return Err(2);
                }
                self.state = CalState::CalVoltage;
                Ok(())
            },
            CalCommand::StartCurrentCal => {
                if !self.cal_mode {
                    return Err(2);
                }
                self.state = CalState::CalCurrent;
                Ok(())
            },
            CalCommand::StartActivePowerCal => {
                if !self.cal_mode {
                    return Err(2);
                }
                self.state = CalState::CalActivePower;
                Ok(())
            },
            CalCommand::StartReactivePowerCal => {
                if !self.cal_mode {
                    return Err(2);
                }
                self.state = CalState::CalReactivePower;
                Ok(())
            },
            CalCommand::StartPhaseCal => {
                if !self.cal_mode {
                    return Err(2);
                }
                self.state = CalState::CalPhase;
                Ok(())
            },
            CalCommand::StartTest => {
                if !self.cal_mode {
                    return Err(2);
                }
                self.state = CalState::StartTest;
                self.start_test_seconds = 0;
                Ok(())
            },
            CalCommand::CreepTest => {
                if !self.cal_mode {
                    return Err(2);
                }
                self.state = CalState::CreepTest;
                self.creep_pulse_count = 0;
                Ok(())
            },
            CalCommand::ReadResult => Ok(()),
            CalCommand::SaveToFlash => {
                if !self.cal_mode {
                    return Err(2);
                }
                self.save_params();
                Ok(())
            },
            CalCommand::FactoryReset => {
                self.params = CalibrationData::new();
                self.state = CalState::Idle;
                Ok(())
            },
        }
    }

    /// Active energy calibration by pulse comparison on `phase` (0..2 for
    /// A..C, 3 for the combined meter, whose correction goes to phase A):
    /// error = (meter - std) / std, and the active power gain is scaled by
    /// std / meter. Passes within +/-0.50 %. Rejected (error 20) when
    /// `std_pulses` is zero or `phase` is out of range.
    pub fn calibrate_active_power(&mut self, std_pulses: u32, meter_pulses: u32, phase: usize) -> (r: CalMeasurement)
        requires
            std_pulses != 0 && phase <= 3 ==> {
                &&& meter_pulses != 0
                &&& cal_gain_fits(old(self).params.power_gain[gain_index(phase)], std_pulses as int)
            },
        ensures
            std_pulses == 0 || phase > 3 ==> r == measurement_none() && *final(self) == (CalibrationManager {
                state: CalState::Failed,
                error_code: 20,
                ..*old(self)
            }),
            std_pulses != 0 && phase <= 3 ==> {
                let idx = gain_index(phase);
                let m = cal_step_measurement(std_pulses, meter_pulses, 50);
                &&& r == m
                &&& final(self).params.power_gain@ == old(self).params.power_gain@.update(
                    idx,
                    cal_new_gain(old(self).params.power_gain[idx], std_pulses as int, meter_pulses as int),
                )
                &&& *final(self) == (CalibrationManager {
                    params: CalibrationData { power_gain: final(self).params.power_gain, ..old(self).params },
                    state: if m.passed { CalState::Done } else { CalState::CalActivePower },
                    last_measurement: m,
                    ..*old(self)
                })
            },
    {
        if std_pulses == 0 || phase > 3 {
            self.state = CalState::Failed;
            self.error_code = 20;
            return CalMeasurement::default();
        }
        let idx: usize = if phase < 3 { phase } else { 0 };
        let (error_pct, new_gain) = compare_readings(std_pulses, meter_pulses, self.params.power_gain[idx]);
        self.params.power_gain[idx] = new_gain;
        let passed = (if error_pct < 0 { -error_pct } else { error_pct }) <= 50;
        let result = CalMeasurement {
            reference: std_pulses as i32,
            measured: meter_pulses as i32,
            error_pct,
            passed,
        };
        if passed {
            self.state = CalState::Done;
        } else {
            self.state = CalState::CalActivePower;
        }
        self.last_measurement = result;
        result
    }

    /// Reactive energy calibration by pulse comparison, as for active
    /// energy but on the reactive gain, passing within +/-2.00 %; rejected
    /// with error 21.
    pub fn calibrate_reactive_power(&mut self, std_pulses: u32, meter_pulses: u32, phase: usize) -> (r: CalMeasurement)
        requires
            std_pulses != 0 && phase <= 3 ==> {
                &&& meter_pulses != 0
                &&& cal_gain_fits(old(self).params.reactive_gain[gain_index(phase)], std_pulses as int)
            },
        ensures
            std_pulses == 0 || phase > 3 ==> r == measurement_none() && *final(self) == (CalibrationManager {
                state: CalState::Failed,
                error_code: 21,
                ..*old(self)
            }),
            std_pulses != 0 && phase <= 3 ==> {
                let idx = gain_index(phase);
                let m = cal_step_measurement(std_pulses, meter_pulses, 200);
                &&& r == m
                &&& final(self).params.reactive_gain@ == old(self).params.reactive_gain@.update(
                    idx,
                    cal_new_gain(old(self).params.reactive_gain[idx], std_pulses as int, meter_pulses as int),
                )
                &&& *final(self) == (CalibrationManager {
                    params: CalibrationData { reactive_gain: final(self).params.reactive_gain, ..old(self).params },
                    state: if m.passed { CalState::Done } else { CalState::CalReactivePower },
                    last_measurement: m,
                    ..*old(self)
                })
            },
    {
        if std_pulses == 0 || phase > 3 {
            self.state = CalState::Failed;
            self.error_code = 21;
            return CalMeasurement::default();
        }
        let idx: usize = if phase < 3 { phase } else { 0 };
        let (error_pct, new_gain) = compare_readings(std_pulses, meter_pulses, self.params.reactive_gain[idx]);
        self.params.reactive_gain[idx] = new_gain;
        let passed = (if error_pct < 0 { -error_pct } else { error_pct }) <= 200;
        let result = CalMeasurement {
            reference: std_pulses as i32,
            measured: meter_pulses as i32,
            error_pct,
            passed,
        };
        if passed {
            self.state = CalState::Done;
        } else {
            self.state = CalState::CalReactivePower;
        }
        self.last_measurement = result;
        result
    }

    /// Voltage channel gain calibration on `phase` (0..2) against a
    /// reference reading (0.01 V); passes within +/-0.50 %. Rejected
    /// (error 22) when `phase` is out of range or the measured reading is 0.
    pub fn calibrate_voltage(&mut self, phase: usize, std_voltage: u32, measured_voltage: u32) -> (r: CalMeasurement)
        requires
            phase <= 2 && measured_voltage != 0 ==> {
                &&& std_voltage != 0
                &&& cal_gain_fits(old(self).params.voltage_gain[phase as int], std_voltage as int)
            },
        ensures
            phase > 2 || measured_voltage == 0 ==> r == measurement_none() && *final(self) == (CalibrationManager {
                state: CalState::Failed,
                error_code: 22,
                ..*old(self)
            }),
            phase <= 2 && measured_voltage != 0 ==> {
                let m = cal_step_measurement(std_voltage, measured_voltage, 50);
                &&& r == m
                &&& final(self).params.voltage_gain@ == old(self).params.voltage_gain@.update(
                    phase as int,
                    cal_new_gain(old(self).params.voltage_gain[phase as int], std_voltage as int, measured_voltage as int),
                )
                &&& *final(self) == (CalibrationManager {
                    params: CalibrationData { voltage_gain: final(self).params.voltage_gain, ..old(self).params },
                    state: if m.passed { CalState::Done } else { CalState::CalVoltage },
                    last_measurement: m,
                    ..*old(self)
                })
            },
    {
        if phase > 2 || measured_voltage == 0 {
            self.state = CalState::Failed;
            self.error_code = 22;
            return CalMeasurement::default();
        }
        let (error_pct, new_gain) = compare_readings(std_voltage, measured_voltage, self.params.voltage_gain[phase]);
        self.params.voltage_gain[phase] = new_gain;
        let passed = (if error_pct < 0 { -error_pct } else { error_pct }) <= 50;
        let result = CalMeasurement {
            reference: std_voltage as i32,
            measured: measured_voltage as i32,
            error_pct,
            passed,
        };
        if passed {
            self.state = CalState::Done;
        } else {
            self.state = CalState::CalVoltage;
        }
        self.last_measurement = result;
        result
    }

    /// Current channel gain calibration on `phase` (0..2) against a
    /// reference reading (mA); passes within +/-0.50 %. Rejected (error
    /// 23) when `phase` is out of range or the measured reading is 0.
    pub fn calibrate_current(&mut self, phase: usize, std_current: u32, measured_current: u32) -> (r: CalMeasurement)
        requires
            phase <= 2 && measured_current != 0 ==> {
                &&& std_current != 0
                &&& cal_gain_fits(old(self).params.current_gain[phase as int], std_current as int)
            },
        ensures
            phase > 2 || measured_current == 0 ==> r == measurement_none() && *final(self) == (CalibrationManager {
                state: CalState::Failed,
                error_code: 23,
                ..*old(self)
            }),
            phase <= 2 && measured_current != 0 ==> {
                let m = cal_step_measurement(std_current, measured_current, 50);
                &&& r == m
                &&& final(self).params.current_gain@ == old(self).params.current_gain@.update(
                    phase as int,
                    cal_new_gain(old(self).params.current_gain[phase as int], std_current as int, measured_current as int),
                )
                &&& *final(self) == (CalibrationManager {
                    params: CalibrationData { current_gain: final(self).params.current_gain, ..old(self).params },
                    state: if m.passed { CalState::Done } else { CalState::CalCurrent },
                    last_measurement: m,
                    ..*old(self)
                })
            },
    {
        if phase > 2 || measured_current == 0 {
            self.state = CalState::Failed;
            self.error_code = 23;
            return CalMeasurement::default();
        }
        let (error_pct, new_gain) = compare_readings(std_current, measured_current, self.params.current_gain[phase]);
        self.params.current_gain[phase] = new_gain;
        let passed = (if error_pct < 0 { -error_pct } else { error_pct }) <= 50;
        let result = CalMeasurement {
            reference: std_current as i32,
            measured: measured_current as i32,
            error_pct,
            passed,
        };
        if passed {
            self.state = CalState::Done;
        } else {
            self.state = CalState::CalCurrent;
        }
        self.last_measurement = result;
        result
    }

    /// Phase compensation on `phase` (0..2) from power factors (0.001):
    /// the difference d = measured - target (narrowed to 16 bits) gives a
    /// Q8.8 offset of d * 10 / 8 and an error of d * 10 (0.01 %), passing
    /// within +/-0.50 %. Rejected (error 24) when `phase` is out of range
    /// or the target is 0.
    pub fn calibrate_phase(&mut self, phase: usize, target_pf: u16, measured_pf: u16) -> (r: CalMeasurement)
        requires
            phase <= 2 && target_pf != 0 ==> -3276 <= ((measured_pf - target_pf) as i16) <= 3276,
        ensures
            phase > 2 || target_pf == 0 ==> r == measurement_none() && *final(self) == (CalibrationManager {
                state: CalState::Failed,
                error_code: 24,
                ..*old(self)
            }),
            phase <= 2 && target_pf != 0 ==> {
                let d = (measured_pf - target_pf) as i16;
                let e = d * 10;
                let m = CalMeasurement {
                    reference: target_pf as i32,
                    measured: measured_pf as i32,
                    error_pct: e as i16,
                    passed: -50 <= e <= 50,
                };
                &&& r == m
                &&& final(self).params.phase_offset@ == old(self).params.phase_offset@.update(
                    phase as int,
                    div_trunc(d * 10, 8) as i16,
                )
                &&& *final(self) == (CalibrationManager {
                    params: CalibrationData { phase_offset: final(self).params.phase_offset, ..old(self).params },
                    state: if m.passed { CalState::Done } else { CalState::CalPhase },
                    last_measurement: m,
                    ..*old(self)
                })
            },
    {
        if phase > 2 || target_pf == 0 {
            self.state = CalState::Failed;
            self.error_code = 24;
            return CalMeasurement::default();
        }
        let pf_diff: i16 = ((measured_pf as i32) - (target_pf as i32)) as i16;
        let phase_comp: i16 = (pf_diff * 10) / 8;
        self.params.phase_offset[phase] = phase_comp;
        let error_pct: i16 = pf_diff * 10;
        let passed = (if error_pct < 0 { -error_pct } else { error_pct }) <= 50;
        let result = CalMeasurement {
            reference: target_pf as i32,
            measured: measured_pf as i32,
            error_pct,
            passed,
        };
        if passed {
            self.state = CalState::Done;
        } else {
            self.state = CalState::CalPhase;
        }
        self.last_measurement = result;
        result
    }

    /// One second of the start test; `true` once the test has run for
    /// `START_TEST_SECONDS`. Does nothing outside the start test.
    pub fn start_test_tick(&mut self) -> (r: bool)
        requires
            old(self).state == CalState::StartTest ==> old(self).start_test_seconds < u32::MAX,
        ensures
            old(self).state != CalState::StartTest ==> !r && *final(self) == *old(self),
            old(self).state == CalState::StartTest ==> {
                &&& *final(self) == (CalibrationManager { start_test_seconds: (old(self).start_test_seconds + 1) as u32, ..*old(self) })
                &&& r == (old(self).start_test_seconds + 1 >= START_TEST_SECONDS)
            },
    {
        if self.state != CalState::StartTest {
            return false;
        }
        self.start_test_seconds = self.start_test_seconds + 1;
        self.start_test_seconds >= START_TEST_SECONDS
    }

    /// Report the start-test pulse check of one second: a detected pulse
    /// passes the test; otherwise the second is counted and the test fails
    /// (error 30) once `START_TEST_SECONDS` have passed without a pulse.
    /// Does nothing outside the start test.
    pub fn start_test_report(&mut self, detected: bool) -> (r: bool)
        requires
            old(self).state == CalState::StartTest && !detected ==> old(self).start_test_seconds < u32::MAX,
        ensures
            old(self).state != CalState::StartTest ==> !r && *final(self) == *old(self),
            old(self).state == CalState::StartTest && detected ==> r && *final(self) == (CalibrationManager {
                state: CalState::Done,
                ..*old(self)
            }),
            old(self).state == CalState::StartTest && !detected ==> {
                let t = (old(self).start_test_seconds + 1) as u32;
                &&& !r
                &&& t >= START_TEST_SECONDS ==> *final(self) == (CalibrationManager {
                    start_test_seconds: t,
                    state: CalState::Failed,
                    error_code: 30,
                    ..*old(self)
                })
                &&& t < START_TEST_SECONDS ==> *final(self) == (CalibrationManager { start_test_seconds: t, ..*old(self) })
            },
    {
        if self.state != CalState::StartTest {
            return false;
        }
        if detected {
            self.state = CalState::Done;
            return true;
        }
        self.start_test_seconds = self.start_test_seconds + 1;
        if self.start_test_seconds >= START_TEST_SECONDS {
            self.state = CalState::Failed;
            self.error_code = 30;
        }
        false
    }

    /// One second of the creep test, with whether a pulse was seen. After
    /// `CREEP_TEST_SECONDS` the test passes when fewer pulses than the
    /// creep threshold were seen (state `Done`, error 0), else fails
    /// (state `Failed`, error 31). Does nothing outside the creep test.
    pub fn creep_test_tick(&mut self, pulse_detected: bool) -> (r: bool)
        requires
            old(self).state == CalState::CreepTest ==> old(self).creep_seconds < u32::MAX,
            old(self).state == CalState::CreepTest && pulse_detected ==> old(self).creep_pulse_count < u32::MAX,
        ensures
            old(self).state != CalState::CreepTest ==> !r && *final(self) == *old(self),
            old(self).state == CalState::CreepTest ==> {
                let count = if pulse_detected { (old(self).creep_pulse_count + 1) as u32 } else { old(self).creep_pulse_count };
                let secs = (old(self).creep_seconds + 1) as u32;
                let passed = count < old(self).params.creep_threshold;
                &&& secs < CREEP_TEST_SECONDS ==> !r && *final(self) == (CalibrationManager {
                    creep_pulse_count: count,
                    creep_seconds: secs,
                    ..*old(self)
                })
                &&& secs >= CREEP_TEST_SECONDS ==> r == passed && *final(self) == (CalibrationManager {
                    creep_pulse_count: count,
                    creep_seconds: secs,
                    state: if passed { CalState::Done } else { CalState::Failed },
                    error_code: if passed { 0 } else { 31 },
                    ..*old(self)
                })
            },
    {
        if self.state != CalState::CreepTest {
            return false;
        }
        if pulse_detected {
            self.creep_pulse_count = self.creep_pulse_count + 1;
        }
        self.creep_seconds = self.creep_seconds + 1;
        if self.creep_seconds >= CREEP_TEST_SECONDS {
            let passed = self.creep_pulse_count < self.params.creep_threshold as u32;
            self.state = if passed { CalState::Done } else { CalState::Failed };
            self.error_code = if passed { 0 } else { 31 };
            passed
        } else {
            false
        }
    }

    /// Save the parameters with the two-slot scheme: the record goes,
    /// sealed with its CRC, to the slot that is not active, and that slot
    /// becomes the active one.
    pub fn save_params(&mut self)
        ensures
            *final(self) == cal_manager_saved(*old(self)),
    {
        let mut new_params = self.params;
        let next_slot: u16 = if new_params.active_slot == 0 { 1 } else { 0 };
        new_params.active_slot = next_slot;
        new_params.update_crc();
        // the sealed record `new_params` is what goes to the inactive slot
        self.params.active_slot = next_slot;
    }

    /// Load the parameters from flash: not available, nothing is loaded.
    pub fn load_params(&mut self) -> (r: bool)
        ensures
            !r,
            *final(self) == *old(self),
    {
        false
    }

    /// Called every second: leaves calibration mode once the timeout is reached.
    pub fn tick_second(&mut self)
        requires
            old(self).cal_mode ==> old(self).cal_timeout_sec < u32::MAX,
        ensures
            !old(self).cal_mode ==> *final(self) == *old(self),
            old(self).cal_mode && old(self).cal_timeout_sec + 1 < old(self).cal_timeout_max ==> *final(self) == (CalibrationManager {
                cal_timeout_sec: (old(self).cal_timeout_sec + 1) as u32,
                ..*old(self)
            }),
            old(self).cal_mode && old(self).cal_timeout_sec + 1 >= old(self).cal_timeout_max ==> *final(self) == (CalibrationManager {
                cal_mode: false,
                state: CalState::Idle,
                cal_timeout_sec: 0,
                ..*old(self)
            }),
    {
        if !self.cal_mode {
            return;
        }
        self.cal_timeout_sec = self.cal_timeout_sec + 1;
        if self.cal_timeout_sec >= self.cal_timeout_max {
            self.exit_cal_mode();
        }
    }
}

impl Default for CalibrationManager {
    fn default() -> (r: Self)
        ensures
            r == cal_manager_initial(),
    {
        Self::new()
    }
}

/// A freshly created manager.
pub open spec fn cal_manager_initial() -> CalibrationManager {
    CalibrationManager {
        state: CalState::Idle,
        params: cal_data_default(),
        cal_mode: false,
        cal_timeout_sec: 0,
        cal_timeout_max: CAL_TIMEOUT_DEFAULT,
        last_measurement: measurement_none(),
        error_code: 0,
        creep_pulse_count: 0,
        start_test_seconds: 0,
        creep_seconds: 0,
    }
}

/// The manager after saving: the other slot is active.
pub open spec fn cal_manager_saved(m: CalibrationManager) -> CalibrationManager {
    CalibrationManager {
        params: CalibrationData { active_slot: if m.params.active_slot == 0 { 1u16 } else { 0u16 }, ..m.params },
        ..m
    }
}

/// Starting a calibration step: refused with error 2 outside calibration
/// mode, else the state becomes `next`.
pub open spec fn cal_step_started(
    old_m: CalibrationManager,
    new_m: CalibrationManager,
    r: Result<(), u32>,
    next: CalState,
) -> bool {
    if !old_m.cal_mode {
        r == Err::<(), u32>(2) && new_m == old_m
    } else {
        r == Ok::<(), u32>(()) && new_m == (CalibrationManager { state: next, ..old_m })
    }
}

/// The gain slot a pulse calibration of `phase` corrects (the combined
/// meter, phase 3, corrects phase A).
pub open spec fn gain_index(phase: usize) -> int {
    if phase < 3 { phase as int } else { 0 }
}

/// Compare a reading against a reference: the 16-bit error (0.01 %) and
/// the corrected gain.
fn compare_readings(reference: u32, measured: u32, old_gain: i32) -> (r: (i16, i32))
    requires
        reference != 0,
        measured != 0,
        cal_gain_fits(old_gain, reference as int),
    ensures
        r.0 == cal_error_pct(measured as int, reference as int),
        r.1 == cal_new_gain(old_gain, reference as int, measured as int),
{
    let diff: i64 = (measured as i64) - (reference as i64);
    let error_raw: i64 = (diff * 10000) / (reference as i64);
    let g: i64 = old_gain as i64;
    let rf: i64 = reference as i64;
    assert(-0x8000_0000_0000_0000 < g * rf < 0x8000_0000_0000_0000) by (nonlinear_arith)
        requires
            -0x8000_0000 <= g < 0x8000_0000,
            0 < rf < 0x1_0000_0000,
    ;
    let scaled: i64 = g * rf * 65536;
    let new_gain: i64 = scaled / (measured as i64) / 65536;
    let e: i16 = if error_raw > 32767 {
        32767
    } else if error_raw < -32767 {
        -32767
    } else {
        error_raw as i16
    };
    (e, new_gain as i32)
}

pub fn read_u16_le(b: &[u8], off: usize) -> (r: u16)
    requires
        off + 2 <= b@.len(),
    ensures
        r == le_u16_at(b@, off as int),
{
    ((b[off] as u16) | ((b[off + 1] as u16) << 8)) as u16
}

pub fn read_u32_le(b: &[u8], off: usize) -> (r: u32)
    requires
        off + 4 <= b@.len(),
    ensures
        r == le_u32_at(b@, off as int),
{
    ((b[off] as u32) | ((b[off + 1] as u32) << 8) | ((b[off + 2] as u32) << 16) | ((b[off + 3] as u32) << 24)) as u32
}

} // verus!
