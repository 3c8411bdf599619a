use vstd::prelude::*;
use vstd::array::array_as_slice;
use vstd::slice::slice_subrange;

use crate::hal::{Parity, UartConfig, UartDriver, UartError, UartExchange};

verus! {

/// HDLC flag byte (frame delimiter).
pub const HDLC_FLAG: u8 = 0x7E;
/// HDLC escape byte.
pub const HDLC_ESCAPE: u8 = 0x7D;
/// HDLC escape XOR mask.
pub const HDLC_ESCAPE_MASK: u8 = 0x20;

/* ---------------- FCS-16 (CRC-16/HDLC, reflected polynomial 0x8408) ---------------- */

/// One bit step of the reflected CRC-16/HDLC register.
pub open spec fn crc16_bit_step(crc: u16) -> u16 {
    if crc & 1 != 0 { (crc >> 1) ^ 0x8408u16 } else { crc >> 1 }
}

/// `n` bit steps of the CRC register.
pub open spec fn crc16_bit_steps(crc: u16, n: nat) -> u16
    decreases n,
{
    if n == 0 { crc } else { crc16_bit_steps(crc16_bit_step(crc), (n - 1) as nat) }
}

/// Entry `i` of the byte-wise FCS-16 table (eight bit steps applied to `i`).
pub open spec fn fcs16_table_spec(i: u16) -> u16 {
    crc16_bit_steps(i, 8)
}

/// Absorb one byte into the FCS-16 register.
pub open spec fn fcs16_update(crc: u16, b: u8) -> u16 {
    (crc >> 8) ^ fcs16_table_spec((crc ^ (b as u16)) & 0xFF)
}

/// FCS-16 register after absorbing all of `data`, starting from 0xFFFF.
pub open spec fn fcs16_register(data: Seq<u8>) -> u16
    decreases data.len(),
{
    if data.len() == 0 {
        0xFFFFu16
    } else {
        fcs16_update(fcs16_register(data.drop_last()), data.last())
    }
}

/// FCS-16 of `data`: the final register value, complemented.
pub open spec fn fcs16_spec(data: Seq<u8>) -> u16 {
    !fcs16_register(data)
}

/// Compute one entry of the byte-wise FCS-16 table.
pub fn fcs16_table_entry(i: u16) -> (r: u16)
    ensures
        r == fcs16_table_spec(i),
{
    let mut crc: u16 = i;
    let mut j: u16 = 0;
    while j < 8
        invariant
            j <= 8,
            crc16_bit_steps(i, 8) == crc16_bit_steps(crc, (8 - j) as nat),
        decreases 8 - j,
    {
        if crc & 1 != 0 {
            crc = (crc >> 1) ^ 0x8408;
        } else {
            crc = crc >> 1;
        }
        j = j + 1;
    }
    crc
}

/// Compute FCS-16 (CRC-16/HDLC) over a byte slice.
pub fn fcs16(data: &[u8]) -> (r: u16)
    ensures
        r == fcs16_spec(data@),
{
    let mut crc: u16 = 0xFFFF;
    let mut i: usize = 0;
    while i < data.len()
        invariant
            i <= data.len(),
            crc == fcs16_register(data@.subrange(0, i as int)),
        decreases data.len() - i,
    {
        proof {
            assert(data@.subrange(0, i + 1).drop_last() =~= data@.subrange(0, i as int));
        }
        crc = (crc >> 8) ^ fcs16_table_entry((crc ^ (data[i] as u16)) & 0xFF);
        i = i + 1;
    }
    proof {
        assert(data@.subrange(0, data.len() as int) =~= data@);
    }
    !crc
}


/* ---------------- HDLC byte stuffing ---------------- */

/// Byte-stuffed form of one byte: flag and escape bytes become an escape
/// pair, every other byte stands for itself.
pub open spec fn hdlc_stuff_byte(b: u8) -> Seq<u8> {
    if b == HDLC_FLAG || b == HDLC_ESCAPE {
        seq![HDLC_ESCAPE, b ^ HDLC_ESCAPE_MASK]
    } else {
        seq![b]
    }
}

/// Byte-stuffed form of a byte sequence.
pub open spec fn hdlc_stuff(s: Seq<u8>) -> Seq<u8>
    decreases s.len(),
{
    if s.len() == 0 {
        Seq::empty()
    } else {
        hdlc_stuff(s.drop_last()) + hdlc_stuff_byte(s.last())
    }
}

/// FCS-16 field as transmitted: low byte first.
pub open spec fn fcs16_field(f: u16) -> Seq<u8> {
    seq![f as u8, (f >> 8) as u8]
}

/// Payload followed by its FCS field.
pub open spec fn hdlc_with_fcs(payload: Seq<u8>) -> Seq<u8> {
    payload + fcs16_field(fcs16_spec(payload))
}

/// Complete on-the-wire frame: flag, stuffed payload and FCS, flag.
pub open spec fn hdlc_encode(payload: Seq<u8>) -> Seq<u8> {
    seq![HDLC_FLAG] + hdlc_stuff(hdlc_with_fcs(payload)) + seq![HDLC_FLAG]
}

/// HDLC frame payload (address, control, information) before FCS.
pub open spec fn hdlc_payload(address: Seq<u8>, control: u8, information: Seq<u8>) -> Seq<u8> {
    address + seq![control] + information
}

/// Maximum number of unstuffed bytes a parsed frame can hold.
pub const HDLC_FRAME_CAPACITY: usize = 256;

/// Remove byte stuffing from `raw`, appending to `out`.  Flags inside the
/// raw bytes are skipped; an escape as the last byte is invalid; more than
/// `HDLC_FRAME_CAPACITY` unstuffed bytes overflow the frame buffer.
pub open spec fn hdlc_unstuff_from(raw: Seq<u8>, out: Seq<u8>) -> Result<Seq<u8>, HdlcError>
    decreases raw.len(),
{
    if raw.len() == 0 {
        Ok(out)
    } else if out.len() >= HDLC_FRAME_CAPACITY {
        Err(HdlcError::Overflow)
    } else if raw[0] == HDLC_ESCAPE {
        if raw.len() < 2 {
            Err(HdlcError::InvalidEscape)
        } else {
            hdlc_unstuff_from(raw.skip(2), out.push(raw[1] ^ HDLC_ESCAPE_MASK))
        }
    } else if raw[0] == HDLC_FLAG {
        hdlc_unstuff_from(raw.skip(1), out)
    } else {
        hdlc_unstuff_from(raw.skip(1), out.push(raw[0]))
    }
}

/// Little-endian 16-bit value of two bytes.
pub open spec fn le16(lo: u8, hi: u8) -> u16 {
    (lo as u16) | ((hi as u16) << 8)
}

/// Result of parsing raw (still stuffed) frame bytes: the payload without
/// FCS, or the error the parser reports.
pub open spec fn hdlc_parse_spec(raw: Seq<u8>) -> Result<Seq<u8>, HdlcError> {
    if raw.len() < 4 {
        Err(HdlcError::TooShort)
    } else {
        match hdlc_unstuff_from(raw, Seq::empty()) {
            Err(e) => Err(e),
            Ok(u) => {
                if u.len() < 4 {
                    Err(HdlcError::TooShort)
                } else {
                    let p = u.subrange(0, u.len() - 2);
                    if fcs16_spec(p) == le16(u[u.len() - 2], u[u.len() - 1]) {
                        Ok(p)
                    } else {
                        Err(HdlcError::FcsError)
                    }
                }
            },
        }
    }
}

/// Length of the HDLC address field of `d`: up to the first of the first
/// four bytes whose LSB is set; otherwise one byte (or none if `d` is empty).
pub open spec fn hdlc_address_len_from(d: Seq<u8>, i: int) -> int
    decreases 4 - i,
{
    if i >= d.len() || i >= 4 || i < 0 {
        if d.len() >= 1 { 1 } else { 0 }
    } else if d[i] & 1 != 0 {
        i + 1
    } else {
        hdlc_address_len_from(d, i + 1)
    }
}

/// Length of the address field of a frame payload.
pub open spec fn hdlc_address_len(d: Seq<u8>) -> int {
    hdlc_address_len_from(d, 0)
}

/// Control byte of a frame payload (0 when absent).
pub open spec fn hdlc_control_spec(d: Seq<u8>) -> u8 {
    if hdlc_address_len(d) < d.len() { d[hdlc_address_len(d)] } else { 0 }
}

/// Information field of a frame payload (empty when absent).
pub open spec fn hdlc_information_spec(d: Seq<u8>) -> Seq<u8> {
    if hdlc_address_len(d) + 1 < d.len() {
        d.subrange(hdlc_address_len(d) + 1, d.len() as int)
    } else {
        Seq::empty()
    }
}

/// A well-formed HDLC address: one to four bytes, only the last with LSB set.
pub open spec fn hdlc_address_ok(a: Seq<u8>) -> bool {
    &&& 1 <= a.len() <= 4
    &&& a.last() & 1 != 0
    &&& forall|i: int| 0 <= i < a.len() - 1 ==> #[trigger] a[i] & 1 == 0
}

/// U-frame modifier bits of a control byte.
pub open spec fn u_modifier(c: u8) -> u8 {
    (c & 0xE0) | ((c & 0x0C) << 2)
}

/// U-frame subtype of a control byte.
pub open spec fn u_frame_type_spec(c: u8) -> UFrameType {
    if c & 0x03 != 0x03 {
        UFrameType::Unknown(c)
    } else {
        let m = u_modifier(c);
        if 0x80 <= m <= 0x83 {
            UFrameType::Snrm
        } else if 0x40 <= m <= 0x43 {
            UFrameType::Disc
        } else if 0x60 <= m <= 0x63 {
            UFrameType::Ua
        } else if (0x10 <= m <= 0x13) || (0x30 <= m <= 0x33) {
            UFrameType::Dm
        } else if 0x84 <= m <= 0x87 {
            UFrameType::Frmr
        } else {
            UFrameType::Unknown(c)
        }
    }
}

/* ---------------- Lemmas on stuffing ---------------- */

/// Stuffing distributes over concatenation.
pub proof fn lemma_stuff_concat(a: Seq<u8>, b: Seq<u8>)
    ensures
        hdlc_stuff(a + b) == hdlc_stuff(a) + hdlc_stuff(b),
    decreases b.len(),
{
    if b.len() == 0 {
        assert(a + b =~= a);
        assert(hdlc_stuff(b) =~= Seq::<u8>::empty());
        assert(hdlc_stuff(a) + hdlc_stuff(b) =~= hdlc_stuff(a));
    } else {
        lemma_stuff_concat(a, b.drop_last());
        assert((a + b).drop_last() =~= a + b.drop_last());
        assert((a + b).last() == b.last());
        assert(hdlc_stuff(a) + hdlc_stuff(b) =~= hdlc_stuff(a) + hdlc_stuff(b.drop_last())
            + hdlc_stuff_byte(b.last()));
    }
}

/// Stuffing around one position: the bytes before it, the byte itself, the rest.
pub proof fn lemma_stuff_split(w: Seq<u8>, i: int)
    requires
        0 <= i < w.len(),
    ensures
        hdlc_stuff(w) == hdlc_stuff(w.subrange(0, i)) + hdlc_stuff_byte(w[i]) + hdlc_stuff(
            w.subrange(i + 1, w.len() as int),
        ),
{
    lemma_stuff_concat(w.subrange(0, i + 1), w.subrange(i + 1, w.len() as int));
    assert(w.subrange(0, i + 1) + w.subrange(i + 1, w.len() as int) =~= w);
    assert(w.subrange(0, i + 1).drop_last() =~= w.subrange(0, i));
    assert(w.subrange(0, i + 1).last() == w[i]);
}

/// Writing one position of a buffer whose tail agrees with another buffer
/// keeps the tail after that position in agreement.
pub proof fn lemma_tail_after_write(a: Seq<u8>, b: Seq<u8>, p: int, x: u8)
    requires
        a.len() == b.len(),
        0 <= p < a.len(),
        a.subrange(p, a.len() as int) == b.subrange(p, b.len() as int),
    ensures
        a.update(p, x).subrange(p + 1, a.len() as int) == b.subrange(p + 1, b.len() as int),
{
    assert forall|k: int| 0 <= k < a.len() - (p + 1) implies #[trigger] a.update(p, x).subrange(
        p + 1,
        a.len() as int,
    )[k] == b.subrange(p + 1, b.len() as int)[k] by {
        assert(a.subrange(p, a.len() as int)[k + 1] == b.subrange(p, b.len() as int)[k + 1]);
    }
    assert(a.update(p, x).subrange(p + 1, a.len() as int) =~= b.subrange(p + 1, b.len() as int));
}

/// Bounds of the address-length rule.
pub proof fn lemma_address_len_bounds(d: Seq<u8>, i: int)
    requires
        0 <= i,
    ensures
        0 <= hdlc_address_len_from(d, i) <= d.len(),
        hdlc_address_len_from(d, i) <= 4,
        d.len() >= 1 ==> hdlc_address_len_from(d, i) >= 1,
    decreases 4 - i,
{
    if !(i >= d.len() || i >= 4) && !(d[i] & 1 != 0) {
        lemma_address_len_bounds(d, i + 1);
    }
}

/// Stuffed bytes never contain a flag, and stuffing never shrinks the data.
pub proof fn lemma_stuff_no_flag(s: Seq<u8>)
    ensures
        forall|i: int| 0 <= i < hdlc_stuff(s).len() ==> #[trigger] hdlc_stuff(s)[i] != HDLC_FLAG,
        s.len() <= hdlc_stuff(s).len() <= 2 * s.len(),
    decreases s.len(),
{
    if s.len() > 0 {
        lemma_stuff_no_flag(s.drop_last());
        let b = s.last();
        assert(b ^ 0x20u8 != 0x7Eu8 || (b != 0x7Eu8 && b != 0x7Du8)) by (bit_vector);
        let prev = hdlc_stuff(s.drop_last());
        let tail = hdlc_stuff_byte(b);
        assert forall|i: int| 0 <= i < hdlc_stuff(s).len() implies #[trigger] hdlc_stuff(s)[i]
            != HDLC_FLAG by {
            if i < prev.len() {
                assert(hdlc_stuff(s)[i] == prev[i]);
            } else {
                assert(hdlc_stuff(s)[i] == tail[i - prev.len()]);
            }
        }
    }
}

/// Unstuffing the stuffed form of `s` (followed by more raw bytes `t`)
/// yields `s`, as long as the frame buffer does not overflow.
pub proof fn lemma_unstuff_stuff(s: Seq<u8>, t: Seq<u8>, out: Seq<u8>)
    requires
        out.len() + s.len() <= HDLC_FRAME_CAPACITY,
    ensures
        hdlc_unstuff_from(hdlc_stuff(s) + t, out) == hdlc_unstuff_from(t, out + s),
    decreases s.len(),
{
    if s.len() == 0 {
        assert(hdlc_stuff(s) =~= Seq::<u8>::empty());
        assert(hdlc_stuff(s) + t =~= t);
        assert(out + s =~= out);
    } else {
        let b = s[0];
        let rest = s.drop_first();
        assert(s =~= seq![b] + rest);
        lemma_stuff_concat(seq![b], rest);
        assert(seq![b].drop_last() =~= Seq::<u8>::empty());
        assert(hdlc_stuff(Seq::<u8>::empty()) =~= Seq::<u8>::empty());
        assert(hdlc_stuff(seq![b]) =~= hdlc_stuff_byte(b));
        let raw = hdlc_stuff(s) + t;
        assert(raw =~= hdlc_stuff_byte(b) + (hdlc_stuff(rest) + t));
        lemma_unstuff_stuff(rest, t, out.push(b));
        assert(out.push(b) + rest =~= out + s);
        if b == HDLC_FLAG || b == HDLC_ESCAPE {
            assert((b ^ 0x20u8) ^ 0x20u8 == b) by (bit_vector);
            assert(raw[0] == HDLC_ESCAPE);
            assert(raw[1] == b ^ HDLC_ESCAPE_MASK);
            assert(raw.skip(2) =~= hdlc_stuff(rest) + t);
        } else {
            assert(raw[0] == b);
            assert(raw.skip(1) =~= hdlc_stuff(rest) + t);
        }
    }
}

/// Splitting a 16-bit value into its transmitted bytes and back is the identity.
pub proof fn lemma_le16_roundtrip(f: u16)
    ensures
        le16(f as u8, (f >> 8) as u8) == f,
{
    assert(((f as u8) as u16) | ((((f >> 8) as u8) as u16) << 8) == f) by (bit_vector);
}

/// Law: parsing the stuffed form of a payload followed by its FCS gives the
/// payload back, for every payload of at least two bytes that fits the frame
/// buffer together with its FCS.
pub proof fn lemma_hdlc_parse_of_encoded(payload: Seq<u8>)
    requires
        2 <= payload.len(),
        payload.len() + 2 <= HDLC_FRAME_CAPACITY,
    ensures
        hdlc_parse_spec(hdlc_stuff(hdlc_with_fcs(payload))) == Ok::<Seq<u8>, HdlcError>(payload),
{
    let w = hdlc_with_fcs(payload);
    let raw = hdlc_stuff(w);
    lemma_stuff_no_flag(w);
    lemma_unstuff_stuff(w, Seq::empty(), Seq::empty());
    assert(raw + Seq::<u8>::empty() =~= raw);
    assert(Seq::<u8>::empty() + w =~= w);
    assert(hdlc_unstuff_from(Seq::<u8>::empty(), w) == Ok::<Seq<u8>, HdlcError>(w));
    let f = fcs16_spec(payload);
    assert(w.subrange(0, w.len() - 2) =~= payload);
    assert(w[w.len() - 2] == f as u8);
    assert(w[w.len() - 1] == (f >> 8) as u8);
    lemma_le16_roundtrip(f);
}

/// A well-formed address is recovered exactly by the address-length rule.
pub proof fn lemma_address_len_of_payload(a: Seq<u8>, rest: Seq<u8>, i: int)
    requires
        hdlc_address_ok(a),
        0 <= i < a.len(),
    ensures
        hdlc_address_len_from(a + rest, i) == a.len(),
    decreases a.len() - i,
{
    let d = a + rest;
    assert(d[i] == a[i]);
    if i < a.len() - 1 {
        assert(a[i] & 1 == 0);
        lemma_address_len_of_payload(a, rest, i + 1);
    }
}

/// Law: address, control and information are recovered from a payload
/// assembled from a well-formed address.
pub proof fn lemma_hdlc_fields_of_payload(address: Seq<u8>, control: u8, information: Seq<u8>)
    requires
        hdlc_address_ok(address),
    ensures
        ({
            let d = hdlc_payload(address, control, information);
            &&& hdlc_address_len(d) == address.len()
            &&& d.subrange(0, hdlc_address_len(d)) == address
            &&& hdlc_control_spec(d) == control
            &&& hdlc_information_spec(d) == information
        }),
{
    let d = hdlc_payload(address, control, information);
    assert(d =~= address + (seq![control] + information));
    lemma_address_len_of_payload(address, seq![control] + information, 0);
    assert(d.subrange(0, address.len() as int) =~= address);
    assert(d[address.len() as int] == control);
    if address.len() + 1 < d.len() {
        assert(d.subrange(address.len() + 1int, d.len() as int) =~= information);
    } else {
        assert(information.len() == 0);
        assert(information =~= Seq::<u8>::empty());
    }
}

/* ---------------- Errors and frame types ---------------- */

/// HDLC frame processing errors.
#[derive(Clone, Copy, Debug, PartialEq, Eq, Structural)]
pub enum HdlcError {
    /// Frame too short (minimum: address + control + FCS)
    TooShort,
    /// FCS checksum mismatch
    FcsError,
    /// Frame exceeds maximum buffer size
    Overflow,
    /// Invalid byte-unstuffing sequence
    InvalidEscape,
    /// Address field too long (>2 bytes)
    AddressTooLong,
}

/// HDLC unnumbered frame subtypes.
#[derive(Clone, Copy, Debug, PartialEq, Eq, Structural)]
pub enum UFrameType {
    /// Set Normal Response Mode
    Snrm,
    /// Disconnect
    Disc,
    /// Unnumbered Acknowledge
    Ua,
    /// Disconnected Mode
    Dm,
    /// Frame Reject
    Frmr,
    /// Unknown U-frame function
    Unknown(u8),
}

/// Parsed HDLC frame (between flags, after byte-unstuffing, without FCS).
pub struct HdlcFrame {
    /// Frame payload (address + control + information, without FCS)
    data: [u8; 256],
    /// Length of valid data in bytes
    len: u8,
}

impl View for HdlcFrame {
    type V = Seq<u8>;

    closed spec fn view(&self) -> Seq<u8> {
        self.data@.subrange(0, self.len as int)
    }
}

impl HdlcFrame {
    /// The payload of a frame is never longer than its buffer.
    pub proof fn lemma_view_len(&self)
        ensures
            self@.len() <= 255,
    {
    }

    /// Parse raw bytes (between flags, still byte-stuffed) into an HDLC frame.
    ///
    /// Performs byte-unstuffing and verifies the FCS-16 checksum.
    pub fn parse(raw: &[u8]) -> (r: Result<Self, HdlcError>)
        ensures
            match r {
                Ok(f) => hdlc_parse_spec(raw@) == Ok::<Seq<u8>, HdlcError>(f@),
                Err(e) => hdlc_parse_spec(raw@) == Err::<Seq<u8>, HdlcError>(e),
            },
    {
        if raw.len() < 4 {
            return Err(HdlcError::TooShort);
        }
        let mut data = [0u8; 256];
        let mut count: usize = 0;
        let mut i: usize = 0;
        assert(raw@.skip(0) =~= raw@);
        assert(data@.subrange(0, 0) =~= Seq::<u8>::empty());
        while i < raw.len()
            invariant
                i <= raw.len(),
                count <= HDLC_FRAME_CAPACITY,
                raw.len() >= 4,
                hdlc_unstuff_from(raw@, Seq::empty()) == hdlc_unstuff_from(
                    raw@.skip(i as int),
                    data@.subrange(0, count as int),
                ),
            decreases raw.len() - i,
        {
            let ghost out = data@.subrange(0, count as int);
            let ghost rest = raw@.skip(i as int);
            assert(rest[0] == raw@[i as int]);
            if count >= HDLC_FRAME_CAPACITY {
                return Err(HdlcError::Overflow);
            }
            if raw[i] == HDLC_ESCAPE {
                if i + 1 >= raw.len() {
                    return Err(HdlcError::InvalidEscape);
                }
                data[count] = raw[i + 1] ^ HDLC_ESCAPE_MASK;
                assert(rest[1] == raw@[i + 1]);
                assert(rest.skip(2) =~= raw@.skip(i + 2));
                assert(data@.subrange(0, count + 1) =~= out.push(raw@[i + 1] ^ HDLC_ESCAPE_MASK));
                count = count + 1;
                i = i + 2;
            } else if raw[i] == HDLC_FLAG {
                assert(rest.skip(1) =~= raw@.skip(i + 1));
                i = i + 1;
            } else {
                data[count] = raw[i];
                assert(rest.skip(1) =~= raw@.skip(i + 1));
                assert(data@.subrange(0, count + 1) =~= out.push(raw@[i as int]));
                count = count + 1;
                i = i + 1;
            }
        }
        assert(raw@.skip(i as int) =~= Seq::<u8>::empty());
        let ghost u = data@.subrange(0, count as int);
        assert(hdlc_unstuff_from(raw@, Seq::empty()) == Ok::<Seq<u8>, HdlcError>(u));
        if count < 4 {
            return Err(HdlcError::TooShort);
        }
        let payload_len = count - 2;
        let computed = fcs16(slice_subrange(array_as_slice(&data), 0, payload_len));
        let received = (data[payload_len] as u16) | ((data[payload_len + 1] as u16) << 8);
        assert(u.subrange(0, u.len() - 2) =~= data@.subrange(0, payload_len as int));
        if computed != received {
            return Err(HdlcError::FcsError);
        }
        let frame = HdlcFrame { data, len: payload_len as u8 };
        assert(frame@ =~= u.subrange(0, u.len() - 2));
        Ok(frame)
    }

    /// Build an HDLC frame with byte-stuffing and FCS into `out`.
    ///
    /// Returns the total length written to `out` (including flags); when
    /// `out` is too small the frame is cut off at the end of `out`.
    pub fn build(address: &[u8], control: u8, information: &[u8], out: &mut [u8]) -> (r: usize)
        requires
            address@.len() + information@.len() <= 253,
        ensures
            ({
                let full = hdlc_encode(hdlc_payload(address@, control, information@));
                &&& r == if old(out)@.len() < full.len() { old(out)@.len() } else { full.len() }
                &&& final(out)@.len() == old(out)@.len()
                &&& final(out)@.subrange(0, r as int) == full.subrange(0, r as int)
                &&& final(out)@.subrange(r as int, old(out)@.len() as int) == old(out)@.subrange(
                    r as int,
                    old(out)@.len() as int,
                )
            }),
    {
        let ghost p = hdlc_payload(address@, control, information@);
        let mut buf: Vec<u8> = Vec::new();
        let mut k: usize = 0;
        while k < address.len()
            invariant
                k <= address@.len(),
                buf@ == address@.subrange(0, k as int),
            decreases address@.len() - k,
        {
            buf.push(address[k]);
            assert(address@.subrange(0, k + 1) =~= address@.subrange(0, k as int).push(address@[k as int]));
            k = k + 1;
        }
        buf.push(control);
        let mut k: usize = 0;
        assert(buf@ =~= address@ + seq![control] + information@.subrange(0, 0));
        while k < information.len()
            invariant
                k <= information@.len(),
                buf@ == address@ + seq![control] + information@.subrange(0, k as int),
            decreases information@.len() - k,
        {
            buf.push(information[k]);
            assert(information@.subrange(0, k + 1) =~= information@.subrange(0, k as int).push(information@[k as int]));
            k = k + 1;
        }
        assert(information@.subrange(0, information@.len() as int) =~= information@);
        assert(buf@ =~= p);
        let fcs = fcs16(buf.as_slice());
        buf.push(fcs as u8);
        buf.push((fcs >> 8) as u8);
        let ghost w = hdlc_with_fcs(p);
        assert(buf@ =~= w);
        let ghost full = hdlc_encode(p);
        let ghost old_out = out@;
        proof {
            lemma_stuff_no_flag(w);
        }
        let mut pos: usize = 0;
        if pos >= out.len() {
            assert(out@.subrange(0, 0) =~= full.subrange(0, 0));
            assert(out@.subrange(0, out@.len() as int) =~= old_out.subrange(0, old_out.len() as int));
            return pos;
        }
        let ghost before0 = out@;
        out[pos] = HDLC_FLAG;
        proof {
            assert(before0.subrange(0, before0.len() as int) =~= old_out.subrange(0, old_out.len() as int));
            lemma_tail_after_write(before0, old_out, 0, HDLC_FLAG);
        }
        pos = 1;
        let mut i: usize = 0;
        proof {
            assert(w.subrange(0, 0) =~= Seq::<u8>::empty());
            assert(hdlc_stuff(Seq::<u8>::empty()) =~= Seq::<u8>::empty());
            assert(out@.subrange(0, 1) =~= seq![HDLC_FLAG] + hdlc_stuff(w.subrange(0, 0)));
        }
        while i < buf.len()
            invariant
                buf@ == w,
                p == hdlc_payload(address@, control, information@),
                old_out == old(out)@,
                w == hdlc_with_fcs(p),
                w.len() == p.len() + 2,
                p.len() <= 256,
                full == hdlc_encode(p),
                i <= buf@.len(),
                pos == 1 + hdlc_stuff(w.subrange(0, i as int)).len(),
                pos <= out@.len(),
                out@.len() == old_out.len(),
                out@.subrange(0, pos as int) == seq![HDLC_FLAG] + hdlc_stuff(w.subrange(0, i as int)),
                out@.subrange(pos as int, out@.len() as int) == old_out.subrange(pos as int, old_out.len() as int),
            decreases buf@.len() - i,
        {
            let ghost pre = seq![HDLC_FLAG] + hdlc_stuff(w.subrange(0, i as int));
            proof {
                lemma_stuff_split(w, i as int);
                assert(full =~= pre + hdlc_stuff_byte(w[i as int]) + hdlc_stuff(w.subrange(i + 1, w.len() as int)) + seq![HDLC_FLAG]);
                assert(w.subrange(0, i + 1).drop_last() =~= w.subrange(0, i as int));
                assert(w.subrange(0, i + 1).last() == w[i as int]);
            }
            if pos >= out.len() {
                assert(full.subrange(0, pos as int) =~= pre);
                assert(full.len() > pos);
                assert(out@.subrange(pos as int, out@.len() as int) =~= old_out.subrange(pos as int, old_out.len() as int));
                return pos;
            }
            let b = buf[i];
            let ghost before = out@;
            if b == HDLC_FLAG || b == HDLC_ESCAPE {
                out[pos] = HDLC_ESCAPE;
                proof {
                    lemma_tail_after_write(before, old_out, pos as int, HDLC_ESCAPE);
                }
                pos = pos + 1;
                if pos >= out.len() {
                    assert(out@.subrange(0, pos as int) =~= pre.push(HDLC_ESCAPE));
                    assert(full.subrange(0, pos as int) =~= pre.push(HDLC_ESCAPE));
                    assert(full.len() > pos);
                    assert(out@.subrange(pos as int, out@.len() as int) =~= old_out.subrange(pos as int, old_out.len() as int));
                    return pos;
                }
                let ghost mid = out@;
                out[pos] = b ^ HDLC_ESCAPE_MASK;
                proof {
                    lemma_tail_after_write(mid, old_out, pos as int, b ^ HDLC_ESCAPE_MASK);
                }
            } else {
                out[pos] = b;
                proof {
                    lemma_tail_after_write(before, old_out, pos as int, b);
                }
            }
            pos = pos + 1;
            assert(out@.subrange(0, pos as int) =~= pre + hdlc_stuff_byte(w[i as int]));
            assert(hdlc_stuff(w.subrange(0, i + 1)) == hdlc_stuff(w.subrange(0, i as int)) + hdlc_stuff_byte(w[i as int]));
            i = i + 1;
            assert(out@.subrange(0, pos as int) =~= seq![HDLC_FLAG] + hdlc_stuff(w.subrange(0, i as int)));
        }
        assert(w.subrange(0, i as int) =~= w);
        assert(full =~= seq![HDLC_FLAG] + hdlc_stuff(w) + seq![HDLC_FLAG]);
        if pos >= out.len() {
            assert(full.subrange(0, pos as int) =~= seq![HDLC_FLAG] + hdlc_stuff(w));
            return pos;
        }
        let ghost before = out@;
        out[pos] = HDLC_FLAG;
        proof {
            lemma_tail_after_write(before, old_out, pos as int, HDLC_FLAG);
        }
        pos = pos + 1;
        assert(out@.subrange(0, pos as int) =~= full);
        assert(full.subrange(0, pos as int) =~= full);
        pos
    }

    /// Extract the variable-length HDLC address field.
    ///
    /// HDLC addresses have LSB=1 on the last (or only) byte.
    pub fn address(&self) -> (r: &[u8])
        ensures
            r@ == self@.subrange(0, hdlc_address_len(self@)),
    {
        let n = self.len as usize;
        let mut i: usize = 0;
        while i < n && i < 4
            invariant
                i <= n,
                i <= 4,
                n == self@.len(),
                self@ == self.data@.subrange(0, n as int),
                hdlc_address_len_from(self@, 0) == hdlc_address_len_from(self@, i as int),
            decreases 4 - i,
        {
            if self.data[i] & 0x01 != 0 {
                return slice_subrange(array_as_slice(&self.data), 0, i + 1);
            }
            i = i + 1;
        }
        let m: usize = if 1 < n { 1 } else { n };
        slice_subrange(array_as_slice(&self.data), 0, m)
    }

    /// Extract the control field (immediately after address).
    pub fn control(&self) -> (r: u8)
        ensures
            r == hdlc_control_spec(self@),
    {
        proof {
            lemma_address_len_bounds(self@, 0);
        }
        let addr_len = self.address().len();
        if addr_len < self.len as usize {
            self.data[addr_len]
        } else {
            0
        }
    }

    /// Extract the information field (after address + control, to end of data).
    pub fn information(&self) -> (r: &[u8])
        ensures
            r@ == hdlc_information_spec(self@),
    {
        proof {
            lemma_address_len_bounds(self@, 0);
        }
        let addr_len = self.address().len();
        let ctrl_end = addr_len + 1;
        if ctrl_end < self.len as usize {
            slice_subrange(array_as_slice(&self.data), ctrl_end, self.len as usize)
        } else {
            assert(hdlc_information_spec(self@) =~= Seq::<u8>::empty());
            slice_subrange(array_as_slice(&self.data), 0, 0)
        }
    }

    /// Check if this is an I-frame (bit 0 of control = 0).
    pub fn is_i_frame(&self) -> (r: bool)
        ensures
            r == (hdlc_control_spec(self@) & 0x01 == 0),
    {
        self.control() & 0x01 == 0
    }

    /// Check if this is an S-frame (control bits [1:0] = 0b01).
    pub fn is_s_frame(&self) -> (r: bool)
        ensures
            r == (hdlc_control_spec(self@) & 0x01 != 0 && hdlc_control_spec(self@) & 0x02 == 0),
    {
        let c = self.control();
        c & 0x01 != 0 && c & 0x02 == 0
    }

    /// Check if this is a U-frame (control bits [1:0] = 0b11).
    pub fn is_u_frame(&self) -> (r: bool)
        ensures
            r == (hdlc_control_spec(self@) & 0x03 == 0x03),
    {
        let c = self.control();
        c & 0x03 == 0x03
    }

    /// Parse the U-frame subtype from the control field.
    pub fn u_frame_type(&self) -> (r: UFrameType)
        ensures
            r == u_frame_type_spec(hdlc_control_spec(self@)),
    {
        if !self.is_u_frame() {
            return UFrameType::Unknown(self.control());
        }
        let c = self.control();
        let modifier = (c & 0xE0) | ((c & 0x0C) << 2);
        if 0x80 <= modifier && modifier <= 0x83 {
            UFrameType::Snrm
        } else if 0x40 <= modifier && modifier <= 0x43 {
            UFrameType::Disc
        } else if 0x60 <= modifier && modifier <= 0x63 {
            UFrameType::Ua
        } else if (0x10 <= modifier && modifier <= 0x13) || (0x30 <= modifier && modifier <= 0x33) {
            UFrameType::Dm
        } else if 0x84 <= modifier && modifier <= 0x87 {
            UFrameType::Frmr
        } else {
            UFrameType::Unknown(c)
        }
    }
}

/* ---------------- HDLC receiver ---------------- */

/// Capacity of the receiver buffer (raw, still stuffed bytes).
pub const HDLC_RX_CAPACITY: usize = 1024;

/// Receiver state.
#[derive(Clone, Copy, Debug, PartialEq, Eq, Structural)]
pub enum RxState {
    /// Waiting for opening flag
    WaitingFlag,
    /// Receiving frame data
    Receiving,
    /// Complete frame received
    Complete,
}

/// Event returned by `HdlcReceiver::feed`.
#[derive(Clone, Copy, Debug, PartialEq, Eq, Structural)]
pub enum HdlcRxEvent {
    /// No event (byte consumed, frame still in progress)
    Idle,
    /// Complete frame received (between flags, still byte-stuffed)
    Complete,
    /// Error detected (overflow)
    Error(HdlcError),
}

/// One receiver step on state `st` and buffered raw bytes `buf`: the new
/// state, the new buffer, and the event reported.
pub open spec fn hdlc_rx_step(st: RxState, buf: Seq<u8>, byte: u8) -> (
    RxState,
    Seq<u8>,
    HdlcRxEvent,
) {
    match st {
        RxState::Receiving => {
            if byte == HDLC_FLAG {
                if buf.len() == 0 {
                    (RxState::Receiving, buf, HdlcRxEvent::Idle)
                } else {
                    (RxState::Complete, buf, HdlcRxEvent::Complete)
                }
            } else if buf.len() >= HDLC_RX_CAPACITY {
                (RxState::WaitingFlag, Seq::empty(), HdlcRxEvent::Error(HdlcError::Overflow))
            } else {
                (RxState::Receiving, buf.push(byte), HdlcRxEvent::Idle)
            }
        },
        _ => {
            // Waiting for a flag; a completed frame not yet consumed is dropped.
            if byte == HDLC_FLAG {
                (RxState::Receiving, Seq::empty(), HdlcRxEvent::Idle)
            } else {
                (RxState::WaitingFlag, Seq::empty(), HdlcRxEvent::Idle)
            }
        },
    }
}

/// Run the receiver over `bytes`: final state, final buffer, and the event
/// reported for the last byte (`Idle` when no byte is fed).
pub open spec fn hdlc_rx_run(st: RxState, buf: Seq<u8>, bytes: Seq<u8>) -> (
    RxState,
    Seq<u8>,
    HdlcRxEvent,
)
    decreases bytes.len(),
{
    if bytes.len() == 0 {
        (st, buf, HdlcRxEvent::Idle)
    } else {
        let (s1, b1, e1) = hdlc_rx_step(st, buf, bytes[0]);
        if bytes.len() == 1 {
            (s1, b1, e1)
        } else {
            hdlc_rx_run(s1, b1, bytes.drop_first())
        }
    }
}

/// HDLC byte-by-byte receiver with state machine.
pub struct HdlcReceiver {
    buf: [u8; 1024],
    len: usize,
    state: RxState,
}

impl View for HdlcReceiver {
    type V = (RxState, Seq<u8>);

    closed spec fn view(&self) -> (RxState, Seq<u8>) {
        (self.state, self.buf@.subrange(0, self.len as int))
    }
}

impl HdlcReceiver {
    #[verifier::type_invariant]
    spec fn inv(&self) -> bool {
        &&& self.len <= HDLC_RX_CAPACITY
        &&& self.state == RxState::WaitingFlag ==> self.len == 0
    }

    /// Create a new HDLC receiver in initial state.
    pub fn new() -> (r: Self)
        ensures
            r@ == (RxState::WaitingFlag, Seq::<u8>::empty()),
    {
        let r = HdlcReceiver { buf: [0u8; 1024], len: 0, state: RxState::WaitingFlag };
        assert(r.buf@.subrange(0, 0) =~= Seq::<u8>::empty());
        r
    }

    /// Feed one received byte into the state machine.  The buffer keeps
    /// the raw (still byte-stuffed) frame bytes between the flags.
    pub fn feed(&mut self, byte: u8) -> (r: HdlcRxEvent)
        ensures
            (final(self)@.0, final(self)@.1, r) == hdlc_rx_step(old(self)@.0, old(self)@.1, byte),
    {
        proof {
            use_type_invariant(&*self);
        }
        match self.state {
            RxState::Receiving => {
                if byte == HDLC_FLAG {
                    if self.len == 0 {
                        return HdlcRxEvent::Idle;
                    }
                    self.state = RxState::Complete;
                    return HdlcRxEvent::Complete;
                }
                if self.len >= HDLC_RX_CAPACITY {
                    self.len = 0;
                    self.state = RxState::WaitingFlag;
                    assert(self.buf@.subrange(0, 0) =~= Seq::<u8>::empty());
                    return HdlcRxEvent::Error(HdlcError::Overflow);
                }
                let ghost old_buf = self.buf@.subrange(0, self.len as int);
                self.buf[self.len] = byte;
                self.len = self.len + 1;
                assert(self.buf@.subrange(0, self.len as int) =~= old_buf.push(byte));
                HdlcRxEvent::Idle
            },
            _ => {
                self.len = 0;
                if byte == HDLC_FLAG {
                    self.state = RxState::Receiving;
                } else {
                    self.state = RxState::WaitingFlag;
                }
                assert(self.buf@.subrange(0, 0) =~= Seq::<u8>::empty());
                HdlcRxEvent::Idle
            },
        }
    }

    /// The received raw frame data (between flags, still byte-stuffed);
    /// present only after `feed` has reported `Complete`.
    pub fn frame(&self) -> (r: Option<&[u8]>)
        ensures
            match r {
                Some(f) => self@.0 == RxState::Complete && self@.1.len() > 0 && f@ == self@.1,
                None => !(self@.0 == RxState::Complete && self@.1.len() > 0),
            },
    {
        proof {
            use_type_invariant(self);
        }
        if self.state == RxState::Complete && self.len > 0 {
            Some(slice_subrange(array_as_slice(&self.buf), 0, self.len))
        } else {
            None
        }
    }

    /// Parse the received frame into an HdlcFrame (un-stuff + verify FCS).
    pub fn parse_frame(&self) -> (r: Result<HdlcFrame, HdlcError>)
        ensures
            (self@.0 == RxState::Complete && self@.1.len() > 0) ==> match r {
                Ok(f) => hdlc_parse_spec(self@.1) == Ok::<Seq<u8>, HdlcError>(f@),
                Err(e) => hdlc_parse_spec(self@.1) == Err::<Seq<u8>, HdlcError>(e),
            },
            !(self@.0 == RxState::Complete && self@.1.len() > 0) ==> r == Err::<
                HdlcFrame,
                HdlcError,
            >(HdlcError::TooShort),
    {
        match self.frame() {
            Some(data) => HdlcFrame::parse(data),
            None => Err(HdlcError::TooShort),
        }
    }

    /// Reset the receiver to initial state.
    pub fn reset(&mut self)
        ensures
            final(self)@ == (RxState::WaitingFlag, Seq::<u8>::empty()),
    {
        self.len = 0;
        self.state = RxState::WaitingFlag;
        assert(self.buf@.subrange(0, 0) =~= Seq::<u8>::empty());
    }
}

/// While receiving, flag-free bytes are appended to the buffer.
pub proof fn lemma_rx_collects(acc: Seq<u8>, body: Seq<u8>)
    requires
        acc.len() + body.len() <= HDLC_RX_CAPACITY,
        forall|i: int| 0 <= i < body.len() ==> #[trigger] body[i] != HDLC_FLAG,
        body.len() > 0,
    ensures
        hdlc_rx_run(RxState::Receiving, acc, body) == (RxState::Receiving, acc + body, HdlcRxEvent::Idle),
    decreases body.len(),
{
    assert(body[0] != HDLC_FLAG);
    if body.len() > 1 {
        let rest = body.drop_first();
        assert forall|i: int| 0 <= i < rest.len() implies #[trigger] rest[i] != HDLC_FLAG by {
            assert(rest[i] == body[i + 1]);
        }
        lemma_rx_collects(acc.push(body[0]), rest);
        assert(acc.push(body[0]) + rest =~= acc + body);
    } else {
        assert(acc.push(body[0]) =~= acc + body);
    }
}

/// State and frame bytes after feeding `bytes`, one `feed` per byte.
pub open spec fn rx_state_after(st: RxState, buf: Seq<u8>, bytes: Seq<u8>) -> (RxState, Seq<u8>)
    decreases bytes.len(),
{
    if bytes.len() == 0 {
        (st, buf)
    } else {
        let (s1, b1, _e1) = hdlc_rx_step(st, buf, bytes[0]);
        rx_state_after(s1, b1, bytes.drop_first())
    }
}

/// What each `feed` of `bytes` returns, in order.
pub open spec fn rx_events(st: RxState, buf: Seq<u8>, bytes: Seq<u8>) -> Seq<HdlcRxEvent>
    decreases bytes.len(),
{
    if bytes.len() == 0 {
        Seq::empty()
    } else {
        let (s1, b1, e1) = hdlc_rx_step(st, buf, bytes[0]);
        seq![e1] + rx_events(s1, b1, bytes.drop_first())
    }
}

/// Feeding `a` then `b` is feeding `a + b`.
proof fn lemma_rx_events_concat(st: RxState, buf: Seq<u8>, a: Seq<u8>, b: Seq<u8>)
    ensures
        rx_events(st, buf, a + b) == rx_events(st, buf, a) + rx_events(rx_state_after(st, buf, a).0, rx_state_after(st, buf, a).1, b),
        rx_state_after(st, buf, a + b) == rx_state_after(rx_state_after(st, buf, a).0, rx_state_after(st, buf, a).1, b),
    decreases a.len(),
{
    if a.len() == 0 {
        assert(a + b =~= b);
        assert(rx_events(st, buf, a) =~= Seq::<HdlcRxEvent>::empty());
        assert(Seq::<HdlcRxEvent>::empty() + rx_events(st, buf, b) =~= rx_events(st, buf, b));
    } else {
        let (s1, b1, e1) = hdlc_rx_step(st, buf, a[0]);
        assert((a + b)[0] == a[0]);
        assert((a + b).drop_first() =~= a.drop_first() + b);
        lemma_rx_events_concat(s1, b1, a.drop_first(), b);
        assert(seq![e1] + (rx_events(s1, b1, a.drop_first()) + rx_events(rx_state_after(s1, b1, a.drop_first()).0, rx_state_after(s1, b1, a.drop_first()).1, b))
            =~= (seq![e1] + rx_events(s1, b1, a.drop_first())) + rx_events(rx_state_after(s1, b1, a.drop_first()).0, rx_state_after(s1, b1, a.drop_first()).1, b));
    }
}

/// Feeding one byte is one step.
proof fn lemma_rx_one(st: RxState, buf: Seq<u8>, b: u8)
    ensures
        rx_events(st, buf, seq![b]) == seq![hdlc_rx_step(st, buf, b).2],
        rx_state_after(st, buf, seq![b]) == (hdlc_rx_step(st, buf, b).0, hdlc_rx_step(st, buf, b).1),
{
    let (s1, b1, e1) = hdlc_rx_step(st, buf, b);
    assert(seq![b].drop_first() =~= Seq::<u8>::empty());
    assert(rx_events(s1, b1, Seq::<u8>::empty()) =~= Seq::<HdlcRxEvent>::empty());
    assert(seq![e1] + Seq::<HdlcRxEvent>::empty() =~= seq![e1]);
    assert(rx_state_after(s1, b1, Seq::<u8>::empty()) == (s1, b1));
    assert(seq![b][0] == b);
}

/// Bytes other than the flag, while they fit, are collected with no event.
proof fn lemma_rx_events_collect(acc: Seq<u8>, body: Seq<u8>)
    requires
        acc.len() + body.len() <= HDLC_RX_CAPACITY,
        forall|i: int| 0 <= i < body.len() ==> #[trigger] body[i] != HDLC_FLAG,
    ensures
        rx_events(RxState::Receiving, acc, body) == Seq::new(body.len(), |i: int| HdlcRxEvent::Idle),
        rx_state_after(RxState::Receiving, acc, body) == (RxState::Receiving, acc + body),
    decreases body.len(),
{
    if body.len() == 0 {
        assert(acc + body =~= acc);
        assert(rx_events(RxState::Receiving, acc, body) =~= Seq::new(body.len(), |i: int| HdlcRxEvent::Idle));
    } else {
        assert(body[0] != HDLC_FLAG);
        let rest = body.drop_first();
        assert forall|i: int| 0 <= i < rest.len() implies #[trigger] rest[i] != HDLC_FLAG by {
            assert(rest[i] == body[i + 1]);
        }
        lemma_rx_events_collect(acc.push(body[0]), rest);
        assert(acc.push(body[0]) + rest =~= acc + body);
        assert(seq![HdlcRxEvent::Idle] + Seq::new(rest.len(), |i: int| HdlcRxEvent::Idle)
            =~= Seq::new(body.len(), |i: int| HdlcRxEvent::Idle));
    }
}

/// While waiting for a flag, other bytes are dropped with no event.
proof fn lemma_rx_events_skip(body: Seq<u8>)
    requires
        forall|i: int| 0 <= i < body.len() ==> #[trigger] body[i] != HDLC_FLAG,
    ensures
        rx_events(RxState::WaitingFlag, Seq::empty(), body) == Seq::new(body.len(), |i: int| HdlcRxEvent::Idle),
        rx_state_after(RxState::WaitingFlag, Seq::empty(), body) == (RxState::WaitingFlag, Seq::<u8>::empty()),
    decreases body.len(),
{
    if body.len() == 0 {
        assert(rx_events(RxState::WaitingFlag, Seq::empty(), body) =~= Seq::new(body.len(), |i: int| HdlcRxEvent::Idle));
    } else {
        assert(body[0] != HDLC_FLAG);
        let rest = body.drop_first();
        assert forall|i: int| 0 <= i < rest.len() implies #[trigger] rest[i] != HDLC_FLAG by {
            assert(rest[i] == body[i + 1]);
        }
        lemma_rx_events_skip(rest);
        assert(seq![HdlcRxEvent::Idle] + Seq::new(rest.len(), |i: int| HdlcRxEvent::Idle)
            =~= Seq::new(body.len(), |i: int| HdlcRxEvent::Idle));
    }
}

/// One frame on the line, as a fresh receiver sees it: a flag, the frame
/// bytes `d` (no flag among them), a flag. Every `feed` reports nothing but
/// the last, which reports the complete frame, when `d` holds 1 to 1024
/// bytes, and the frame is then `d`; an empty frame reports nothing; a
/// frame longer than 1024 bytes reports an overflow on its 1025th byte and
/// nothing else, and leaves no frame.
pub proof fn lemma_rx_frame_events(d: Seq<u8>)
    requires
        forall|i: int| 0 <= i < d.len() ==> #[trigger] d[i] != HDLC_FLAG,
    ensures
        ({
            let bytes = seq![HDLC_FLAG] + d + seq![HDLC_FLAG];
            let ev = rx_events(RxState::WaitingFlag, Seq::empty(), bytes);
            let fin = rx_state_after(RxState::WaitingFlag, Seq::empty(), bytes);
            &&& ev.len() == bytes.len()
            &&& 1 <= d.len() <= HDLC_RX_CAPACITY ==> {
                &&& forall|i: int| 0 <= i < ev.len() - 1 ==> #[trigger] ev[i] == HdlcRxEvent::Idle
                &&& ev.last() == HdlcRxEvent::Complete
                &&& fin == (RxState::Complete, d)
            }
            &&& d.len() == 0 ==> {
                &&& forall|i: int| 0 <= i < ev.len() ==> #[trigger] ev[i] == HdlcRxEvent::Idle
                &&& fin == (RxState::Receiving, Seq::<u8>::empty())
            }
            &&& d.len() > HDLC_RX_CAPACITY ==> {
                &&& ev[HDLC_RX_CAPACITY + 1] == HdlcRxEvent::Error(HdlcError::Overflow)
                &&& forall|i: int| 0 <= i < ev.len() && i != HDLC_RX_CAPACITY + 1 ==> #[trigger] ev[i] == HdlcRxEvent::Idle
                &&& fin == (RxState::Receiving, Seq::<u8>::empty())
            }
        }),
{
    let e: Seq<u8> = Seq::empty();
    let f = seq![HDLC_FLAG];
    let bytes = f + d + f;
    let idle = |n: nat| Seq::new(n, |i: int| HdlcRxEvent::Idle);
    // the opening flag
    lemma_rx_one(RxState::WaitingFlag, e, HDLC_FLAG);
    lemma_rx_one(RxState::Receiving, e, HDLC_FLAG);
    lemma_rx_one(RxState::Receiving, d, HDLC_FLAG);
    assert(rx_events(RxState::WaitingFlag, e, f) =~= seq![HdlcRxEvent::Idle]);
    assert(rx_state_after(RxState::WaitingFlag, e, f) == (RxState::Receiving, e));
    lemma_rx_events_concat(RxState::WaitingFlag, e, f, d);
    lemma_rx_events_concat(RxState::WaitingFlag, e, f + d, f);
    if d.len() <= HDLC_RX_CAPACITY {
        lemma_rx_events_collect(e, d);
        assert(e + d =~= d);
        let ev = rx_events(RxState::WaitingFlag, e, bytes);
        if d.len() == 0 {
            assert(rx_events(RxState::Receiving, e, f) =~= seq![HdlcRxEvent::Idle]);
            assert(rx_state_after(RxState::Receiving, e, f) == (RxState::Receiving, e));
            assert(ev =~= seq![HdlcRxEvent::Idle] + idle(0) + seq![HdlcRxEvent::Idle]);
        } else {
            assert(rx_events(RxState::Receiving, d, f) =~= seq![HdlcRxEvent::Complete]);
            assert(rx_state_after(RxState::Receiving, d, f) == (RxState::Complete, d));
            assert(ev =~= seq![HdlcRxEvent::Idle] + idle(d.len()) + seq![HdlcRxEvent::Complete]);
        }
    } else {
        let d1 = d.subrange(0, HDLC_RX_CAPACITY as int);
        let d2 = d.subrange(HDLC_RX_CAPACITY as int, d.len() as int);
        assert(d1 + d2 =~= d);
        assert forall|i: int| 0 <= i < d1.len() implies #[trigger] d1[i] != HDLC_FLAG by {
            assert(d1[i] == d[i]);
        }
        lemma_rx_events_collect(e, d1);
        assert(e + d1 =~= d1);
        lemma_rx_events_concat(RxState::Receiving, e, d1, d2);
        // the byte past the capacity overflows; the rest is dropped
        let rest = d2.drop_first();
        assert(d2[0] == d[HDLC_RX_CAPACITY as int]);
        assert forall|i: int| 0 <= i < rest.len() implies #[trigger] rest[i] != HDLC_FLAG by {
            assert(rest[i] == d[HDLC_RX_CAPACITY + 1 + i]);
        }
        lemma_rx_events_skip(rest);
        assert(rx_events(RxState::Receiving, d1, d2)
            =~= seq![HdlcRxEvent::Error(HdlcError::Overflow)] + idle(rest.len()));
        assert(rx_state_after(RxState::Receiving, d1, d2) == (RxState::WaitingFlag, e));
        assert(rx_events(RxState::WaitingFlag, e, f) =~= seq![HdlcRxEvent::Idle]);
        let ev = rx_events(RxState::WaitingFlag, e, bytes);
        assert(ev =~= seq![HdlcRxEvent::Idle] + (idle(d1.len()) + (seq![HdlcRxEvent::Error(HdlcError::Overflow)] + idle(rest.len())))
            + seq![HdlcRxEvent::Idle]);
    }
}

/// Running the receiver over a concatenation runs it over each part in turn
/// (when the second part is not empty).
pub proof fn lemma_rx_run_concat(st: RxState, buf: Seq<u8>, a: Seq<u8>, b: Seq<u8>)
    requires
        a.len() > 0,
        b.len() > 0,
    ensures
        ({
            let (s1, b1, _e1) = hdlc_rx_run(st, buf, a);
            hdlc_rx_run(st, buf, a + b) == hdlc_rx_run(s1, b1, b)
        }),
    decreases a.len(),
{
    let (s0, b0, e0) = hdlc_rx_step(st, buf, a[0]);
    assert((a + b)[0] == a[0]);
    if a.len() == 1 {
        assert((a + b).drop_first() =~= b);
    } else {
        lemma_rx_run_concat(s0, b0, a.drop_first(), b);
        assert((a + b).drop_first() =~= a.drop_first() + b);
    }
}

/// Law: a frame produced by the encoder, fed byte by byte to a receiver in
/// its initial state, completes with the stuffed frame in the buffer, and
/// that buffer parses back to the payload with its address, control and
/// information fields.
pub proof fn lemma_hdlc_roundtrip(address: Seq<u8>, control: u8, information: Seq<u8>)
    requires
        hdlc_address_ok(address),
        address.len() + information.len() <= 253,
    ensures
        ({
            let p = hdlc_payload(address, control, information);
            let (st, buf, ev) = hdlc_rx_run(RxState::WaitingFlag, Seq::empty(), hdlc_encode(p));
            &&& st == RxState::Complete
            &&& ev == HdlcRxEvent::Complete
            &&& buf == hdlc_stuff(hdlc_with_fcs(p))
            &&& hdlc_parse_spec(buf) == Ok::<Seq<u8>, HdlcError>(p)
            &&& hdlc_address_len(p) == address.len()
            &&& hdlc_control_spec(p) == control
            &&& hdlc_information_spec(p) == information
        }),
{
    let p = hdlc_payload(address, control, information);
    let w = hdlc_with_fcs(p);
    let body = hdlc_stuff(w);
    lemma_stuff_no_flag(w);
    lemma_hdlc_parse_of_encoded(p);
    lemma_hdlc_fields_of_payload(address, control, information);
    let enc = hdlc_encode(p);
    assert(enc =~= seq![HDLC_FLAG] + (body + seq![HDLC_FLAG]));
    assert(hdlc_rx_run(RxState::WaitingFlag, Seq::empty(), seq![HDLC_FLAG]) == (
        RxState::Receiving,
        Seq::<u8>::empty(),
        HdlcRxEvent::Idle,
    ));
    lemma_rx_run_concat(RxState::WaitingFlag, Seq::empty(), seq![HDLC_FLAG], body + seq![HDLC_FLAG]);
    lemma_rx_collects(Seq::empty(), body);
    lemma_rx_run_concat(RxState::Receiving, Seq::empty(), body, seq![HDLC_FLAG]);
    assert(Seq::<u8>::empty() + body =~= body);
}

/* ---------------- IEC 62056-21 Mode C parser ---------------- */

/// Start of text.
pub const STX: u8 = 0x02;
/// End of text.
pub const ETX: u8 = 0x03;
/// Acknowledge.
pub const ACK: u8 = 0x06;
/// Negative acknowledge.
pub const NAK: u8 = 0x15;
/// Carriage return.
pub const CR: u8 = 0x0D;
/// Line feed.
pub const LF: u8 = 0x0A;

/// Capacity of the IEC 62056-21 receive buffer.
pub const IEC_CAPACITY: usize = 128;

/// IEC 62056-21 parser state.
#[derive(Clone, Copy, Debug, PartialEq, Eq, Structural)]
pub enum IecState {
    /// Waiting for initial request
    Idle,
    /// Reading data lines
    ReadingData,
    /// Baud rate switch ack sent, waiting for high-speed data
    HighSpeed,
}

/// IEC 62056-21 event.
#[derive(Clone, Copy, Debug, PartialEq, Eq, Structural)]
pub enum IecRxEvent {
    /// No event
    Idle,
    /// Complete request received (e.g. /?!<CR><LF>)
    RequestReceived,
    /// Data block received
    DataBlock,
    /// Complete message received (ETX! seen)
    Complete,
    /// Buffer overflow
    Overflow,
}

/// The buffer holds exactly the sign-on request `/?!<CR><LF>` at its start.
pub open spec fn iec_is_request(b: Seq<u8>) -> bool {
    &&& b.len() >= 5
    &&& b[0] == 0x2F && b[1] == 0x3F && b[2] == 0x21 && b[3] == CR && b[4] == LF
}

/// The buffer ends with `<ETX>!<CR><LF>`.
pub open spec fn iec_ends_with_etx(b: Seq<u8>) -> bool {
    let n = b.len() as int;
    &&& n >= 4
    &&& b[n - 4] == ETX && b[n - 3] == 0x21 && b[n - 2] == CR && b[n - 1] == LF
}

/// The buffer ends with `<CR><LF>`.
pub open spec fn iec_ends_with_crlf(b: Seq<u8>) -> bool {
    let n = b.len() as int;
    &&& n >= 2
    &&& b[n - 2] == CR && b[n - 1] == LF
}

/// One parser step: new state, new buffer, event.
pub open spec fn iec_step(st: IecState, buf: Seq<u8>, byte: u8) -> (IecState, Seq<u8>, IecRxEvent) {
    if buf.len() >= IEC_CAPACITY {
        (IecState::Idle, Seq::empty(), IecRxEvent::Overflow)
    } else {
        let b = buf.push(byte);
        match st {
            IecState::Idle => {
                if byte == LF && b.len() >= 4 && iec_is_request(b) {
                    (IecState::ReadingData, b, IecRxEvent::RequestReceived)
                } else {
                    (IecState::Idle, b, IecRxEvent::Idle)
                }
            },
            _ => {
                if byte == LF && b.len() >= 3 {
                    if iec_ends_with_etx(b) {
                        (st, b, IecRxEvent::Complete)
                    } else if iec_ends_with_crlf(b) {
                        (st, b, IecRxEvent::DataBlock)
                    } else {
                        (st, b, IecRxEvent::Idle)
                    }
                } else {
                    (st, b, IecRxEvent::Idle)
                }
            },
        }
    }
}

/// End-of-message law of the IEC 62056-21 parser: once past the sign-on
/// request (reading data, or at high speed) and with room in the buffer,
/// a byte that makes the buffer end with `<ETX> ! <CR> <LF>` (bytes 0x03,
/// 0x21, 0x0D, 0x0A) completes the message; one that makes it end with
/// `<CR> <LF>` otherwise completes a data block. Either way the byte is
/// kept and the state stays.
pub proof fn lemma_iec_message_end(st: IecState, buf: Seq<u8>, byte: u8)
    requires
        st != IecState::Idle,
        buf.len() < IEC_CAPACITY,
    ensures
        ({
            let b = buf.push(byte);
            let n = b.len() as int;
            let out = iec_step(st, buf, byte);
            &&& out.0 == st && out.1 == b
            &&& (n >= 4 && b[n - 4] == 0x03u8 && b[n - 3] == 0x21u8 && b[n - 2] == 0x0Du8 && b[n - 1] == 0x0Au8)
                ==> out.2 == IecRxEvent::Complete
            &&& (n >= 3 && b[n - 2] == 0x0Du8 && b[n - 1] == 0x0Au8
                && !(n >= 4 && b[n - 4] == 0x03u8 && b[n - 3] == 0x21u8)) ==> out.2 == IecRxEvent::DataBlock
            &&& byte != 0x0Au8 ==> out.2 == IecRxEvent::Idle
        }),
{
}

/// IEC 62056-21 Mode C protocol parser.
pub struct Iec62056Parser {
    buf: [u8; 128],
    len: usize,
    state: IecState,
}

impl View for Iec62056Parser {
    type V = (IecState, Seq<u8>);

    closed spec fn view(&self) -> (IecState, Seq<u8>) {
        (self.state, self.buf@.subrange(0, self.len as int))
    }
}

impl Iec62056Parser {
    #[verifier::type_invariant]
    spec fn inv(&self) -> bool {
        self.len <= IEC_CAPACITY
    }

    /// Create a new IEC 62056-21 parser.
    pub fn new() -> (r: Self)
        ensures
            r@ == (IecState::Idle, Seq::<u8>::empty()),
    {
        let r = Iec62056Parser { buf: [0u8; 128], len: 0, state: IecState::Idle };
        assert(r.buf@.subrange(0, 0) =~= Seq::<u8>::empty());
        r
    }

    /// Feed one received byte into the parser.
    pub fn feed(&mut self, byte: u8) -> (r: IecRxEvent)
        ensures
            (final(self)@.0, final(self)@.1, r) == iec_step(old(self)@.0, old(self)@.1, byte),
    {
        proof {
            use_type_invariant(&*self);
        }
        if self.len >= IEC_CAPACITY {
            self.reset();
            return IecRxEvent::Overflow;
        }
        let ghost old_buf = self.buf@.subrange(0, self.len as int);
        self.buf[self.len] = byte;
        self.len = self.len + 1;
        let ghost b = self.buf@.subrange(0, self.len as int);
        assert(b =~= old_buf.push(byte));
        let n = self.len;
        match self.state {
            IecState::Idle => {
                if byte == LF && n >= 4 {
                    if n >= 5 && self.buf[0] == 0x2F && self.buf[1] == 0x3F && self.buf[2] == 0x21
                        && self.buf[3] == CR && self.buf[4] == LF {
                        self.state = IecState::ReadingData;
                        return IecRxEvent::RequestReceived;
                    }
                }
                IecRxEvent::Idle
            },
            _ => {
                if byte == LF && n >= 3 {
                    if n >= 4 && self.buf[n - 4] == ETX && self.buf[n - 3] == 0x21 && self.buf[n
                        - 2] == CR && self.buf[n - 1] == LF {
                        return IecRxEvent::Complete;
                    }
                    if self.buf[n - 2] == CR && self.buf[n - 1] == LF {
                        return IecRxEvent::DataBlock;
                    }
                }
                IecRxEvent::Idle
            },
        }
    }

    /// The current receive buffer contents.
    pub fn data(&self) -> (r: &[u8])
        ensures
            r@ == self@.1,
    {
        proof {
            use_type_invariant(self);
        }
        slice_subrange(array_as_slice(&self.buf), 0, self.len)
    }

    /// Switch to high-speed mode after baud rate change.
    pub fn set_high_speed(&mut self)
        ensures
            final(self)@ == (IecState::HighSpeed, Seq::<u8>::empty()),
    {
        self.len = 0;
        self.state = IecState::HighSpeed;
        assert(self.buf@.subrange(0, 0) =~= Seq::<u8>::empty());
    }

    /// Reset parser to initial state.
    pub fn reset(&mut self)
        ensures
            final(self)@ == (IecState::Idle, Seq::<u8>::empty()),
    {
        self.len = 0;
        self.state = IecState::Idle;
        assert(self.buf@.subrange(0, 0) =~= Seq::<u8>::empty());
    }

    /// Build the baud-rate acknowledgment `<ACK>/<baud><CR><LF>` into
    /// `out`; returns the number of bytes written (0 when `out` is shorter
    /// than five bytes).
    pub fn build_ack_baud_switch(baud_char: u8, out: &mut [u8]) -> (r: usize)
        ensures
            old(out)@.len() < 5 ==> r == 0 && final(out)@ == old(out)@,
            old(out)@.len() >= 5 ==> r == 5 && final(out)@ == seq![ACK, 0x2Fu8, baud_char, CR, LF]
                + old(out)@.subrange(5, old(out)@.len() as int),
    {
        if out.len() < 5 {
            return 0;
        }
        out[0] = ACK;
        out[1] = 0x2F;
        out[2] = baud_char;
        out[3] = CR;
        out[4] = LF;
        assert(out@ =~= seq![ACK, 0x2Fu8, baud_char, CR, LF] + old(out)@.subrange(5, old(out)@.len() as int));
        5
    }

    /// Build the identification message `/XXXYZ` (manufacturer, meter type,
    /// baud character) into `out`; returns the number of bytes written (0
    /// when `out` is shorter than six bytes).
    pub fn build_ident(manufacturer: &[u8; 3], meter_type: u8, baud_char: u8, out: &mut [u8]) -> (r: usize)
        ensures
            old(out)@.len() < 6 ==> r == 0 && final(out)@ == old(out)@,
            old(out)@.len() >= 6 ==> r == 6 && final(out)@ == seq![
                0x2Fu8,
                manufacturer@[0],
                manufacturer@[1],
                manufacturer@[2],
                meter_type,
                baud_char,
            ] + old(out)@.subrange(6, old(out)@.len() as int),
    {
        if out.len() < 6 {
            return 0;
        }
        out[0] = 0x2F;
        out[1] = manufacturer[0];
        out[2] = manufacturer[1];
        out[3] = manufacturer[2];
        out[4] = meter_type;
        out[5] = baud_char;
        assert(out@ =~= seq![0x2Fu8, manufacturer@[0], manufacturer@[1], manufacturer@[2], meter_type, baud_char]
            + old(out)@.subrange(6, old(out)@.len() as int));
        6
    }
}

/* ---------------- Multi-channel communication manager ---------------- */

/// RS-485 transceiver direction control, implemented by board code.
pub trait Rs485DirControl {
    /// Direction switches done so far, oldest first (`true` for transmit).
    /// The default records nothing; an implementation that is itself
    /// verified overrides it, and one that is not is trusted to keep the
    /// contracts below over some record.
    open spec fn switches(&self) -> Seq<bool> {
        Seq::empty()
    }

    /// Switch the transceiver to transmit mode (DE high).
    fn tx_enable(&mut self)
        ensures
            final(self).switches() == old(self).switches().push(true),
    ;
    /// Switch the transceiver to receive mode (DE low).
    fn tx_disable(&mut self)
        ensures
            final(self).switches() == old(self).switches().push(false),
    ;
}

/// Communication event returned by the poll methods.
#[derive(Clone, Copy, Debug, PartialEq, Eq, Structural)]
pub enum CommEvent {
    /// HDLC frame received on RS-485
    HdlcFrame,
    /// IEC 62056-21 request on infrared
    IecRequest,
    /// IEC 62056-21 data block
    IecDataBlock,
    /// IEC 62056-21 complete message
    IecComplete,
    /// No event
    NoEvent,
}

/// Run the IEC parser over `bytes`, returning the final state, buffer and
/// the event of the last byte (`Idle` when no byte is fed).
pub open spec fn iec_run(st: IecState, buf: Seq<u8>, bytes: Seq<u8>) -> (IecState, Seq<u8>, IecRxEvent)
    decreases bytes.len(),
{
    if bytes.len() == 0 {
        (st, buf, IecRxEvent::Idle)
    } else {
        let (s1, b1, e1) = iec_step(st, buf, bytes[0]);
        if bytes.len() == 1 {
            (s1, b1, e1)
        } else {
            iec_run(s1, b1, bytes.drop_first())
        }
    }
}

/// Running the IEC parser over a concatenation runs it over each part.
pub proof fn lemma_iec_run_concat(st: IecState, buf: Seq<u8>, a: Seq<u8>, b: Seq<u8>)
    requires
        a.len() > 0,
        b.len() > 0,
    ensures
        ({
            let (s1, b1, _e1) = iec_run(st, buf, a);
            iec_run(st, buf, a + b) == iec_run(s1, b1, b)
        }),
    decreases a.len(),
{
    let (s0, b0, e0) = iec_step(st, buf, a[0]);
    assert((a + b)[0] == a[0]);
    if a.len() == 1 {
        assert((a + b).drop_first() =~= b);
    } else {
        lemma_iec_run_concat(s0, b0, a.drop_first(), b);
        assert((a + b).drop_first() =~= a.drop_first() + b);
    }
}

/// Running the HDLC receiver over `fed` and then one more byte is one more step.
pub proof fn lemma_rx_run_push(st: RxState, buf: Seq<u8>, fed: Seq<u8>, byte: u8)
    ensures
        ({
            let (s1, b1, _e1) = hdlc_rx_run(st, buf, fed);
            hdlc_rx_run(st, buf, fed.push(byte)) == hdlc_rx_step(s1, b1, byte)
        }),
{
    if fed.len() == 0 {
        assert(fed.push(byte) =~= seq![byte]);
    } else {
        lemma_rx_run_concat(st, buf, fed, seq![byte]);
        assert(fed + seq![byte] =~= fed.push(byte));
    }
}

/// Running the IEC parser over `fed` and then one more byte is one more step.
pub proof fn lemma_iec_run_push(st: IecState, buf: Seq<u8>, fed: Seq<u8>, byte: u8)
    ensures
        ({
            let (s1, b1, _e1) = iec_run(st, buf, fed);
            iec_run(st, buf, fed.push(byte)) == iec_step(s1, b1, byte)
        }),
{
    if fed.len() == 0 {
        assert(fed.push(byte) =~= seq![byte]);
    } else {
        lemma_iec_run_concat(st, buf, fed, seq![byte]);
        assert(fed + seq![byte] =~= fed.push(byte));
    }
}

/// One RS-485 poll: the receiver, starting from `before`, consumed the
/// bytes `fed` (at most one read buffer) and ended in `after`; a reported
/// frame is the completion event of the last byte.
pub open spec fn rs485_poll_outcome(
    before: (RxState, Seq<u8>),
    fed: Seq<u8>,
    after: (RxState, Seq<u8>),
    r: CommEvent,
) -> bool {
    let (s, b, e) = hdlc_rx_run(before.0, before.1, fed);
    &&& fed.len() <= 64
    &&& after == (s, b)
    &&& (r == CommEvent::HdlcFrame <==> e == HdlcRxEvent::Complete)
    &&& (r == CommEvent::HdlcFrame ==> s == RxState::Complete)
}

/// One infrared poll: the parser, starting from `before`, consumed the
/// bytes `fed` and ended in `after`; a reported event is the parser's event
/// for the last byte.
pub open spec fn infrared_poll_outcome(
    before: (IecState, Seq<u8>),
    fed: Seq<u8>,
    after: (IecState, Seq<u8>),
    r: CommEvent,
) -> bool {
    let (s, b, e) = iec_run(before.0, before.1, fed);
    &&& fed.len() <= 64
    &&& after == (s, b)
    &&& (r == CommEvent::IecRequest <==> e == IecRxEvent::RequestReceived)
    &&& (r == CommEvent::IecDataBlock <==> e == IecRxEvent::DataBlock)
    &&& (r == CommEvent::IecComplete <==> e == IecRxEvent::Complete)
}

/// Multi-channel communication manager: RS-485 (HDLC/DLMS) and infrared
/// (IEC 62056-21) channels with independent receivers.
/// A UART channel of the communication manager.
#[derive(Clone, Copy, Debug, PartialEq, Eq, Structural)]
pub enum Line {
    Rs485,
    Infrared,
}

/// An operation the communication manager hands to a driver.
pub enum CommOp {
    /// UART initialisation with a configuration
    Init(Line, UartConfig),
    /// UART write of these bytes
    Write(Line, Seq<u8>),
    /// RS-485 transmitter on
    TxEnable,
    /// RS-485 transmitter off
    TxDisable,
    /// Whether a UART had bytes waiting
    Readable(Line, bool),
    /// UART read; the bytes it delivered into the 64-byte buffer
    Read(Line, Seq<u8>),
}

/// A poll of a UART, as the log segment `seg` from `before`: whether bytes
/// were waiting and, when they were, the read; `fed` is what the receiver
/// was then given: a prefix of the bytes read, all of them unless the
/// receiver reported an event (`got_event`); nothing after a failed read.
pub open spec fn poll_log(line: Line, seg: Seq<(CommOp, Result<(), UartError>)>, fed: Seq<u8>, got_event: bool) -> bool {
    &&& seg.len() >= 1
    &&& seg[0] == (CommOp::Readable(line, seg.len() > 1), Ok::<(), UartError>(()))
    &&& seg.len() == 1 ==> fed.len() == 0 && !got_event
    &&& seg.len() > 1 ==> seg.len() == 2 && (seg[1].0 matches CommOp::Read(l2, bytes) && l2 == line && {
        &&& seg[1].1 is Err ==> fed.len() == 0 && !got_event
        &&& seg[1].1 is Ok ==> fed.len() <= bytes.len() && fed == bytes.subrange(0, fed.len() as int)
            && (!got_event ==> fed == bytes)
    })
}

/// Going from log `old` to `new` initialised RS-485 with `c1` and, when
/// that succeeded, infrared with `c2`; `r` is the first error, if any.
pub open spec fn two_inits(
    old: Seq<(CommOp, Result<(), UartError>)>,
    new: Seq<(CommOp, Result<(), UartError>)>,
    c1: UartConfig,
    c2: UartConfig,
    r: Result<(), UartError>,
) -> bool {
    let n = old.len() as int;
    &&& new.len() > n
    &&& new.subrange(0, n) == old
    &&& new[n].0 == CommOp::Init(Line::Rs485, c1)
    &&& new[n].1 is Err ==> new.len() == n + 1 && r == new[n].1
    &&& new[n].1 is Ok ==> new.len() == n + 2 && new[n + 1].0 == CommOp::Init(Line::Infrared, c2) && r == new[n + 1].1
}

/// The configuration of an IEC 62056-21 baud switch: `baud` in 8E1.
pub open spec fn iec_switch_config(baud: u32) -> UartConfig {
    UartConfig { baudrate: baud, data_bits: 8, stop_bits: 1, parity: Parity::Even }
}

/// The bytes `send_hdlc_frame` writes: the encoded frame, cut off at the
/// 512-byte transmit buffer.
pub open spec fn hdlc_tx_bytes(address: Seq<u8>, control: u8, info: Seq<u8>) -> Seq<u8> {
    let full = hdlc_encode(hdlc_payload(address, control, info));
    if full.len() > 512 { full.subrange(0, 512) } else { full }
}

/// The other of the two serial lines.
pub open spec fn other_line(line: Line) -> Line {
    match line {
        Line::Rs485 => Line::Infrared,
        Line::Infrared => Line::Rs485,
    }
}

pub struct CommManager<U: UartDriver, D: Rs485DirControl> {
    /// RS-485 UART driver
    rs485: U,
    /// Infrared UART driver
    infrared: U,
    /// RS-485 direction control
    dir: D,
    /// HDLC receiver for RS-485
    hdlc_rx: HdlcReceiver,
    /// IEC 62056-21 parser for infrared
    iec_rx: Iec62056Parser,
    /// Temporary read buffer
    rx_tmp: [u8; 64],
    /// Operations handed to the drivers, oldest first, each with its result
    io_log: Ghost<Seq<(CommOp, Result<(), UartError>)>>,
}

impl<U: UartDriver, D: Rs485DirControl> CommManager<U, D> {
    /// The HDLC receiver state.
    pub closed spec fn hdlc_view(&self) -> (RxState, Seq<u8>) {
        self.hdlc_rx@
    }

    /// The IEC parser state.
    pub closed spec fn iec_view(&self) -> (IecState, Seq<u8>) {
        self.iec_rx@
    }

    /// Operations handed to the drivers so far, each with its result.
    pub closed spec fn io_log(&self) -> Seq<(CommOp, Result<(), UartError>)> {
        self.io_log@
    }

    /// The RS-485 UART driver.
    pub closed spec fn rs485_port(&self) -> U {
        self.rs485
    }

    /// The infrared UART driver.
    pub closed spec fn infrared_port(&self) -> U {
        self.infrared
    }

    /// The RS-485 direction control.
    pub closed spec fn direction(&self) -> D {
        self.dir
    }

    /// The UART driver of `line`.
    pub open spec fn port(&self, line: Line) -> U {
        match line {
            Line::Rs485 => self.rs485_port(),
            Line::Infrared => self.infrared_port(),
        }
    }

    /// Create a new communication manager.
    pub fn new(rs485: U, infrared: U, dir: D) -> (r: Self)
        ensures
            r.hdlc_view() == (RxState::WaitingFlag, Seq::<u8>::empty()),
            r.iec_view() == (IecState::Idle, Seq::<u8>::empty()),
            r.io_log() == Seq::<(CommOp, Result<(), UartError>)>::empty(),
    {
        CommManager {
            rs485,
            infrared,
            dir,
            hdlc_rx: HdlcReceiver::new(),
            iec_rx: Iec62056Parser::new(),
            rx_tmp: [0u8; 64],
            io_log: Ghost(Seq::empty()),
        }
    }

    /// Initialise the UART of `line` with `cfg`.
    fn uart_init(&mut self, line: Line, cfg: &UartConfig) -> (r: Result<(), UartError>)
        ensures
            final(self).io_log() == old(self).io_log().push((CommOp::Init(line, *cfg), r)),
            final(self).port(line).uart_record() == old(self).port(line).uart_record().push(UartExchange::Init(*cfg, r)),
            final(self).port(other_line(line)) == old(self).port(other_line(line)),
            final(self).direction() == old(self).direction(),
            final(self).hdlc_view() == old(self).hdlc_view(),
            final(self).iec_view() == old(self).iec_view(),
    {
        let r = match line {
            Line::Rs485 => self.rs485.init(cfg),
            Line::Infrared => self.infrared.init(cfg),
        };
        self.io_log = Ghost(self.io_log@.push((CommOp::Init(line, *cfg), r)));
        r
    }

    /// Write `data` on the UART of `line`.
    fn uart_write(&mut self, line: Line, data: &[u8]) -> (r: Result<(), UartError>)
        ensures
            final(self).io_log() == old(self).io_log().push((CommOp::Write(line, data@), r)),
            final(self).port(line).uart_record() == old(self).port(line).uart_record().push(UartExchange::Write(data@, r)),
            final(self).port(other_line(line)) == old(self).port(other_line(line)),
            final(self).direction() == old(self).direction(),
            final(self).hdlc_view() == old(self).hdlc_view(),
            final(self).iec_view() == old(self).iec_view(),
    {
        let r = match line {
            Line::Rs485 => self.rs485.write(data),
            Line::Infrared => self.infrared.write(data),
        };
        self.io_log = Ghost(self.io_log@.push((CommOp::Write(line, data@), r)));
        r
    }

    /// Switch the RS-485 transceiver to transmit (`on`) or receive.
    fn set_tx(&mut self, on: bool)
        ensures
            final(self).io_log() == old(self).io_log().push(
                (if on { CommOp::TxEnable } else { CommOp::TxDisable }, Ok::<(), UartError>(())),
            ),
            final(self).direction().switches() == old(self).direction().switches().push(on),
            final(self).rs485_port() == old(self).rs485_port(),
            final(self).infrared_port() == old(self).infrared_port(),
            final(self).hdlc_view() == old(self).hdlc_view(),
            final(self).iec_view() == old(self).iec_view(),
    {
        if on {
            self.dir.tx_enable();
        } else {
            self.dir.tx_disable();
        }
        self.io_log = Ghost(self.io_log@.push((if on { CommOp::TxEnable } else { CommOp::TxDisable }, Ok(()))));
    }

    /// Whether the UART of `line` has bytes waiting.
    fn uart_readable(&mut self, line: Line) -> (r: bool)
        ensures
            final(self).io_log() == old(self).io_log().push((CommOp::Readable(line, r), Ok::<(), UartError>(()))),
            final(self).rs485_port() == old(self).rs485_port(),
            final(self).infrared_port() == old(self).infrared_port(),
            final(self).direction() == old(self).direction(),
            final(self).hdlc_view() == old(self).hdlc_view(),
            final(self).iec_view() == old(self).iec_view(),
            final(self).rx_tmp == old(self).rx_tmp,
    {
        let r = match line {
            Line::Rs485 => self.rs485.readable(),
            Line::Infrared => self.infrared.readable(),
        };
        self.io_log = Ghost(self.io_log@.push((CommOp::Readable(line, r), Ok(()))));
        r
    }

    /// Read the UART of `line` into the 64-byte buffer; the count of bytes
    /// to take from it (at most 64) on success.
    fn uart_read(&mut self, line: Line) -> (r: Result<usize, UartError>)
        ensures
            r is Ok ==> r->Ok_0 <= 64 && final(self).io_log() == old(self).io_log().push(
                (CommOp::Read(line, final(self).rx_tmp@.subrange(0, r->Ok_0 as int)), Ok::<(), UartError>(())),
            ),
            r matches Err(e) ==> final(self).io_log() == old(self).io_log().push(
                (CommOp::Read(line, Seq::<u8>::empty()), Err::<(), UartError>(e)),
            ),
            final(self).port(line).uart_record().drop_last() == old(self).port(line).uart_record(),
            final(self).port(line).uart_record().last() matches UartExchange::Read(t, b, res) && t == 1
                && b.len() == 64 && (res is Err <==> r is Err) && (r matches Err(e) ==> res == Err::<usize, UartError>(e))
                && (r is Ok ==> b.subrange(0, r->Ok_0 as int) == final(self).rx_tmp@.subrange(0, r->Ok_0 as int)
                && r->Ok_0 == (if res->Ok_0 < 64 { res->Ok_0 } else { 64 })),
            final(self).port(other_line(line)) == old(self).port(other_line(line)),
            final(self).direction() == old(self).direction(),
            final(self).hdlc_view() == old(self).hdlc_view(),
            final(self).iec_view() == old(self).iec_view(),
    {
        let res = match line {
            Line::Rs485 => self.rs485.read(&mut self.rx_tmp, 1),
            Line::Infrared => self.infrared.read(&mut self.rx_tmp, 1),
        };
        match res {
            Ok(n) => {
                let k: usize = if n < 64 { n } else { 64 };
                self.io_log = Ghost(self.io_log@.push((CommOp::Read(line, self.rx_tmp@.subrange(0, k as int)), Ok(()))));
                Ok(k)
            },
            Err(e) => {
                self.io_log = Ghost(self.io_log@.push((CommOp::Read(line, Seq::empty()), Err(e))));
                Err(e)
            },
        }
    }

    /// Initialise RS-485 with `rs485_cfg`, then, when that succeeds,
    /// infrared with `ir_cfg`; the first error is returned.
    fn init_pair(&mut self, rs485_cfg: &UartConfig, ir_cfg: &UartConfig) -> (r: Result<(), UartError>)
        ensures
            two_inits(old(self).io_log(), final(self).io_log(), *rs485_cfg, *ir_cfg, r),
            final(self).hdlc_view() == old(self).hdlc_view(),
            final(self).iec_view() == old(self).iec_view(),
    {
        let ghost l0 = self.io_log@;
        let r1 = self.uart_init(Line::Rs485, rs485_cfg);
        if r1.is_err() {
            proof {
                assert(self.io_log@.subrange(0, l0.len() as int) =~= l0);
            }
            return r1;
        }
        let r2 = self.uart_init(Line::Infrared, ir_cfg);
        proof {
            assert(self.io_log@.subrange(0, l0.len() as int) =~= l0);
        }
        r2
    }

    /// Initialise RS-485 (9600 8E1) and then infrared (300 7E1).
    pub fn init(&mut self) -> (r: Result<(), UartError>)
        ensures
            two_inits(
                old(self).io_log(),
                final(self).io_log(),
                UartConfig { baudrate: 9600, data_bits: 8, stop_bits: 1, parity: Parity::Even },
                UartConfig { baudrate: 300, data_bits: 7, stop_bits: 1, parity: Parity::Even },
                r,
            ),
            final(self).hdlc_view() == old(self).hdlc_view(),
            final(self).iec_view() == old(self).iec_view(),
    {
        let rs485_cfg = UartConfig { baudrate: 9600, data_bits: 8, stop_bits: 1, parity: Parity::Even };
        let ir_cfg = UartConfig { baudrate: 300, data_bits: 7, stop_bits: 1, parity: Parity::Even };
        self.init_pair(&rs485_cfg, &ir_cfg)
    }

    /// Initialise both channels with custom configurations, RS-485 first.
    pub fn init_with(&mut self, rs485_cfg: &UartConfig, ir_cfg: &UartConfig) -> (r: Result<(), UartError>)
        ensures
            two_inits(old(self).io_log(), final(self).io_log(), *rs485_cfg, *ir_cfg, r),
            final(self).hdlc_view() == old(self).hdlc_view(),
            final(self).iec_view() == old(self).iec_view(),
    {
        self.init_pair(rs485_cfg, ir_cfg)
    }

    /// Poll RS-485 for received bytes and feed them to the HDLC receiver.
    /// Returns `HdlcFrame` as soon as a complete frame has been received.
    pub fn poll_rs485(&mut self) -> (r: CommEvent)
        ensures
            r == CommEvent::HdlcFrame || r == CommEvent::NoEvent,
            final(self).iec_view() == old(self).iec_view(),
            final(self).io_log().subrange(0, old(self).io_log().len() as int) == old(self).io_log(),
            exists|fed: Seq<u8>| {
                &&& #[trigger] rs485_poll_outcome(old(self).hdlc_view(), fed, final(self).hdlc_view(), r)
                &&& poll_log(
                    Line::Rs485,
                    final(self).io_log().subrange(old(self).io_log().len() as int, final(self).io_log().len() as int),
                    fed,
                    r != CommEvent::NoEvent,
                )
            },
    {
        let ghost l0 = self.io_log@;
        let ghost st0 = self.hdlc_rx@.0;
        let ghost buf0 = self.hdlc_rx@.1;
        let ghost mut fed: Seq<u8> = Seq::empty();
        assert(rs485_poll_outcome(old(self).hdlc_view(), fed, self.hdlc_view(), CommEvent::NoEvent));
        let ready = self.uart_readable(Line::Rs485);
        proof {
            assert(self.io_log@.subrange(0, l0.len() as int) =~= l0);
            assert(self.io_log@.subrange(l0.len() as int, self.io_log@.len() as int) =~= seq![(CommOp::Readable(Line::Rs485, ready), Ok::<(), UartError>(()))]);
        }
        if !ready {
            return CommEvent::NoEvent;
        }
        let res = self.uart_read(Line::Rs485);
        let ghost seg = self.io_log@.subrange(l0.len() as int, self.io_log@.len() as int);
        proof {
            assert(self.io_log@.subrange(0, l0.len() as int) =~= l0);
            assert(seg =~= seq![(CommOp::Readable(Line::Rs485, ready), Ok::<(), UartError>(())), self.io_log@.last()]);
        }
        match res {
            Ok(n) => {
                let ghost bytes = self.rx_tmp@.subrange(0, n as int);
                proof {
                    assert(self.io_log@ =~= l0 + seg);
                    assert(seg[1] == (CommOp::Read(Line::Rs485, bytes), Ok::<(), UartError>(())));
                }
                let mut i: usize = 0;
                while i < n
                    invariant
                        i <= n,
                        l0 == old(self).io_log@,
                        seg.len() == 2,
                        seg[0] == (CommOp::Readable(Line::Rs485, true), Ok::<(), UartError>(())),
                        seg[1] == (CommOp::Read(Line::Rs485, bytes), Ok::<(), UartError>(())),
                        n <= 64,
                        fed.len() == i,
                        fed == bytes.subrange(0, i as int),
                        bytes == self.rx_tmp@.subrange(0, n as int),
                        self.iec_rx@ == old(self).iec_rx@,
                        self.io_log@ == l0 + seg,
                        st0 == old(self).hdlc_rx@.0,
                        buf0 == old(self).hdlc_rx@.1,
                        hdlc_rx_run(st0, buf0, fed).0 == self.hdlc_rx@.0,
                        hdlc_rx_run(st0, buf0, fed).1 == self.hdlc_rx@.1,
                        hdlc_rx_run(st0, buf0, fed).2 != HdlcRxEvent::Complete,
                    decreases n - i,
                {
                    let byte = self.rx_tmp[i];
                    proof {
                        lemma_rx_run_push(st0, buf0, fed, byte);
                    }
                    let ev = self.hdlc_rx.feed(byte);
                    proof {
                        assert(bytes.subrange(0, i + 1) =~= fed.push(byte));
                        fed = fed.push(byte);
                    }
                    match ev {
                        HdlcRxEvent::Complete => {
                            assert(rs485_poll_outcome(old(self).hdlc_view(), fed, self.hdlc_view(), CommEvent::HdlcFrame));
                            assert(self.io_log@.subrange(0, l0.len() as int) =~= l0);
                            assert(self.io_log@.subrange(l0.len() as int, self.io_log@.len() as int) =~= seg);
                            return CommEvent::HdlcFrame;
                        },
                        HdlcRxEvent::Error(_) => {
                            self.hdlc_rx.reset();
                        },
                        HdlcRxEvent::Idle => {},
                    }
                    i = i + 1;
                }
                proof {
                    assert(fed =~= bytes);
                }
            },
            Err(_) => {},
        }
        assert(rs485_poll_outcome(old(self).hdlc_view(), fed, self.hdlc_view(), CommEvent::NoEvent));
        assert(self.io_log@.subrange(0, l0.len() as int) =~= l0);
        assert(self.io_log@.subrange(l0.len() as int, self.io_log@.len() as int) =~= seg);
        CommEvent::NoEvent
    }

    /// Poll infrared for received bytes and feed them to the IEC parser.
    pub fn poll_infrared(&mut self) -> (r: CommEvent)
        ensures
            r == CommEvent::IecRequest || r == CommEvent::IecDataBlock || r
                == CommEvent::IecComplete || r == CommEvent::NoEvent,
            final(self).hdlc_view() == old(self).hdlc_view(),
            final(self).io_log().subrange(0, old(self).io_log().len() as int) == old(self).io_log(),
            exists|fed: Seq<u8>| {
                &&& #[trigger] infrared_poll_outcome(old(self).iec_view(), fed, final(self).iec_view(), r)
                &&& poll_log(
                    Line::Infrared,
                    final(self).io_log().subrange(old(self).io_log().len() as int, final(self).io_log().len() as int),
                    fed,
                    r != CommEvent::NoEvent,
                )
            },
    {
        let ghost l0 = self.io_log@;
        let ghost st0 = self.iec_rx@.0;
        let ghost buf0 = self.iec_rx@.1;
        let ghost mut fed: Seq<u8> = Seq::empty();
        assert(infrared_poll_outcome(old(self).iec_view(), fed, self.iec_view(), CommEvent::NoEvent));
        let ready = self.uart_readable(Line::Infrared);
        proof {
            assert(self.io_log@.subrange(0, l0.len() as int) =~= l0);
            assert(self.io_log@.subrange(l0.len() as int, self.io_log@.len() as int) =~= seq![(CommOp::Readable(Line::Infrared, ready), Ok::<(), UartError>(()))]);
        }
        if !ready {
            return CommEvent::NoEvent;
        }
        let res = self.uart_read(Line::Infrared);
        let ghost seg = self.io_log@.subrange(l0.len() as int, self.io_log@.len() as int);
        proof {
            assert(self.io_log@.subrange(0, l0.len() as int) =~= l0);
            assert(seg =~= seq![(CommOp::Readable(Line::Infrared, ready), Ok::<(), UartError>(())), self.io_log@.last()]);
        }
        match res {
            Ok(n) => {
                let ghost bytes = self.rx_tmp@.subrange(0, n as int);
                proof {
                    assert(self.io_log@ =~= l0 + seg);
                    assert(seg[1] == (CommOp::Read(Line::Infrared, bytes), Ok::<(), UartError>(())));
                }
                let mut i: usize = 0;
                while i < n
                    invariant
                        i <= n,
                        n <= 64,
                        l0 == old(self).io_log@,
                        seg.len() == 2,
                        seg[0] == (CommOp::Readable(Line::Infrared, true), Ok::<(), UartError>(())),
                        seg[1] == (CommOp::Read(Line::Infrared, bytes), Ok::<(), UartError>(())),
                        fed.len() == i,
                        fed == bytes.subrange(0, i as int),
                        bytes == self.rx_tmp@.subrange(0, n as int),
                        self.hdlc_rx@ == old(self).hdlc_rx@,
                        self.io_log@ == l0 + seg,
                        st0 == old(self).iec_rx@.0,
                        buf0 == old(self).iec_rx@.1,
                        iec_run(st0, buf0, fed).0 == self.iec_rx@.0,
                        iec_run(st0, buf0, fed).1 == self.iec_rx@.1,
                        iec_run(st0, buf0, fed).2 == IecRxEvent::Idle
                            || iec_run(st0, buf0, fed).2 == IecRxEvent::Overflow,
                    decreases n - i,
                {
                    let byte = self.rx_tmp[i];
                    proof {
                        lemma_iec_run_push(st0, buf0, fed, byte);
                    }
                    let ev = self.iec_rx.feed(byte);
                    proof {
                        assert(bytes.subrange(0, i + 1) =~= fed.push(byte));
                        fed = fed.push(byte);
                        assert(self.io_log@.subrange(0, l0.len() as int) =~= l0);
                        assert(self.io_log@.subrange(l0.len() as int, self.io_log@.len() as int) =~= seg);
                    }
                    match ev {
                        IecRxEvent::RequestReceived => {
                            assert(infrared_poll_outcome(old(self).iec_view(), fed, self.iec_view(), CommEvent::IecRequest));
                            return CommEvent::IecRequest;
                        },
                        IecRxEvent::DataBlock => {
                            assert(infrared_poll_outcome(old(self).iec_view(), fed, self.iec_view(), CommEvent::IecDataBlock));
                            return CommEvent::IecDataBlock;
                        },
                        IecRxEvent::Complete => {
                            assert(infrared_poll_outcome(old(self).iec_view(), fed, self.iec_view(), CommEvent::IecComplete));
                            return CommEvent::IecComplete;
                        },
                        IecRxEvent::Overflow => {
                            self.iec_rx.reset();
                        },
                        IecRxEvent::Idle => {},
                    }
                    i = i + 1;
                }
                proof {
                    assert(fed =~= bytes);
                }
            },
            Err(_) => {},
        }
        assert(infrared_poll_outcome(old(self).iec_view(), fed, self.iec_view(), CommEvent::NoEvent));
        assert(self.io_log@.subrange(0, l0.len() as int) =~= l0);
        assert(self.io_log@.subrange(l0.len() as int, self.io_log@.len() as int) =~= seg);
        CommEvent::NoEvent
    }

    /// The HDLC receiver (to access the received frame).
    pub fn hdlc_receiver(&self) -> (r: &HdlcReceiver)
        ensures
            r@ == self.hdlc_view(),
    {
        &self.hdlc_rx
    }

    /// Mutable access to the HDLC receiver; the parser and the drivers are
    /// left as they were.
    pub fn hdlc_receiver_mut(&mut self) -> (r: &mut HdlcReceiver)
        ensures
            r@ == old(self).hdlc_view(),
            final(self).hdlc_view() == final(r)@,
            final(self).iec_view() == old(self).iec_view(),
            final(self).rs485_port() == old(self).rs485_port(),
            final(self).infrared_port() == old(self).infrared_port(),
    {
        &mut self.hdlc_rx
    }

    /// The IEC parser.
    pub fn iec_parser(&self) -> (r: &Iec62056Parser)
        ensures
            r@ == self.iec_view(),
    {
        &self.iec_rx
    }

    /// Mutable access to the IEC parser; the HDLC receiver and the drivers
    /// are left as they were.
    pub fn iec_parser_mut(&mut self) -> (r: &mut Iec62056Parser)
        ensures
            r@ == old(self).iec_view(),
            final(self).iec_view() == final(r)@,
            final(self).hdlc_view() == old(self).hdlc_view(),
            final(self).rs485_port() == old(self).rs485_port(),
            final(self).infrared_port() == old(self).infrared_port(),
    {
        &mut self.iec_rx
    }

    /// Direct access to the RS-485 UART; both receivers are left as they were.
    pub fn rs485_uart(&mut self) -> (r: &mut U)
        ensures
            *r == old(self).rs485_port(),
            final(self).rs485_port() == *final(r),
            final(self).infrared_port() == old(self).infrared_port(),
            final(self).hdlc_view() == old(self).hdlc_view(),
            final(self).iec_view() == old(self).iec_view(),
    {
        &mut self.rs485
    }

    /// Direct access to the infrared UART; both receivers are left as they were.
    pub fn infrared_uart(&mut self) -> (r: &mut U)
        ensures
            *r == old(self).infrared_port(),
            final(self).infrared_port() == *final(r),
            final(self).rs485_port() == old(self).rs485_port(),
            final(self).hdlc_view() == old(self).hdlc_view(),
            final(self).iec_view() == old(self).iec_view(),
    {
        &mut self.infrared
    }

    /// Build an HDLC frame and send it on RS-485, enabling the transmitter
    /// for the duration of the write; the write's result is returned.
    pub fn send_hdlc_frame(&mut self, address: &[u8], control: u8, info: &[u8]) -> (r: Result<(), UartError>)
        requires
            address@.len() + info@.len() <= 253,
        ensures
            final(self).io_log() == old(self).io_log() + seq![
                (CommOp::TxEnable, Ok::<(), UartError>(())),
                (CommOp::Write(Line::Rs485, hdlc_tx_bytes(address@, control, info@)), r),
                (CommOp::TxDisable, Ok::<(), UartError>(())),
            ],
            final(self).hdlc_view() == old(self).hdlc_view(),
            final(self).iec_view() == old(self).iec_view(),
    {
        let mut tx_buf = [0u8; 512];
        let len = HdlcFrame::build(address, control, info, &mut tx_buf);
        let frame = slice_subrange(array_as_slice(&tx_buf), 0, len);
        proof {
            assert(frame@ =~= hdlc_tx_bytes(address@, control, info@));
        }
        self.set_tx(true);
        let result = self.uart_write(Line::Rs485, frame);
        self.set_tx(false);
        proof {
            assert(self.io_log@ =~= old(self).io_log() + seq![
                (CommOp::TxEnable, Ok::<(), UartError>(())),
                (CommOp::Write(Line::Rs485, hdlc_tx_bytes(address@, control, info@)), result),
                (CommOp::TxDisable, Ok::<(), UartError>(())),
            ]);
        }
        result
    }

    /// Send raw bytes on RS-485 with direction control; the write's result
    /// is returned.
    pub fn send_rs485_raw(&mut self, data: &[u8]) -> (r: Result<(), UartError>)
        ensures
            final(self).io_log() == old(self).io_log() + seq![
                (CommOp::TxEnable, Ok::<(), UartError>(())),
                (CommOp::Write(Line::Rs485, data@), r),
                (CommOp::TxDisable, Ok::<(), UartError>(())),
            ],
            final(self).hdlc_view() == old(self).hdlc_view(),
            final(self).iec_view() == old(self).iec_view(),
    {
        self.set_tx(true);
        let result = self.uart_write(Line::Rs485, data);
        self.set_tx(false);
        proof {
            assert(self.io_log@ =~= old(self).io_log() + seq![
                (CommOp::TxEnable, Ok::<(), UartError>(())),
                (CommOp::Write(Line::Rs485, data@), result),
                (CommOp::TxDisable, Ok::<(), UartError>(())),
            ]);
        }
        result
    }

    /// Send an IEC 62056-21 response on infrared.
    pub fn send_iec_response(&mut self, data: &[u8]) -> (r: Result<(), UartError>)
        ensures
            final(self).io_log() == old(self).io_log().push((CommOp::Write(Line::Infrared, data@), r)),
            final(self).hdlc_view() == old(self).hdlc_view(),
            final(self).iec_view() == old(self).iec_view(),
    {
        self.uart_write(Line::Infrared, data)
    }

    /// Send the IEC baud-rate acknowledgment `<ACK>/<baud><CR><LF>` on
    /// infrared; when that write succeeds, switch the infrared channel to
    /// `new_baud` (8E1) and, when that succeeds too, put the parser in
    /// high-speed mode. The first error is returned.
    pub fn iec_baud_switch(&mut self, baud_char: u8, new_baud: u32) -> (r: Result<(), UartError>)
        ensures
            ({
                let n = old(self).io_log().len() as int;
                let l = final(self).io_log();
                let ack = seq![ACK, 0x2Fu8, baud_char, CR, LF];
                &&& l.len() > n
                &&& l.subrange(0, n) == old(self).io_log()
                &&& l[n].0 == CommOp::Write(Line::Infrared, ack)
                &&& l[n].1 is Err ==> l.len() == n + 1 && r == l[n].1
                &&& l[n].1 is Ok ==> l.len() == n + 2 && l[n + 1].0 == CommOp::Init(Line::Infrared, iec_switch_config(new_baud))
                    && r == l[n + 1].1
            }),
            final(self).hdlc_view() == old(self).hdlc_view(),
            r is Ok ==> final(self).iec_view() == (IecState::HighSpeed, Seq::<u8>::empty()),
            r is Err ==> final(self).iec_view() == old(self).iec_view(),
    {
        let mut ack = [0u8; 5];
        let len = Iec62056Parser::build_ack_baud_switch(baud_char, &mut ack);
        let reply = slice_subrange(array_as_slice(&ack), 0, len);
        proof {
            assert(reply@ =~= seq![ACK, 0x2Fu8, baud_char, CR, LF]);
        }
        let w = self.uart_write(Line::Infrared, reply);
        if w.is_err() {
            proof {
                assert(self.io_log@.subrange(0, old(self).io_log().len() as int) =~= old(self).io_log());
            }
            return w;
        }
        let ir_cfg = UartConfig { baudrate: new_baud, data_bits: 8, stop_bits: 1, parity: Parity::Even };
        let i = self.uart_init(Line::Infrared, &ir_cfg);
        proof {
            assert(self.io_log@.subrange(0, old(self).io_log().len() as int) =~= old(self).io_log());
        }
        if i.is_ok() {
            self.iec_rx.set_high_speed();
        }
        i
    }

    /// Reset both receivers.
    pub fn reset_all(&mut self)
        ensures
            final(self).hdlc_view() == (RxState::WaitingFlag, Seq::<u8>::empty()),
            final(self).iec_view() == (IecState::Idle, Seq::<u8>::empty()),
    {
        self.hdlc_rx.reset();
        self.iec_rx.reset();
    }
}

} // verus!
