//! DLMS/COSEM front end: the byte-level HDLC receiver that collects one
//! frame between flags and undoes byte stuffing, the data-provider
//! interface through which the metering layer is read, the table of COSEM
//! objects served, and the LLC layer around an APDU.
use vstd::prelude::*;

use crate::comm::{hdlc_stuff, hdlc_stuff_byte};
use crate::hal::{EnergyData, PhaseData};

verus! {

/// HDLC frame flag.
pub const FRAME_FLAG: u8 = 0x7E;
/// HDLC escape byte.
pub const FRAME_ESCAPE: u8 = 0x7D;
/// Mask applied to the byte after an escape.
pub const FRAME_ESCAPE_MASK: u8 = 0x20;

/// Identity of the meter.
#[derive(Clone, Copy, Debug)]
pub struct MeterInfo {
    /// Meter address (12 BCD bytes).
    pub meter_address: [u8; 12],
    /// Manufacturer code.
    pub manufacturer: [u8; 3],
    /// Firmware version.
    pub fw_version: [u8; 6],
    /// Serial number.
    pub serial_number: u32,
}

impl Default for MeterInfo {
    fn default() -> (r: Self)
        ensures
            r.meter_address@ == Seq::new(12, |i: int| 0u8),
            r.manufacturer@ == Seq::new(3, |i: int| 0u8),
            r.fw_version@ == Seq::new(6, |i: int| 0u8),
            r.serial_number == 0,
    {
        let r = MeterInfo { meter_address: [0; 12], manufacturer: [0; 3], fw_version: [0; 6], serial_number: 0 };
        assert(r.meter_address@ =~= Seq::new(12, |i: int| 0u8));
        assert(r.manufacturer@ =~= Seq::new(3, |i: int| 0u8));
        assert(r.fw_version@ =~= Seq::new(6, |i: int| 0u8));
        r
    }
}

/// Source of the values the protocol layer serves, implemented by the
/// metering layer so that the stack does not depend on a metering chip.
pub trait DlmsDataProvider {
    /// Real-time phase values.
    fn get_phase_data(&self) -> PhaseData;
    /// Accumulated energy.
    fn get_energy_data(&self) -> EnergyData;
    /// Meter identity.
    fn get_meter_info(&self) -> MeterInfo;
}


/* ---------------- COSEM objects served ---------------- */

/// Clock (class 8).
pub const OBIS_CLOCK: [u8; 6] = [0, 0, 1, 0, 0, 255];
/// Phase A voltage.
pub const OBIS_VOLTAGE_A: [u8; 6] = [1, 0, 1, 7, 0, 255];
/// Phase B voltage.
pub const OBIS_VOLTAGE_B: [u8; 6] = [1, 0, 1, 8, 0, 255];
/// Phase C voltage.
pub const OBIS_VOLTAGE_C: [u8; 6] = [1, 0, 1, 9, 0, 255];
/// Phase A current.
pub const OBIS_CURRENT_A: [u8; 6] = [1, 0, 11, 7, 0, 255];
/// Phase B current.
pub const OBIS_CURRENT_B: [u8; 6] = [1, 0, 12, 7, 0, 255];
/// Phase C current.
pub const OBIS_CURRENT_C: [u8; 6] = [1, 0, 13, 7, 0, 255];
/// Total active power.
pub const OBIS_ACTIVE_POWER_TOTAL: [u8; 6] = [1, 0, 1, 21, 0, 255];
/// Total reactive power.
pub const OBIS_REACTIVE_POWER_TOTAL: [u8; 6] = [1, 0, 1, 23, 0, 255];
/// Frequency.
pub const OBIS_FREQUENCY: [u8; 6] = [1, 0, 1, 29, 0, 255];
/// Power factor.
pub const OBIS_POWER_FACTOR: [u8; 6] = [1, 0, 1, 47, 0, 255];
/// Positive active energy.
pub const OBIS_POSITIVE_ACTIVE_ENERGY: [u8; 6] = [1, 0, 9, 6, 0, 255];

/// A COSEM attribute value, as handed to the A-XDR encoder.
#[derive(Clone, Copy, Debug, PartialEq, Eq, Structural)]
pub enum CosemValue {
    /// Clock structure: year, month, day, then weekday and time packed.
    Clock { year: u16, month: u8, day: u8, rest: u16 },
    /// Signed 16-bit.
    Int16(i16),
    /// Signed 32-bit.
    Int32(i32),
    /// Unsigned 16-bit.
    UInt16(u16),
    /// An integer the encoder stores in the smallest type that holds it.
    Integer(i64),
}

/// Division by 100 rounding toward zero, as on machine integers.
pub open spec fn div100_trunc(v: int) -> int {
    if v >= 0 { v / 100 } else { -((-v) / 100) }
}

/// Value of the object `obis` for the given readings; `None` for an object
/// the meter does not serve.
pub open spec fn cosem_value_of(obis: Seq<u8>, phase: PhaseData, energy: EnergyData) -> Option<CosemValue> {
    if obis == OBIS_CLOCK@ {
        Some(CosemValue::Clock { year: 2026, month: 4, day: 2, rest: 0 })
    } else if obis == OBIS_VOLTAGE_A@ {
        Some(CosemValue::Int16(div100_trunc((phase.voltage_a as i16) as int) as i16))
    } else if obis == OBIS_VOLTAGE_B@ {
        Some(CosemValue::Int16(div100_trunc((phase.voltage_b as i16) as int) as i16))
    } else if obis == OBIS_VOLTAGE_C@ {
        Some(CosemValue::Int16(div100_trunc((phase.voltage_c as i16) as int) as i16))
    } else if obis == OBIS_CURRENT_A@ {
        Some(CosemValue::Integer(phase.current_a as i64))
    } else if obis == OBIS_CURRENT_B@ {
        Some(CosemValue::Integer(phase.current_b as i64))
    } else if obis == OBIS_CURRENT_C@ {
        Some(CosemValue::Integer(phase.current_c as i64))
    } else if obis == OBIS_ACTIVE_POWER_TOTAL@ {
        Some(CosemValue::Int32(phase.active_power_total))
    } else if obis == OBIS_REACTIVE_POWER_TOTAL@ {
        Some(CosemValue::Int32(phase.reactive_power_total))
    } else if obis == OBIS_FREQUENCY@ {
        Some(CosemValue::UInt16((phase.frequency / 100) as u16))
    } else if obis == OBIS_POWER_FACTOR@ {
        Some(CosemValue::UInt16(phase.power_factor_total))
    } else if obis == OBIS_POSITIVE_ACTIVE_ENERGY@ {
        Some(CosemValue::Integer(energy.active_import as i64))
    } else {
        None
    }
}

/// Whether the meter serves the object `obis`.
pub open spec fn obis_served(obis: Seq<u8>) -> bool {
    ||| obis == OBIS_CLOCK@
    ||| obis == OBIS_VOLTAGE_A@
    ||| obis == OBIS_VOLTAGE_B@
    ||| obis == OBIS_VOLTAGE_C@
    ||| obis == OBIS_CURRENT_A@
    ||| obis == OBIS_CURRENT_B@
    ||| obis == OBIS_CURRENT_C@
    ||| obis == OBIS_ACTIVE_POWER_TOTAL@
    ||| obis == OBIS_REACTIVE_POWER_TOTAL@
    ||| obis == OBIS_FREQUENCY@
    ||| obis == OBIS_POWER_FACTOR@
    ||| obis == OBIS_POSITIVE_ACTIVE_ENERGY@
}

/// Whether two OBIS codes are equal.
fn obis_eq(a: &[u8; 6], b: &[u8; 6]) -> (r: bool)
    ensures
        r == (a@ == b@),
{
    let mut i: usize = 0;
    while i < 6
        invariant
            i <= 6,
            forall|j: int| 0 <= j < i ==> a@[j] == b@[j],
        decreases 6 - i,
    {
        if a[i] != b[i] {
            return false;
        }
        i = i + 1;
    }
    assert(a@ =~= b@);
    true
}

/// A voltage in 0.01 V as a signed 16-bit number of volts (the reading
/// taken as signed, divided by 100 toward zero).
fn volts_i16(v: u16) -> (r: i16)
    ensures
        r == div100_trunc((v as i16) as int),
{
    let s: i16 = v as i16;
    if s >= 0 {
        s / 100
    } else {
        let m: i32 = -(s as i32);
        let q: i32 = m / 100;
        (-q) as i16
    }
}

/// Value of the object `obis` for the given readings (see
/// `cosem_value_of`).
pub fn cosem_value(obis: &[u8; 6], phase: &PhaseData, energy: &EnergyData) -> (r: Option<CosemValue>)
    ensures
        r == cosem_value_of(obis@, *phase, *energy),
{
    if obis_eq(obis, &OBIS_CLOCK) {
        Some(CosemValue::Clock { year: 2026, month: 4, day: 2, rest: 0 })
    } else if obis_eq(obis, &OBIS_VOLTAGE_A) {
        Some(CosemValue::Int16(volts_i16(phase.voltage_a)))
    } else if obis_eq(obis, &OBIS_VOLTAGE_B) {
        Some(CosemValue::Int16(volts_i16(phase.voltage_b)))
    } else if obis_eq(obis, &OBIS_VOLTAGE_C) {
        Some(CosemValue::Int16(volts_i16(phase.voltage_c)))
    } else if obis_eq(obis, &OBIS_CURRENT_A) {
        Some(CosemValue::Integer(phase.current_a as i64))
    } else if obis_eq(obis, &OBIS_CURRENT_B) {
        Some(CosemValue::Integer(phase.current_b as i64))
    } else if obis_eq(obis, &OBIS_CURRENT_C) {
        Some(CosemValue::Integer(phase.current_c as i64))
    } else if obis_eq(obis, &OBIS_ACTIVE_POWER_TOTAL) {
        Some(CosemValue::Int32(phase.active_power_total))
    } else if obis_eq(obis, &OBIS_REACTIVE_POWER_TOTAL) {
        Some(CosemValue::Int32(phase.reactive_power_total))
    } else if obis_eq(obis, &OBIS_FREQUENCY) {
        Some(CosemValue::UInt16(phase.frequency / 100))
    } else if obis_eq(obis, &OBIS_POWER_FACTOR) {
        Some(CosemValue::UInt16(phase.power_factor_total))
    } else if obis_eq(obis, &OBIS_POSITIVE_ACTIVE_ENERGY) {
        Some(CosemValue::Integer(energy.active_import as i64))
    } else {
        None
    }
}

/// LLC header of a DLMS response: destination and source service access
/// points, then the UI control byte.
pub const LLC_RESPONSE_HEADER: [u8; 3] = [0xE7, 0xE7, 0x03];

/// Information field of a response frame: the LLC header, then the APDU.
pub fn llc_wrap(apdu: &[u8]) -> (r: Vec<u8>)
    ensures
        r@ == LLC_RESPONSE_HEADER@ + apdu@,
{
    let mut v: Vec<u8> = Vec::new();
    v.push(0xE7);
    v.push(0xE7);
    v.push(0x03);
    let mut i: usize = 0;
    while i < apdu.len()
        invariant
            i <= apdu@.len(),
            v@ == LLC_RESPONSE_HEADER@ + apdu@.subrange(0, i as int),
        decreases apdu@.len() - i,
    {
        v.push(apdu[i]);
        i = i + 1;
        assert(apdu@.subrange(0, i as int) =~= apdu@.subrange(0, i - 1).push(apdu@[i - 1]));
    }
    assert(apdu@.subrange(0, apdu@.len() as int) =~= apdu@);
    v
}

/// Send sequence number after a response frame (modulo 8).
pub open spec fn next_send_seq(s: u8) -> u8 {
    ((s + 1) % 256 % 8) as u8
}

/// One received byte applied to the receiver view (inside a frame, bytes
/// of the frame, frame ready). A flag opens a frame, clearing the bytes and
/// the ready mark, or closes it, marking it ready when it holds a byte.
/// Inside a frame an escape byte is kept as a marker and the byte after it
/// replaces the marker with bit 5 flipped; other bytes are appended.
/// Outside a frame, bytes other than a flag are ignored.
pub open spec fn rx_feed(v: (bool, Seq<u8>, bool), byte: u8) -> (bool, Seq<u8>, bool) {
    let (receiving, buf, ready) = v;
    if !receiving {
        if byte == FRAME_FLAG {
            (true, Seq::empty(), false)
        } else {
            v
        }
    } else if byte == FRAME_FLAG {
        (false, buf, ready || buf.len() > 0)
    } else if byte != FRAME_ESCAPE && buf.len() > 0 && buf.last() == FRAME_ESCAPE {
        (true, buf.drop_last().push(byte ^ FRAME_ESCAPE_MASK), ready)
    } else {
        (true, buf.push(byte), ready)
    }
}

/// A byte sequence applied to the receiver view, first byte first.
pub open spec fn rx_feed_all(v: (bool, Seq<u8>, bool), bytes: Seq<u8>) -> (bool, Seq<u8>, bool)
    decreases bytes.len(),
{
    if bytes.len() == 0 {
        v
    } else {
        rx_feed(rx_feed_all(v, bytes.drop_last()), bytes.last())
    }
}

/// Feeding two byte sequences one after the other is feeding their
/// concatenation.
pub proof fn lemma_rx_feed_concat(v: (bool, Seq<u8>, bool), a: Seq<u8>, b: Seq<u8>)
    ensures
        rx_feed_all(v, a + b) == rx_feed_all(rx_feed_all(v, a), b),
    decreases b.len(),
{
    if b.len() == 0 {
        assert(a + b =~= a);
    } else {
        lemma_rx_feed_concat(v, a, b.drop_last());
        assert((a + b).drop_last() =~= a + b.drop_last());
        assert((a + b).last() == b.last());
    }
}

/// The byte-stuffed body of a payload without escape bytes, fed inside a
/// fresh frame, leaves exactly the payload in the buffer.
proof fn lemma_rx_stuffed_body(p: Seq<u8>)
    requires
        forall|i: int| 0 <= i < p.len() ==> p[i] != FRAME_ESCAPE,
    ensures
        rx_feed_all((true, Seq::<u8>::empty(), false), hdlc_stuff(p)) == (true, p, false),
    decreases p.len(),
{
    let s0 = (true, Seq::<u8>::empty(), false);
    if p.len() == 0 {
        assert(hdlc_stuff(p) =~= Seq::<u8>::empty());
    } else {
        let q = p.drop_last();
        let l = p.last();
        assert forall|i: int| 0 <= i < q.len() implies q[i] != FRAME_ESCAPE by {
            assert(q[i] == p[i]);
        }
        lemma_rx_stuffed_body(q);
        lemma_rx_feed_concat(s0, hdlc_stuff(q), hdlc_stuff_byte(l));
        assert(l == p[p.len() - 1]);
        assert(p =~= q.push(l));
        let t = (true, q, false);
        assert(hdlc_stuff(p) == hdlc_stuff(q) + hdlc_stuff_byte(l));
        assert(rx_feed_all(t, Seq::<u8>::empty()) == t);
        if l == FRAME_FLAG {
            let e = hdlc_stuff_byte(l);
            assert(0x7Eu8 ^ 0x20u8 == 0x5Eu8) by (bit_vector);
            assert(0x5Eu8 ^ 0x20u8 == 0x7Eu8) by (bit_vector);
            assert(e =~= seq![FRAME_ESCAPE, 0x5Eu8]);
            assert(e.drop_last() =~= seq![FRAME_ESCAPE]);
            assert(seq![FRAME_ESCAPE].drop_last() =~= Seq::<u8>::empty());
            let t1 = (true, q.push(FRAME_ESCAPE), false);
            assert(rx_feed_all(t, seq![FRAME_ESCAPE]) == t1);
            assert(q.push(FRAME_ESCAPE).drop_last() =~= q);
            assert(rx_feed(t1, 0x5Eu8) == (true, q.push(0x7Eu8), false));
            assert(rx_feed_all(t, e) == rx_feed(rx_feed_all(t, e.drop_last()), e.last()));
        } else {
            assert(hdlc_stuff_byte(l) =~= seq![l]);
            assert(seq![l].drop_last() =~= Seq::<u8>::empty());
            if q.len() > 0 {
                assert(q.last() == p[q.len() - 1]);
            }
            assert(rx_feed_all(t, seq![l]) == rx_feed(t, l));
        }
    }
}

/// A frame sent as flag, byte-stuffed payload, flag, arriving at an idle
/// receiver, leaves the receiver idle with the payload in its buffer,
/// marked ready when the payload is not empty. (A payload holding an
/// escape byte is left out: after an escaped escape byte the next byte is
/// taken as escaped too.)
pub proof fn lemma_rx_frame_roundtrip(v: (bool, Seq<u8>, bool), payload: Seq<u8>)
    requires
        !v.0,
        forall|i: int| 0 <= i < payload.len() ==> payload[i] != FRAME_ESCAPE,
    ensures
        rx_feed_all(v, seq![FRAME_FLAG] + hdlc_stuff(payload) + seq![FRAME_FLAG])
            == (false, payload, payload.len() > 0),
{
    let open = seq![FRAME_FLAG];
    let body = hdlc_stuff(payload);
    assert(open.drop_last() =~= Seq::<u8>::empty());
    assert(rx_feed_all(v, Seq::<u8>::empty()) == v);
    assert(rx_feed_all(v, open) == (true, Seq::<u8>::empty(), false));
    lemma_rx_feed_concat(v, open, body);
    lemma_rx_stuffed_body(payload);
    lemma_rx_feed_concat(v, open + body, seq![FRAME_FLAG]);
    let s1 = rx_feed_all(v, open + body);
    assert(s1 == (true, payload, false));
    assert(seq![FRAME_FLAG].drop_last() =~= Seq::<u8>::empty());
    assert(rx_feed_all(s1, Seq::<u8>::empty()) == s1);
    assert(rx_feed_all(s1, seq![FRAME_FLAG]) == rx_feed(s1, FRAME_FLAG));
}

/// Receiver state: waiting for an opening flag, or inside a frame.
#[derive(Clone, Copy, PartialEq, Eq, Debug)]
enum RxState {
    Idle,
    Receiving,
}

/// DLMS/COSEM protocol stack over one data provider.
pub struct DlmsStack<'a, P: DlmsDataProvider> {
    provider: &'a P,
    rx_state: RxState,
    rx_buffer: Vec<u8>,
    /// A complete, non-empty frame waits to be processed.
    pub frame_ready: bool,
    send_seq: u8,
    recv_seq: u8,
    /// Password of serial-number authentication (4 bytes).
    pub sn_password: [u8; 4],
    /// Readings taken from the provider, oldest first
    readings: Ghost<Seq<(PhaseData, EnergyData)>>,
}

impl<'a, P: DlmsDataProvider> DlmsStack<'a, P> {
    /// Readings taken from the provider so far, oldest first.
    pub closed spec fn readings_taken(&self) -> Seq<(PhaseData, EnergyData)> {
        self.readings@
    }

    /// Whether the receiver is inside a frame.
    pub closed spec fn receiving(&self) -> bool {
        self.rx_state == RxState::Receiving
    }

    /// Bytes received in the current frame.
    pub closed spec fn buffer(&self) -> Seq<u8> {
        self.rx_buffer@
    }

    /// HDLC send and receive sequence numbers.
    pub closed spec fn sequence(&self) -> (u8, u8) {
        (self.send_seq, self.recv_seq)
    }

    /// Whether a complete frame waits.
    pub closed spec fn ready(&self) -> bool {
        self.frame_ready
    }

    /// Serial-number authentication password.
    pub closed spec fn password(&self) -> [u8; 4] {
        self.sn_password
    }

    /// Receiver view: inside a frame, bytes of the frame, frame ready.
    pub open spec fn rx_view(&self) -> (bool, Seq<u8>, bool) {
        (self.receiving(), self.buffer(), self.ready())
    }

    /// The provider served.
    pub closed spec fn source(&self) -> &'a P {
        self.provider
    }

    /// A stack over `provider`: idle, empty, no frame, sequence numbers
    /// zero, empty password.
    pub fn new(provider: &'a P) -> (r: Self)
        ensures
            !r.receiving(),
            r.buffer() == Seq::<u8>::empty(),
            !r.ready(),
            r.sequence() == (0u8, 0u8),
            r.password()@ == seq![0u8, 0u8, 0u8, 0u8],
            r.source() == provider,
    {
        let r = DlmsStack {
            provider,
            rx_state: RxState::Idle,
            rx_buffer: Vec::new(),
            frame_ready: false,
            send_seq: 0,
            recv_seq: 0,
            sn_password: [0x00; 4],
            readings: Ghost(Seq::empty()),
        };
        assert(r.sn_password@ =~= seq![0u8, 0u8, 0u8, 0u8]);
        r
    }

    /// Set the serial-number authentication password.
    pub fn set_sn_password(&mut self, password: [u8; 4])
        ensures
            final(self).password() == password,
            final(self).ready() == old(self).ready(),
            final(self).receiving() == old(self).receiving(),
            final(self).buffer() == old(self).buffer(),
            final(self).sequence() == old(self).sequence(),
            final(self).source() == old(self).source(),
    {
        self.sn_password = password;
    }

    /// Take one received byte (see `rx_feed`).
    pub fn feed_byte(&mut self, byte: u8)
        requires
            old(self).buffer().len() < usize::MAX,
        ensures
            final(self).rx_view() == rx_feed(old(self).rx_view(), byte),
            final(self).password() == old(self).password(),
            final(self).sequence() == old(self).sequence(),
            final(self).source() == old(self).source(),
    {
        match self.rx_state {
            RxState::Idle => {
                if byte == FRAME_FLAG {
                    self.rx_state = RxState::Receiving;
                    self.rx_buffer.clear();
                    self.frame_ready = false;
                }
            },
            RxState::Receiving => {
                if byte == FRAME_FLAG {
                    if self.rx_buffer.len() > 0 {
                        self.frame_ready = true;
                    }
                    self.rx_state = RxState::Idle;
                } else if byte == FRAME_ESCAPE {
                    self.rx_state = RxState::Receiving;
                    self.rx_buffer.push(FRAME_ESCAPE);
                } else if self.rx_buffer.len() > 0 {
                    let last: u8 = self.rx_buffer[self.rx_buffer.len() - 1];
                    if last == FRAME_ESCAPE {
                        self.rx_buffer.pop();
                        self.rx_buffer.push(byte ^ FRAME_ESCAPE_MASK);
                    } else {
                        self.rx_buffer.push(byte);
                    }
                } else {
                    self.rx_buffer.push(byte);
                }
            },
        }
    }

    /// APDU inside a frame's information field: the first byte (LLC
    /// control) is skipped when more than one byte is there.
    pub fn strip_llc<'b>(&self, data: &'b [u8]) -> (r: &'b [u8])
        ensures
            r@ == (if data@.len() > 1 { data@.subrange(1, data@.len() as int) } else { data@ }),
    {
        if data.len() > 1 {
            slice_from(data, 1)
        } else {
            data
        }
    }

    /// Read the object `obis` from the provider: its value, or `None` for
    /// an object the meter does not serve (answered "object undefined").
    pub fn read_cosem_attribute(&mut self, obis: &[u8; 6], _attr_id: u8) -> (r: Option<CosemValue>)
        ensures
            final(self).readings_taken().len() == old(self).readings_taken().len() + 1,
            final(self).readings_taken().drop_last() == old(self).readings_taken(),
            r == cosem_value_of(obis@, final(self).readings_taken().last().0, final(self).readings_taken().last().1),
            r is None <==> !obis_served(obis@),
            final(self).receiving() == old(self).receiving(),
            final(self).buffer() == old(self).buffer(),
            final(self).ready() == old(self).ready(),
            final(self).sequence() == old(self).sequence(),
            final(self).password() == old(self).password(),
            final(self).source() == old(self).source(),
    {
        let phase = self.provider.get_phase_data();
        let energy = self.provider.get_energy_data();
        self.readings = Ghost(self.readings@.push((phase, energy)));
        let r = cosem_value(obis, &phase, &energy);
        proof {
            assert(r == cosem_value_of(obis@, phase, energy));
        }
        r
    }

    /// HDLC send and receive sequence numbers.
    pub fn sequence_numbers(&self) -> (r: (u8, u8))
        ensures
            r == self.sequence(),
    {
        (self.send_seq, self.recv_seq)
    }

    /// Advance the send sequence number after a response frame.
    pub fn advance_send_seq(&mut self)
        ensures
            final(self).sequence() == (next_send_seq(old(self).sequence().0), old(self).sequence().1),
            final(self).rx_view() == old(self).rx_view(),
            final(self).password() == old(self).password(),
            final(self).source() == old(self).source(),
    {
        let s: u8 = self.send_seq;
        let n: u8 = s.wrapping_add(1) & 0x07;
        assert(n == ((s + 1) % 256 % 8) as u8) by (bit_vector)
            requires n == (s.wrapping_add(1) & 0x07u8);
        self.send_seq = n;
    }
}

/// The bytes of `data` from `start` on.
fn slice_from(data: &[u8], start: usize) -> (r: &[u8])
    requires
        start <= data@.len(),
    ensures
        r@ == data@.subrange(start as int, data@.len() as int),
{
    data.split_at(start).1
}

} // verus!
