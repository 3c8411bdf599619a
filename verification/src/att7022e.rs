//! ATT7022E three-phase energy metering chip: SPI command framing, register
//! value conversions and the register reading sequences. A transfer is an
//! 8-bit command followed by 24 data bits, MSB first; the SPI bus and the
//! chip-select line are provided by the board.
use vstd::prelude::*;

pub mod cal_reg;
pub mod reg;
pub mod special_cmd;

verus! {

/* ---------------- command framing ---------------- */

/// Read command: bit 7 clear, bits 6..0 the address.
pub fn cmd_read(addr: u8) -> (r: u8)
    ensures
        r == addr & 0x7F,
        r < 0x80,
{
    let r = addr & 0x7F;
    assert(r < 0x80) by (bit_vector)
        requires
            r == addr & 0x7F,
    ;
    r
}

/// Write command: bit 7 set, bit 6 clear, bits 5..0 the address.
pub fn cmd_write(addr: u8) -> (r: u8)
    ensures
        r == (addr & 0x3F) | 0x80,
        0x80 <= r < 0xC0,
{
    let r = (addr & 0x3F) | 0x80;
    assert(0x80 <= r < 0xC0) by (bit_vector)
        requires
            r == (addr & 0x3F) | 0x80,
    ;
    r
}

/// Special command: bits 7 and 6 set, bits 5..0 the command.
pub fn cmd_special(subcmd: u8) -> (r: u8)
    ensures
        r == (subcmd & 0x3F) | 0xC0,
        r >= 0xC0,
{
    let r = (subcmd & 0x3F) | 0xC0;
    assert(r >= 0xC0) by (bit_vector)
        requires
            r == (subcmd & 0x3F) | 0xC0,
    ;
    r
}

/// The 24-bit register value of three data bytes, most significant first.
pub open spec fn reg_value(b2: u8, b1: u8, b0: u8) -> u32 {
    (b2 * 0x1_0000 + b1 * 0x100 + b0) as u32
}

/// Assemble three received data bytes, most significant first.
pub fn assemble24(b2: u8, b1: u8, b0: u8) -> (r: u32)
    ensures
        r == reg_value(b2, b1, b0),
        r <= 0xFF_FFFF,
{
    let x2 = b2 as u32;
    let x1 = b1 as u32;
    let x0 = b0 as u32;
    let r = (x2 << 16) | (x1 << 8) | x0;
    assert(r == x2 * 0x1_0000 + x1 * 0x100 + x0) by (bit_vector)
        requires
            x2 < 256,
            x1 < 256,
            x0 < 256,
            r == (x2 << 16) | (x1 << 8) | x0,
    ;
    r
}

/// The three data bytes sent for `data`: bits 23..16, 15..8, 7..0.
pub fn data_bytes(data: u32) -> (r: [u8; 3])
    ensures
        r[0] == (data / 0x1_0000) % 0x100,
        r[1] == (data / 0x100) % 0x100,
        r[2] == data % 0x100,
{
    let b2 = ((data >> 16) & 0xFF) as u8;
    let b1 = ((data >> 8) & 0xFF) as u8;
    let b0 = (data & 0xFF) as u8;
    assert(((data >> 16) & 0xFF) == (data / 0x1_0000) % 0x100) by (bit_vector);
    assert(((data >> 8) & 0xFF) == (data / 0x100) % 0x100) by (bit_vector);
    assert((data & 0xFF) == data % 0x100) by (bit_vector);
    [b2, b1, b0]
}

/* ---------------- value conversions ---------------- */

/// Two's-complement value of the low 24 bits.
pub open spec fn signed24_spec(raw: u32) -> int {
    let v = raw % 0x100_0000;
    if v >= 0x80_0000 { v - 0x100_0000 } else { v as int }
}

/// 24-bit two's complement to `i32`.
pub fn signed24(raw: u32) -> (r: i32)
    ensures
        r == signed24_spec(raw),
        -0x80_0000 <= r < 0x80_0000,
{
    let v = raw & 0x00FF_FFFF;
    assert(v == raw % 0x100_0000) by (bit_vector)
        requires
            v == raw & 0x00FF_FFFF,
    ;
    if v >= 0x0080_0000 {
        (v as i32) - 0x0100_0000
    } else {
        v as i32
    }
}

/// Power scale factor K times 10^6 for `hfconst` and meter constant `ec`:
/// 2.592e16 / (hfconst * ec * 2^23).
pub open spec fn power_k_fixed(hfconst: u32, ec: u32) -> int {
    25_920_000_000_000_000int / (hfconst * ec * 0x80_0000)
}

/// The power conversion is defined: a non-zero scale denominator that
/// fits 64 bits and a product that fits 64 bits.
pub open spec fn power_conversion_defined(raw: u32, hfconst: u32, ec: u32) -> bool {
    &&& hfconst > 0
    &&& ec > 0
    &&& hfconst * ec * 0x80_0000 <= u64::MAX
    &&& -0x7FFF_FFFF_FFFF_FFFF <= signed24_spec(raw) * power_k_fixed(hfconst, ec) <= 0x7FFF_FFFF_FFFF_FFFF
}

/// Rust integer division (rounding toward zero) by a positive divisor.
pub open spec fn div_toward_zero(a: int, b: int) -> int {
    if a >= 0 { a / b } else { -((-a) / b) }
}

/// Power register to watts (or var): signed24(raw) * K with
/// K = 2.592e10 / (hfconst * ec * 2^23), computed in fixed point with K
/// scaled by 10^6, narrowed to 32 bits.
pub fn power_to_watts(raw: u32, hfconst: u32, ec: u32) -> (r: i32)
    requires
        power_conversion_defined(raw, hfconst, ec),
    ensures
        r == div_toward_zero(signed24_spec(raw) * power_k_fixed(hfconst, ec), 1_000_000) as i32,
{
    let k_num: u64 = 25_920_000_000_000;
    let h = hfconst as u64;
    let e = ec as u64;
    assert(h * e <= h * e * 0x80_0000) by (nonlinear_arith)
        requires
            h > 0,
            e > 0,
    ;
    let k_den: u64 = h * e * 0x80_0000;
    assert(k_den > 0) by (nonlinear_arith)
        requires
            h > 0,
            e > 0,
            k_den == h * e * 0x80_0000,
    ;
    let k_fixed: i64 = ((k_num * 1000) / k_den) as i64;
    let signed: i64 = signed24(raw) as i64;
    ((signed * k_fixed) / 1_000_000) as i32
}

/// RMS register to volts: raw / 2^13.
pub fn rms_to_voltage(raw: u32) -> (r: u32)
    ensures
        r == raw / 8192,
{
    raw / 8192
}

/// RMS register to amperes: (raw / 2^13) / N for the channel ratio N.
pub fn rms_to_current(raw: u32, ratio_n: u32) -> (r: u32)
    requires
        ratio_n > 0,
    ensures
        r == (raw / 8192) / ratio_n,
{
    let mv = raw / 8192;
    mv / ratio_n
}

/// Power factor register to PF * 1000: signed24(raw) * 1000 / 2^23,
/// in -1000..=1000.
pub fn pf_to_fixed(raw: u32) -> (r: i32)
    ensures
        r == div_toward_zero(signed24_spec(raw) * 1000, 0x80_0000),
        -1000 <= r <= 1000,
{
    let s: i64 = signed24(raw) as i64;
    let q: i64 = (s * 1000) / 0x80_0000;
    q as i32
}

/// Phase angle register to degrees * 100: signed24(raw) * 18000 / 2^20.
pub fn angle_to_fixed(raw: u32) -> (r: i32)
    ensures
        r == div_toward_zero(signed24_spec(raw) * 18000, 0x10_0000),
        -144000 <= r <= 144000,
{
    let s: i64 = signed24(raw) as i64;
    let q: i64 = (s * 18000) / 0x10_0000;
    q as i32
}

/// PF * 1000 for a power-factor register value.
pub open spec fn pf_value(raw: u32) -> int {
    div_toward_zero(signed24_spec(raw) * 1000, 0x80_0000)
}

/// Degrees * 100 for a phase-angle register value.
pub open spec fn angle_value(raw: u32) -> int {
    div_toward_zero(signed24_spec(raw) * 18000, 0x10_0000)
}

/// Hz * 100 for a frequency register value.
pub open spec fn freq_value(raw: u32) -> int {
    raw * 100 / 8192
}

/// Frequency register to Hz * 100: raw * 100 / 2^13.
pub fn freq_to_fixed(raw: u32) -> (r: u32)
    requires
        raw * 100 <= u32::MAX,
    ensures
        r == raw * 100 / 8192,
{
    raw * 100 / 8192
}

/// Degrees for temperature register `raw` and calibration value `tc`:
/// tc - 0.726 * tm, tm the low byte as a signed 8-bit value.
pub open spec fn temp_value(raw: u32, tc: i32) -> int {
    let b = raw % 0x100;
    let tm: int = if b >= 0x80 { b - 0x100 } else { b as int };
    tc - div_toward_zero(726 * tm, 1000)
}

/// Temperature register to degrees: tc_calibration - 0.726 * tm, with tm
/// the low byte as a signed 8-bit value.
pub fn temp_to_celsius(raw: u32, tc_calibration: i32) -> (r: i32)
    requires
        -0x7FFF_FF00 <= tc_calibration <= 0x7FFF_FF00,
    ensures
        ({
            let b = raw % 0x100;
            let tm: int = if b >= 0x80 { b - 0x100 } else { b as int };
            r == tc_calibration - div_toward_zero(726 * tm, 1000)
        }),
{
    let low: u32 = raw & 0xFF;
    assert(low == raw % 0x100) by (bit_vector)
        requires
            low == raw & 0xFF,
    ;
    let tm: i32 = if low >= 0x80 { (low as i32) - 0x100 } else { low as i32 };
    tc_calibration - (726 * tm / 1000)
}

/* ---------------- driver ---------------- */

/// Chip-select line control, provided by the board.
pub trait CsPin {
    fn set_low(&self);
    fn set_high(&self);
}

/// Full-duplex SPI byte transfer, provided by the board.
pub trait SpiOps {
    /// The bytes exchanged on the bus so far, oldest first: each byte sent
    /// with the byte received while sending it. The default records
    /// nothing; a board implementation that is itself verified overrides
    /// it with its own record, and one that is not is trusted to keep the
    /// contract of `transfer` over some record.
    open spec fn exchanged(&self) -> Seq<(u8, u8)> {
        Seq::empty()
    }

    /// Send one byte and receive one byte.
    fn transfer(&mut self, tx: u8) -> (r: u8)
        ensures
            final(self).exchanged() == old(self).exchanged().push((tx, r)),
    ;
}

/// One chip-select transaction on the bus: the bytes sent and the bytes
/// received, in order.
pub type Frame = (Seq<u8>, Seq<u8>);

/// The 24 data bits of `data` as the three bytes sent, most significant first.
pub open spec fn data_seq(data: u32) -> Seq<u8> {
    seq![((data / 0x1_0000) % 0x100) as u8, ((data / 0x100) % 0x100) as u8, (data % 0x100) as u8]
}

/// Bytes sent to read register `addr`: the read command, then three
/// zero bytes that clock the data in.
pub open spec fn read_tx(addr: u8) -> Seq<u8> {
    seq![addr & 0x7F, 0u8, 0u8, 0u8]
}

/// Bytes sent to write `data` into register `addr`.
pub open spec fn write_tx(addr: u8, data: u32) -> Seq<u8> {
    seq![(addr & 0x3F) | 0x80] + data_seq(data)
}

/// Bytes sent for special command `subcmd` with `data`.
pub open spec fn special_tx(subcmd: u8, data: u32) -> Seq<u8> {
    seq![(subcmd & 0x3F) | 0xC0] + data_seq(data)
}

/// The register value a read transaction clocked in: the three bytes
/// received after the command, most significant first.
pub open spec fn frame_value(f: Frame) -> u32 {
    reg_value(f.1[1], f.1[2], f.1[3])
}

/// Going from transaction log `old` to `new` added one transaction per
/// entry of `txs`, each sending those bytes and receiving as many.
pub open spec fn sent(old: Seq<Frame>, new: Seq<Frame>, txs: Seq<Seq<u8>>) -> bool {
    &&& new.len() == old.len() + txs.len()
    &&& new.subrange(0, old.len() as int) == old
    &&& forall|i: int| 0 <= i < txs.len() ==> {
        &&& (#[trigger] new[old.len() + i]).0 == txs[i]
        &&& new[old.len() + i].1.len() == txs[i].len()
    }
}

/// Transactions added in two steps are those of the first step, then
/// those of the second.
proof fn lemma_sent_concat(a: Seq<Frame>, b: Seq<Frame>, c: Seq<Frame>, t1: Seq<Seq<u8>>, t2: Seq<Seq<u8>>)
    requires
        sent(a, b, t1),
        sent(b, c, t2),
    ensures
        sent(a, c, t1 + t2),
        forall|j: int| 0 <= j < b.len() ==> #[trigger] c[j] == b[j],
{
    assert forall|j: int| 0 <= j < b.len() implies #[trigger] c[j] == b[j] by {
        assert(c.subrange(0, b.len() as int)[j] == c[j]);
    }
    assert forall|j: int| 0 <= j < a.len() implies #[trigger] c[j] == a[j] by {
        assert(b.subrange(0, a.len() as int)[j] == b[j]);
    }
    assert(c.subrange(0, a.len() as int) =~= a);
    assert forall|i: int| 0 <= i < (t1 + t2).len() implies {
        &&& (#[trigger] c[a.len() + i]).0 == (t1 + t2)[i]
        &&& c[a.len() + i].1.len() == (t1 + t2)[i].len()
    } by {
        if i < t1.len() {
            assert(b[a.len() + i].0 == t1[i]);
        } else {
            assert(c[b.len() + (i - t1.len())].0 == t2[i - t1.len()]);
        }
    }
}

/// Going from bus log `old` to `new`, the bytes of `tx` were sent in order,
/// one exchange each.
pub open spec fn bus_sends(old: Seq<(u8, u8)>, new: Seq<(u8, u8)>, tx: Seq<u8>) -> bool {
    &&& new.len() == old.len() + tx.len()
    &&& new.subrange(0, old.len() as int) == old
    &&& forall|i: int| 0 <= i < tx.len() ==> (#[trigger] new[old.len() + i]).0 == tx[i]
}

/// A four-byte transaction sends its four bytes.
proof fn lemma_bus_sends4(e0: Seq<(u8, u8)>, tx: Seq<u8>, rx: Seq<u8>)
    requires
        tx.len() == 4,
        rx.len() == 4,
    ensures
        bus_sends(e0, e0 + seq![(tx[0], rx[0]), (tx[1], rx[1]), (tx[2], rx[2]), (tx[3], rx[3])], tx),
{
    let e = e0 + seq![(tx[0], rx[0]), (tx[1], rx[1]), (tx[2], rx[2]), (tx[3], rx[3])];
    assert(e.subrange(0, e0.len() as int) =~= e0);
    assert forall|i: int| 0 <= i < tx.len() implies (#[trigger] e[e0.len() + i]).0 == tx[i] by {
        assert(e[e0.len() + i] == seq![(tx[0], rx[0]), (tx[1], rx[1]), (tx[2], rx[2]), (tx[3], rx[3])][i]);
    }
}

/// Byte exchanges grouped four by four into transactions: the bytes sent
/// and the bytes received of each group (a trailing partial group is left
/// out).
pub open spec fn group4(s: Seq<(u8, u8)>) -> Seq<Frame> {
    Seq::new(s.len() / 4, |i: int| (
        seq![s[4 * i].0, s[4 * i + 1].0, s[4 * i + 2].0, s[4 * i + 3].0],
        seq![s[4 * i].1, s[4 * i + 1].1, s[4 * i + 2].1, s[4 * i + 3].1],
    ))
}

/// Four more exchanges after whole groups make one more group.
proof fn lemma_group4_push(s: Seq<(u8, u8)>, a: (u8, u8), b: (u8, u8), c: (u8, u8), d: (u8, u8))
    requires
        s.len() % 4 == 0,
    ensures
        group4(s.push(a).push(b).push(c).push(d)) == group4(s).push((seq![a.0, b.0, c.0, d.0], seq![a.1, b.1, c.1, d.1])),
        (s.push(a).push(b).push(c).push(d)).len() % 4 == 0,
{
    let t = s.push(a).push(b).push(c).push(d);
    assert(t.len() / 4 == s.len() / 4 + 1);
    assert forall|i: int| 0 <= i < s.len() / 4 implies #[trigger] group4(t)[i] == group4(s)[i] by {
        assert(4 * i + 3 < s.len());
        assert(t[4 * i] == s[4 * i] && t[4 * i + 1] == s[4 * i + 1] && t[4 * i + 2] == s[4 * i + 2] && t[4 * i + 3] == s[4 * i + 3]);
        assert(group4(t)[i].0 =~= group4(s)[i].0);
        assert(group4(t)[i].1 =~= group4(s)[i].1);
    }
    let k: int = (s.len() / 4) as int;
    assert(4 * k == s.len());
    assert(t[4 * k] == a && t[4 * k + 1] == b && t[4 * k + 2] == c && t[4 * k + 3] == d);
    assert(group4(t)[k].0 =~= seq![a.0, b.0, c.0, d.0]);
    assert(group4(t)[k].1 =~= seq![a.1, b.1, c.1, d.1]);
    assert(group4(t) =~= group4(s).push((seq![a.0, b.0, c.0, d.0], seq![a.1, b.1, c.1, d.1])));
}

/// ATT7022E driver over an SPI bus and a chip-select line.
pub struct Att7022e<SPI: SpiOps, CS: CsPin> {
    spi: SPI,
    cs: CS,
    /// What the bus had exchanged when the driver took it
    base: Ghost<Seq<(u8, u8)>>,
}

/// Three-phase power registers.
#[derive(Debug, Clone, Copy)]
pub struct PowerData {
    pub pa: i32,
    pub pb: i32,
    pub pc: i32,
    pub pt: i32,
    pub qa: i32,
    pub qb: i32,
    pub qc: i32,
    pub qt: i32,
    pub sa: u32,
    pub sb: u32,
    pub sc: u32,
    pub st: u32,
}

/// Voltage and current RMS registers.
#[derive(Debug, Clone, Copy)]
pub struct RmsData {
    pub ua: u32,
    pub ub: u32,
    pub uc: u32,
    pub ia: u32,
    pub ib: u32,
    pub ic: u32,
    /// Neutral current
    pub i0: u32,
    /// Vector sum of the three voltages
    pub ut: u32,
    /// Vector sum of the three currents
    pub it: u32,
}

/// Energy registers.
#[derive(Debug, Clone, Copy)]
pub struct EnergyData {
    pub epa: u32,
    pub epb: u32,
    pub epc: u32,
    pub ept: u32,
    pub eqa: u32,
    pub eqb: u32,
    pub eqc: u32,
    pub eqt: u32,
    pub esa: u32,
    pub esb: u32,
    pub esc: u32,
    pub est: u32,
}

/// Power factors (PF * 1000).
#[derive(Debug, Clone, Copy)]
pub struct PfData {
    pub pfa: i32,
    pub pfb: i32,
    pub pfc: i32,
    pub pft: i32,
}

/// Phase angles (degrees * 100) and voltage angle registers.
#[derive(Debug, Clone, Copy)]
pub struct AngleData {
    pub pga: i32,
    pub pgb: i32,
    pub pgc: i32,
    pub y_ua_ub: u32,
    pub y_ua_uc: u32,
    pub y_ub_uc: u32,
}

/// Fundamental active power registers.
#[derive(Debug, Clone, Copy)]
pub struct LinePowerData {
    pub line_pa: i32,
    pub line_pb: i32,
    pub line_pc: i32,
    pub line_pt: i32,
}

/// Status flag registers.
#[derive(Debug, Clone, Copy)]
pub struct StatusFlags {
    /// Phase loss / phase sequence / SIG
    pub raw_sflag: u32,
    /// Energy status
    pub raw_eflag: u32,
    /// Power direction
    pub raw_pflag: u32,
}

/// Device ID of the ATT7022E.
pub const DEVICE_ID_ATT7022E: u32 = 0x7122A0;

/// Whether a device ID read back is the ATT7022E's.
pub fn is_valid_device_id(id: u32) -> (r: bool)
    ensures
        r == (id == DEVICE_ID_ATT7022E),
{
    id == DEVICE_ID_ATT7022E
}

/// A signed 24-bit register value.
pub open spec fn in_signed24(v: i32) -> bool {
    -0x80_0000 <= v < 0x80_0000
}

impl<SPI: SpiOps, CS: CsPin> Att7022e<SPI, CS> {
    /// The SPI bus.
    pub closed spec fn bus(&self) -> SPI {
        self.spi
    }

    /// The chip-select line.
    pub closed spec fn chip_select(&self) -> CS {
        self.cs
    }

    /// The exchanges on the bus since the driver took it.
    pub closed spec fn exchanges(&self) -> Seq<(u8, u8)> {
        self.spi.exchanged().subrange(self.base@.len() as int, self.spi.exchanged().len() as int)
    }

    /// The transactions made through this driver, oldest first: the bus
    /// exchanges since the driver took it, four bytes per transaction.
    pub closed spec fn frames(&self) -> Seq<Frame> {
        group4(self.exchanges())
    }

    /// The bus log extends what it was when the driver took the bus, by
    /// whole transactions.
    pub closed spec fn wf(&self) -> bool {
        &&& self.base@.len() <= self.spi.exchanged().len()
        &&& self.spi.exchanged().subrange(0, self.base@.len() as int) == self.base@
        &&& self.exchanges().len() % 4 == 0
    }

    /// Driver over `spi` and `cs`.
    pub fn new(spi: SPI, cs: CS) -> (r: Self)
        ensures
            r.bus() == spi,
            r.chip_select() == cs,
            r.frames() == Seq::<Frame>::empty(),
            r.wf(),
    {
        let r = Att7022e { spi, cs, base: Ghost(spi.exchanged()) };
        proof {
            assert(r.spi.exchanged().subrange(0, r.base@.len() as int) =~= r.base@);
            assert(r.exchanges() =~= Seq::<(u8, u8)>::empty());
            assert(r.frames() =~= Seq::<Frame>::empty());
        }
        r
    }

    /// Give back the SPI bus and the chip-select line.
    pub fn release(self) -> (r: (SPI, CS))
        ensures
            r == (self.bus(), self.chip_select()),
    {
        (self.spi, self.cs)
    }

    /// One transaction under chip select: send the four bytes of `tx`,
    /// return the four bytes received.
    fn transaction(&mut self, tx: [u8; 4]) -> (rx: [u8; 4])
        requires
            old(self).wf(),
        ensures
            final(self).wf(),
            final(self).frames() == old(self).frames().push((tx@, rx@)),
            final(self).bus().exchanged() == old(self).bus().exchanged()
                + seq![(tx@[0], rx@[0]), (tx@[1], rx@[1]), (tx@[2], rx@[2]), (tx@[3], rx@[3])],
    {
        let ghost e0 = self.spi.exchanged();
        self.cs.set_low();
        let r0 = self.spi.transfer(tx[0]);
        let r1 = self.spi.transfer(tx[1]);
        let r2 = self.spi.transfer(tx[2]);
        let r3 = self.spi.transfer(tx[3]);
        self.cs.set_high();
        let rx = [r0, r1, r2, r3];
        proof {
            let b = self.base@.len() as int;
            let e = self.spi.exchanged();
            assert(e =~= e0.push((tx[0], r0)).push((tx[1], r1)).push((tx[2], r2)).push((tx[3], r3)));
            let x0 = e0.subrange(b, e0.len() as int);
            assert(self.exchanges() =~= x0.push((tx[0], r0)).push((tx[1], r1)).push((tx[2], r2)).push((tx[3], r3)));
            lemma_group4_push(x0, (tx[0], r0), (tx[1], r1), (tx[2], r2), (tx[3], r3));
            assert(e.subrange(0, b) =~= e0.subrange(0, b));
            assert(tx@ =~= seq![tx[0], tx[1], tx[2], tx[3]]);
            assert(rx@ =~= seq![r0, r1, r2, r3]);
            assert(e =~= e0 + seq![(tx@[0], rx@[0]), (tx@[1], rx@[1]), (tx@[2], rx@[2]), (tx@[3], rx@[3])]);
        }
        rx
    }

    /// Read a 24-bit register: command `cmd_read(addr)`, then three data
    /// bytes clocked in, most significant first, under chip select.
    pub fn read_reg(&mut self, addr: u8) -> (r: u32)
        requires
            old(self).wf(),
        ensures
            final(self).wf(),
            sent(old(self).frames(), final(self).frames(), seq![read_tx(addr)]),
            r == frame_value(final(self).frames()[old(self).frames().len() as int]),
            bus_sends(old(self).bus().exchanged(), final(self).bus().exchanged(), read_tx(addr)),
            ({
                let e = final(self).bus().exchanged();
                let n = old(self).bus().exchanged().len() as int;
                r == reg_value(e[n + 1].1, e[n + 2].1, e[n + 3].1)
            }),
            r <= 0xFF_FFFF,
    {
        let tx: [u8; 4] = [cmd_read(addr), 0, 0, 0];
        let ghost e0 = self.spi.exchanged();
        let rx = self.transaction(tx);
        proof {
            lemma_bus_sends4(e0, tx@, rx@);
            assert(self.frames().subrange(0, old(self).frames().len() as int) =~= old(self).frames());
            assert(tx@ =~= read_tx(addr));
        }
        assemble24(rx[1], rx[2], rx[3])
    }

    /// Write a 24-bit register: command `cmd_write(addr)`, then
    /// `data_bytes(data)`, under chip select.
    pub fn write_reg(&mut self, addr: u8, data: u32)
        requires
            old(self).wf(),
        ensures
            final(self).wf(),
            sent(old(self).frames(), final(self).frames(), seq![write_tx(addr, data)]),
            bus_sends(old(self).bus().exchanged(), final(self).bus().exchanged(), write_tx(addr, data)),
    {
        let d = data_bytes(data);
        let tx: [u8; 4] = [cmd_write(addr), d[0], d[1], d[2]];
        let ghost e0 = self.spi.exchanged();
        let rx = self.transaction(tx);
        proof {
            lemma_bus_sends4(e0, tx@, rx@);
            assert(self.frames().subrange(0, old(self).frames().len() as int) =~= old(self).frames());
            assert(tx@ =~= write_tx(addr, data));
        }
    }

    /// Send a special command: `cmd_special(subcmd)`, then
    /// `data_bytes(data)`, under chip select.
    pub fn send_special(&mut self, subcmd: u8, data: u32)
        requires
            old(self).wf(),
        ensures
            final(self).wf(),
            sent(old(self).frames(), final(self).frames(), seq![special_tx(subcmd, data)]),
            bus_sends(old(self).bus().exchanged(), final(self).bus().exchanged(), special_tx(subcmd, data)),
    {
        let d = data_bytes(data);
        let tx: [u8; 4] = [cmd_special(subcmd), d[0], d[1], d[2]];
        let ghost e0 = self.spi.exchanged();
        let rx = self.transaction(tx);
        proof {
            lemma_bus_sends4(e0, tx@, rx@);
            assert(self.frames().subrange(0, old(self).frames().len() as int) =~= old(self).frames());
            assert(tx@ =~= special_tx(subcmd, data));
        }
    }

    /// Software reset.
    pub fn soft_reset(&mut self)
        requires
            old(self).wf(),
        ensures
            final(self).wf(),
            sent(old(self).frames(), final(self).frames(), seq![special_tx(special_cmd::SOFT_RESET & 0x3F, 0x000000)]),
    {
        self.send_special(special_cmd::SOFT_RESET & 0x3F, 0x000000);
    }

    /// Read the device ID (0x7122A0 expected).
    pub fn read_device_id(&mut self) -> (r: u32)
        requires
            old(self).wf(),
        ensures
            final(self).wf(),
            sent(old(self).frames(), final(self).frames(), seq![read_tx(reg::DEVICE_ID)]),
            r == frame_value(final(self).frames()[old(self).frames().len() as int]),
            r <= 0xFF_FFFF,
    {
        self.read_reg(reg::DEVICE_ID)
    }

    /// Allow writes to the calibration registers.
    pub fn enable_calibration_write(&mut self)
        requires
            old(self).wf(),
        ensures
            final(self).wf(),
            sent(old(self).frames(), final(self).frames(), seq![special_tx(special_cmd::WRITE_EN & 0x3F, 0x00005A)]),
    {
        self.send_special(special_cmd::WRITE_EN & 0x3F, 0x00005A);
    }

    /// Forbid writes to the calibration registers.
    pub fn disable_calibration_write(&mut self)
        requires
            old(self).wf(),
        ensures
            final(self).wf(),
            sent(old(self).frames(), final(self).frames(), seq![special_tx(special_cmd::WRITE_EN & 0x3F, 0x000000)]),
    {
        self.send_special(special_cmd::WRITE_EN & 0x3F, 0x000000);
    }

    /// Read the calibration register space.
    pub fn switch_to_calib_read(&mut self)
        requires
            old(self).wf(),
        ensures
            final(self).wf(),
            sent(old(self).frames(), final(self).frames(), seq![special_tx(special_cmd::READ_CALIB & 0x3F, 0x00005A)]),
    {
        self.send_special(special_cmd::READ_CALIB & 0x3F, 0x00005A);
    }

    /// Read the measurement register space (default).
    pub fn switch_to_meter_read(&mut self)
        requires
            old(self).wf(),
        ensures
            final(self).wf(),
            sent(old(self).frames(), final(self).frames(), seq![special_tx(special_cmd::READ_CALIB & 0x3F, 0x000000)]),
    {
        self.send_special(special_cmd::READ_CALIB & 0x3F, 0x000000);
    }

    /// Restore the default calibration.
    pub fn clear_calibration(&mut self)
        requires
            old(self).wf(),
        ensures
            final(self).wf(),
            sent(old(self).frames(), final(self).frames(), seq![special_tx(special_cmd::CLEAR_CALIB & 0x3F, 0x000000)]),
    {
        self.send_special(special_cmd::CLEAR_CALIB & 0x3F, 0x000000);
    }

    /// Read the three-phase power registers (active and reactive as signed
    /// 24-bit values, apparent raw).
    #[verifier::rlimit(50)]
    pub fn read_power(&mut self) -> (r: PowerData)
        requires
            old(self).wf(),
        ensures
            final(self).wf(),
            sent(old(self).frames(), final(self).frames(), seq![read_tx(reg::PA), read_tx(reg::PB), read_tx(reg::PC), read_tx(reg::PT), read_tx(reg::QA), read_tx(reg::QB), read_tx(reg::QC), read_tx(reg::QT), read_tx(reg::SA), read_tx(reg::SB), read_tx(reg::SC), read_tx(reg::ST)]),
            r.pa == signed24_spec(frame_value(final(self).frames()[old(self).frames().len() as int + 0])),
            r.pb == signed24_spec(frame_value(final(self).frames()[old(self).frames().len() as int + 1])),
            r.pc == signed24_spec(frame_value(final(self).frames()[old(self).frames().len() as int + 2])),
            r.pt == signed24_spec(frame_value(final(self).frames()[old(self).frames().len() as int + 3])),
            r.qa == signed24_spec(frame_value(final(self).frames()[old(self).frames().len() as int + 4])),
            r.qb == signed24_spec(frame_value(final(self).frames()[old(self).frames().len() as int + 5])),
            r.qc == signed24_spec(frame_value(final(self).frames()[old(self).frames().len() as int + 6])),
            r.qt == signed24_spec(frame_value(final(self).frames()[old(self).frames().len() as int + 7])),
            r.sa == frame_value(final(self).frames()[old(self).frames().len() as int + 8]),
            r.sb == frame_value(final(self).frames()[old(self).frames().len() as int + 9]),
            r.sc == frame_value(final(self).frames()[old(self).frames().len() as int + 10]),
            r.st == frame_value(final(self).frames()[old(self).frames().len() as int + 11]),
            in_signed24(r.pa) && in_signed24(r.pb) && in_signed24(r.pc) && in_signed24(r.pt),
            in_signed24(r.qa) && in_signed24(r.qb) && in_signed24(r.qc) && in_signed24(r.qt),
            r.sa <= 0xFF_FFFF && r.sb <= 0xFF_FFFF && r.sc <= 0xFF_FFFF && r.st <= 0xFF_FFFF,
    {
        let ghost f0 = self.frames();
        let raw0 = self.read_reg(reg::PA);
        let ghost f1 = self.frames();
        let pa = signed24(raw0);
        let raw1 = self.read_reg(reg::PB);
        let ghost f2 = self.frames();
        let pb = signed24(raw1);
        let raw2 = self.read_reg(reg::PC);
        let ghost f3 = self.frames();
        let pc = signed24(raw2);
        let raw3 = self.read_reg(reg::PT);
        let ghost f4 = self.frames();
        let pt = signed24(raw3);
        let raw4 = self.read_reg(reg::QA);
        let ghost f5 = self.frames();
        let qa = signed24(raw4);
        let raw5 = self.read_reg(reg::QB);
        let ghost f6 = self.frames();
        let qb = signed24(raw5);
        let raw6 = self.read_reg(reg::QC);
        let ghost f7 = self.frames();
        let qc = signed24(raw6);
        let raw7 = self.read_reg(reg::QT);
        let ghost f8 = self.frames();
        let qt = signed24(raw7);
        let raw8 = self.read_reg(reg::SA);
        let ghost f9 = self.frames();
        let sa = raw8;
        let raw9 = self.read_reg(reg::SB);
        let ghost f10 = self.frames();
        let sb = raw9;
        let raw10 = self.read_reg(reg::SC);
        let ghost f11 = self.frames();
        let sc = raw10;
        let raw11 = self.read_reg(reg::ST);
        let ghost f12 = self.frames();
        let st = raw11;
        proof {
            lemma_sent_concat(f0, f1, f2, seq![read_tx(reg::PA)], seq![read_tx(reg::PB)]);
            lemma_sent_concat(f0, f2, f3, seq![read_tx(reg::PA)] + seq![read_tx(reg::PB)], seq![read_tx(reg::PC)]);
            lemma_sent_concat(f0, f3, f4, (seq![read_tx(reg::PA)] + seq![read_tx(reg::PB)]) + seq![read_tx(reg::PC)], seq![read_tx(reg::PT)]);
            lemma_sent_concat(f0, f4, f5, ((seq![read_tx(reg::PA)] + seq![read_tx(reg::PB)]) + seq![read_tx(reg::PC)]) + seq![read_tx(reg::PT)], seq![read_tx(reg::QA)]);
            lemma_sent_concat(f0, f5, f6, (((seq![read_tx(reg::PA)] + seq![read_tx(reg::PB)]) + seq![read_tx(reg::PC)]) + seq![read_tx(reg::PT)]) + seq![read_tx(reg::QA)], seq![read_tx(reg::QB)]);
            lemma_sent_concat(f0, f6, f7, ((((seq![read_tx(reg::PA)] + seq![read_tx(reg::PB)]) + seq![read_tx(reg::PC)]) + seq![read_tx(reg::PT)]) + seq![read_tx(reg::QA)]) + seq![read_tx(reg::QB)], seq![read_tx(reg::QC)]);
            lemma_sent_concat(f0, f7, f8, (((((seq![read_tx(reg::PA)] + seq![read_tx(reg::PB)]) + seq![read_tx(reg::PC)]) + seq![read_tx(reg::PT)]) + seq![read_tx(reg::QA)]) + seq![read_tx(reg::QB)]) + seq![read_tx(reg::QC)], seq![read_tx(reg::QT)]);
            lemma_sent_concat(f0, f8, f9, ((((((seq![read_tx(reg::PA)] + seq![read_tx(reg::PB)]) + seq![read_tx(reg::PC)]) + seq![read_tx(reg::PT)]) + seq![read_tx(reg::QA)]) + seq![read_tx(reg::QB)]) + seq![read_tx(reg::QC)]) + seq![read_tx(reg::QT)], seq![read_tx(reg::SA)]);
            lemma_sent_concat(f0, f9, f10, (((((((seq![read_tx(reg::PA)] + seq![read_tx(reg::PB)]) + seq![read_tx(reg::PC)]) + seq![read_tx(reg::PT)]) + seq![read_tx(reg::QA)]) + seq![read_tx(reg::QB)]) + seq![read_tx(reg::QC)]) + seq![read_tx(reg::QT)]) + seq![read_tx(reg::SA)], seq![read_tx(reg::SB)]);
            lemma_sent_concat(f0, f10, f11, ((((((((seq![read_tx(reg::PA)] + seq![read_tx(reg::PB)]) + seq![read_tx(reg::PC)]) + seq![read_tx(reg::PT)]) + seq![read_tx(reg::QA)]) + seq![read_tx(reg::QB)]) + seq![read_tx(reg::QC)]) + seq![read_tx(reg::QT)]) + seq![read_tx(reg::SA)]) + seq![read_tx(reg::SB)], seq![read_tx(reg::SC)]);
            lemma_sent_concat(f0, f11, f12, (((((((((seq![read_tx(reg::PA)] + seq![read_tx(reg::PB)]) + seq![read_tx(reg::PC)]) + seq![read_tx(reg::PT)]) + seq![read_tx(reg::QA)]) + seq![read_tx(reg::QB)]) + seq![read_tx(reg::QC)]) + seq![read_tx(reg::QT)]) + seq![read_tx(reg::SA)]) + seq![read_tx(reg::SB)]) + seq![read_tx(reg::SC)], seq![read_tx(reg::ST)]);
            assert(((((((((((seq![read_tx(reg::PA)] + seq![read_tx(reg::PB)]) + seq![read_tx(reg::PC)]) + seq![read_tx(reg::PT)]) + seq![read_tx(reg::QA)]) + seq![read_tx(reg::QB)]) + seq![read_tx(reg::QC)]) + seq![read_tx(reg::QT)]) + seq![read_tx(reg::SA)]) + seq![read_tx(reg::SB)]) + seq![read_tx(reg::SC)]) + seq![read_tx(reg::ST)] =~= seq![read_tx(reg::PA), read_tx(reg::PB), read_tx(reg::PC), read_tx(reg::PT), read_tx(reg::QA), read_tx(reg::QB), read_tx(reg::QC), read_tx(reg::QT), read_tx(reg::SA), read_tx(reg::SB), read_tx(reg::SC), read_tx(reg::ST)]);
        }
        PowerData { pa, pb, pc, pt, qa, qb, qc, qt, sa, sb, sc, st }
    }

    /// Read the RMS registers.
    #[verifier::rlimit(50)]
    pub fn read_rms(&mut self) -> (r: RmsData)
        requires
            old(self).wf(),
        ensures
            final(self).wf(),
            sent(old(self).frames(), final(self).frames(), seq![read_tx(reg::UA_RMS), read_tx(reg::UB_RMS), read_tx(reg::UC_RMS), read_tx(reg::IA_RMS), read_tx(reg::IB_RMS), read_tx(reg::IC_RMS), read_tx(reg::I0_RMS), read_tx(reg::UT_RMS), read_tx(reg::IT_RMS)]),
            r.ua == frame_value(final(self).frames()[old(self).frames().len() as int + 0]),
            r.ub == frame_value(final(self).frames()[old(self).frames().len() as int + 1]),
            r.uc == frame_value(final(self).frames()[old(self).frames().len() as int + 2]),
            r.ia == frame_value(final(self).frames()[old(self).frames().len() as int + 3]),
            r.ib == frame_value(final(self).frames()[old(self).frames().len() as int + 4]),
            r.ic == frame_value(final(self).frames()[old(self).frames().len() as int + 5]),
            r.i0 == frame_value(final(self).frames()[old(self).frames().len() as int + 6]),
            r.ut == frame_value(final(self).frames()[old(self).frames().len() as int + 7]),
            r.it == frame_value(final(self).frames()[old(self).frames().len() as int + 8]),
    {
        let ghost f0 = self.frames();
        let raw0 = self.read_reg(reg::UA_RMS);
        let ghost f1 = self.frames();
        let ua = raw0;
        let raw1 = self.read_reg(reg::UB_RMS);
        let ghost f2 = self.frames();
        let ub = raw1;
        let raw2 = self.read_reg(reg::UC_RMS);
        let ghost f3 = self.frames();
        let uc = raw2;
        let raw3 = self.read_reg(reg::IA_RMS);
        let ghost f4 = self.frames();
        let ia = raw3;
        let raw4 = self.read_reg(reg::IB_RMS);
        let ghost f5 = self.frames();
        let ib = raw4;
        let raw5 = self.read_reg(reg::IC_RMS);
        let ghost f6 = self.frames();
        let ic = raw5;
        let raw6 = self.read_reg(reg::I0_RMS);
        let ghost f7 = self.frames();
        let i0 = raw6;
        let raw7 = self.read_reg(reg::UT_RMS);
        let ghost f8 = self.frames();
        let ut = raw7;
        let raw8 = self.read_reg(reg::IT_RMS);
        let ghost f9 = self.frames();
        let it = raw8;
        proof {
            lemma_sent_concat(f0, f1, f2, seq![read_tx(reg::UA_RMS)], seq![read_tx(reg::UB_RMS)]);
            lemma_sent_concat(f0, f2, f3, seq![read_tx(reg::UA_RMS)] + seq![read_tx(reg::UB_RMS)], seq![read_tx(reg::UC_RMS)]);
            lemma_sent_concat(f0, f3, f4, (seq![read_tx(reg::UA_RMS)] + seq![read_tx(reg::UB_RMS)]) + seq![read_tx(reg::UC_RMS)], seq![read_tx(reg::IA_RMS)]);
            lemma_sent_concat(f0, f4, f5, ((seq![read_tx(reg::UA_RMS)] + seq![read_tx(reg::UB_RMS)]) + seq![read_tx(reg::UC_RMS)]) + seq![read_tx(reg::IA_RMS)], seq![read_tx(reg::IB_RMS)]);
            lemma_sent_concat(f0, f5, f6, (((seq![read_tx(reg::UA_RMS)] + seq![read_tx(reg::UB_RMS)]) + seq![read_tx(reg::UC_RMS)]) + seq![read_tx(reg::IA_RMS)]) + seq![read_tx(reg::IB_RMS)], seq![read_tx(reg::IC_RMS)]);
            lemma_sent_concat(f0, f6, f7, ((((seq![read_tx(reg::UA_RMS)] + seq![read_tx(reg::UB_RMS)]) + seq![read_tx(reg::UC_RMS)]) + seq![read_tx(reg::IA_RMS)]) + seq![read_tx(reg::IB_RMS)]) + seq![read_tx(reg::IC_RMS)], seq![read_tx(reg::I0_RMS)]);
            lemma_sent_concat(f0, f7, f8, (((((seq![read_tx(reg::UA_RMS)] + seq![read_tx(reg::UB_RMS)]) + seq![read_tx(reg::UC_RMS)]) + seq![read_tx(reg::IA_RMS)]) + seq![read_tx(reg::IB_RMS)]) + seq![read_tx(reg::IC_RMS)]) + seq![read_tx(reg::I0_RMS)], seq![read_tx(reg::UT_RMS)]);
            lemma_sent_concat(f0, f8, f9, ((((((seq![read_tx(reg::UA_RMS)] + seq![read_tx(reg::UB_RMS)]) + seq![read_tx(reg::UC_RMS)]) + seq![read_tx(reg::IA_RMS)]) + seq![read_tx(reg::IB_RMS)]) + seq![read_tx(reg::IC_RMS)]) + seq![read_tx(reg::I0_RMS)]) + seq![read_tx(reg::UT_RMS)], seq![read_tx(reg::IT_RMS)]);
            assert((((((((seq![read_tx(reg::UA_RMS)] + seq![read_tx(reg::UB_RMS)]) + seq![read_tx(reg::UC_RMS)]) + seq![read_tx(reg::IA_RMS)]) + seq![read_tx(reg::IB_RMS)]) + seq![read_tx(reg::IC_RMS)]) + seq![read_tx(reg::I0_RMS)]) + seq![read_tx(reg::UT_RMS)]) + seq![read_tx(reg::IT_RMS)] =~= seq![read_tx(reg::UA_RMS), read_tx(reg::UB_RMS), read_tx(reg::UC_RMS), read_tx(reg::IA_RMS), read_tx(reg::IB_RMS), read_tx(reg::IC_RMS), read_tx(reg::I0_RMS), read_tx(reg::UT_RMS), read_tx(reg::IT_RMS)]);
        }
        RmsData { ua, ub, uc, ia, ib, ic, i0, ut, it }
    }

    /// Read the energy registers.
    #[verifier::rlimit(50)]
    pub fn read_energy(&mut self) -> (r: EnergyData)
        requires
            old(self).wf(),
        ensures
            final(self).wf(),
            sent(old(self).frames(), final(self).frames(), seq![read_tx(reg::EPA), read_tx(reg::EPB), read_tx(reg::EPC), read_tx(reg::EPT), read_tx(reg::EQA), read_tx(reg::EQB), read_tx(reg::EQC), read_tx(reg::EQT), read_tx(reg::ESA), read_tx(reg::ESB), read_tx(reg::ESC), read_tx(reg::EST)]),
            r.epa == frame_value(final(self).frames()[old(self).frames().len() as int + 0]),
            r.epb == frame_value(final(self).frames()[old(self).frames().len() as int + 1]),
            r.epc == frame_value(final(self).frames()[old(self).frames().len() as int + 2]),
            r.ept == frame_value(final(self).frames()[old(self).frames().len() as int + 3]),
            r.eqa == frame_value(final(self).frames()[old(self).frames().len() as int + 4]),
            r.eqb == frame_value(final(self).frames()[old(self).frames().len() as int + 5]),
            r.eqc == frame_value(final(self).frames()[old(self).frames().len() as int + 6]),
            r.eqt == frame_value(final(self).frames()[old(self).frames().len() as int + 7]),
            r.esa == frame_value(final(self).frames()[old(self).frames().len() as int + 8]),
            r.esb == frame_value(final(self).frames()[old(self).frames().len() as int + 9]),
            r.esc == frame_value(final(self).frames()[old(self).frames().len() as int + 10]),
            r.est == frame_value(final(self).frames()[old(self).frames().len() as int + 11]),
    {
        let ghost f0 = self.frames();
        let raw0 = self.read_reg(reg::EPA);
        let ghost f1 = self.frames();
        let epa = raw0;
        let raw1 = self.read_reg(reg::EPB);
        let ghost f2 = self.frames();
        let epb = raw1;
        let raw2 = self.read_reg(reg::EPC);
        let ghost f3 = self.frames();
        let epc = raw2;
        let raw3 = self.read_reg(reg::EPT);
        let ghost f4 = self.frames();
        let ept = raw3;
        let raw4 = self.read_reg(reg::EQA);
        let ghost f5 = self.frames();
        let eqa = raw4;
        let raw5 = self.read_reg(reg::EQB);
        let ghost f6 = self.frames();
        let eqb = raw5;
        let raw6 = self.read_reg(reg::EQC);
        let ghost f7 = self.frames();
        let eqc = raw6;
        let raw7 = self.read_reg(reg::EQT);
        let ghost f8 = self.frames();
        let eqt = raw7;
        let raw8 = self.read_reg(reg::ESA);
        let ghost f9 = self.frames();
        let esa = raw8;
        let raw9 = self.read_reg(reg::ESB);
        let ghost f10 = self.frames();
        let esb = raw9;
        let raw10 = self.read_reg(reg::ESC);
        let ghost f11 = self.frames();
        let esc = raw10;
        let raw11 = self.read_reg(reg::EST);
        let ghost f12 = self.frames();
        let est = raw11;
        proof {
            lemma_sent_concat(f0, f1, f2, seq![read_tx(reg::EPA)], seq![read_tx(reg::EPB)]);
            lemma_sent_concat(f0, f2, f3, seq![read_tx(reg::EPA)] + seq![read_tx(reg::EPB)], seq![read_tx(reg::EPC)]);
            lemma_sent_concat(f0, f3, f4, (seq![read_tx(reg::EPA)] + seq![read_tx(reg::EPB)]) + seq![read_tx(reg::EPC)], seq![read_tx(reg::EPT)]);
            lemma_sent_concat(f0, f4, f5, ((seq![read_tx(reg::EPA)] + seq![read_tx(reg::EPB)]) + seq![read_tx(reg::EPC)]) + seq![read_tx(reg::EPT)], seq![read_tx(reg::EQA)]);
            lemma_sent_concat(f0, f5, f6, (((seq![read_tx(reg::EPA)] + seq![read_tx(reg::EPB)]) + seq![read_tx(reg::EPC)]) + seq![read_tx(reg::EPT)]) + seq![read_tx(reg::EQA)], seq![read_tx(reg::EQB)]);
            lemma_sent_concat(f0, f6, f7, ((((seq![read_tx(reg::EPA)] + seq![read_tx(reg::EPB)]) + seq![read_tx(reg::EPC)]) + seq![read_tx(reg::EPT)]) + seq![read_tx(reg::EQA)]) + seq![read_tx(reg::EQB)], seq![read_tx(reg::EQC)]);
            lemma_sent_concat(f0, f7, f8, (((((seq![read_tx(reg::EPA)] + seq![read_tx(reg::EPB)]) + seq![read_tx(reg::EPC)]) + seq![read_tx(reg::EPT)]) + seq![read_tx(reg::EQA)]) + seq![read_tx(reg::EQB)]) + seq![read_tx(reg::EQC)], seq![read_tx(reg::EQT)]);
            lemma_sent_concat(f0, f8, f9, ((((((seq![read_tx(reg::EPA)] + seq![read_tx(reg::EPB)]) + seq![read_tx(reg::EPC)]) + seq![read_tx(reg::EPT)]) + seq![read_tx(reg::EQA)]) + seq![read_tx(reg::EQB)]) + seq![read_tx(reg::EQC)]) + seq![read_tx(reg::EQT)], seq![read_tx(reg::ESA)]);
            lemma_sent_concat(f0, f9, f10, (((((((seq![read_tx(reg::EPA)] + seq![read_tx(reg::EPB)]) + seq![read_tx(reg::EPC)]) + seq![read_tx(reg::EPT)]) + seq![read_tx(reg::EQA)]) + seq![read_tx(reg::EQB)]) + seq![read_tx(reg::EQC)]) + seq![read_tx(reg::EQT)]) + seq![read_tx(reg::ESA)], seq![read_tx(reg::ESB)]);
            lemma_sent_concat(f0, f10, f11, ((((((((seq![read_tx(reg::EPA)] + seq![read_tx(reg::EPB)]) + seq![read_tx(reg::EPC)]) + seq![read_tx(reg::EPT)]) + seq![read_tx(reg::EQA)]) + seq![read_tx(reg::EQB)]) + seq![read_tx(reg::EQC)]) + seq![read_tx(reg::EQT)]) + seq![read_tx(reg::ESA)]) + seq![read_tx(reg::ESB)], seq![read_tx(reg::ESC)]);
            lemma_sent_concat(f0, f11, f12, (((((((((seq![read_tx(reg::EPA)] + seq![read_tx(reg::EPB)]) + seq![read_tx(reg::EPC)]) + seq![read_tx(reg::EPT)]) + seq![read_tx(reg::EQA)]) + seq![read_tx(reg::EQB)]) + seq![read_tx(reg::EQC)]) + seq![read_tx(reg::EQT)]) + seq![read_tx(reg::ESA)]) + seq![read_tx(reg::ESB)]) + seq![read_tx(reg::ESC)], seq![read_tx(reg::EST)]);
            assert(((((((((((seq![read_tx(reg::EPA)] + seq![read_tx(reg::EPB)]) + seq![read_tx(reg::EPC)]) + seq![read_tx(reg::EPT)]) + seq![read_tx(reg::EQA)]) + seq![read_tx(reg::EQB)]) + seq![read_tx(reg::EQC)]) + seq![read_tx(reg::EQT)]) + seq![read_tx(reg::ESA)]) + seq![read_tx(reg::ESB)]) + seq![read_tx(reg::ESC)]) + seq![read_tx(reg::EST)] =~= seq![read_tx(reg::EPA), read_tx(reg::EPB), read_tx(reg::EPC), read_tx(reg::EPT), read_tx(reg::EQA), read_tx(reg::EQB), read_tx(reg::EQC), read_tx(reg::EQT), read_tx(reg::ESA), read_tx(reg::ESB), read_tx(reg::ESC), read_tx(reg::EST)]);
        }
        EnergyData { epa, epb, epc, ept, eqa, eqb, eqc, eqt, esa, esb, esc, est }
    }

    /// Read the line frequency (Hz * 100).
    pub fn read_frequency(&mut self) -> (r: u32)
        requires
            old(self).wf(),
        ensures
            final(self).wf(),
            sent(old(self).frames(), final(self).frames(), seq![read_tx(reg::FREQ)]),
            r == freq_value(frame_value(final(self).frames()[old(self).frames().len() as int])),
    {
        let raw = self.read_reg(reg::FREQ);
        freq_to_fixed(raw)
    }

    /// Read the power factors (PF * 1000).
    pub fn read_pf(&mut self) -> (r: PfData)
        requires
            old(self).wf(),
        ensures
            final(self).wf(),
            sent(old(self).frames(), final(self).frames(), seq![read_tx(reg::PFA), read_tx(reg::PFB), read_tx(reg::PFC), read_tx(reg::PFT)]),
            r.pfa == pf_value(frame_value(final(self).frames()[old(self).frames().len() as int + 0])),
            r.pfb == pf_value(frame_value(final(self).frames()[old(self).frames().len() as int + 1])),
            r.pfc == pf_value(frame_value(final(self).frames()[old(self).frames().len() as int + 2])),
            r.pft == pf_value(frame_value(final(self).frames()[old(self).frames().len() as int + 3])),
            -1000 <= r.pfa <= 1000 && -1000 <= r.pfb <= 1000,
            -1000 <= r.pfc <= 1000 && -1000 <= r.pft <= 1000,
    {
        let ghost f0 = self.frames();
        let raw0 = self.read_reg(reg::PFA);
        let ghost f1 = self.frames();
        let pfa = pf_to_fixed(raw0);
        let raw1 = self.read_reg(reg::PFB);
        let ghost f2 = self.frames();
        let pfb = pf_to_fixed(raw1);
        let raw2 = self.read_reg(reg::PFC);
        let ghost f3 = self.frames();
        let pfc = pf_to_fixed(raw2);
        let raw3 = self.read_reg(reg::PFT);
        let ghost f4 = self.frames();
        let pft = pf_to_fixed(raw3);
        proof {
            lemma_sent_concat(f0, f1, f2, seq![read_tx(reg::PFA)], seq![read_tx(reg::PFB)]);
            lemma_sent_concat(f0, f2, f3, seq![read_tx(reg::PFA)] + seq![read_tx(reg::PFB)], seq![read_tx(reg::PFC)]);
            lemma_sent_concat(f0, f3, f4, (seq![read_tx(reg::PFA)] + seq![read_tx(reg::PFB)]) + seq![read_tx(reg::PFC)], seq![read_tx(reg::PFT)]);
            assert(((seq![read_tx(reg::PFA)] + seq![read_tx(reg::PFB)]) + seq![read_tx(reg::PFC)]) + seq![read_tx(reg::PFT)] =~= seq![read_tx(reg::PFA), read_tx(reg::PFB), read_tx(reg::PFC), read_tx(reg::PFT)]);
        }
        PfData { pfa, pfb, pfc, pft }
    }

    /// Read the phase angles (degrees * 100) and the voltage angle registers.
    pub fn read_angles(&mut self) -> (r: AngleData)
        requires
            old(self).wf(),
        ensures
            final(self).wf(),
            sent(old(self).frames(), final(self).frames(), seq![read_tx(reg::PGA), read_tx(reg::PGB), read_tx(reg::PGC), read_tx(reg::Y_UA_UB), read_tx(reg::Y_UA_UC), read_tx(reg::Y_UB_UC)]),
            r.pga == angle_value(frame_value(final(self).frames()[old(self).frames().len() as int + 0])),
            r.pgb == angle_value(frame_value(final(self).frames()[old(self).frames().len() as int + 1])),
            r.pgc == angle_value(frame_value(final(self).frames()[old(self).frames().len() as int + 2])),
            r.y_ua_ub == frame_value(final(self).frames()[old(self).frames().len() as int + 3]),
            r.y_ua_uc == frame_value(final(self).frames()[old(self).frames().len() as int + 4]),
            r.y_ub_uc == frame_value(final(self).frames()[old(self).frames().len() as int + 5]),
            -144000 <= r.pga <= 144000 && -144000 <= r.pgb <= 144000 && -144000 <= r.pgc <= 144000,
    {
        let ghost f0 = self.frames();
        let raw0 = self.read_reg(reg::PGA);
        let ghost f1 = self.frames();
        let pga = angle_to_fixed(raw0);
        let raw1 = self.read_reg(reg::PGB);
        let ghost f2 = self.frames();
        let pgb = angle_to_fixed(raw1);
        let raw2 = self.read_reg(reg::PGC);
        let ghost f3 = self.frames();
        let pgc = angle_to_fixed(raw2);
        let raw3 = self.read_reg(reg::Y_UA_UB);
        let ghost f4 = self.frames();
        let y_ua_ub = raw3;
        let raw4 = self.read_reg(reg::Y_UA_UC);
        let ghost f5 = self.frames();
        let y_ua_uc = raw4;
        let raw5 = self.read_reg(reg::Y_UB_UC);
        let ghost f6 = self.frames();
        let y_ub_uc = raw5;
        proof {
            lemma_sent_concat(f0, f1, f2, seq![read_tx(reg::PGA)], seq![read_tx(reg::PGB)]);
            lemma_sent_concat(f0, f2, f3, seq![read_tx(reg::PGA)] + seq![read_tx(reg::PGB)], seq![read_tx(reg::PGC)]);
            lemma_sent_concat(f0, f3, f4, (seq![read_tx(reg::PGA)] + seq![read_tx(reg::PGB)]) + seq![read_tx(reg::PGC)], seq![read_tx(reg::Y_UA_UB)]);
            lemma_sent_concat(f0, f4, f5, ((seq![read_tx(reg::PGA)] + seq![read_tx(reg::PGB)]) + seq![read_tx(reg::PGC)]) + seq![read_tx(reg::Y_UA_UB)], seq![read_tx(reg::Y_UA_UC)]);
            lemma_sent_concat(f0, f5, f6, (((seq![read_tx(reg::PGA)] + seq![read_tx(reg::PGB)]) + seq![read_tx(reg::PGC)]) + seq![read_tx(reg::Y_UA_UB)]) + seq![read_tx(reg::Y_UA_UC)], seq![read_tx(reg::Y_UB_UC)]);
            assert(((((seq![read_tx(reg::PGA)] + seq![read_tx(reg::PGB)]) + seq![read_tx(reg::PGC)]) + seq![read_tx(reg::Y_UA_UB)]) + seq![read_tx(reg::Y_UA_UC)]) + seq![read_tx(reg::Y_UB_UC)] =~= seq![read_tx(reg::PGA), read_tx(reg::PGB), read_tx(reg::PGC), read_tx(reg::Y_UA_UB), read_tx(reg::Y_UA_UC), read_tx(reg::Y_UB_UC)]);
        }
        AngleData { pga, pgb, pgc, y_ua_ub, y_ua_uc, y_ub_uc }
    }

    /// Read the temperature with calibration value `tc_cal` (degrees).
    pub fn read_temperature(&mut self, tc_cal: i32) -> (r: i32)
        requires
            old(self).wf(),
            -0x7FFF_FF00 <= tc_cal <= 0x7FFF_FF00,
        ensures
            final(self).wf(),
            sent(old(self).frames(), final(self).frames(), seq![read_tx(reg::TPSD)]),
            r == temp_value(frame_value(final(self).frames()[old(self).frames().len() as int]), tc_cal),
            tc_cal - 93 <= r <= tc_cal + 92,
    {
        let raw = self.read_reg(reg::TPSD);
        temp_to_celsius(raw, tc_cal)
    }

    /// Read the status flag registers.
    pub fn read_status(&mut self) -> (r: StatusFlags)
        requires
            old(self).wf(),
        ensures
            final(self).wf(),
            sent(old(self).frames(), final(self).frames(), seq![read_tx(reg::S_FLAG), read_tx(reg::E_FLAG), read_tx(reg::P_FLAG)]),
            r.raw_sflag == frame_value(final(self).frames()[old(self).frames().len() as int + 0]),
            r.raw_eflag == frame_value(final(self).frames()[old(self).frames().len() as int + 1]),
            r.raw_pflag == frame_value(final(self).frames()[old(self).frames().len() as int + 2]),
    {
        let ghost f0 = self.frames();
        let raw0 = self.read_reg(reg::S_FLAG);
        let ghost f1 = self.frames();
        let raw_sflag = raw0;
        let raw1 = self.read_reg(reg::E_FLAG);
        let ghost f2 = self.frames();
        let raw_eflag = raw1;
        let raw2 = self.read_reg(reg::P_FLAG);
        let ghost f3 = self.frames();
        let raw_pflag = raw2;
        proof {
            lemma_sent_concat(f0, f1, f2, seq![read_tx(reg::S_FLAG)], seq![read_tx(reg::E_FLAG)]);
            lemma_sent_concat(f0, f2, f3, seq![read_tx(reg::S_FLAG)] + seq![read_tx(reg::E_FLAG)], seq![read_tx(reg::P_FLAG)]);
            assert((seq![read_tx(reg::S_FLAG)] + seq![read_tx(reg::E_FLAG)]) + seq![read_tx(reg::P_FLAG)] =~= seq![read_tx(reg::S_FLAG), read_tx(reg::E_FLAG), read_tx(reg::P_FLAG)]);
        }
        StatusFlags { raw_sflag, raw_eflag, raw_pflag }
    }

    /// Read the fundamental active power registers.
    pub fn read_line_power(&mut self) -> (r: LinePowerData)
        requires
            old(self).wf(),
        ensures
            final(self).wf(),
            sent(old(self).frames(), final(self).frames(), seq![read_tx(reg::LINE_PA), read_tx(reg::LINE_PB), read_tx(reg::LINE_PC), read_tx(reg::LINE_PT)]),
            r.line_pa == signed24_spec(frame_value(final(self).frames()[old(self).frames().len() as int + 0])),
            r.line_pb == signed24_spec(frame_value(final(self).frames()[old(self).frames().len() as int + 1])),
            r.line_pc == signed24_spec(frame_value(final(self).frames()[old(self).frames().len() as int + 2])),
            r.line_pt == signed24_spec(frame_value(final(self).frames()[old(self).frames().len() as int + 3])),
            in_signed24(r.line_pa) && in_signed24(r.line_pb) && in_signed24(r.line_pc) && in_signed24(r.line_pt),
    {
        let ghost f0 = self.frames();
        let raw0 = self.read_reg(reg::LINE_PA);
        let ghost f1 = self.frames();
        let line_pa = signed24(raw0);
        let raw1 = self.read_reg(reg::LINE_PB);
        let ghost f2 = self.frames();
        let line_pb = signed24(raw1);
        let raw2 = self.read_reg(reg::LINE_PC);
        let ghost f3 = self.frames();
        let line_pc = signed24(raw2);
        let raw3 = self.read_reg(reg::LINE_PT);
        let ghost f4 = self.frames();
        let line_pt = signed24(raw3);
        proof {
            lemma_sent_concat(f0, f1, f2, seq![read_tx(reg::LINE_PA)], seq![read_tx(reg::LINE_PB)]);
            lemma_sent_concat(f0, f2, f3, seq![read_tx(reg::LINE_PA)] + seq![read_tx(reg::LINE_PB)], seq![read_tx(reg::LINE_PC)]);
            lemma_sent_concat(f0, f3, f4, (seq![read_tx(reg::LINE_PA)] + seq![read_tx(reg::LINE_PB)]) + seq![read_tx(reg::LINE_PC)], seq![read_tx(reg::LINE_PT)]);
            assert(((seq![read_tx(reg::LINE_PA)] + seq![read_tx(reg::LINE_PB)]) + seq![read_tx(reg::LINE_PC)]) + seq![read_tx(reg::LINE_PT)] =~= seq![read_tx(reg::LINE_PA), read_tx(reg::LINE_PB), read_tx(reg::LINE_PC), read_tx(reg::LINE_PT)]);
        }
        LinePowerData { line_pa, line_pb, line_pc, line_pt }
    }

    /// Write a calibration register (writes must be enabled): switch to the
    /// calibration space, write, switch back.
    pub fn write_calib(&mut self, addr: u8, data: u32)
        requires
            old(self).wf(),
        ensures
            final(self).wf(),
            sent(old(self).frames(), final(self).frames(), seq![
                special_tx(special_cmd::READ_CALIB & 0x3F, 0x00005A),
                write_tx(addr, data),
                special_tx(special_cmd::READ_CALIB & 0x3F, 0x000000),
            ]),
    {
        let ghost f0 = self.frames();
        self.switch_to_calib_read();
        let ghost f1 = self.frames();
        self.write_reg(addr, data);
        let ghost f2 = self.frames();
        self.switch_to_meter_read();
        proof {
            let t0 = seq![special_tx(special_cmd::READ_CALIB & 0x3F, 0x00005A)];
            let t1 = seq![write_tx(addr, data)];
            let t2 = seq![special_tx(special_cmd::READ_CALIB & 0x3F, 0x000000)];
            lemma_sent_concat(f0, f1, f2, t0, t1);
            lemma_sent_concat(f0, f2, self.frames(), t0 + t1, t2);
            assert(t0 + t1 + t2 =~= seq![
                special_tx(special_cmd::READ_CALIB & 0x3F, 0x00005A),
                write_tx(addr, data),
                special_tx(special_cmd::READ_CALIB & 0x3F, 0x000000),
            ]);
        }
    }

    /// Read a calibration register: switch to the calibration space, read,
    /// switch back.
    pub fn read_calib(&mut self, addr: u8) -> (r: u32)
        requires
            old(self).wf(),
        ensures
            final(self).wf(),
            sent(old(self).frames(), final(self).frames(), seq![
                special_tx(special_cmd::READ_CALIB & 0x3F, 0x00005A),
                read_tx(addr),
                special_tx(special_cmd::READ_CALIB & 0x3F, 0x000000),
            ]),
            r == frame_value(final(self).frames()[old(self).frames().len() as int + 1]),
            r <= 0xFF_FFFF,
    {
        let ghost f0 = self.frames();
        self.switch_to_calib_read();
        let ghost f1 = self.frames();
        let val = self.read_reg(addr);
        let ghost f2 = self.frames();
        self.switch_to_meter_read();
        proof {
            let t0 = seq![special_tx(special_cmd::READ_CALIB & 0x3F, 0x00005A)];
            let t1 = seq![read_tx(addr)];
            let t2 = seq![special_tx(special_cmd::READ_CALIB & 0x3F, 0x000000)];
            lemma_sent_concat(f0, f1, f2, t0, t1);
            lemma_sent_concat(f0, f2, self.frames(), t0 + t1, t2);
            assert(t0 + t1 + t2 =~= seq![
                special_tx(special_cmd::READ_CALIB & 0x3F, 0x00005A),
                read_tx(addr),
                special_tx(special_cmd::READ_CALIB & 0x3F, 0x000000),
            ]);
        }
        val
    }

    /// Set the high-frequency pulse constant: enable calibration writes,
    /// write `HF_CONST`, disable calibration writes.
    pub fn set_hfconst(&mut self, value: u32)
        requires
            old(self).wf(),
        ensures
            final(self).wf(),
            sent(old(self).frames(), final(self).frames(), seq![
                special_tx(special_cmd::WRITE_EN & 0x3F, 0x00005A),
                special_tx(special_cmd::READ_CALIB & 0x3F, 0x00005A),
                write_tx(cal_reg::HF_CONST, value),
                special_tx(special_cmd::READ_CALIB & 0x3F, 0x000000),
                special_tx(special_cmd::WRITE_EN & 0x3F, 0x000000),
            ]),
    {
        let ghost f0 = self.frames();
        self.enable_calibration_write();
        let ghost f1 = self.frames();
        self.write_calib(cal_reg::HF_CONST, value);
        let ghost f2 = self.frames();
        self.disable_calibration_write();
        proof {
            let t0 = seq![special_tx(special_cmd::WRITE_EN & 0x3F, 0x00005A)];
            let t1 = seq![
                special_tx(special_cmd::READ_CALIB & 0x3F, 0x00005A),
                write_tx(cal_reg::HF_CONST, value),
                special_tx(special_cmd::READ_CALIB & 0x3F, 0x000000),
            ];
            let t2 = seq![special_tx(special_cmd::WRITE_EN & 0x3F, 0x000000)];
            lemma_sent_concat(f0, f1, f2, t0, t1);
            lemma_sent_concat(f0, f2, self.frames(), t0 + t1, t2);
            assert(t0 + t1 + t2 =~= seq![
                special_tx(special_cmd::WRITE_EN & 0x3F, 0x00005A),
                special_tx(special_cmd::READ_CALIB & 0x3F, 0x00005A),
                write_tx(cal_reg::HF_CONST, value),
                special_tx(special_cmd::READ_CALIB & 0x3F, 0x000000),
                special_tx(special_cmd::WRITE_EN & 0x3F, 0x000000),
            ]);
        }
    }

    /// Start the waveform buffer on `channel` (0 Ua, 1 Ia, 2 Ub, 3 Ib,
    /// 4 Uc, 5 Ic, 6 In): data 0x00CCCX with X the channel's low nibble.
    pub fn start_wave_buffer(&mut self, channel: u8)
        requires
            old(self).wf(),
        ensures
            final(self).wf(),
            sent(old(self).frames(), final(self).frames(), seq![
                special_tx(special_cmd::WAVE_START & 0x3F, (0x00CCC0 | ((channel as u32) & 0x0F)) as u32),
            ]),
    {
        let data: u32 = 0x00CCC0 | ((channel as u32) & 0x0F);
        self.send_special(special_cmd::WAVE_START & 0x3F, data);
    }

    /// Set the waveform buffer read pointer (0..1023).
    pub fn set_wave_ptr(&mut self, ptr: u32)
        requires
            old(self).wf(),
        ensures
            final(self).wf(),
            sent(old(self).frames(), final(self).frames(), seq![special_tx(special_cmd::WAVE_PTR & 0x3F, ptr & 0x3FF)]),
    {
        self.send_special(special_cmd::WAVE_PTR & 0x3F, ptr & 0x3FF);
    }

    /// Read the waveform buffer pointer (amount of data written).
    pub fn read_wave_ptr(&mut self) -> (r: u32)
        requires
            old(self).wf(),
        ensures
            final(self).wf(),
            sent(old(self).frames(), final(self).frames(), seq![read_tx(reg::PTR_WAVE)]),
            r == frame_value(final(self).frames()[old(self).frames().len() as int]),
            r <= 0xFF_FFFF,
    {
        self.read_reg(reg::PTR_WAVE)
    }

    /// Read the next waveform buffer word.
    pub fn read_wave_data(&mut self) -> (r: u32)
        requires
            old(self).wf(),
        ensures
            final(self).wf(),
            sent(old(self).frames(), final(self).frames(), seq![read_tx(reg::WAVE_BUFF)]),
            r == frame_value(final(self).frames()[old(self).frames().len() as int]),
            r <= 0xFF_FFFF,
    {
        self.read_reg(reg::WAVE_BUFF)
    }
}

} // verus!
