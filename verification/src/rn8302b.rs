//! RN8302B three-phase metering chip: the SPI frame format (command byte,
//! 24-bit data, CRC-8), 24-bit sign extension and the integer register
//! reads. The conversions through floating-point calibration coefficients
//! are done by the application.
use vstd::prelude::*;

use crate::hal::{
    harmonic_of, is_read_of, op_ok, read_err, read_value, reads_until_error, HarmonicAnalysis, HarmonicData, MeteringError, Phase,
    RegOp, SpiExchange, SpiTransfer,
};

pub mod reg;

verus! {

/// Registers of an instantaneous reading, in the order they are read:
/// voltage RMS A..C, current RMS A..C, active power A, B, C and total,
/// reactive power A, B, C and total, frequency, power factor A, B, C and
/// total.
pub const INSTANT_REGS: [u8; 19] = [
    reg::UA_RMS, reg::UB_RMS, reg::UC_RMS, reg::IA_RMS, reg::IB_RMS, reg::IC_RMS, reg::PA, reg::PB, reg::PC, reg::PT,
    reg::QA, reg::QB, reg::QC, reg::QT, reg::FREQ, reg::PFA, reg::PFB, reg::PFC, reg::PFT,
];

/// Chip identification register value of the RN8302B.
pub const CHIP_ID_VALUE: u32 = 0x8302_2000;

/// CRC-8 polynomial x^8 + x^2 + x + 1.
pub const CRC8_POLY: u8 = 0x07;

/* ---------------- CRC-8 ---------------- */

/// One bit step of the CRC-8 register (MSB first).
pub open spec fn crc8_bit_step(c: u8) -> u8 {
    if c & 0x80 != 0 { ((c << 1u8) ^ CRC8_POLY) as u8 } else { (c << 1u8) as u8 }
}

/// `n` bit steps of the CRC-8 register.
pub open spec fn crc8_bit_steps(c: u8, n: nat) -> u8
    decreases n,
{
    if n == 0 { c } else { crc8_bit_steps(crc8_bit_step(c), (n - 1) as nat) }
}

/// CRC-8 (polynomial 0x07, initial value 0, no final xor) of `data`.
pub open spec fn crc8_spec(data: Seq<u8>) -> u8
    decreases data.len(),
{
    if data.len() == 0 {
        0
    } else {
        crc8_bit_steps(crc8_spec(data.drop_last()) ^ data.last(), 8)
    }
}

/// CRC-8 (polynomial 0x07, initial value 0) of a byte slice.
pub fn crc8(data: &[u8]) -> (r: u8)
    ensures
        r == crc8_spec(data@),
{
    let mut crc: u8 = 0;
    let mut i: usize = 0;
    assert(data@.subrange(0, 0) =~= Seq::<u8>::empty());
    while i < data.len()
        invariant
            i <= data@.len(),
            crc == crc8_spec(data@.subrange(0, i as int)),
        decreases data@.len() - i,
    {
        let ghost start: u8 = (crc ^ data[i as int]) as u8;
        crc = crc ^ data[i];
        let mut j: u8 = 0;
        while j < 8
            invariant
                j <= 8,
                crc8_bit_steps(start, 8) == crc8_bit_steps(crc, (8 - j) as nat),
            decreases 8 - j,
        {
            if crc & 0x80 != 0 {
                crc = (crc << 1) ^ CRC8_POLY;
            } else {
                crc = crc << 1;
            }
            j = j + 1;
        }
        proof {
            let s = data@.subrange(0, i + 1);
            assert(s.drop_last() =~= data@.subrange(0, i as int));
            assert(s.last() == data@[i as int]);
        }
        i = i + 1;
    }
    assert(data@.subrange(0, data@.len() as int) =~= data@);
    crc
}

/* ---------------- 24-bit values ---------------- */

/// Two's-complement value of a 24-bit register word.
pub open spec fn signed24_value(v: u32) -> int {
    if v >= 0x80_0000 { v - 0x100_0000 } else { v as int }
}

/// Sign extension of bit 23: the word with bits 24..31 set when bit 23 is
/// set, read as `i32`. For a 24-bit word this is its two's-complement
/// value.
pub fn signed24(val: u32) -> (r: i32)
    ensures
        r == (if val & 0x0080_0000 != 0 { (val | 0xFF00_0000) as i32 } else { val as i32 }),
        val < 0x100_0000 ==> r as int == signed24_value(val),
{
    if val & 0x0080_0000 != 0 {
        proof {
            if val < 0x100_0000 {
                assert(val >= 0x80_0000) by (bit_vector)
                    requires val & 0x0080_0000 != 0, val < 0x100_0000;
                assert((val | 0xFF00_0000) as i32 == val - 0x100_0000) by (bit_vector)
                    requires val >= 0x80_0000, val < 0x100_0000;
            }
        }
        (val | 0xFF00_0000) as i32
    } else {
        proof {
            if val < 0x100_0000 {
                assert(val < 0x80_0000) by (bit_vector)
                    requires val & 0x0080_0000 == 0, val < 0x100_0000;
            }
        }
        val as i32
    }
}

/* ---------------- SPI frames ---------------- */

/// Command byte of a write: bit 7 set, register address in bits 0..6.
pub open spec fn write_command(addr: u8) -> u8 {
    ((addr & 0x7F) | 0x80) as u8
}

/// Command byte of a read: bit 7 clear, register address in bits 0..6.
pub open spec fn read_command(addr: u8) -> u8 {
    (addr & 0x7F) as u8
}

/// Write frame: command, data bits 16..23, 8..15, 0..7, then the CRC-8 of
/// those four bytes.
pub open spec fn write_frame_spec(addr: u8, data: u32) -> Seq<u8> {
    let a = write_command(addr);
    let dh = ((data >> 16) & 0xFF) as u8;
    let dm = ((data >> 8) & 0xFF) as u8;
    let dl = (data & 0xFF) as u8;
    seq![a, dh, dm, dl, crc8_spec(seq![a, dh, dm, dl])]
}

/// Value carried by the four reply bytes of a read of `addr` (data high,
/// middle, low, CRC): the 24-bit word when the CRC-8 of the read command
/// and the data bytes matches, else a checksum error.
pub open spec fn read_reply_spec(addr: u8, reply: Seq<u8>) -> Result<u32, MeteringError> {
    if crc8_spec(seq![read_command(addr), reply[0], reply[1], reply[2]]) != reply[3] {
        Err(MeteringError::ChecksumError)
    } else {
        Ok((reply[0] * 0x1_0000 + reply[1] * 0x100 + reply[2]) as u32)
    }
}

/// The five bytes that write `data` (low 24 bits) to register `addr`.
pub fn write_frame(addr: u8, data: u32) -> (r: [u8; 5])
    ensures
        r@ == write_frame_spec(addr, data),
{
    let a: u8 = (addr & 0x7F) | 0x80;
    let dh: u8 = ((data >> 16) & 0xFF) as u8;
    let dm: u8 = ((data >> 8) & 0xFF) as u8;
    let dl: u8 = (data & 0xFF) as u8;
    let head: [u8; 4] = [a, dh, dm, dl];
    let crc = crc8(&head);
    assert(head@ =~= seq![a, dh, dm, dl]);
    let r: [u8; 5] = [a, dh, dm, dl, crc];
    assert(r@ =~= write_frame_spec(addr, data));
    r
}

/// Check and assemble the reply to a read of `addr`.
pub fn decode_read_reply(addr: u8, reply: &[u8]) -> (r: Result<u32, MeteringError>)
    requires
        reply@.len() == 4,
    ensures
        r == read_reply_spec(addr, reply@),
{
    let a: u8 = addr & 0x7F;
    let dh = reply[0];
    let dm = reply[1];
    let dl = reply[2];
    let head: [u8; 4] = [a, dh, dm, dl];
    let crc = crc8(&head);
    assert(head@ =~= seq![read_command(addr), reply@[0], reply@[1], reply@[2]]);
    if crc != reply[3] {
        return Err(MeteringError::ChecksumError);
    }
    let v: u32 = ((dh as u32) << 16) | ((dm as u32) << 8) | (dl as u32);
    assert(v == dh * 0x1_0000 + dm * 0x100 + dl) by (bit_vector)
        requires v == ((dh as u32) << 16) | ((dm as u32) << 8) | (dl as u32);
    Ok(v)
}

/// Going from link record `old` to `new`, register `addr` was written
/// with `data`: one transfer of `write_frame_spec(addr, data)`, whose
/// failure is an SPI error.
pub open spec fn write_exchange(addr: u8, data: u32, old: Seq<SpiExchange>, new: Seq<SpiExchange>, r: Result<(), MeteringError>) -> bool {
    &&& new.len() == old.len() + 1
    &&& new.drop_last() == old
    &&& new.last().0 == write_frame_spec(addr, data)
    &&& new.last().1.len() == 5
    &&& (new.last().2 is Ok <==> r is Ok)
}

/// Going from link record `old` to `new`, register `addr` was read: a
/// transfer of `read_frame_spec(addr)` and, when it succeeded, one of four
/// 0xFF bytes whose reply gives the result as `read_reply_spec` says; a
/// failed transfer is an SPI error.
pub open spec fn read_exchange(addr: u8, old: Seq<SpiExchange>, new: Seq<SpiExchange>, r: Result<u32, MeteringError>) -> bool {
    let n = old.len() as int;
    &&& new.len() > n
    &&& new.subrange(0, n) == old
    &&& new[n].0 == read_frame_spec(addr)
    &&& new[n].1.len() == 2
    &&& new[n].2 is Err ==> new.len() == n + 1 && r == Err::<u32, MeteringError>(MeteringError::SpiError)
    &&& new[n].2 is Ok ==> {
        &&& new.len() == n + 2
        &&& new[n + 1].0 == seq![0xFFu8, 0xFFu8, 0xFFu8, 0xFFu8]
        &&& new[n + 1].1.len() == 4
        &&& new[n + 1].2 is Err ==> r == Err::<u32, MeteringError>(MeteringError::SpiError)
        &&& new[n + 1].2 is Ok ==> r == read_reply_spec(addr, new[n + 1].1)
    }
}

/// Write `data` to register `addr`: one five-byte transfer. A failed
/// transfer is an SPI error.
pub fn spi_write<S: SpiTransfer>(spi: &mut S, addr: u8, data: u32) -> (r: Result<(), MeteringError>)
    ensures
        r is Err ==> r == Err::<(), MeteringError>(MeteringError::SpiError),
        write_exchange(addr, data, old(spi).transfers(), final(spi).transfers(), r),
{
    let ghost t0 = spi.transfers();
    let tx = write_frame(addr, data);
    let mut rx: [u8; 5] = [0; 5];
    let res = spi.transfer(&tx, &mut rx);
    proof {
        assert(spi.transfers().drop_last() =~= t0);
    }
    match res {
        Ok(()) => Ok(()),
        Err(_) => Err(MeteringError::SpiError),
    }
}

/// Going from register log `old` to `new`, the THD register `thd_reg` was
/// read and, when that succeeded, the 20 harmonic registers from `base` in
/// order; `r` is the THD read's error, or the THD and harmonics kept from
/// the reads, orders past 20 being 0.
pub open spec fn harmonics_read(old: Seq<RegOp>, new: Seq<RegOp>, base: u8, thd_reg: u8, r: Result<HarmonicData, MeteringError>) -> bool {
    let n = old.len() as int;
    &&& new.len() > n
    &&& new.subrange(0, n) == old
    &&& is_read_of(new[n], thd_reg)
    &&& !op_ok(new[n]) ==> new.len() == n + 1 && r == Err::<HarmonicData, MeteringError>(read_err(new[n]))
    &&& op_ok(new[n]) ==> {
        &&& new.len() == n + 21
        &&& forall|k: int| 0 <= k < 20 ==> #[trigger] is_read_of(new[n + 1 + k], (base + k) as u8)
        &&& r matches Ok(d) && {
            &&& d.thd == (read_value(new[n]) & 0xFFFF) as u16
            &&& forall|k: int| 0 <= k < 20 ==> #[trigger] d.harmonics@[k] == harmonic_of(new[n + 1 + k])
            &&& forall|k: int| 20 <= k < 63 ==> #[trigger] d.harmonics@[k] == 0
        }
    }
}

/// The errors a register read can end in: a failed transfer or a reply
/// whose CRC does not match.
pub open spec fn read_error(e: MeteringError) -> bool {
    e == MeteringError::SpiError || e == MeteringError::ChecksumError
}

/// The two bytes that start a read of register `addr`: the read command
/// and a dummy byte.
pub open spec fn read_frame_spec(addr: u8) -> Seq<u8> {
    seq![read_command(addr), 0u8]
}

/// The two bytes that start a read of register `addr`.
pub fn read_frame(addr: u8) -> (r: [u8; 2])
    ensures
        r@ == read_frame_spec(addr),
{
    let r: [u8; 2] = [addr & 0x7F, 0x00];
    assert(r@ =~= read_frame_spec(addr));
    r
}

/// Read register `addr`: the command and a dummy byte, then four bytes
/// clocked in (data high, middle, low, CRC), checked as `read_reply_spec`
/// says. A failed transfer is an SPI error.
pub fn spi_read<S: SpiTransfer>(spi: &mut S, addr: u8) -> (r: Result<u32, MeteringError>)
    ensures
        r is Ok ==> r->Ok_0 < 0x100_0000,
        r is Err ==> r == Err::<u32, MeteringError>(MeteringError::SpiError) || r == Err::<u32, MeteringError>(MeteringError::ChecksumError),
        r is Ok || r == Err::<u32, MeteringError>(MeteringError::ChecksumError) ==> exists|reply: Seq<u8>|
            reply.len() == 4 && r == #[trigger] read_reply_spec(addr, reply),
        read_exchange(addr, old(spi).transfers(), final(spi).transfers(), r),
{
    let ghost t0 = spi.transfers();
    let tx = read_frame(addr);
    let mut head: [u8; 2] = [0; 2];
    let r1 = spi.transfer(&tx, &mut head);
    proof {
        assert(spi.transfers().subrange(0, t0.len() as int) =~= t0);
    }
    if r1.is_err() {
        return Err(MeteringError::SpiError);
    }
    let clock: [u8; 4] = [0xFF; 4];
    let mut reply: [u8; 4] = [0; 4];
    let ghost t1 = spi.transfers();
    let r2 = spi.transfer(&clock, &mut reply);
    proof {
        assert(clock@ =~= seq![0xFFu8, 0xFFu8, 0xFFu8, 0xFFu8]);
        assert(spi.transfers().subrange(0, t0.len() as int) =~= t0);
        assert(spi.transfers()[t0.len() as int] == t1[t0.len() as int]);
    }
    if r2.is_err() {
        return Err(MeteringError::SpiError);
    }
    decode_read_reply(addr, &reply)
}

/* ---------------- driver ---------------- */

/// RN8302B driver over an SPI link.
pub struct Rn8302b<S: SpiTransfer> {
    spi: S,
    /// Register accesses made so far, oldest first
    ops: Ghost<Seq<RegOp>>,
}


impl<S: SpiTransfer> Rn8302b<S> {
    /// The SPI link the driver talks over.
    pub closed spec fn link(&self) -> S {
        self.spi
    }

    /// Register accesses made through the driver, oldest first.
    pub closed spec fn ops(&self) -> Seq<RegOp> {
        self.ops@
    }

    /// A driver over `spi`.
    pub fn new(spi: S) -> (r: Self)
        ensures
            r.link() == spi,
            r.ops() == Seq::<RegOp>::empty(),
    {
        Rn8302b { spi, ops: Ghost(Seq::empty()) }
    }

    /// Read register `addr` (see `spi_read`).
    fn read_at(&mut self, addr: u8) -> (r: Result<u32, MeteringError>)
        ensures
            final(self).ops() == old(self).ops().push(RegOp::Read(addr, r)),
            read_exchange(addr, old(self).link().transfers(), final(self).link().transfers(), r),
            r is Ok ==> r->Ok_0 < 0x100_0000,
            r is Err ==> read_error(r->Err_0),
    {
        let r = spi_read(&mut self.spi, addr);
        self.ops = Ghost(self.ops@.push(RegOp::Read(addr, r)));
        r
    }

    /// Write `data` to register `addr` (see `spi_write`).
    fn write_at(&mut self, addr: u8, data: u32) -> (r: Result<(), MeteringError>)
        ensures
            final(self).ops() == old(self).ops().push(RegOp::Write(addr, data, r)),
            write_exchange(addr, data, old(self).link().transfers(), final(self).link().transfers(), r),
            r is Err ==> r == Err::<(), MeteringError>(MeteringError::SpiError),
    {
        let r = spi_write(&mut self.spi, addr, data);
        self.ops = Ghost(self.ops@.push(RegOp::Write(addr, data, r)));
        r
    }

    /// The SPI link, for the application's conversions.
    pub fn spi_mut(&mut self) -> (r: &mut S)
        ensures
            *r == old(self).link(),
            final(self).link() == *final(r),
            final(self).ops() == old(self).ops(),
    {
        &mut self.spi
    }

    /// Anti-tamper status register.
    pub fn read_tamper_status(&mut self) -> (r: Result<u32, MeteringError>)
        ensures
            final(self).ops() == old(self).ops().push(RegOp::Read(reg::ANTI_TAMPER_STAT, r)),
            r is Err ==> read_error(r->Err_0),
            r is Ok ==> r->Ok_0 < 0x100_0000,
    {
        self.read_at(reg::ANTI_TAMPER_STAT)
    }

    /// Harmonic data of one phase from its THD register and the 20
    /// harmonic registers from `base`: the THD is the low 16 bits of its
    /// register (a failed read fails the whole); each harmonic is the low
    /// 16 bits of its register, or 0 when its read fails; orders past 20
    /// stay 0.
    fn read_harmonics_from(&mut self, base: u8, thd_reg: u8) -> (r: Result<HarmonicData, MeteringError>)
        requires
            base <= 235,
        ensures
            harmonics_read(old(self).ops(), final(self).ops(), base, thd_reg, r),
            r is Err ==> read_error(r->Err_0),
    {
        let ghost o0 = self.ops@;
        let mut data = HarmonicData::default();
        let first = self.read_at(thd_reg);
        proof {
            assert(self.ops@.subrange(0, o0.len() as int) =~= o0);
            assert(self.ops@[o0.len() as int] == RegOp::Read(thd_reg, first));
        }
        let thd_raw = match first {
            Ok(v) => v,
            Err(e) => {
                return Err(e);
            },
        };
        data.thd = (thd_raw & 0xFFFF) as u16;
        let mut i: usize = 0;
        while i < 20
            invariant
                i <= 20,
                base <= 235,
                data.harmonics@.len() == 63,
                data.thd == (thd_raw & 0xFFFF) as u16,
                self.ops@.len() == o0.len() + 1 + i,
                self.ops@.subrange(0, o0.len() as int + 1) == o0.push(RegOp::Read(thd_reg, Ok::<u32, MeteringError>(thd_raw))),
                forall|k: int| 0 <= k < i ==> #[trigger] is_read_of(self.ops@[o0.len() + 1 + k], (base + k) as u8),
                forall|k: int| 0 <= k < i ==> #[trigger] data.harmonics@[k] == harmonic_of(self.ops@[o0.len() + 1 + k]),
                forall|k: int| i <= k < 63 ==> #[trigger] data.harmonics@[k] == 0,
            decreases 20 - i,
        {
            let reg_addr: u8 = base + (i as u8);
            let ghost before = self.ops@;
            let res = self.read_at(reg_addr);
            proof {
                assert(self.ops@.subrange(0, o0.len() as int + 1) =~= before.subrange(0, o0.len() as int + 1));
                assert forall|k: int| 0 <= k < i implies #[trigger] self.ops@[o0.len() + 1 + k] == before[o0.len() + 1 + k] by {}
            }
            if let Ok(val) = res {
                data.harmonics[i] = (val & 0xFFFF) as u16;
            }
            i = i + 1;
        }
        proof {
            let n = o0.len() as int;
            assert(self.ops@.subrange(0, n + 1)[n] == self.ops@[n]);
            assert(self.ops@[n] == RegOp::Read(thd_reg, Ok::<u32, MeteringError>(thd_raw)));
            assert forall|k: int| 0 <= k < n implies #[trigger] self.ops@[k] == o0[k] by {
                assert(self.ops@.subrange(0, n + 1)[k] == self.ops@[k]);
            }
            assert(self.ops@.subrange(0, n) =~= o0);
        }
        Ok(data)
    }

    /// Voltage harmonics of a phase (THD and orders 1..20).
    pub fn read_voltage_harmonics(&mut self, phase: Phase) -> (r: Result<HarmonicData, MeteringError>)
        ensures
            harmonics_read(
                old(self).ops(),
                final(self).ops(),
                match phase { Phase::A => reg::HARMONIC_UA, Phase::B => reg::HARMONIC_UB, Phase::C => reg::HARMONIC_UC },
                match phase { Phase::A => reg::THD_UA, Phase::B => reg::THD_UB, Phase::C => reg::THD_UC },
                r,
            ),
            r is Err ==> read_error(r->Err_0),
    {
        let base: u8 = match phase {
            Phase::A => reg::HARMONIC_UA,
            Phase::B => reg::HARMONIC_UB,
            Phase::C => reg::HARMONIC_UC,
        };
        let thd_reg: u8 = match phase {
            Phase::A => reg::THD_UA,
            Phase::B => reg::THD_UB,
            Phase::C => reg::THD_UC,
        };
        self.read_harmonics_from(base, thd_reg)
    }

    /// Current harmonics of a phase (THD and orders 1..20).
    pub fn read_current_harmonics(&mut self, phase: Phase) -> (r: Result<HarmonicData, MeteringError>)
        ensures
            harmonics_read(
                old(self).ops(),
                final(self).ops(),
                match phase { Phase::A => reg::HARMONIC_IA, Phase::B => reg::HARMONIC_IB, Phase::C => reg::HARMONIC_IC },
                match phase { Phase::A => reg::THD_IA, Phase::B => reg::THD_IB, Phase::C => reg::THD_IC },
                r,
            ),
            r is Err ==> read_error(r->Err_0),
    {
        let base: u8 = match phase {
            Phase::A => reg::HARMONIC_IA,
            Phase::B => reg::HARMONIC_IB,
            Phase::C => reg::HARMONIC_IC,
        };
        let thd_reg: u8 = match phase {
            Phase::A => reg::THD_IA,
            Phase::B => reg::THD_IB,
            Phase::C => reg::THD_IC,
        };
        self.read_harmonics_from(base, thd_reg)
    }

    /// Software reset: 0xA5 written to the reset register.
    pub fn reset(&mut self) -> (r: Result<(), MeteringError>)
        ensures
            final(self).ops() == old(self).ops().push(RegOp::Write(reg::SOFT_RESET, 0xA5, r)),
            r is Err ==> r == Err::<(), MeteringError>(MeteringError::SpiError),
    {
        self.write_at(reg::SOFT_RESET, 0xA5)
    }

    /// Chip identification register.
    pub fn chip_id(&mut self) -> (r: Result<u32, MeteringError>)
        ensures
            final(self).ops() == old(self).ops().push(RegOp::Read(reg::CHIP_ID, r)),
            r is Err ==> read_error(r->Err_0),
            r is Ok ==> r->Ok_0 < 0x100_0000,
    {
        self.read_at(reg::CHIP_ID)
    }

    /// Whether an identification word names this chip family (bits 12..31
    /// of the identification value).
    pub fn id_matches(id: u32) -> (r: bool)
        ensures
            r == ((id & 0xFFFF_F000) == (CHIP_ID_VALUE & 0xFFFF_F000)),
    {
        (id & 0xFFFF_F000) == (CHIP_ID_VALUE & 0xFFFF_F000)
    }

    /// Chip name.
    pub fn name() -> (r: &'static str)
        ensures
            r@ == seq!['R', 'N', '8', '3', '0', '2', 'B'],
    {
        proof {
            reveal_strlit("RN8302B");
        }
        "RN8302B"
    }

    /// The chip separates fundamental and harmonic power.
    pub fn supports_fundamental(&self) -> (r: bool)
        ensures
            r,
    {
        true
    }

    /// The instantaneous registers `INSTANT_REGS` read in order (voltage
    /// and current RMS, active and reactive power, frequency, power
    /// factors), as raw 24-bit words; the first failed read ends the reads
    /// with its error.
    pub fn read_instant_raw(&mut self) -> (r: Result<[u32; 19], MeteringError>)
        ensures
            ({
                let n = old(self).ops().len() as int;
                let added = final(self).ops().subrange(n, final(self).ops().len() as int);
                &&& final(self).ops().subrange(0, n) == old(self).ops()
                &&& reads_until_error(INSTANT_REGS@, added)
                &&& !op_ok(added.last()) ==> r == Err::<[u32; 19], MeteringError>(read_err(added.last()))
                &&& op_ok(added.last()) ==> (r matches Ok(w) && forall|i: int| 0 <= i < 19
                    ==> #[trigger] w@[i] == read_value(added[i]))
            }),
            r is Err ==> read_error(r->Err_0),
            r is Ok ==> forall|i: int| 0 <= i < 19 ==> #[trigger] r->Ok_0@[i] < 0x100_0000,
    {
        let ghost o0 = self.ops@;
        let ghost n = o0.len() as int;
        let mut words: [u32; 19] = [0; 19];
        let mut i: usize = 0;
        while i < 19
            invariant
                i <= 19,
                n == o0.len(),
                o0 == old(self).ops@,
                self.ops@.len() == n + i,
                self.ops@.subrange(0, n) == o0,
                forall|j: int| 0 <= j < i ==> #[trigger] self.ops@[n + j] == RegOp::Read(
                    INSTANT_REGS@[j],
                    Ok::<u32, MeteringError>(words@[j]),
                ),
                forall|j: int| 0 <= j < i ==> #[trigger] words@[j] < 0x100_0000,
            decreases 19 - i,
        {
            let ghost before = self.ops@;
            let res = self.read_at(INSTANT_REGS[i]);
            proof {
                assert(self.ops@.subrange(0, n) =~= before.subrange(0, n));
                assert forall|j: int| 0 <= j < i implies #[trigger] self.ops@[n + j] == before[n + j] by {}
            }
            match res {
                Ok(v) => {
                    words[i] = v;
                },
                Err(e) => {
                    proof {
                        let added = self.ops@.subrange(n, self.ops@.len() as int);
                        assert(added.len() == i + 1);
                        assert forall|j: int| 0 <= j < added.len() implies #[trigger] is_read_of(added[j], INSTANT_REGS@[j]) by {
                            assert(added[j] == self.ops@[n + j]);
                        }
                        assert forall|j: int| 0 <= j < added.len() - 1 implies op_ok(#[trigger] added[j]) by {
                            assert(added[j] == self.ops@[n + j]);
                        }
                        assert(added.last() == RegOp::Read(INSTANT_REGS@[i as int], Err::<u32, MeteringError>(e)));
                    }
                    return Err(e);
                },
            }
            i = i + 1;
        }
        proof {
            let added = self.ops@.subrange(n, self.ops@.len() as int);
            assert(added.len() == 19);
            assert forall|j: int| 0 <= j < added.len() implies #[trigger] added[j] == RegOp::Read(
                INSTANT_REGS@[j],
                Ok::<u32, MeteringError>(words@[j]),
            ) by {
                assert(added[j] == self.ops@[n + j]);
            }
            assert forall|j: int| 0 <= j < added.len() implies #[trigger] is_read_of(added[j], INSTANT_REGS@[j]) by {
                assert(added[j] == RegOp::Read(INSTANT_REGS@[j], Ok::<u32, MeteringError>(words@[j])));
            }
            assert forall|j: int| 0 <= j < added.len() implies op_ok(#[trigger] added[j]) by {
                assert(added[j] == RegOp::Read(INSTANT_REGS@[j], Ok::<u32, MeteringError>(words@[j])));
            }
            assert forall|j: int| 0 <= j < 19 implies #[trigger] words@[j] == read_value(added[j]) by {
                assert(added[j] == RegOp::Read(INSTANT_REGS@[j], Ok::<u32, MeteringError>(words@[j])));
            }
            assert(added.last() == added[18]);
            assert(op_ok(added.last()));
            assert(reads_until_error(INSTANT_REGS@, added));
            assert(self.ops@.subrange(0, n) == old(self).ops@);
        }
        Ok(words)
    }

    /// Fundamental active power of the three phases (registers 0x1C..0x1E),
    /// sign-extended from 24 bits; the first failed read ends the reads
    /// with its error.
    pub fn read_fundamental_power(&mut self) -> (r: Result<[i32; 3], MeteringError>)
        ensures
            ({
                let n = old(self).ops().len() as int;
                let added = final(self).ops().subrange(n, final(self).ops().len() as int);
                &&& final(self).ops().subrange(0, n) == old(self).ops()
                &&& reads_until_error(seq![0x1Cu8, 0x1Du8, 0x1Eu8], added)
                &&& !op_ok(added.last()) ==> r == Err::<[i32; 3], MeteringError>(read_err(added.last()))
                &&& op_ok(added.last()) ==> (r matches Ok(p) && forall|i: int| 0 <= i < 3
                    ==> #[trigger] p@[i] == signed24_value(read_value(added[i])))
            }),
            r is Err ==> read_error(r->Err_0),
            r is Ok ==> forall|i: int| 0 <= i < 3 ==> -0x80_0000 <= #[trigger] r->Ok_0@[i] < 0x80_0000,
    {
        let ghost o0 = self.ops@;
        let ra = self.read_at(0x1C);
        let ghost o1 = self.ops@;
        proof {
            assert(o1.subrange(o0.len() as int, o1.len() as int) =~= seq![RegOp::Read(0x1C, ra)]);
            assert(o1.subrange(0, o0.len() as int) =~= o0);
        }
        let pa = match ra {
            Ok(v) => signed24(v),
            Err(e) => {
                return Err(e);
            },
        };
        let rb = self.read_at(0x1D);
        let ghost o2 = self.ops@;
        proof {
            assert(o2.subrange(o0.len() as int, o2.len() as int) =~= seq![RegOp::Read(0x1C, ra), RegOp::Read(0x1D, rb)]);
            assert(o2.subrange(0, o0.len() as int) =~= o0);
        }
        let pb = match rb {
            Ok(v) => signed24(v),
            Err(e) => {
                return Err(e);
            },
        };
        let rc = self.read_at(0x1E);
        let ghost o3 = self.ops@;
        proof {
            assert(o3.subrange(o0.len() as int, o3.len() as int) =~= seq![RegOp::Read(0x1C, ra), RegOp::Read(0x1D, rb), RegOp::Read(0x1E, rc)]);
            assert(o3.subrange(0, o0.len() as int) =~= o0);
        }
        let pc = match rc {
            Ok(v) => signed24(v),
            Err(e) => {
                return Err(e);
            },
        };
        let r: [i32; 3] = [pa, pb, pc];
        Ok(r)
    }
}

impl<S: SpiTransfer> HarmonicAnalysis for Rn8302b<S> {
    fn read_harmonics(&mut self, phase: Phase) -> Result<HarmonicData, MeteringError> {
        self.read_voltage_harmonics(phase)
    }

    fn read_thd(&mut self, phase: Phase) -> (r: Result<u16, MeteringError>)
        ensures
            r is Err ==> read_error(r->Err_0),
    {
        let thd_reg: u8 = match phase {
            Phase::A => reg::THD_UA,
            Phase::B => reg::THD_UB,
            Phase::C => reg::THD_UC,
        };
        match self.read_at(thd_reg) {
            Ok(raw) => Ok((raw & 0xFFFF) as u16),
            Err(e) => Err(e),
        }
    }

    fn max_harmonic_order(&self) -> u8 {
        51
    }
}

} // verus!
