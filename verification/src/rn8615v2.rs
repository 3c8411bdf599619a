//! RN8615V2 three-phase high-accuracy metering chip: the same SPI frame
//! format as the RN8302B, 63 harmonic orders, interharmonics, hardware
//! power-quality registers and voltage sag/swell status. The conversions
//! through floating-point calibration coefficients are done by the
//! application.
use vstd::prelude::*;

use crate::hal::{
    harmonic_of, is_read_of, op_ok, read_err, read_value, reads_until_error, writes_until_error, HarmonicAnalysis,
    HarmonicData, MeteringError, Phase, PowerQuality, PowerQualityEvent, RegOp, SpiTransfer,
};
use crate::rn8302b::{read_error, read_exchange, signed24_value, spi_read, spi_write, write_exchange, INSTANT_REGS};

pub use crate::rn8302b::{crc8, signed24};

pub mod reg;

verus! {

/// Chip identification register value of the RN8615V2.
pub const CHIP_ID_VALUE: u32 = 0x8615_5000;

/// Event reported by a sag/swell status word: a sag on the first phase of
/// A, B, C whose bit (0, 1, 2) is set; else a swell on the first phase
/// whose bit (3, 4, 5) is set; else none. Durations and extremes are 0.
pub open spec fn sag_swell_event(status: u32) -> Option<PowerQualityEvent> {
    if status & 0x07 != 0 {
        Some(PowerQualityEvent::VoltageSag {
            phase: if status & 0x01 != 0 { 0 } else if status & 0x02 != 0 { 1 } else { 2 },
            duration_ms: 0,
            min_voltage: 0,
        })
    } else if status & 0x38 != 0 {
        Some(PowerQualityEvent::VoltageSwell {
            phase: if status & 0x08 != 0 { 0 } else if status & 0x10 != 0 { 1 } else { 2 },
            duration_ms: 0,
            max_voltage: 0,
        })
    } else {
        None
    }
}

/// Decode a sag/swell status word (see `sag_swell_event`).
pub fn decode_sag_swell(status: u32) -> (r: Option<PowerQualityEvent>)
    ensures
        r == sag_swell_event(status),
{
    let sag_a = status & 0x01 != 0;
    let sag_b = status & 0x02 != 0;
    let sag_c = status & 0x04 != 0;
    let swell_a = status & 0x08 != 0;
    let swell_b = status & 0x10 != 0;
    let swell_c = status & 0x20 != 0;
    assert((status & 0x07 != 0) == (sag_a || sag_b || sag_c)) by (bit_vector)
        requires
            sag_a == (status & 0x01 != 0),
            sag_b == (status & 0x02 != 0),
            sag_c == (status & 0x04 != 0);
    assert((status & 0x38 != 0) == (swell_a || swell_b || swell_c)) by (bit_vector)
        requires
            swell_a == (status & 0x08 != 0),
            swell_b == (status & 0x10 != 0),
            swell_c == (status & 0x20 != 0);
    if sag_a || sag_b || sag_c {
        let phase: u8 = if sag_a { 0 } else if sag_b { 1 } else { 2 };
        return Some(PowerQualityEvent::VoltageSag { phase, duration_ms: 0, min_voltage: 0 });
    }
    if swell_a || swell_b || swell_c {
        let phase: u8 = if swell_a { 0 } else if swell_b { 1 } else { 2 };
        return Some(PowerQualityEvent::VoltageSwell { phase, duration_ms: 0, max_voltage: 0 });
    }
    None
}

/// RN8615V2 driver over an SPI link, with a pending power-quality event.
pub struct RN8615V2<S: SpiTransfer> {
    spi: S,
    pq_event_pending: Option<PowerQualityEvent>,
    /// Register accesses made so far, oldest first
    ops: Ghost<Seq<RegOp>>,
}

/// Register `base + k`, wrapping at 256.
pub open spec fn wrap_reg(base: u8, k: int) -> u8 {
    ((base + k) % 256) as u8
}

/// Going from register log `old` to `new`, the THD register `thd_reg` was
/// read and, when that succeeded, the 63 harmonic registers from `base`
/// (wrapping at 256) in order; `r` is the THD read's error, or the THD and
/// the harmonics kept from the reads.
pub open spec fn full_harmonics_read(old: Seq<RegOp>, new: Seq<RegOp>, base: u8, thd_reg: u8, r: Result<HarmonicData, MeteringError>) -> bool {
    let n = old.len() as int;
    &&& new.len() > n
    &&& new.subrange(0, n) == old
    &&& is_read_of(new[n], thd_reg)
    &&& !op_ok(new[n]) ==> new.len() == n + 1 && r == Err::<HarmonicData, MeteringError>(read_err(new[n]))
    &&& op_ok(new[n]) ==> {
        &&& new.len() == n + 64
        &&& forall|k: int| 0 <= k < 63 ==> #[trigger] is_read_of(new[n + 1 + k], wrap_reg(base, k))
        &&& r matches Ok(d) && {
            &&& d.thd == (read_value(new[n]) & 0xFFFF) as u16
            &&& forall|k: int| 0 <= k < 63 ==> #[trigger] d.harmonics@[k] == harmonic_of(new[n + 1 + k])
        }
    }
}

/// The configuration writes of `configure_sag_swell`: the enable word,
/// then the sag thresholds of A, B, C, then the swell thresholds.
pub open spec fn sag_swell_writes(sag: [u16; 3], swell: [u16; 3]) -> Seq<(u8, u32)> {
    seq![
        (reg::SAG_SWELL_CFG, 0x7Fu32),
        (reg::SAG_UA_THRESHOLD, sag[0] as u32),
        (reg::SAG_UB_THRESHOLD, sag[1] as u32),
        (reg::SAG_UC_THRESHOLD, sag[2] as u32),
        (reg::SWELL_UA_THRESHOLD, swell[0] as u32),
        (reg::SWELL_UB_THRESHOLD, swell[1] as u32),
        (reg::SWELL_UC_THRESHOLD, swell[2] as u32),
    ]
}

impl<S: SpiTransfer> RN8615V2<S> {
    /// The SPI link the driver talks over.
    pub closed spec fn link(&self) -> S {
        self.spi
    }

    /// The power-quality event waiting to be taken.
    pub closed spec fn pending(&self) -> Option<PowerQualityEvent> {
        self.pq_event_pending
    }

    /// Register accesses made through the driver, oldest first.
    pub closed spec fn ops(&self) -> Seq<RegOp> {
        self.ops@
    }

    /// A driver over `spi` with no pending event.
    pub fn new(spi: S) -> (r: Self)
        ensures
            r.link() == spi,
            r.pending() is None,
            r.ops() == Seq::<RegOp>::empty(),
    {
        RN8615V2 { spi, pq_event_pending: None, ops: Ghost(Seq::empty()) }
    }

    /// Read register `addr` (see `spi_read`).
    fn read_at(&mut self, addr: u8) -> (r: Result<u32, MeteringError>)
        ensures
            final(self).ops() == old(self).ops().push(RegOp::Read(addr, r)),
            read_exchange(addr, old(self).link().transfers(), final(self).link().transfers(), r),
            final(self).pending() == old(self).pending(),
            r is Ok ==> r->Ok_0 < 0x100_0000,
            r is Err ==> read_error(r->Err_0),
    {
        let r = spi_read(&mut self.spi, addr);
        self.ops = Ghost(self.ops@.push(RegOp::Read(addr, r)));
        r
    }

    /// Write `data` to register `addr` (see `spi_write`).
    fn write_at(&mut self, addr: u8, data: u32) -> (r: Result<(), MeteringError>)
        ensures
            final(self).ops() == old(self).ops().push(RegOp::Write(addr, data, r)),
            write_exchange(addr, data, old(self).link().transfers(), final(self).link().transfers(), r),
            final(self).pending() == old(self).pending(),
            r is Err ==> r == Err::<(), MeteringError>(MeteringError::SpiError),
    {
        let r = spi_write(&mut self.spi, addr, data);
        self.ops = Ghost(self.ops@.push(RegOp::Write(addr, data, r)));
        r
    }

    /// The instantaneous registers `INSTANT_REGS` read in order (voltage
    /// and current RMS, active and reactive power, frequency, power
    /// factors), as raw 24-bit words; the first failed read ends the reads
    /// with its error.
    pub fn read_instant_raw(&mut self) -> (r: Result<[u32; 19], MeteringError>)
        ensures
            ({
                let n = old(self).ops().len() as int;
                let added = final(self).ops().subrange(n, final(self).ops().len() as int);
                &&& final(self).ops().subrange(0, n) == old(self).ops()
                &&& reads_until_error(INSTANT_REGS@, added)
                &&& !op_ok(added.last()) ==> r == Err::<[u32; 19], MeteringError>(read_err(added.last()))
                &&& op_ok(added.last()) ==> (r matches Ok(w) && forall|i: int| 0 <= i < 19
                    ==> #[trigger] w@[i] == read_value(added[i]))
            }),
            final(self).pending() == old(self).pending(),
            r is Err ==> read_error(r->Err_0),
            r is Ok ==> forall|i: int| 0 <= i < 19 ==> #[trigger] r->Ok_0@[i] < 0x100_0000,
    {
        let ghost o0 = self.ops@;
        let ghost n = o0.len() as int;
        let mut words: [u32; 19] = [0; 19];
        let mut i: usize = 0;
        while i < 19
            invariant
                i <= 19,
                n == o0.len(),
                o0 == old(self).ops@,
                self.pq_event_pending == old(self).pq_event_pending,
                self.ops@.len() == n + i,
                self.ops@.subrange(0, n) == o0,
                forall|j: int| 0 <= j < i ==> #[trigger] self.ops@[n + j] == RegOp::Read(
                    INSTANT_REGS@[j],
                    Ok::<u32, MeteringError>(words@[j]),
                ),
                forall|j: int| 0 <= j < i ==> #[trigger] words@[j] < 0x100_0000,
            decreases 19 - i,
        {
            let ghost before = self.ops@;
            let res = self.read_at(INSTANT_REGS[i]);
            proof {
                assert(self.ops@.subrange(0, n) =~= before.subrange(0, n));
                assert forall|j: int| 0 <= j < i implies #[trigger] self.ops@[n + j] == before[n + j] by {}
            }
            match res {
                Ok(v) => {
                    words[i] = v;
                },
                Err(e) => {
                    proof {
                        let added = self.ops@.subrange(n, self.ops@.len() as int);
                        assert(added.len() == i + 1);
                        assert forall|j: int| 0 <= j < added.len() implies #[trigger] is_read_of(added[j], INSTANT_REGS@[j]) by {
                            assert(added[j] == self.ops@[n + j]);
                        }
                        assert forall|j: int| 0 <= j < added.len() - 1 implies op_ok(#[trigger] added[j]) by {
                            assert(added[j] == self.ops@[n + j]);
                        }
                        assert(added.last() == RegOp::Read(INSTANT_REGS@[i as int], Err::<u32, MeteringError>(e)));
                    }
                    return Err(e);
                },
            }
            i = i + 1;
        }
        proof {
            let added = self.ops@.subrange(n, self.ops@.len() as int);
            assert(added.len() == 19);
            assert forall|j: int| 0 <= j < added.len() implies #[trigger] added[j] == RegOp::Read(
                INSTANT_REGS@[j],
                Ok::<u32, MeteringError>(words@[j]),
            ) by {
                assert(added[j] == self.ops@[n + j]);
            }
            assert forall|j: int| 0 <= j < added.len() implies #[trigger] is_read_of(added[j], INSTANT_REGS@[j]) by {
                assert(added[j] == RegOp::Read(INSTANT_REGS@[j], Ok::<u32, MeteringError>(words@[j])));
            }
            assert forall|j: int| 0 <= j < added.len() implies op_ok(#[trigger] added[j]) by {
                assert(added[j] == RegOp::Read(INSTANT_REGS@[j], Ok::<u32, MeteringError>(words@[j])));
            }
            assert forall|j: int| 0 <= j < 19 implies #[trigger] words@[j] == read_value(added[j]) by {
                assert(added[j] == RegOp::Read(INSTANT_REGS@[j], Ok::<u32, MeteringError>(words@[j])));
            }
            assert(added.last() == added[18]);
            assert(op_ok(added.last()));
            assert(reads_until_error(INSTANT_REGS@, added));
            assert(self.ops@.subrange(0, n) == old(self).ops@);
        }
        Ok(words)
    }

    /// The SPI link, for the application's conversions.
    pub fn spi_mut(&mut self) -> (r: &mut S)
        ensures
            *r == old(self).link(),
            final(self).link() == *final(r),
            final(self).pending() == old(self).pending(),
            final(self).ops() == old(self).ops(),
    {
        &mut self.spi
    }

    /// Anti-tamper status register (DC tampering included).
    pub fn read_tamper_status(&mut self) -> (r: Result<u32, MeteringError>)
        ensures
            final(self).ops() == old(self).ops().push(RegOp::Read(reg::ANTI_TAMPER_STAT, r)),
            r is Err ==> read_error(r->Err_0),
            r is Ok ==> r->Ok_0 < 0x100_0000,
            final(self).pending() == old(self).pending(),
    {
        self.read_at(reg::ANTI_TAMPER_STAT)
    }

    /// Enable sag/swell detection and set the per-phase thresholds
    /// (0.01 V): configuration word 0x7F, then the sag thresholds of A, B,
    /// C, then the swell thresholds; the first failed write ends it.
    pub fn configure_sag_swell(&mut self, sag_threshold: [u16; 3], swell_threshold: [u16; 3]) -> (r: Result<(), MeteringError>)
        ensures
            ({
                let n = old(self).ops().len() as int;
                let added = final(self).ops().subrange(n, final(self).ops().len() as int);
                &&& final(self).ops().subrange(0, n) == old(self).ops()
                &&& writes_until_error(sag_swell_writes(sag_threshold, swell_threshold), added)
                &&& r is Ok <==> op_ok(added.last())
            }),
            r is Err ==> r == Err::<(), MeteringError>(MeteringError::SpiError),
            final(self).pending() == old(self).pending(),
    {
        let ghost o0 = self.ops@;
        let ghost w = sag_swell_writes(sag_threshold, swell_threshold);
        let regs: [u8; 7] = [
            reg::SAG_SWELL_CFG,
            reg::SAG_UA_THRESHOLD,
            reg::SAG_UB_THRESHOLD,
            reg::SAG_UC_THRESHOLD,
            reg::SWELL_UA_THRESHOLD,
            reg::SWELL_UB_THRESHOLD,
            reg::SWELL_UC_THRESHOLD,
        ];
        let vals: [u32; 7] = [
            0x00007F,
            sag_threshold[0] as u32,
            sag_threshold[1] as u32,
            sag_threshold[2] as u32,
            swell_threshold[0] as u32,
            swell_threshold[1] as u32,
            swell_threshold[2] as u32,
        ];
        let mut i: usize = 0;
        while i < 7
            invariant
                i <= 7,
                self.pending() == old(self).pending(),
                w == sag_swell_writes(sag_threshold, swell_threshold),
                o0 == old(self).ops@,
                forall|k: int| 0 <= k < 7 ==> (#[trigger] regs@[k], vals@[k]) == w[k],
                self.ops@.len() == o0.len() + i,
                self.ops@.subrange(0, o0.len() as int) == o0,
                forall|k: int| 0 <= k < i ==> (#[trigger] self.ops@[o0.len() + k] matches RegOp::Write(a, d, _) && a == w[k].0 && d == w[k].1),
                forall|k: int| 0 <= k < i ==> op_ok(#[trigger] self.ops@[o0.len() + k]),
            decreases 7 - i,
        {
            let ghost before = self.ops@;
            let res = self.write_at(regs[i], vals[i]);
            proof {
                assert(self.ops@.subrange(0, o0.len() as int) =~= before.subrange(0, o0.len() as int));
                assert forall|k: int| 0 <= k < i implies #[trigger] self.ops@[o0.len() + k] == before[o0.len() + k] by {}
                let added = self.ops@.subrange(o0.len() as int, self.ops@.len() as int);
                assert forall|k: int| 0 <= k < added.len() implies #[trigger] added[k] == self.ops@[o0.len() + k] by {}
                assert(regs@[i as int] == w[i as int].0 && vals@[i as int] == w[i as int].1);
            }
            if res.is_err() {
                proof {
                    let added = self.ops@.subrange(o0.len() as int, self.ops@.len() as int);
                    assert(added.len() == i + 1);
                    assert(added[i as int] == RegOp::Write(regs@[i as int], vals@[i as int], res));
                    assert forall|k: int| 0 <= k < added.len() implies (#[trigger] added[k] matches RegOp::Write(a, d, _)
                        && a == w[k].0 && d == w[k].1) by {
                        assert(added[k] == self.ops@[o0.len() + k]);
                    }
                    assert forall|k: int| 0 <= k < added.len() - 1 implies op_ok(#[trigger] added[k]) by {
                        assert(added[k] == self.ops@[o0.len() + k]);
                    }
                }
                return Err(MeteringError::SpiError);
            }
            i = i + 1;
        }
        proof {
            let added = self.ops@.subrange(o0.len() as int, self.ops@.len() as int);
            assert forall|k: int| 0 <= k < added.len() implies #[trigger] added[k] == self.ops@[o0.len() + k] by {}
        }
        Ok(())
    }

    /// Voltage harmonic data of a phase: the THD (low 16 bits of its
    /// register; a failed read fails the whole) and all 63 orders from the
    /// phase's harmonic register on (register addresses wrap at 256; a
    /// failed order read leaves 0).
    pub fn read_full_harmonics(&mut self, phase: Phase) -> (r: Result<HarmonicData, MeteringError>)
        ensures
            full_harmonics_read(
                old(self).ops(),
                final(self).ops(),
                match phase { Phase::A => reg::HARMONIC_UA, Phase::B => reg::HARMONIC_UB, Phase::C => reg::HARMONIC_UC },
                match phase { Phase::A => reg::THD_UA, Phase::B => reg::THD_UB, Phase::C => reg::THD_UC },
                r,
            ),
            r is Err ==> read_error(r->Err_0),
            final(self).pending() == old(self).pending(),
    {
        let ghost o0 = self.ops@;
        let base: u8 = match phase {
            Phase::A => reg::HARMONIC_UA,
            Phase::B => reg::HARMONIC_UB,
            Phase::C => reg::HARMONIC_UC,
        };
        let thd_reg: u8 = match phase {
            Phase::A => reg::THD_UA,
            Phase::B => reg::THD_UB,
            Phase::C => reg::THD_UC,
        };
        let mut data = HarmonicData::default();
        let first = self.read_at(thd_reg);
        proof {
            assert(self.ops@.subrange(0, o0.len() as int) =~= o0);
            assert(self.ops@[o0.len() as int] == RegOp::Read(thd_reg, first));
        }
        let thd_raw = match first {
            Ok(v) => v,
            Err(e) => {
                return Err(e);
            },
        };
        data.thd = (thd_raw & 0xFFFF) as u16;
        let mut i: usize = 0;
        while i < HarmonicData::MAX_HARMONICS
            invariant
                i <= 63,
                data.harmonics@.len() == 63,
                self.pending() == old(self).pending(),
                data.thd == (thd_raw & 0xFFFF) as u16,
                self.ops@.len() == o0.len() + 1 + i,
                self.ops@.subrange(0, o0.len() as int + 1) == o0.push(RegOp::Read(thd_reg, Ok::<u32, MeteringError>(thd_raw))),
                forall|k: int| 0 <= k < i ==> #[trigger] is_read_of(self.ops@[o0.len() + 1 + k], wrap_reg(base, k)),
                forall|k: int| 0 <= k < i ==> #[trigger] data.harmonics@[k] == harmonic_of(self.ops@[o0.len() + 1 + k]),
                forall|k: int| i <= k < 63 ==> #[trigger] data.harmonics@[k] == 0,
            decreases 63 - i,
        {
            let reg_addr: u8 = base.wrapping_add(i as u8);
            assert(reg_addr == wrap_reg(base, i as int));
            let ghost before = self.ops@;
            let res = self.read_at(reg_addr);
            proof {
                assert(self.ops@.subrange(0, o0.len() as int + 1) =~= before.subrange(0, o0.len() as int + 1));
                assert forall|k: int| 0 <= k < i implies #[trigger] self.ops@[o0.len() + 1 + k] == before[o0.len() + 1 + k] by {}
            }
            if let Ok(val) = res {
                data.harmonics[i] = (val & 0xFFFF) as u16;
            }
            i = i + 1;
        }
        proof {
            let n = o0.len() as int;
            assert(self.ops@.subrange(0, n + 1)[n] == self.ops@[n]);
            assert forall|k: int| 0 <= k < n implies #[trigger] self.ops@[k] == o0[k] by {
                assert(self.ops@.subrange(0, n + 1)[k] == self.ops@[k]);
            }
            assert(self.ops@.subrange(0, n) =~= o0);
        }
        Ok(data)
    }

    /// Interharmonic of a phase and order (low 16 bits of the register
    /// `order` past the phase's interharmonic register); orders past 63
    /// are refused.
    pub fn read_interharmonic_raw(&mut self, phase: Phase, order: u8) -> (r: Result<u16, MeteringError>)
        ensures
            order <= 63 && r is Err ==> read_error(r->Err_0),
            order > 63 ==> r == Err::<u16, MeteringError>(MeteringError::InvalidRegister),
            order > 63 ==> final(self).link() == old(self).link() && final(self).ops() == old(self).ops(),
            order <= 63 ==> final(self).ops() == old(self).ops().push(RegOp::Read(
                (match phase {
                    Phase::A => reg::INTERHARMONIC_UA,
                    Phase::B => reg::INTERHARMONIC_UB,
                    Phase::C => reg::INTERHARMONIC_UC,
                } + order) as u8,
                match r { Ok(v) => Ok::<u32, MeteringError>(read_value(final(self).ops().last())), Err(e) => Err::<u32, MeteringError>(e) },
            )),
            order <= 63 && r is Ok ==> r->Ok_0 == (read_value(final(self).ops().last()) & 0xFFFF) as u16,
            final(self).pending() == old(self).pending(),
    {
        if order > 63 {
            return Err(MeteringError::InvalidRegister);
        }
        let base: u8 = match phase {
            Phase::A => reg::INTERHARMONIC_UA,
            Phase::B => reg::INTERHARMONIC_UB,
            Phase::C => reg::INTERHARMONIC_UC,
        };
        match self.read_at(base + order) {
            Ok(raw) => Ok((raw & 0xFFFF) as u16),
            Err(e) => Err(e),
        }
    }

    /// Read the sag/swell status: an event as `sag_swell_event` says (the
    /// status is then cleared by writing 0), none when the read fails.
    pub fn check_sag_swell(&mut self) -> (r: Option<PowerQualityEvent>)
        ensures
            ({
                let n = old(self).ops().len() as int;
                let o = final(self).ops();
                &&& o.len() > n
                &&& o.subrange(0, n) == old(self).ops()
                &&& is_read_of(o[n], reg::SAG_SWELL_STATUS)
                &&& !op_ok(o[n]) ==> r is None && o.len() == n + 1
                &&& op_ok(o[n]) ==> r == sag_swell_event(read_value(o[n]))
                &&& op_ok(o[n]) && r is None ==> o.len() == n + 1
                &&& op_ok(o[n]) && r is Some ==> o.len() == n + 2
                    && (o[n + 1] matches RegOp::Write(a, d, _) && a == reg::SAG_SWELL_STATUS && d == 0)
            }),
            r is None || exists|status: u32| status < 0x100_0000 && #[trigger] sag_swell_event(status) == r,
            final(self).pending() == old(self).pending(),
            r matches Some(PowerQualityEvent::VoltageSag { phase, .. }) ==> phase < 3,
            r matches Some(PowerQualityEvent::VoltageSwell { phase, .. }) ==> phase < 3,
            r is None || r matches Some(PowerQualityEvent::VoltageSag { .. }) || r matches Some(PowerQualityEvent::VoltageSwell { .. }),
    {
        let ghost o0 = self.ops@;
        let res = self.read_at(reg::SAG_SWELL_STATUS);
        proof {
            assert(self.ops@.subrange(0, o0.len() as int) =~= o0);
        }
        match res {
            Ok(status) => {
                let ev = decode_sag_swell(status);
                if ev.is_some() {
                    let _ = self.write_at(reg::SAG_SWELL_STATUS, 0);
                    proof {
                        assert(self.ops@.subrange(0, o0.len() as int) =~= o0);
                    }
                }
                ev
            },
            Err(_) => None,
        }
    }

    /// Software reset: 0xA5 written to the reset register.
    pub fn reset(&mut self) -> (r: Result<(), MeteringError>)
        ensures
            final(self).ops() == old(self).ops().push(RegOp::Write(reg::SOFT_RESET, 0xA5, r)),
            r is Err ==> r == Err::<(), MeteringError>(MeteringError::SpiError),
            final(self).pending() == old(self).pending(),
    {
        self.write_at(reg::SOFT_RESET, 0xA5)
    }

    /// Chip identification register.
    pub fn chip_id(&mut self) -> (r: Result<u32, MeteringError>)
        ensures
            r is Err ==> read_error(r->Err_0),
            final(self).ops() == old(self).ops().push(RegOp::Read(reg::CHIP_ID, r)),
            r is Ok ==> r->Ok_0 < 0x100_0000,
            final(self).pending() == old(self).pending(),
    {
        self.read_at(reg::CHIP_ID)
    }

    /// Whether an identification word names this chip family (bits 12..31
    /// of the identification value).
    pub fn id_matches(id: u32) -> (r: bool)
        ensures
            r == ((id & 0xFFFF_F000) == (CHIP_ID_VALUE & 0xFFFF_F000)),
    {
        (id & 0xFFFF_F000) == (CHIP_ID_VALUE & 0xFFFF_F000)
    }

    /// Chip name.
    pub fn name() -> (r: &'static str)
        ensures
            r@ == seq!['R', 'N', '8', '6', '1', '5', 'V', '2'],
    {
        proof {
            reveal_strlit("RN8615V2");
        }
        "RN8615V2"
    }

    /// The chip separates fundamental and harmonic power.
    pub fn supports_fundamental(&self) -> (r: bool)
        ensures
            r,
    {
        true
    }

    /// Fundamental active power of the three phases, sign-extended from
    /// 24 bits; the first failed read ends the reads with its error.
    pub fn read_fundamental_power(&mut self) -> (r: Result<[i32; 3], MeteringError>)
        ensures
            ({
                let n = old(self).ops().len() as int;
                let added = final(self).ops().subrange(n, final(self).ops().len() as int);
                &&& final(self).ops().subrange(0, n) == old(self).ops()
                &&& reads_until_error(seq![reg::PA_FUND, reg::PB_FUND, reg::PC_FUND], added)
                &&& !op_ok(added.last()) ==> r == Err::<[i32; 3], MeteringError>(read_err(added.last()))
                &&& op_ok(added.last()) ==> (r matches Ok(p) && forall|i: int| 0 <= i < 3
                    ==> #[trigger] p@[i] == signed24_value(read_value(added[i])))
            }),
            r is Err ==> read_error(r->Err_0),
            r is Ok ==> forall|i: int| 0 <= i < 3 ==> -0x80_0000 <= #[trigger] r->Ok_0@[i] < 0x80_0000,
            final(self).pending() == old(self).pending(),
    {
        let ghost o0 = self.ops@;
        let ra = self.read_at(reg::PA_FUND);
        let ghost o1 = self.ops@;
        proof {
            assert(o1.subrange(o0.len() as int, o1.len() as int) =~= seq![RegOp::Read(reg::PA_FUND, ra)]);
            assert(o1.subrange(0, o0.len() as int) =~= o0);
        }
        let pa = match ra {
            Ok(v) => signed24(v),
            Err(e) => {
                return Err(e);
            },
        };
        let rb = self.read_at(reg::PB_FUND);
        let ghost o2 = self.ops@;
        proof {
            assert(o2.subrange(o0.len() as int, o2.len() as int) =~= seq![RegOp::Read(reg::PA_FUND, ra), RegOp::Read(reg::PB_FUND, rb)]);
            assert(o2.subrange(0, o0.len() as int) =~= o0);
        }
        let pb = match rb {
            Ok(v) => signed24(v),
            Err(e) => {
                return Err(e);
            },
        };
        let rc = self.read_at(reg::PC_FUND);
        let ghost o3 = self.ops@;
        proof {
            assert(o3.subrange(o0.len() as int, o3.len() as int)
                =~= seq![RegOp::Read(reg::PA_FUND, ra), RegOp::Read(reg::PB_FUND, rb), RegOp::Read(reg::PC_FUND, rc)]);
            assert(o3.subrange(0, o0.len() as int) =~= o0);
        }
        let pc = match rc {
            Ok(v) => signed24(v),
            Err(e) => {
                return Err(e);
            },
        };
        let r: [i32; 3] = [pa, pb, pc];
        Ok(r)
    }

    /// Low 16 bits of a register, or the read error.
    fn read_low16(&mut self, addr: u8) -> (r: Result<u16, MeteringError>)
        ensures
            r is Err ==> read_error(r->Err_0),
            final(self).pending() == old(self).pending(),
    {
        match self.read_at(addr) {
            Ok(raw) => Ok((raw & 0xFFFF) as u16),
            Err(e) => Err(e),
        }
    }
}

impl<S: SpiTransfer> HarmonicAnalysis for RN8615V2<S> {
    fn read_harmonics(&mut self, phase: Phase) -> Result<HarmonicData, MeteringError> {
        self.read_full_harmonics(phase)
    }

    fn read_thd(&mut self, phase: Phase) -> (r: Result<u16, MeteringError>)
        ensures
            r is Err ==> read_error(r->Err_0),
    {
        let thd_reg: u8 = match phase {
            Phase::A => reg::THD_UA,
            Phase::B => reg::THD_UB,
            Phase::C => reg::THD_UC,
        };
        self.read_low16(thd_reg)
    }

    fn max_harmonic_order(&self) -> u8 {
        63
    }
}

impl<S: SpiTransfer> PowerQuality for RN8615V2<S> {
    fn read_voltage_unbalance(&mut self) -> (r: Result<u16, MeteringError>)
        ensures
            r is Err ==> read_error(r->Err_0),
    {
        self.read_low16(reg::VOLTAGE_UNBALANCE)
    }

    fn read_current_unbalance(&mut self) -> (r: Result<u16, MeteringError>)
        ensures
            r is Err ==> read_error(r->Err_0),
    {
        self.read_low16(reg::CURRENT_UNBALANCE)
    }

    fn read_short_flicker(&mut self) -> (r: Result<u16, MeteringError>)
        ensures
            r is Err ==> read_error(r->Err_0),
    {
        self.read_low16(reg::FLICKER_PST)
    }

    fn read_long_flicker(&mut self) -> (r: Result<u16, MeteringError>)
        ensures
            r is Err ==> read_error(r->Err_0),
    {
        self.read_low16(reg::FLICKER_PLT)
    }

    fn read_interharmonic(&mut self, phase: Phase, order: u8) -> (r: Result<u16, MeteringError>)
        ensures
            order > 63 ==> r == Err::<u16, MeteringError>(MeteringError::InvalidRegister),
            order <= 63 && r is Err ==> read_error(r->Err_0),
    {
        self.read_interharmonic_raw(phase, order)
    }

    fn read_dc_component(&mut self, phase: Phase) -> (r: Result<u16, MeteringError>)
        ensures
            r is Err ==> read_error(r->Err_0),
    {
        let addr: u8 = match phase {
            Phase::A => reg::DC_COMPONENT_UA,
            Phase::B => reg::DC_COMPONENT_UB,
            Phase::C => reg::DC_COMPONENT_UC,
        };
        self.read_low16(addr)
    }

    fn check_pq_event(&mut self) -> (r: Option<PowerQualityEvent>)
        ensures
            r == old(self).pending(),
            final(self).pending() is None,
            final(self).link() == old(self).link(),
    {
        let ev = self.pq_event_pending;
        self.pq_event_pending = None;
        ev
    }
}

} // verus!
