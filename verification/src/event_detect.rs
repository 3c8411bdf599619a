//! Meter event detection: phase loss, over/under voltage, over current,
//! frequency deviation, reverse power, unbalance, magnetic tamper and cover
//! events, with a circular RAM event log.
use vstd::prelude::*;
use vstd::array::array_as_slice;
use vstd::slice::slice_subrange;

use crate::hal::PhaseData;

verus! {

/* ---------------- thresholds ---------------- */

/// Voltage thresholds (0.01 V) and qualification time.
#[derive(Clone, Copy, Debug)]
pub struct VoltageThresholds {
    /// Over-voltage threshold (0.01 V), default 264.0 V.
    pub over_voltage: u16,
    /// Under-voltage threshold (0.01 V), default 176.0 V.
    pub under_voltage: u16,
    /// Phase-loss threshold (0.01 V), default 30.0 V.
    pub lost_voltage: u16,
    /// Time the condition must persist before the event fires (ms).
    pub duration_ms: u16,
}

/// Current threshold (mA) and qualification time.
#[derive(Clone, Copy, Debug)]
pub struct CurrentThresholds {
    /// Over-current threshold (mA), default 60 A.
    pub over_current: u16,
    /// Qualification time (ms).
    pub duration_ms: u16,
}

/// Unbalance thresholds (0.01 %) and qualification time.
#[derive(Clone, Copy, Debug)]
pub struct UnbalanceThresholds {
    /// Voltage unbalance alarm threshold (0.01 %), default 20 %.
    pub voltage_unbalance: u16,
    /// Current unbalance alarm threshold (0.01 %), default 20 %.
    pub current_unbalance: u16,
    /// Qualification time (ms).
    pub duration_ms: u16,
}

/// Magnetic field threshold (0.1 uT) and qualification time.
#[derive(Clone, Copy, Debug)]
pub struct MagneticThresholds {
    /// Field strength alarm threshold (0.1 uT), default 50 uT.
    pub field_strength: u16,
    /// Qualification time (ms).
    pub duration_ms: u16,
}

impl Default for VoltageThresholds {
    fn default() -> (r: Self)
        ensures
            r.over_voltage == 26400 && r.under_voltage == 17600 && r.lost_voltage == 3000
                && r.duration_ms == 3000,
    {
        VoltageThresholds { over_voltage: 26400, under_voltage: 17600, lost_voltage: 3000, duration_ms: 3000 }
    }
}

impl Default for CurrentThresholds {
    fn default() -> (r: Self)
        ensures
            r.over_current == 60000 && r.duration_ms == 5000,
    {
        CurrentThresholds { over_current: 60000, duration_ms: 5000 }
    }
}

impl Default for UnbalanceThresholds {
    fn default() -> (r: Self)
        ensures
            r.voltage_unbalance == 2000 && r.current_unbalance == 2000 && r.duration_ms == 3000,
    {
        UnbalanceThresholds { voltage_unbalance: 2000, current_unbalance: 2000, duration_ms: 3000 }
    }
}

impl Default for MagneticThresholds {
    fn default() -> (r: Self)
        ensures
            r.field_strength == 500 && r.duration_ms == 1000,
    {
        MagneticThresholds { field_strength: 500, duration_ms: 1000 }
    }
}

/* ---------------- event types ---------------- */

/// Meter event types. Each has a numeric code (see [`MeterEvent::code`]);
/// event bitmaps use bit `code`.
#[derive(Clone, Copy, Debug, PartialEq, Eq, Structural)]
pub enum MeterEvent {
    OverVoltageA,
    OverVoltageB,
    OverVoltageC,
    UnderVoltageA,
    UnderVoltageB,
    UnderVoltageC,
    PhaseLossA,
    PhaseLossB,
    PhaseLossC,
    OverCurrentA,
    OverCurrentB,
    OverCurrentC,
    CurrentUnbalance,
    VoltageUnbalance,
    FrequencyDeviation,
    ZeroCrossingAnomaly,
    CoverOpen,
    TerminalCoverOpen,
    MagneticTamper,
    BatteryLow,
    ClockBatteryLow,
    ReversePower,
    ClockSyncLost,
    /// Power factor too low
    LowPowerFactor,
    /// Neutral current too high
    NeutralOverCurrent,
    /// Harmonics over limit
    HarmonicOverLimit,
    /// Demand over limit
    DemandOverLimit,
    /// Clock error
    ClockError,
    /// Power failure
    PowerFail,
    /// Power restored
    PowerRestore,
    /// Watchdog reset
    WatchdogReset,
    /// Programming started
    ProgrammingStart,
    /// Programming ended
    ProgrammingEnd,
}

/// Numeric code of an event (0x01 ..= 0x21, in declaration order).
pub open spec fn event_code(e: MeterEvent) -> u8 {
    match e {
        MeterEvent::OverVoltageA => 0x01,
        MeterEvent::OverVoltageB => 0x02,
        MeterEvent::OverVoltageC => 0x03,
        MeterEvent::UnderVoltageA => 0x04,
        MeterEvent::UnderVoltageB => 0x05,
        MeterEvent::UnderVoltageC => 0x06,
        MeterEvent::PhaseLossA => 0x07,
        MeterEvent::PhaseLossB => 0x08,
        MeterEvent::PhaseLossC => 0x09,
        MeterEvent::OverCurrentA => 0x0A,
        MeterEvent::OverCurrentB => 0x0B,
        MeterEvent::OverCurrentC => 0x0C,
        MeterEvent::CurrentUnbalance => 0x0D,
        MeterEvent::VoltageUnbalance => 0x0E,
        MeterEvent::FrequencyDeviation => 0x0F,
        MeterEvent::ZeroCrossingAnomaly => 0x10,
        MeterEvent::CoverOpen => 0x11,
        MeterEvent::TerminalCoverOpen => 0x12,
        MeterEvent::MagneticTamper => 0x13,
        MeterEvent::BatteryLow => 0x14,
        MeterEvent::ClockBatteryLow => 0x15,
        MeterEvent::ReversePower => 0x16,
        MeterEvent::ClockSyncLost => 0x17,
        MeterEvent::LowPowerFactor => 0x18,
        MeterEvent::NeutralOverCurrent => 0x19,
        MeterEvent::HarmonicOverLimit => 0x1A,
        MeterEvent::DemandOverLimit => 0x1B,
        MeterEvent::ClockError => 0x1C,
        MeterEvent::PowerFail => 0x1D,
        MeterEvent::PowerRestore => 0x1E,
        MeterEvent::WatchdogReset => 0x1F,
        MeterEvent::ProgrammingStart => 0x20,
        MeterEvent::ProgrammingEnd => 0x21,
    }
}

/// Bit of an event in an event bitmap (defined for codes below 32).
pub open spec fn event_mask(e: MeterEvent) -> u32 {
    1u32 << event_code(e)
}

/// The event's bit when `fired`, else nothing.
pub open spec fn bit_if(fired: bool, e: MeterEvent) -> u32 {
    if fired { event_mask(e) } else { 0 }
}

impl MeterEvent {
    /// Numeric event code.
    pub fn code(self) -> (r: u8)
        ensures
            r == event_code(self),
    {
        match self {
            MeterEvent::OverVoltageA => 0x01,
            MeterEvent::OverVoltageB => 0x02,
            MeterEvent::OverVoltageC => 0x03,
            MeterEvent::UnderVoltageA => 0x04,
            MeterEvent::UnderVoltageB => 0x05,
            MeterEvent::UnderVoltageC => 0x06,
            MeterEvent::PhaseLossA => 0x07,
            MeterEvent::PhaseLossB => 0x08,
            MeterEvent::PhaseLossC => 0x09,
            MeterEvent::OverCurrentA => 0x0A,
            MeterEvent::OverCurrentB => 0x0B,
            MeterEvent::OverCurrentC => 0x0C,
            MeterEvent::CurrentUnbalance => 0x0D,
            MeterEvent::VoltageUnbalance => 0x0E,
            MeterEvent::FrequencyDeviation => 0x0F,
            MeterEvent::ZeroCrossingAnomaly => 0x10,
            MeterEvent::CoverOpen => 0x11,
            MeterEvent::TerminalCoverOpen => 0x12,
            MeterEvent::MagneticTamper => 0x13,
            MeterEvent::BatteryLow => 0x14,
            MeterEvent::ClockBatteryLow => 0x15,
            MeterEvent::ReversePower => 0x16,
            MeterEvent::ClockSyncLost => 0x17,
            MeterEvent::LowPowerFactor => 0x18,
            MeterEvent::NeutralOverCurrent => 0x19,
            MeterEvent::HarmonicOverLimit => 0x1A,
            MeterEvent::DemandOverLimit => 0x1B,
            MeterEvent::ClockError => 0x1C,
            MeterEvent::PowerFail => 0x1D,
            MeterEvent::PowerRestore => 0x1E,
            MeterEvent::WatchdogReset => 0x1F,
            MeterEvent::ProgrammingStart => 0x20,
            MeterEvent::ProgrammingEnd => 0x21,
        }
    }

    /// Bit of this event in an event bitmap.
    pub fn mask(self) -> (r: u32)
        requires
            event_code(self) < 32,
        ensures
            r == event_mask(self),
    {
        1u32 << self.code()
    }
}

/// One event log record.
#[derive(Clone, Copy, Debug)]
pub struct EventLogEntry {
    /// Event type
    pub event: MeterEvent,
    /// Time of occurrence (seconds since 2000-01-01)
    pub timestamp: u32,
    /// Associated value (voltage, current, ... in `PhaseData` units)
    pub value: u32,
    /// Duration (s)
    pub duration: u16,
    /// 1 = event started, 0 = event ended / recovered
    pub state: u8,
    /// Reserved
    pub _reserved: u8,
}

impl Default for EventLogEntry {
    fn default() -> (r: Self)
        ensures
            r == log_entry(MeterEvent::BatteryLow, 0, 0, 0),
    {
        EventLogEntry { event: MeterEvent::BatteryLow, timestamp: 0, value: 0, duration: 0, state: 0, _reserved: 0 }
    }
}

/// Event log header (at the start of the persistent log partition).
#[derive(Clone, Copy, Debug)]
pub struct EventLogHeader {
    /// Magic "EVT1"
    pub magic: u32,
    /// Circular write position
    pub write_pos: u32,
    /// Total number of records written
    pub total_count: u32,
    /// CRC-32 of the header
    pub crc: u32,
}

impl Default for EventLogHeader {
    fn default() -> (r: Self)
        ensures
            r.magic == 0 && r.write_pos == 0 && r.total_count == 0 && r.crc == 0,
    {
        EventLogHeader { magic: 0, write_pos: 0, total_count: 0, crc: 0 }
    }
}

/// The log record written for an event.
pub open spec fn log_entry(e: MeterEvent, ts: u32, value: u32, state: u8) -> EventLogEntry {
    EventLogEntry { event: e, timestamp: ts, value, duration: 0, state, _reserved: 0 }
}

/// A one-record sequence when `b`, else the empty sequence.
pub open spec fn entry_if(b: bool, e: EventLogEntry) -> Seq<EventLogEntry> {
    if b { seq![e] } else { Seq::empty() }
}

/* ---------------- duration-qualified trackers ---------------- */

/// Poll period (ms) added to a tracker each time its condition holds.
pub const POLL_MS: u16 = 200;

/// One poll of a duration-qualified condition, from `(ticks, active)`:
/// the new `(ticks, active)` and whether the event fires now. While the
/// condition holds the tick count grows by the poll period (saturating);
/// the event fires once, when the count first reaches `duration`. When
/// the condition is gone the tracker is cleared.
pub open spec fn track_step(ticks: u16, active: bool, cond: bool, duration: u16) -> (u16, bool, bool) {
    if cond {
        let t: u16 = if ticks + 200 > u16::MAX { u16::MAX } else { (ticks + 200) as u16 };
        if !active && t >= duration {
            (t, true, true)
        } else {
            (t, active, false)
        }
    } else {
        (0, false, false)
    }
}

/// Tracker state after `n` consecutive polls with the condition present.
pub open spec fn track_polls(ticks: u16, active: bool, n: nat, duration: u16) -> (u16, bool, bool)
    decreases n,
{
    if n == 0 {
        (ticks, active, false)
    } else {
        let prev = track_polls(ticks, active, (n - 1) as nat, duration);
        track_step(prev.0, prev.1, true, duration)
    }
}

/// Qualification time: from a cleared tracker, after `n` consecutive polls
/// with the condition present the tick count is `n` poll periods, the
/// condition is active once that reaches the qualification time, and the
/// event fires on exactly the first poll where it does.
pub proof fn lemma_track_qualification(n: nat, duration: u16)
    requires
        1 <= n <= 327,
    ensures
        track_polls(0, false, n, duration).0 == 200 * n,
        track_polls(0, false, n, duration).1 == (200 * n >= duration),
        track_polls(0, false, n, duration).2 == (200 * n >= duration && (n == 1 || 200 * (n - 1) < duration)),
    decreases n,
{
    reveal_with_fuel(track_polls, 2);
    if n > 1 {
        lemma_track_qualification((n - 1) as nat, duration);
    }
}

/// An active condition never fires again while it persists, and a
/// condition that goes away clears its tracker.
pub proof fn lemma_track_fires_once_and_clears(ticks: u16, active: bool, duration: u16)
    ensures
        track_step(ticks, true, true, duration).2 == false,
        track_step(ticks, true, true, duration).1 == true,
        track_step(ticks, active, false, duration) == (0u16, false, false),
{
}

/// Per-phase abnormal-condition tracking.
#[derive(Clone, Copy, Debug)]
pub struct PhaseTracker {
    pub over_voltage_ticks: u16,
    pub under_voltage_ticks: u16,
    pub lost_voltage_ticks: u16,
    pub over_current_ticks: u16,
    pub over_voltage_active: bool,
    pub under_voltage_active: bool,
    pub lost_voltage_active: bool,
    pub over_current_active: bool,
}

impl Default for PhaseTracker {
    fn default() -> (r: Self)
        ensures
            r == phase_tracker_zero(),
    {
        PhaseTracker {
            over_voltage_ticks: 0,
            under_voltage_ticks: 0,
            lost_voltage_ticks: 0,
            over_current_ticks: 0,
            over_voltage_active: false,
            under_voltage_active: false,
            lost_voltage_active: false,
            over_current_active: false,
        }
    }
}

/// A phase tracker with nothing pending.
pub open spec fn phase_tracker_zero() -> PhaseTracker {
    PhaseTracker {
        over_voltage_ticks: 0,
        under_voltage_ticks: 0,
        lost_voltage_ticks: 0,
        over_current_ticks: 0,
        over_voltage_active: false,
        under_voltage_active: false,
        lost_voltage_active: false,
        over_current_active: false,
    }
}

/// Unbalance tracking.
#[derive(Clone, Copy, Debug)]
pub struct UnbalanceTracker {
    pub voltage_ticks: u16,
    pub current_ticks: u16,
    pub voltage_active: bool,
    pub current_active: bool,
}

/// Magnetic tamper tracking.
#[derive(Clone, Copy, Debug)]
pub struct MagneticTracker {
    pub ticks: u16,
    pub active: bool,
}

/// Over-voltage condition of a phase.
pub open spec fn over_voltage_cond(voltage: u16, v: VoltageThresholds) -> bool {
    voltage > v.over_voltage
}

/// Under-voltage condition: below the under-voltage threshold but above phase loss.
pub open spec fn under_voltage_cond(voltage: u16, v: VoltageThresholds) -> bool {
    voltage < v.under_voltage && voltage > v.lost_voltage
}

/// Phase-loss condition.
pub open spec fn lost_voltage_cond(voltage: u16, v: VoltageThresholds) -> bool {
    voltage <= v.lost_voltage
}

/// Over-current condition.
pub open spec fn over_current_cond(current: u16, c: CurrentThresholds) -> bool {
    current > c.over_current
}

/// A phase tracker after one poll.
pub open spec fn phase_tracker_next(
    t: PhaseTracker,
    voltage: u16,
    current: u16,
    v: VoltageThresholds,
    c: CurrentThresholds,
) -> PhaseTracker {
    let ov = track_step(t.over_voltage_ticks, t.over_voltage_active, over_voltage_cond(voltage, v), v.duration_ms);
    let uv = track_step(t.under_voltage_ticks, t.under_voltage_active, under_voltage_cond(voltage, v), v.duration_ms);
    let lv = track_step(t.lost_voltage_ticks, t.lost_voltage_active, lost_voltage_cond(voltage, v), v.duration_ms);
    let oc = track_step(t.over_current_ticks, t.over_current_active, over_current_cond(current, c), c.duration_ms);
    PhaseTracker {
        over_voltage_ticks: ov.0,
        under_voltage_ticks: uv.0,
        lost_voltage_ticks: lv.0,
        over_current_ticks: oc.0,
        over_voltage_active: ov.1,
        under_voltage_active: uv.1,
        lost_voltage_active: lv.1,
        over_current_active: oc.1,
    }
}

/// The events a phase fires in one poll, as a bitmap.
pub open spec fn phase_event_bits(
    t: PhaseTracker,
    voltage: u16,
    current: u16,
    v: VoltageThresholds,
    c: CurrentThresholds,
    ev_over: MeterEvent,
    ev_under: MeterEvent,
    ev_lost: MeterEvent,
    ev_over_i: MeterEvent,
) -> u32 {
    let ov = track_step(t.over_voltage_ticks, t.over_voltage_active, over_voltage_cond(voltage, v), v.duration_ms);
    let uv = track_step(t.under_voltage_ticks, t.under_voltage_active, under_voltage_cond(voltage, v), v.duration_ms);
    let lv = track_step(t.lost_voltage_ticks, t.lost_voltage_active, lost_voltage_cond(voltage, v), v.duration_ms);
    let oc = track_step(t.over_current_ticks, t.over_current_active, over_current_cond(current, c), c.duration_ms);
    bit_if(ov.2, ev_over) | bit_if(uv.2, ev_under) | bit_if(lv.2, ev_lost) | bit_if(oc.2, ev_over_i)
}

/// Check one phase; returns the bitmap of events that fire now.
fn check_phase(
    tracker: &mut PhaseTracker,
    voltage: u16,
    current: u16,
    v_thresh: &VoltageThresholds,
    c_thresh: &CurrentThresholds,
    ev_over: MeterEvent,
    ev_under: MeterEvent,
    ev_lost: MeterEvent,
    ev_over_i: MeterEvent,
) -> (r: u32)
    requires
        event_code(ev_over) < 32,
        event_code(ev_under) < 32,
        event_code(ev_lost) < 32,
        event_code(ev_over_i) < 32,
    ensures
        *final(tracker) == phase_tracker_next(*old(tracker), voltage, current, *v_thresh, *c_thresh),
        r == phase_event_bits(
            *old(tracker),
            voltage,
            current,
            *v_thresh,
            *c_thresh,
            ev_over,
            ev_under,
            ev_lost,
            ev_over_i,
        ),
{
    let poll_ms: u16 = POLL_MS;
    let mut fired_over = false;
    let mut fired_under = false;
    let mut fired_lost = false;
    let mut fired_over_i = false;

    // over voltage
    if voltage > v_thresh.over_voltage {
        tracker.over_voltage_ticks = tracker.over_voltage_ticks.saturating_add(poll_ms);
        if !tracker.over_voltage_active && tracker.over_voltage_ticks >= v_thresh.duration_ms {
            tracker.over_voltage_active = true;
            fired_over = true;
        }
    } else {
        tracker.over_voltage_active = false;
        tracker.over_voltage_ticks = 0;
    }

    // under voltage
    if voltage < v_thresh.under_voltage && voltage > v_thresh.lost_voltage {
        tracker.under_voltage_ticks = tracker.under_voltage_ticks.saturating_add(poll_ms);
        if !tracker.under_voltage_active && tracker.under_voltage_ticks >= v_thresh.duration_ms {
            tracker.under_voltage_active = true;
            fired_under = true;
        }
    } else {
        tracker.under_voltage_active = false;
        tracker.under_voltage_ticks = 0;
    }

    // phase loss
    if voltage <= v_thresh.lost_voltage {
        tracker.lost_voltage_ticks = tracker.lost_voltage_ticks.saturating_add(poll_ms);
        if !tracker.lost_voltage_active && tracker.lost_voltage_ticks >= v_thresh.duration_ms {
            tracker.lost_voltage_active = true;
            fired_lost = true;
        }
    } else {
        tracker.lost_voltage_active = false;
        tracker.lost_voltage_ticks = 0;
    }

    // over current
    if current > c_thresh.over_current {
        tracker.over_current_ticks = tracker.over_current_ticks.saturating_add(poll_ms);
        if !tracker.over_current_active && tracker.over_current_ticks >= c_thresh.duration_ms {
            tracker.over_current_active = true;
            fired_over_i = true;
        }
    } else {
        tracker.over_current_active = false;
        tracker.over_current_ticks = 0;
    }

    let b_over: u32 = if fired_over { ev_over.mask() } else { 0 };
    let b_under: u32 = if fired_under { ev_under.mask() } else { 0 };
    let b_lost: u32 = if fired_lost { ev_lost.mask() } else { 0 };
    let b_over_i: u32 = if fired_over_i { ev_over_i.mask() } else { 0 };
    b_over | b_under | b_lost | b_over_i
}

/* ---------------- unbalance ---------------- */

/// Three-phase unbalance (0.01 %): the largest deviation from the
/// (truncated) mean, relative to the mean, times 10000. Zero when all
/// three values are zero.
#[verifier::opaque]
pub open spec fn unbalance_spec(a: u16, b: u16, c: u16) -> int {
    let sum = a + b + c;
    if sum == 0 {
        0
    } else {
        let avg = sum / 3;
        let da = if a > avg { a - avg } else { avg - a };
        let db = if b > avg { b - avg } else { avg - b };
        let dc = if c > avg { c - avg } else { avg - c };
        let m1 = if da >= db { da } else { db };
        let max_dev = if m1 >= dc { m1 } else { dc };
        max_dev * 10000 / avg
    }
}

/// The inputs on which the unbalance is defined: all zero, or a mean of at
/// least one (a sum of one or two would divide by a zero mean).
pub open spec fn unbalance_defined(a: u16, b: u16, c: u16) -> bool {
    a + b + c == 0 || a + b + c >= 3
}

proof fn lemma_unbalance_bound(max_dev: int, avg: int)
    requires
        avg >= 1,
        0 <= max_dev <= 2 * avg + 2,
    ensures
        max_dev * 10000 / avg <= 40000,
        0 <= max_dev * 10000 / avg,
{
    assert(max_dev * 10000 <= (2 * avg + 2) * 10000) by (nonlinear_arith)
        requires
            0 <= max_dev <= 2 * avg + 2,
    ;
    assert((2 * avg + 2) * 10000 <= 40000 * avg) by (nonlinear_arith)
        requires
            avg >= 1,
    ;
    assert(max_dev * 10000 / avg <= 40000) by (nonlinear_arith)
        requires
            avg >= 1,
            0 <= max_dev * 10000 <= 40000 * avg,
    ;
    assert(0 <= max_dev * 10000 / avg) by (nonlinear_arith)
        requires
            avg >= 1,
            0 <= max_dev,
    ;
}

/// Balanced phases have zero unbalance.
pub proof fn lemma_balanced_unbalance_zero(a: u16)
    ensures
        unbalance_spec(a, a, a) == 0,
{
    reveal(unbalance_spec);
    if a > 0 {
        assert((a + a + a) / 3 == a);
    }
}

/// Three-phase voltage unbalance (0.01 %), after GB/T 15543:
/// largest deviation from the mean over the mean.
pub fn calc_voltage_unbalance(va: u16, vb: u16, vc: u16) -> (r: u16)
    requires
        unbalance_defined(va, vb, vc),
    ensures
        r == unbalance_spec(va, vb, vc),
{
    let sum: u32 = (va as u32) + (vb as u32) + (vc as u32);
    if sum == 0 {
        proof {
            reveal(unbalance_spec);
        }
        return 0;
    }
    let avg: u32 = sum / 3;
    let a: u32 = va as u32;
    let b: u32 = vb as u32;
    let c: u32 = vc as u32;
    let da: u32 = if a > avg { a - avg } else { avg - a };
    let db: u32 = if b > avg { b - avg } else { avg - b };
    let dc: u32 = if c > avg { c - avg } else { avg - c };
    let m1: u32 = if da >= db { da } else { db };
    let max_dev: u32 = if m1 >= dc { m1 } else { dc };
    proof {
        lemma_unbalance_bound(max_dev as int, avg as int);
        reveal(unbalance_spec);
    }
    let q: u64 = (max_dev as u64 * 10000) / (avg as u64);
    q as u16
}

/// Three-phase current unbalance (0.01 %), same formula as the voltage one.
pub fn calc_current_unbalance(ia: u16, ib: u16, ic: u16) -> (r: u16)
    requires
        unbalance_defined(ia, ib, ic),
    ensures
        r == unbalance_spec(ia, ib, ic),
{
    calc_voltage_unbalance(ia, ib, ic)
}

/* ---------------- circular event log ---------------- */

/// RAM event log capacity.
pub const MAX_EVENT_LOG: usize = 256;

/// Persistent event log capacity.
pub const MAX_FLASH_EVENT_LOG: usize = 1024;

/// Event log header magic ("EVT1").
pub const EVENT_LOG_MAGIC: u32 = 0x31545645;

/// Index into the history of the record held by ring slot `i`, for a
/// history of `hl` records and write position `pos`: the newest record
/// whose index is `i` modulo the capacity.
pub open spec fn ring_source(hl: int, pos: int, i: int) -> int {
    if i < pos { hl - pos + i } else { hl - pos + i - 256 }
}

/// The ring `slots` with `len` valid slots and write position `pos`
/// holds the most recent records of `history`.
pub open spec fn ring_holds(slots: Seq<EventLogEntry>, history: Seq<EventLogEntry>, len: int, pos: int) -> bool {
    &&& slots.len() == 256
    &&& 0 <= pos < 256
    &&& len == (if history.len() < 256 { history.len() as int } else { 256 })
    &&& pos == history.len() % 256
    &&& forall|i: int| 0 <= i < len ==> #[trigger] slots[i] == history[ring_source(history.len() as int, pos, i)]
}

proof fn lemma_ring_position(hl: int, pos: int)
    requires
        hl >= 0,
        pos == hl % 256,
    ensures
        0 <= pos < 256,
        hl < 256 ==> pos == hl,
        hl >= 256 ==> hl - pos >= 256,
        pos <= hl,
        (hl + 1) % 256 == (if pos == 255 { 0 } else { pos + 1 }),
{
    vstd::arithmetic::div_mod::lemma_fundamental_div_mod(hl, 256);
    vstd::arithmetic::div_mod::lemma_mod_pos_bound(hl, 256);
    let q = hl / 256;
    assert(hl == 256 * q + pos);
    assert(q >= 0) by (nonlinear_arith)
        requires
            hl == 256 * q + pos,
            0 <= pos < 256,
            hl >= 0,
    ;
    if hl < 256 {
        assert(q == 0) by (nonlinear_arith)
            requires
                hl == 256 * q + pos,
                0 <= pos < 256,
                hl < 256,
                q >= 0,
        ;
    } else {
        assert(q >= 1) by (nonlinear_arith)
            requires
                hl == 256 * q + pos,
                0 <= pos < 256,
                hl >= 256,
        ;
    }
    if pos == 255 {
        vstd::arithmetic::div_mod::lemma_fundamental_div_mod_converse(hl + 1, 256, q + 1, 0);
    } else {
        vstd::arithmetic::div_mod::lemma_fundamental_div_mod_converse(hl + 1, 256, q, pos + 1);
    }
}

/// Every valid slot maps to a record of the history.
proof fn lemma_ring_source_in_range(hl: int, pos: int, len: int, i: int)
    requires
        hl >= 0,
        pos == hl % 256,
        len == (if hl < 256 { hl } else { 256 }),
        0 <= i < len,
    ensures
        0 <= ring_source(hl, pos, i) < hl,
{
    lemma_ring_position(hl, pos);
}

/// Writing a record at the write position keeps the ring in step with the
/// history extended by that record.
proof fn lemma_ring_push(slots: Seq<EventLogEntry>, history: Seq<EventLogEntry>, len: int, pos: int, e: EventLogEntry)
    requires
        ring_holds(slots, history, len, pos),
    ensures
        ring_holds(
            slots.update(pos, e),
            history.push(e),
            if len < 256 { len + 1 } else { 256 },
            if pos == 255 { 0 } else { pos + 1 },
        ),
{
    let hl = history.len() as int;
    lemma_ring_position(hl, pos);
    let s2 = slots.update(pos, e);
    let h2 = history.push(e);
    let len2 = if len < 256 { len + 1 } else { 256 };
    let pos2 = if pos == 255 { 0 } else { pos + 1 };
    assert forall|i: int| 0 <= i < len2 implies #[trigger] s2[i] == h2[ring_source(hl + 1, pos2, i)] by {
        if i == pos {
        } else {
            assert(i < len);
            lemma_ring_source_in_range(hl, pos, len, i);
            assert(slots[i] == history[ring_source(hl, pos, i)]);
        }
    }
}


/* ---------------- event detector ---------------- */

/// Threshold configuration of the detector.
#[derive(Clone, Copy, Debug)]
pub struct DetectorSettings {
    pub v_thresholds: VoltageThresholds,
    pub c_thresholds: CurrentThresholds,
    pub unbalance_thresholds: UnbalanceThresholds,
    pub magnetic_thresholds: MagneticThresholds,
    /// Neutral over-current threshold (mA)
    pub neutral_over_current: u16,
}

/// Condition trackers of the detector.
#[derive(Clone, Copy, Debug)]
pub struct DetectorTrackers {
    pub phase_a: PhaseTracker,
    pub phase_b: PhaseTracker,
    pub phase_c: PhaseTracker,
    pub unbalance: UnbalanceTracker,
    pub magnetic: MagneticTracker,
    pub freq_deviation_ticks: u16,
    pub freq_deviation_active: bool,
    pub reverse_power_active: bool,
    pub neutral_over_current_active: bool,
}

/// Frequency out of the 50 Hz +/- 2 Hz band (0.01 Hz units).
pub open spec fn freq_deviation_cond(frequency: u16) -> bool {
    frequency < 4800 || frequency > 5200
}

/// Magnitude of a signed power value.
pub open spec fn abs_power(p: i32) -> u32 {
    if p < 0 { (0 - p) as u32 } else { p as u32 }
}

/// Trackers after one `check` poll of `data`.
pub open spec fn trackers_after_check(t: DetectorTrackers, s: DetectorSettings, neutral_current: u16, data: PhaseData) -> DetectorTrackers {
    let f = track_step(t.freq_deviation_ticks, t.freq_deviation_active, freq_deviation_cond(data.frequency), 3000);
    let vu = unbalance_spec(data.voltage_a, data.voltage_b, data.voltage_c);
    let iu = unbalance_spec(data.current_a, data.current_b, data.current_c);
    let v = track_step(t.unbalance.voltage_ticks, t.unbalance.voltage_active,
        vu > s.unbalance_thresholds.voltage_unbalance, s.unbalance_thresholds.duration_ms);
    let i = track_step(t.unbalance.current_ticks, t.unbalance.current_active,
        iu > s.unbalance_thresholds.current_unbalance, s.unbalance_thresholds.duration_ms);
    DetectorTrackers {
        phase_a: phase_tracker_next(t.phase_a, data.voltage_a, data.current_a, s.v_thresholds, s.c_thresholds),
        phase_b: phase_tracker_next(t.phase_b, data.voltage_b, data.current_b, s.v_thresholds, s.c_thresholds),
        phase_c: phase_tracker_next(t.phase_c, data.voltage_c, data.current_c, s.v_thresholds, s.c_thresholds),
        unbalance: UnbalanceTracker { voltage_ticks: v.0, current_ticks: i.0, voltage_active: v.1, current_active: i.1 },
        magnetic: t.magnetic,
        freq_deviation_ticks: f.0,
        freq_deviation_active: f.1,
        reverse_power_active: data.active_power_total < 0,
        neutral_over_current_active: neutral_current > s.neutral_over_current,
    }
}

/// Bitmap of the events a `check` poll of `data` fires.
pub open spec fn check_bits(t: DetectorTrackers, s: DetectorSettings, neutral_current: u16, data: PhaseData) -> u32 {
    let f = track_step(t.freq_deviation_ticks, t.freq_deviation_active, freq_deviation_cond(data.frequency), 3000);
    let vu = unbalance_spec(data.voltage_a, data.voltage_b, data.voltage_c);
    let iu = unbalance_spec(data.current_a, data.current_b, data.current_c);
    let v = track_step(t.unbalance.voltage_ticks, t.unbalance.voltage_active,
        vu > s.unbalance_thresholds.voltage_unbalance, s.unbalance_thresholds.duration_ms);
    let i = track_step(t.unbalance.current_ticks, t.unbalance.current_active,
        iu > s.unbalance_thresholds.current_unbalance, s.unbalance_thresholds.duration_ms);
    let reverse_start = data.active_power_total < 0 && !t.reverse_power_active;
    phase_event_bits(t.phase_a, data.voltage_a, data.current_a, s.v_thresholds, s.c_thresholds,
        MeterEvent::OverVoltageA, MeterEvent::UnderVoltageA, MeterEvent::PhaseLossA, MeterEvent::OverCurrentA)
    | phase_event_bits(t.phase_b, data.voltage_b, data.current_b, s.v_thresholds, s.c_thresholds,
        MeterEvent::OverVoltageB, MeterEvent::UnderVoltageB, MeterEvent::PhaseLossB, MeterEvent::OverCurrentB)
    | phase_event_bits(t.phase_c, data.voltage_c, data.current_c, s.v_thresholds, s.c_thresholds,
        MeterEvent::OverVoltageC, MeterEvent::UnderVoltageC, MeterEvent::PhaseLossC, MeterEvent::OverCurrentC)
    | bit_if(f.2, MeterEvent::FrequencyDeviation)
    | bit_if(reverse_start, MeterEvent::ReversePower)
    | bit_if(v.2, MeterEvent::VoltageUnbalance)
    | bit_if(i.2, MeterEvent::CurrentUnbalance)
    | bit_if(neutral_current > s.neutral_over_current && !t.neutral_over_current_active, MeterEvent::NeutralOverCurrent)
}

/// The records a `check` poll of `data` logs, in order: frequency
/// deviation start, reverse power start or end, voltage unbalance start or
/// end, current unbalance start or end, neutral over-current start.
pub open spec fn check_entries(
    t: DetectorTrackers,
    s: DetectorSettings,
    neutral_current: u16,
    ts: u32,
    data: PhaseData,
) -> Seq<EventLogEntry> {
    let f = track_step(t.freq_deviation_ticks, t.freq_deviation_active, freq_deviation_cond(data.frequency), 3000);
    let vu = unbalance_spec(data.voltage_a, data.voltage_b, data.voltage_c);
    let iu = unbalance_spec(data.current_a, data.current_b, data.current_c);
    let v_cond = vu > s.unbalance_thresholds.voltage_unbalance;
    let i_cond = iu > s.unbalance_thresholds.current_unbalance;
    let v = track_step(t.unbalance.voltage_ticks, t.unbalance.voltage_active, v_cond, s.unbalance_thresholds.duration_ms);
    let i = track_step(t.unbalance.current_ticks, t.unbalance.current_active, i_cond, s.unbalance_thresholds.duration_ms);
    let p = data.active_power_total;
    entry_if(f.2, log_entry(MeterEvent::FrequencyDeviation, ts, data.frequency as u32, 1))
    + entry_if(p < 0 && !t.reverse_power_active, log_entry(MeterEvent::ReversePower, ts, abs_power(p), 1))
    + entry_if(p >= 0 && t.reverse_power_active, log_entry(MeterEvent::ReversePower, ts, 0, 0))
    + entry_if(v.2, log_entry(MeterEvent::VoltageUnbalance, ts, vu as u32, 1))
    + entry_if(!v_cond && t.unbalance.voltage_active, log_entry(MeterEvent::VoltageUnbalance, ts, 0, 0))
    + entry_if(i.2, log_entry(MeterEvent::CurrentUnbalance, ts, iu as u32, 1))
    + entry_if(!i_cond && t.unbalance.current_active, log_entry(MeterEvent::CurrentUnbalance, ts, 0, 0))
    + entry_if(neutral_current > s.neutral_over_current && !t.neutral_over_current_active,
        log_entry(MeterEvent::NeutralOverCurrent, ts, neutral_current as u32, 1))
}

/// A neutral over-current is reported once while it lasts: after a poll
/// with neutral current `n`, a further poll with the same current and
/// settings logs no neutral over-current record, whatever the phase data.
pub proof fn lemma_neutral_over_current_reported_once(
    t: DetectorTrackers,
    s: DetectorSettings,
    n: u16,
    ts: u32,
    d1: PhaseData,
    d2: PhaseData,
)
    ensures
        forall|i: int| 0 <= i < check_entries(trackers_after_check(t, s, n, d1), s, n, ts, d2).len()
            ==> (#[trigger] check_entries(trackers_after_check(t, s, n, d1), s, n, ts, d2)[i]).event
                != MeterEvent::NeutralOverCurrent,
{
    let t2 = trackers_after_check(t, s, n, d1);
    let e = check_entries(t2, s, n, ts, d2);
    assert(entry_if(n > s.neutral_over_current && !t2.neutral_over_current_active,
        log_entry(MeterEvent::NeutralOverCurrent, ts, n as u32, 1)) =~= Seq::<EventLogEntry>::empty());
    assert forall|i: int| 0 <= i < e.len() implies (#[trigger] e[i]).event != MeterEvent::NeutralOverCurrent by {
        let f = track_step(t2.freq_deviation_ticks, t2.freq_deviation_active, freq_deviation_cond(d2.frequency), 3000);
        let vu = unbalance_spec(d2.voltage_a, d2.voltage_b, d2.voltage_c);
        let iu = unbalance_spec(d2.current_a, d2.current_b, d2.current_c);
        let v_cond = vu > s.unbalance_thresholds.voltage_unbalance;
        let i_cond = iu > s.unbalance_thresholds.current_unbalance;
        let v = track_step(t2.unbalance.voltage_ticks, t2.unbalance.voltage_active, v_cond, s.unbalance_thresholds.duration_ms);
        let ic = track_step(t2.unbalance.current_ticks, t2.unbalance.current_active, i_cond, s.unbalance_thresholds.duration_ms);
        let p = d2.active_power_total;
        let x1 = entry_if(f.2, log_entry(MeterEvent::FrequencyDeviation, ts, d2.frequency as u32, 1));
        let x2 = entry_if(p < 0 && !t2.reverse_power_active, log_entry(MeterEvent::ReversePower, ts, abs_power(p), 1));
        let x3 = entry_if(p >= 0 && t2.reverse_power_active, log_entry(MeterEvent::ReversePower, ts, 0, 0));
        let x4 = entry_if(v.2, log_entry(MeterEvent::VoltageUnbalance, ts, vu as u32, 1));
        let x5 = entry_if(!v_cond && t2.unbalance.voltage_active, log_entry(MeterEvent::VoltageUnbalance, ts, 0, 0));
        let x6 = entry_if(ic.2, log_entry(MeterEvent::CurrentUnbalance, ts, iu as u32, 1));
        let x7 = entry_if(!i_cond && t2.unbalance.current_active, log_entry(MeterEvent::CurrentUnbalance, ts, 0, 0));
        let all = x1 + x2 + x3 + x4 + x5 + x6 + x7;
        assert(e =~= all + Seq::<EventLogEntry>::empty());
        assert(forall|k: int| 0 <= k < all.len() ==> (#[trigger] all[k]).event != MeterEvent::NeutralOverCurrent);
    }
}

/// Frequency-deviation law: the deviation condition is a frequency outside
/// 48.00..=52.00 Hz (0.01 Hz units), above as well as below. Outside the
/// band a poll adds one poll period to the frequency tracking, and the
/// poll that takes it from 2.8 s (not yet active) to its 3 s qualification
/// time fires the FrequencyDeviation bit, makes the condition active and
/// logs its start, with the frequency, as the poll's first record; inside
/// the band a poll clears the tracking. (With `lemma_track_qualification`:
/// from a cleared tracker the 15th poll outside the band is that poll.)
pub proof fn lemma_frequency_deviation_band(t: DetectorTrackers, s: DetectorSettings, n: u16, ts: u32, data: PhaseData)
    ensures
        (data.frequency < 4800 || data.frequency > 5200) ==> trackers_after_check(t, s, n, data).freq_deviation_ticks == (
        if t.freq_deviation_ticks + 200 > 0xFFFF { 0xFFFFu16 } else { (t.freq_deviation_ticks + 200) as u16 }),
        (data.frequency < 4800 || data.frequency > 5200) && t.freq_deviation_ticks == 2800 && !t.freq_deviation_active ==> {
            &&& trackers_after_check(t, s, n, data).freq_deviation_active
            &&& check_bits(t, s, n, data) & 0x8000 == 0x8000
            &&& check_entries(t, s, n, ts, data).len() >= 1
            &&& check_entries(t, s, n, ts, data)[0] == log_entry(MeterEvent::FrequencyDeviation, ts, data.frequency as u32, 1)
        },
        4800 <= data.frequency <= 5200 ==> trackers_after_check(t, s, n, data).freq_deviation_ticks == 0
            && !trackers_after_check(t, s, n, data).freq_deviation_active,
{
    if (data.frequency < 4800 || data.frequency > 5200) && t.freq_deviation_ticks == 2800 && !t.freq_deviation_active {
        let f = track_step(t.freq_deviation_ticks, t.freq_deviation_active, freq_deviation_cond(data.frequency), 3000);
        assert(f.2);
        assert(event_mask(MeterEvent::FrequencyDeviation) == 0x8000) by {
            assert((1u32 << 0x0Fu8) == 0x8000u32) by (bit_vector);
        }
        let pa = phase_event_bits(t.phase_a, data.voltage_a, data.current_a, s.v_thresholds, s.c_thresholds,
            MeterEvent::OverVoltageA, MeterEvent::UnderVoltageA, MeterEvent::PhaseLossA, MeterEvent::OverCurrentA);
        let pb = phase_event_bits(t.phase_b, data.voltage_b, data.current_b, s.v_thresholds, s.c_thresholds,
            MeterEvent::OverVoltageB, MeterEvent::UnderVoltageB, MeterEvent::PhaseLossB, MeterEvent::OverCurrentB);
        let pc = phase_event_bits(t.phase_c, data.voltage_c, data.current_c, s.v_thresholds, s.c_thresholds,
            MeterEvent::OverVoltageC, MeterEvent::UnderVoltageC, MeterEvent::PhaseLossC, MeterEvent::OverCurrentC);
        let vu = unbalance_spec(data.voltage_a, data.voltage_b, data.voltage_c);
        let iu = unbalance_spec(data.current_a, data.current_b, data.current_c);
        let v = track_step(t.unbalance.voltage_ticks, t.unbalance.voltage_active,
            vu > s.unbalance_thresholds.voltage_unbalance, s.unbalance_thresholds.duration_ms);
        let i = track_step(t.unbalance.current_ticks, t.unbalance.current_active,
            iu > s.unbalance_thresholds.current_unbalance, s.unbalance_thresholds.duration_ms);
        let x = pa | pb | pc;
        let r = bit_if(data.active_power_total < 0 && !t.reverse_power_active, MeterEvent::ReversePower);
        let vb = bit_if(v.2, MeterEvent::VoltageUnbalance);
        let ib = bit_if(i.2, MeterEvent::CurrentUnbalance);
        let nb = bit_if(n > s.neutral_over_current && !t.neutral_over_current_active, MeterEvent::NeutralOverCurrent);
        assert(check_bits(t, s, n, data) == (((((x | 0x8000u32) | r) | vb) | ib) | nb));
        assert((((((x | 0x8000u32) | r) | vb) | ib) | nb) & 0x8000 == 0x8000) by (bit_vector);
        let e0 = log_entry(MeterEvent::FrequencyDeviation, ts, data.frequency as u32, 1);
        let es = check_entries(t, s, n, ts, data);
        assert(entry_if(f.2, e0) =~= seq![e0]);
        assert(es.len() >= 1);
        assert(es[0] == e0);
    }
}

/// Whether the tracked condition behind `e` is currently active.
pub open spec fn event_active(t: DetectorTrackers, e: MeterEvent) -> bool {
    match e {
        MeterEvent::OverVoltageA => t.phase_a.over_voltage_active,
        MeterEvent::OverVoltageB => t.phase_b.over_voltage_active,
        MeterEvent::OverVoltageC => t.phase_c.over_voltage_active,
        MeterEvent::UnderVoltageA => t.phase_a.under_voltage_active,
        MeterEvent::UnderVoltageB => t.phase_b.under_voltage_active,
        MeterEvent::UnderVoltageC => t.phase_c.under_voltage_active,
        MeterEvent::PhaseLossA => t.phase_a.lost_voltage_active,
        MeterEvent::PhaseLossB => t.phase_b.lost_voltage_active,
        MeterEvent::PhaseLossC => t.phase_c.lost_voltage_active,
        MeterEvent::OverCurrentA => t.phase_a.over_current_active,
        MeterEvent::OverCurrentB => t.phase_b.over_current_active,
        MeterEvent::OverCurrentC => t.phase_c.over_current_active,
        MeterEvent::VoltageUnbalance => t.unbalance.voltage_active,
        MeterEvent::CurrentUnbalance => t.unbalance.current_active,
        MeterEvent::FrequencyDeviation => t.freq_deviation_active,
        MeterEvent::ReversePower => t.reverse_power_active,
        MeterEvent::MagneticTamper => t.magnetic.active,
        MeterEvent::NeutralOverCurrent => t.neutral_over_current_active,
        _ => false,
    }
}

/// `a + n` wrapped to 32 bits.
pub open spec fn wrap_add_u32(a: u32, n: int) -> u32 {
    ((a + n) % 0x1_0000_0000) as u32
}

/// Wrapping additions compose.
proof fn lemma_wrap_add_compose(a: u32, m: int, n: int)
    requires
        m >= 0,
        n >= 0,
    ensures
        wrap_add_u32(wrap_add_u32(a, m), n) == wrap_add_u32(a, m + n),
{
    let big = 0x1_0000_0000int;
    vstd::arithmetic::div_mod::lemma_mod_pos_bound(a + m, big);
    vstd::arithmetic::div_mod::lemma_add_mod_noop(a + m, n, big);
    vstd::arithmetic::div_mod::lemma_mod_twice(n, big);
    vstd::arithmetic::div_mod::lemma_add_mod_noop(a + m, n % big, big);
}

/// Concatenating the segments logged by the parts of a poll.
proof fn lemma_concat_segments(
    h0: Seq<EventLogEntry>,
    h1: Seq<EventLogEntry>,
    h2: Seq<EventLogEntry>,
    h3: Seq<EventLogEntry>,
    h4: Seq<EventLogEntry>,
    h5: Seq<EventLogEntry>,
    x1: Seq<EventLogEntry>,
    x2: Seq<EventLogEntry>,
    x3: Seq<EventLogEntry>,
    x4: Seq<EventLogEntry>,
    x5: Seq<EventLogEntry>,
    x6: Seq<EventLogEntry>,
    x7: Seq<EventLogEntry>,
    x8: Seq<EventLogEntry>,
)
    requires
        h1 == h0 + x1,
        h2 == h1 + (x2 + x3),
        h3 == h2 + (x4 + x5),
        h4 == h3 + (x6 + x7),
        h5 == h4 + x8,
    ensures
        h5 == h0 + (x1 + x2 + x3 + x4 + x5 + x6 + x7 + x8),
{
    assert(h5 =~= h0 + (x1 + x2 + x3 + x4 + x5 + x6 + x7 + x8));
}

/// Adding nothing leaves a value unchanged.
proof fn lemma_wrap_add_zero(a: u32)
    ensures
        wrap_add_u32(a, 0) == a,
{
    vstd::arithmetic::div_mod::lemma_small_mod(a as nat, 0x1_0000_0000nat);
}

/// Event detection engine, called after every metering poll.
pub struct EventDetector {
    settings: DetectorSettings,
    trackers: DetectorTrackers,
    event_log: [EventLogEntry; 256],
    event_log_len: usize,
    event_log_pos: usize,
    pending_events: u32,
    system_timestamp: u32,
    /// Persistent log write position
    flash_write_pos: u32,
    /// Persistent log total write count
    flash_total_count: u32,
    /// Neutral current (mA), set by the metering task
    neutral_current: u16,
    /// Records logged since the log was last cleared, oldest first
    history: Ghost<Seq<EventLogEntry>>,
}

impl EventDetector {
    /// Threshold configuration.
    pub closed spec fn settings(&self) -> DetectorSettings {
        self.settings
    }

    /// Condition trackers.
    pub closed spec fn trackers(&self) -> DetectorTrackers {
        self.trackers
    }

    /// Records logged since the log was last cleared, oldest first.
    pub closed spec fn history(&self) -> Seq<EventLogEntry> {
        self.history@
    }

    /// The ring slots of the RAM log.
    pub closed spec fn log_slots(&self) -> Seq<EventLogEntry> {
        self.event_log@
    }

    /// Number of valid ring slots.
    pub closed spec fn log_len(&self) -> int {
        self.event_log_len as int
    }

    /// Ring write position.
    pub closed spec fn log_pos(&self) -> int {
        self.event_log_pos as int
    }

    /// Bitmap of events not yet consumed.
    pub closed spec fn pending(&self) -> u32 {
        self.pending_events
    }

    /// Current timestamp (s).
    pub closed spec fn timestamp(&self) -> u32 {
        self.system_timestamp
    }

    /// Neutral current (mA).
    pub closed spec fn neutral(&self) -> u16 {
        self.neutral_current
    }

    /// Persistent log write position.
    pub closed spec fn flash_pos(&self) -> u32 {
        self.flash_write_pos
    }

    /// Persistent log total write count.
    pub closed spec fn flash_count(&self) -> u32 {
        self.flash_total_count
    }

    /// The ring log holds the most recent records of the history.
    pub closed spec fn wf(&self) -> bool {
        ring_holds(self.event_log@, self.history@, self.event_log_len as int, self.event_log_pos as int)
    }

    /// Everything but the log and the flash counters is as in `other`.
    pub open spec fn same_state(&self, other: &EventDetector) -> bool {
        &&& self.settings() == other.settings()
        &&& self.trackers() == other.trackers()
        &&& self.pending() == other.pending()
        &&& self.timestamp() == other.timestamp()
        &&& self.neutral() == other.neutral()
    }

    /// Everything but the settings is as in `other`.
    pub open spec fn same_except_settings(&self, other: &EventDetector) -> bool {
        &&& self.wf()
        &&& self.trackers() == other.trackers()
        &&& self.pending() == other.pending()
        &&& self.timestamp() == other.timestamp()
        &&& self.neutral() == other.neutral()
        &&& self.history() == other.history()
        &&& self.log_slots() == other.log_slots()
        &&& self.log_len() == other.log_len()
        &&& self.log_pos() == other.log_pos()
        &&& self.flash_pos() == other.flash_pos()
        &&& self.flash_count() == other.flash_count()
    }

    /// Shape of a well-formed log: the valid slots hold, oldest-index
    /// first, the most recent records of the history.
    pub proof fn lemma_log_shape(&self)
        requires
            self.wf(),
        ensures
            self.log_len() == (if self.history().len() < 256 { self.history().len() as int } else { 256 }),
            self.log_pos() == self.history().len() % 256,
            0 <= self.log_pos() < 256,
            self.log_slots().len() == 256,
            forall|i: int| 0 <= i < self.log_len() ==> #[trigger] self.log_slots()[i]
                == self.history()[ring_source(self.history().len() as int, self.log_pos(), i)],
    {
    }

    /// Create a detector with default thresholds and an empty log.
    pub fn new() -> (r: Self)
        ensures
            r.wf(),
            r.settings().v_thresholds.over_voltage == 26400,
            r.settings().v_thresholds.under_voltage == 17600,
            r.settings().v_thresholds.lost_voltage == 3000,
            r.settings().v_thresholds.duration_ms == 3000,
            r.settings().c_thresholds.over_current == 60000,
            r.settings().c_thresholds.duration_ms == 5000,
            r.settings().unbalance_thresholds.voltage_unbalance == 2000,
            r.settings().unbalance_thresholds.current_unbalance == 2000,
            r.settings().unbalance_thresholds.duration_ms == 3000,
            r.settings().magnetic_thresholds.field_strength == 500,
            r.settings().magnetic_thresholds.duration_ms == 1000,
            r.settings().neutral_over_current == 60000,
            r.trackers() == (DetectorTrackers {
                phase_a: phase_tracker_zero(),
                phase_b: phase_tracker_zero(),
                phase_c: phase_tracker_zero(),
                unbalance: UnbalanceTracker { voltage_ticks: 0, current_ticks: 0, voltage_active: false, current_active: false },
                magnetic: MagneticTracker { ticks: 0, active: false },
                freq_deviation_ticks: 0,
                freq_deviation_active: false,
                reverse_power_active: false,
                neutral_over_current_active: false,
            }),
            r.history() == Seq::<EventLogEntry>::empty(),
            r.pending() == 0,
            r.timestamp() == 0,
            r.neutral() == 0,
            r.flash_pos() == 0,
            r.flash_count() == 0,
    {
        let d = EventDetector {
            settings: DetectorSettings {
                v_thresholds: VoltageThresholds::default(),
                c_thresholds: CurrentThresholds::default(),
                unbalance_thresholds: UnbalanceThresholds::default(),
                magnetic_thresholds: MagneticThresholds::default(),
                neutral_over_current: 60000,
            },
            trackers: DetectorTrackers {
                phase_a: PhaseTracker::default(),
                phase_b: PhaseTracker::default(),
                phase_c: PhaseTracker::default(),
                unbalance: UnbalanceTracker { voltage_ticks: 0, current_ticks: 0, voltage_active: false, current_active: false },
                magnetic: MagneticTracker { ticks: 0, active: false },
                freq_deviation_ticks: 0,
                freq_deviation_active: false,
                reverse_power_active: false,
                neutral_over_current_active: false,
            },
            event_log: [EventLogEntry::default(); 256],
            event_log_len: 0,
            event_log_pos: 0,
            pending_events: 0,
            system_timestamp: 0,
            flash_write_pos: 0,
            flash_total_count: 0,
            neutral_current: 0,
            history: Ghost(Seq::empty()),
        };
        assert(d.event_log@.len() == 256);
        d
    }

    /// Set the system timestamp (s).
    pub fn set_timestamp(&mut self, ts: u32)
        requires
            old(self).wf(),
        ensures
            final(self).wf(),
            final(self).timestamp() == ts,
            final(self).settings() == old(self).settings(),
            final(self).trackers() == old(self).trackers(),
            final(self).pending() == old(self).pending(),
            final(self).neutral() == old(self).neutral(),
            final(self).history() == old(self).history(),
            final(self).log_slots() == old(self).log_slots(),
            final(self).flash_pos() == old(self).flash_pos(),
            final(self).flash_count() == old(self).flash_count(),
    {
        self.system_timestamp = ts;
    }

    /// Set the voltage thresholds.
    pub fn set_voltage_thresholds(&mut self, t: VoltageThresholds)
        requires
            old(self).wf(),
        ensures
            final(self).settings() == (DetectorSettings { v_thresholds: t, ..old(self).settings() }),
            final(self).same_except_settings(&*old(self)),
    {
        self.settings.v_thresholds = t;
    }

    /// Set the current thresholds.
    pub fn set_current_thresholds(&mut self, t: CurrentThresholds)
        requires
            old(self).wf(),
        ensures
            final(self).settings() == (DetectorSettings { c_thresholds: t, ..old(self).settings() }),
            final(self).same_except_settings(&*old(self)),
    {
        self.settings.c_thresholds = t;
    }

    /// Set the unbalance thresholds.
    pub fn set_unbalance_thresholds(&mut self, t: UnbalanceThresholds)
        requires
            old(self).wf(),
        ensures
            final(self).settings() == (DetectorSettings { unbalance_thresholds: t, ..old(self).settings() }),
            final(self).same_except_settings(&*old(self)),
    {
        self.settings.unbalance_thresholds = t;
    }

    /// Set the magnetic tamper thresholds.
    pub fn set_magnetic_thresholds(&mut self, t: MagneticThresholds)
        requires
            old(self).wf(),
        ensures
            final(self).settings() == (DetectorSettings { magnetic_thresholds: t, ..old(self).settings() }),
            final(self).same_except_settings(&*old(self)),
    {
        self.settings.magnetic_thresholds = t;
    }

    /// Set the neutral current (mA), updated by the metering task.
    pub fn set_neutral_current(&mut self, current: u16)
        requires
            old(self).wf(),
        ensures
            final(self).wf(),
            final(self).neutral() == current,
            final(self).settings() == old(self).settings(),
            final(self).trackers() == old(self).trackers(),
            final(self).pending() == old(self).pending(),
            final(self).timestamp() == old(self).timestamp(),
            final(self).history() == old(self).history(),
            final(self).log_slots() == old(self).log_slots(),
            final(self).flash_pos() == old(self).flash_pos(),
            final(self).flash_count() == old(self).flash_count(),
    {
        self.neutral_current = current;
    }

    /// Append a record stamped with the current time to the RAM log and
    /// advance the persistent log counters.
    fn log_event(&mut self, event: MeterEvent, value: u32, state: u8)
        requires
            old(self).wf(),
        ensures
            final(self).wf(),
            final(self).history() == old(self).history().push(log_entry(event, old(self).timestamp(), value, state)),
            final(self).same_state(&*old(self)),
            final(self).flash_pos() == wrap_add_u32(old(self).flash_pos(), 1),
            final(self).flash_count() == wrap_add_u32(old(self).flash_count(), 1),
    {
        let entry = EventLogEntry {
            event,
            timestamp: self.system_timestamp,
            value,
            duration: 0,
            state,
            _reserved: 0,
        };
        proof {
            lemma_ring_push(self.event_log@, self.history@, self.event_log_len as int, self.event_log_pos as int, entry);
        }
        self.event_log[self.event_log_pos] = entry;
        self.event_log_pos = if self.event_log_pos == 255 { 0 } else { self.event_log_pos + 1 };
        if self.event_log_len < 256 {
            self.event_log_len = self.event_log_len + 1;
        }
        self.flash_write_pos = self.flash_write_pos.wrapping_add(1);
        self.flash_total_count = self.flash_total_count.wrapping_add(1);
        self.history = Ghost(self.history@.push(entry));
    }

    /// Trigger an external event (cover, magnetic, battery ...): log a
    /// start record with value 0 and mark the event pending.
    pub fn trigger_external(&mut self, event: MeterEvent)
        requires
            old(self).wf(),
            event_code(event) < 32,
        ensures
            final(self).wf(),
            final(self).history() == old(self).history().push(log_entry(event, old(self).timestamp(), 0, 1)),
            final(self).pending() == old(self).pending() | event_mask(event),
            final(self).settings() == old(self).settings(),
            final(self).trackers() == old(self).trackers(),
            final(self).timestamp() == old(self).timestamp(),
            final(self).neutral() == old(self).neutral(),
            final(self).flash_pos() == wrap_add_u32(old(self).flash_pos(), 1),
            final(self).flash_count() == wrap_add_u32(old(self).flash_count(), 1),
    {
        self.log_event(event, 0, 1);
        self.pending_events = self.pending_events | event.mask();
    }

    /// Trigger an external event with an associated value.
    pub fn trigger_external_with_value(&mut self, event: MeterEvent, value: u32)
        requires
            old(self).wf(),
            event_code(event) < 32,
        ensures
            final(self).wf(),
            final(self).history() == old(self).history().push(log_entry(event, old(self).timestamp(), value, 1)),
            final(self).pending() == old(self).pending() | event_mask(event),
            final(self).settings() == old(self).settings(),
            final(self).trackers() == old(self).trackers(),
            final(self).timestamp() == old(self).timestamp(),
            final(self).neutral() == old(self).neutral(),
            final(self).flash_pos() == wrap_add_u32(old(self).flash_pos(), 1),
            final(self).flash_count() == wrap_add_u32(old(self).flash_count(), 1),
    {
        self.log_event(event, value, 1);
        self.pending_events = self.pending_events | event.mask();
    }

    /// Upper cover opened (interrupt callback).
    pub fn on_cover_open(&mut self)
        requires
            old(self).wf(),
        ensures
            final(self).wf(),
            final(self).history() == old(self).history().push(
                log_entry(MeterEvent::CoverOpen, old(self).timestamp(), 0, 1),
            ),
            final(self).pending() == old(self).pending() | event_mask(MeterEvent::CoverOpen),
            final(self).settings() == old(self).settings(),
            final(self).trackers() == old(self).trackers(),
            final(self).timestamp() == old(self).timestamp(),
            final(self).neutral() == old(self).neutral(),
            final(self).flash_pos() == wrap_add_u32(old(self).flash_pos(), 1),
            final(self).flash_count() == wrap_add_u32(old(self).flash_count(), 1),
    {
        self.trigger_external(MeterEvent::CoverOpen);
    }

    /// Terminal cover opened (interrupt callback).
    pub fn on_terminal_cover_open(&mut self)
        requires
            old(self).wf(),
        ensures
            final(self).wf(),
            final(self).history() == old(self).history().push(
                log_entry(MeterEvent::TerminalCoverOpen, old(self).timestamp(), 0, 1),
            ),
            final(self).pending() == old(self).pending() | event_mask(MeterEvent::TerminalCoverOpen),
            final(self).settings() == old(self).settings(),
            final(self).trackers() == old(self).trackers(),
            final(self).timestamp() == old(self).timestamp(),
            final(self).neutral() == old(self).neutral(),
            final(self).flash_pos() == wrap_add_u32(old(self).flash_pos(), 1),
            final(self).flash_count() == wrap_add_u32(old(self).flash_count(), 1),
    {
        self.trigger_external(MeterEvent::TerminalCoverOpen);
    }

    /// Magnetic tamper detection for a field strength reading (0.1 uT).
    /// Returns `true` when the tamper event fires on this poll; a start
    /// record carries the field strength, and an end record is logged when
    /// an active tamper condition goes away.
    pub fn check_magnetic(&mut self, field_strength: u16) -> (r: bool)
        requires
            old(self).wf(),
        ensures
            ({
                let m = old(self).trackers().magnetic;
                let th = old(self).settings().magnetic_thresholds;
                let cond = field_strength > th.field_strength;
                let (t, a, fired) = track_step(m.ticks, m.active, cond, th.duration_ms);
                let logged = entry_if(fired, log_entry(MeterEvent::MagneticTamper, old(self).timestamp(), field_strength as u32, 1))
                    + entry_if(!cond && m.active, log_entry(MeterEvent::MagneticTamper, old(self).timestamp(), 0, 0));
                &&& r == fired
                &&& final(self).trackers() == (DetectorTrackers { magnetic: MagneticTracker { ticks: t, active: a }, ..old(self).trackers() })
                &&& final(self).history() == old(self).history() + logged
                &&& final(self).pending() == old(self).pending() | bit_if(fired, MeterEvent::MagneticTamper)
                &&& final(self).flash_pos() == wrap_add_u32(old(self).flash_pos(), logged.len() as int)
                &&& final(self).flash_count() == wrap_add_u32(old(self).flash_count(), logged.len() as int)
            }),
            final(self).wf(),
            final(self).settings() == old(self).settings(),
            final(self).timestamp() == old(self).timestamp(),
            final(self).neutral() == old(self).neutral(),
    {
        let poll_ms: u16 = POLL_MS;
        let ghost h0 = self.history@;
        if field_strength > self.settings.magnetic_thresholds.field_strength {
            self.trackers.magnetic.ticks = self.trackers.magnetic.ticks.saturating_add(poll_ms);
            if !self.trackers.magnetic.active
                && self.trackers.magnetic.ticks >= self.settings.magnetic_thresholds.duration_ms {
                self.trackers.magnetic.active = true;
                self.trigger_external_with_value(MeterEvent::MagneticTamper, field_strength as u32);
                assert(self.history@ =~= h0 + seq![log_entry(MeterEvent::MagneticTamper, old(self).timestamp(), field_strength as u32, 1)] + Seq::<EventLogEntry>::empty());
                return true;
            }
            assert(self.history@ =~= h0 + Seq::<EventLogEntry>::empty() + Seq::<EventLogEntry>::empty());
            assert(self.pending_events | 0 == self.pending_events) by (bit_vector);
        } else {
            if self.trackers.magnetic.active {
                self.trackers.magnetic.active = false;
                self.log_event(MeterEvent::MagneticTamper, 0, 0);
                assert(self.history@ =~= h0 + Seq::<EventLogEntry>::empty() + seq![log_entry(MeterEvent::MagneticTamper, old(self).timestamp(), 0, 0)]);
            } else {
                assert(self.history@ =~= h0 + Seq::<EventLogEntry>::empty() + Seq::<EventLogEntry>::empty());
            }
            self.trackers.magnetic.ticks = 0;
            assert(self.pending_events | 0 == self.pending_events) by (bit_vector);
        }
        false
    }

    /// Power failure detected.
    pub fn on_power_fail(&mut self)
        requires
            old(self).wf(),
        ensures
            final(self).wf(),
            final(self).history() == old(self).history().push(
                log_entry(MeterEvent::PowerFail, old(self).timestamp(), 0, 1),
            ),
            final(self).pending() == old(self).pending() | event_mask(MeterEvent::PowerFail),
            final(self).settings() == old(self).settings(),
            final(self).trackers() == old(self).trackers(),
            final(self).timestamp() == old(self).timestamp(),
            final(self).neutral() == old(self).neutral(),
            final(self).flash_pos() == wrap_add_u32(old(self).flash_pos(), 1),
            final(self).flash_count() == wrap_add_u32(old(self).flash_count(), 1),
    {
        self.trigger_external(MeterEvent::PowerFail);
    }

    /// Power restored.
    pub fn on_power_restore(&mut self)
        requires
            old(self).wf(),
        ensures
            final(self).wf(),
            final(self).history() == old(self).history().push(
                log_entry(MeterEvent::PowerRestore, old(self).timestamp(), 0, 1),
            ),
            final(self).pending() == old(self).pending() | event_mask(MeterEvent::PowerRestore),
            final(self).settings() == old(self).settings(),
            final(self).trackers() == old(self).trackers(),
            final(self).timestamp() == old(self).timestamp(),
            final(self).neutral() == old(self).neutral(),
            final(self).flash_pos() == wrap_add_u32(old(self).flash_pos(), 1),
            final(self).flash_count() == wrap_add_u32(old(self).flash_count(), 1),
    {
        self.trigger_external(MeterEvent::PowerRestore);
    }

    /// Frequency part of a poll: track deviation from 50 Hz +/- 2 Hz and
    /// log its start.
    fn check_frequency(&mut self, frequency: u16) -> (bit: u32)
        requires
            old(self).wf(),
        ensures
            ({
                let t = old(self).trackers();
                let f = track_step(t.freq_deviation_ticks, t.freq_deviation_active, freq_deviation_cond(frequency), 3000);
                let logged = entry_if(f.2, log_entry(MeterEvent::FrequencyDeviation, old(self).timestamp(), frequency as u32, 1));
                &&& bit == bit_if(f.2, MeterEvent::FrequencyDeviation)
                &&& final(self).trackers() == (DetectorTrackers { freq_deviation_ticks: f.0, freq_deviation_active: f.1, ..t })
                &&& final(self).history() == old(self).history() + logged
                &&& final(self).flash_pos() == wrap_add_u32(old(self).flash_pos(), logged.len() as int)
                &&& final(self).flash_count() == wrap_add_u32(old(self).flash_count(), logged.len() as int)
            }),
            final(self).wf(),
            final(self).settings() == old(self).settings(),
            final(self).pending() == old(self).pending(),
            final(self).timestamp() == old(self).timestamp(),
            final(self).neutral() == old(self).neutral(),
    {
        let ghost h0 = self.history@;
        proof {
            lemma_wrap_add_zero(self.flash_write_pos);
            lemma_wrap_add_zero(self.flash_total_count);
        }
        let mut bit: u32 = 0;
        if frequency < 4800 || frequency > 5200 {
            self.trackers.freq_deviation_ticks = self.trackers.freq_deviation_ticks.saturating_add(200);
            if !self.trackers.freq_deviation_active && self.trackers.freq_deviation_ticks >= 3000 {
                self.trackers.freq_deviation_active = true;
                self.log_event(MeterEvent::FrequencyDeviation, frequency as u32, 1);
                bit = MeterEvent::FrequencyDeviation.mask();
                assert(self.history@ =~= h0 + seq![log_entry(MeterEvent::FrequencyDeviation, old(self).timestamp(), frequency as u32, 1)]);
                return bit;
            }
        } else {
            self.trackers.freq_deviation_active = false;
            self.trackers.freq_deviation_ticks = 0;
        }
        assert(self.history@ =~= h0 + Seq::<EventLogEntry>::empty());
        bit
    }

    /// Reverse-power part of a poll: log the start (with the power
    /// magnitude) and the end of reverse power flow.
    fn check_reverse_power(&mut self, p: i32) -> (bit: u32)
        requires
            old(self).wf(),
        ensures
            ({
                let t = old(self).trackers();
                let logged = entry_if(p < 0 && !t.reverse_power_active, log_entry(MeterEvent::ReversePower, old(self).timestamp(), abs_power(p), 1))
                    + entry_if(p >= 0 && t.reverse_power_active, log_entry(MeterEvent::ReversePower, old(self).timestamp(), 0, 0));
                &&& bit == bit_if(p < 0 && !t.reverse_power_active, MeterEvent::ReversePower)
                &&& final(self).trackers() == (DetectorTrackers { reverse_power_active: p < 0, ..t })
                &&& final(self).history() == old(self).history() + logged
                &&& final(self).flash_pos() == wrap_add_u32(old(self).flash_pos(), logged.len() as int)
                &&& final(self).flash_count() == wrap_add_u32(old(self).flash_count(), logged.len() as int)
            }),
            final(self).wf(),
            final(self).settings() == old(self).settings(),
            final(self).pending() == old(self).pending(),
            final(self).timestamp() == old(self).timestamp(),
            final(self).neutral() == old(self).neutral(),
    {
        let ghost h0 = self.history@;
        let ghost ts = self.system_timestamp;
        proof {
            lemma_wrap_add_zero(self.flash_write_pos);
            lemma_wrap_add_zero(self.flash_total_count);
        }
        if p < 0 && !self.trackers.reverse_power_active {
            self.trackers.reverse_power_active = true;
            let mag: u32 = (0i64 - (p as i64)) as u32;
            self.log_event(MeterEvent::ReversePower, mag, 1);
            assert(self.history@ =~= h0 + (seq![log_entry(MeterEvent::ReversePower, ts, abs_power(p), 1)] + Seq::<EventLogEntry>::empty()));
            MeterEvent::ReversePower.mask()
        } else if p >= 0 && self.trackers.reverse_power_active {
            self.trackers.reverse_power_active = false;
            self.log_event(MeterEvent::ReversePower, 0, 0);
            assert(self.history@ =~= h0 + (Seq::<EventLogEntry>::empty() + seq![log_entry(MeterEvent::ReversePower, ts, 0, 0)]));
            0
        } else {
            assert(self.history@ =~= h0 + (Seq::<EventLogEntry>::empty() + Seq::<EventLogEntry>::empty()));
            0
        }
    }

    /// Voltage-unbalance part of a poll, for unbalance `v_unbal` (0.01 %).
    fn check_voltage_unbalance(&mut self, v_unbal: u16) -> (bit: u32)
        requires
            old(self).wf(),
        ensures
            ({
                let t = old(self).trackers();
                let th = old(self).settings().unbalance_thresholds;
                let cond = v_unbal > th.voltage_unbalance;
                let v = track_step(t.unbalance.voltage_ticks, t.unbalance.voltage_active, cond, th.duration_ms);
                let logged = entry_if(v.2, log_entry(MeterEvent::VoltageUnbalance, old(self).timestamp(), v_unbal as u32, 1))
                    + entry_if(!cond && t.unbalance.voltage_active, log_entry(MeterEvent::VoltageUnbalance, old(self).timestamp(), 0, 0));
                &&& bit == bit_if(v.2, MeterEvent::VoltageUnbalance)
                &&& final(self).trackers() == (DetectorTrackers {
                    unbalance: UnbalanceTracker { voltage_ticks: v.0, voltage_active: v.1, ..t.unbalance },
                    ..t
                })
                &&& final(self).history() == old(self).history() + logged
                &&& final(self).flash_pos() == wrap_add_u32(old(self).flash_pos(), logged.len() as int)
                &&& final(self).flash_count() == wrap_add_u32(old(self).flash_count(), logged.len() as int)
            }),
            final(self).wf(),
            final(self).settings() == old(self).settings(),
            final(self).pending() == old(self).pending(),
            final(self).timestamp() == old(self).timestamp(),
            final(self).neutral() == old(self).neutral(),
    {
        let ghost h0 = self.history@;
        let ghost ts = self.system_timestamp;
        proof {
            lemma_wrap_add_zero(self.flash_write_pos);
            lemma_wrap_add_zero(self.flash_total_count);
        }
        if v_unbal > self.settings.unbalance_thresholds.voltage_unbalance {
            self.trackers.unbalance.voltage_ticks = self.trackers.unbalance.voltage_ticks.saturating_add(200);
            if !self.trackers.unbalance.voltage_active
                && self.trackers.unbalance.voltage_ticks >= self.settings.unbalance_thresholds.duration_ms {
                self.trackers.unbalance.voltage_active = true;
                self.log_event(MeterEvent::VoltageUnbalance, v_unbal as u32, 1);
                assert(self.history@ =~= h0 + (seq![log_entry(MeterEvent::VoltageUnbalance, ts, v_unbal as u32, 1)] + Seq::<EventLogEntry>::empty()));
                return MeterEvent::VoltageUnbalance.mask();
            }
            assert(self.history@ =~= h0 + (Seq::<EventLogEntry>::empty() + Seq::<EventLogEntry>::empty()));
        } else {
            if self.trackers.unbalance.voltage_active {
                self.trackers.unbalance.voltage_active = false;
                self.log_event(MeterEvent::VoltageUnbalance, 0, 0);
                assert(self.history@ =~= h0 + (Seq::<EventLogEntry>::empty() + seq![log_entry(MeterEvent::VoltageUnbalance, ts, 0, 0)]));
            } else {
                assert(self.history@ =~= h0 + (Seq::<EventLogEntry>::empty() + Seq::<EventLogEntry>::empty()));
            }
            self.trackers.unbalance.voltage_ticks = 0;
        }
        0
    }

    /// Current-unbalance part of a poll, for unbalance `i_unbal` (0.01 %).
    fn check_current_unbalance(&mut self, i_unbal: u16) -> (bit: u32)
        requires
            old(self).wf(),
        ensures
            ({
                let t = old(self).trackers();
                let th = old(self).settings().unbalance_thresholds;
                let cond = i_unbal > th.current_unbalance;
                let v = track_step(t.unbalance.current_ticks, t.unbalance.current_active, cond, th.duration_ms);
                let logged = entry_if(v.2, log_entry(MeterEvent::CurrentUnbalance, old(self).timestamp(), i_unbal as u32, 1))
                    + entry_if(!cond && t.unbalance.current_active, log_entry(MeterEvent::CurrentUnbalance, old(self).timestamp(), 0, 0));
                &&& bit == bit_if(v.2, MeterEvent::CurrentUnbalance)
                &&& final(self).trackers() == (DetectorTrackers {
                    unbalance: UnbalanceTracker { current_ticks: v.0, current_active: v.1, ..t.unbalance },
                    ..t
                })
                &&& final(self).history() == old(self).history() + logged
                &&& final(self).flash_pos() == wrap_add_u32(old(self).flash_pos(), logged.len() as int)
                &&& final(self).flash_count() == wrap_add_u32(old(self).flash_count(), logged.len() as int)
            }),
            final(self).wf(),
            final(self).settings() == old(self).settings(),
            final(self).pending() == old(self).pending(),
            final(self).timestamp() == old(self).timestamp(),
            final(self).neutral() == old(self).neutral(),
    {
        let ghost h0 = self.history@;
        let ghost ts = self.system_timestamp;
        proof {
            lemma_wrap_add_zero(self.flash_write_pos);
            lemma_wrap_add_zero(self.flash_total_count);
        }
        if i_unbal > self.settings.unbalance_thresholds.current_unbalance {
            self.trackers.unbalance.current_ticks = self.trackers.unbalance.current_ticks.saturating_add(200);
            if !self.trackers.unbalance.current_active
                && self.trackers.unbalance.current_ticks >= self.settings.unbalance_thresholds.duration_ms {
                self.trackers.unbalance.current_active = true;
                self.log_event(MeterEvent::CurrentUnbalance, i_unbal as u32, 1);
                assert(self.history@ =~= h0 + (seq![log_entry(MeterEvent::CurrentUnbalance, ts, i_unbal as u32, 1)] + Seq::<EventLogEntry>::empty()));
                return MeterEvent::CurrentUnbalance.mask();
            }
            assert(self.history@ =~= h0 + (Seq::<EventLogEntry>::empty() + Seq::<EventLogEntry>::empty()));
        } else {
            if self.trackers.unbalance.current_active {
                self.trackers.unbalance.current_active = false;
                self.log_event(MeterEvent::CurrentUnbalance, 0, 0);
                assert(self.history@ =~= h0 + (Seq::<EventLogEntry>::empty() + seq![log_entry(MeterEvent::CurrentUnbalance, ts, 0, 0)]));
            } else {
                assert(self.history@ =~= h0 + (Seq::<EventLogEntry>::empty() + Seq::<EventLogEntry>::empty()));
            }
            self.trackers.unbalance.current_ticks = 0;
        }
        0
    }

    /// Neutral over-current part of a poll: logs and reports the start of
    /// an over-current, and clears the tracker once the current is back
    /// under the threshold.
    fn check_neutral(&mut self) -> (bit: u32)
        requires
            old(self).wf(),
        ensures
            ({
                let over = old(self).neutral() > old(self).settings().neutral_over_current;
                let fire = over && !old(self).trackers().neutral_over_current_active;
                let logged = entry_if(fire, log_entry(MeterEvent::NeutralOverCurrent, old(self).timestamp(), old(self).neutral() as u32, 1));
                &&& bit == bit_if(fire, MeterEvent::NeutralOverCurrent)
                &&& final(self).trackers() == (DetectorTrackers { neutral_over_current_active: over, ..old(self).trackers() })
                &&& final(self).history() == old(self).history() + logged
                &&& final(self).flash_pos() == wrap_add_u32(old(self).flash_pos(), logged.len() as int)
                &&& final(self).flash_count() == wrap_add_u32(old(self).flash_count(), logged.len() as int)
            }),
            final(self).wf(),
            final(self).settings() == old(self).settings(),
            final(self).pending() == old(self).pending(),
            final(self).timestamp() == old(self).timestamp(),
            final(self).neutral() == old(self).neutral(),
    {
        let ghost h0 = self.history@;
        proof {
            lemma_wrap_add_zero(self.flash_write_pos);
            lemma_wrap_add_zero(self.flash_total_count);
        }
        if self.neutral_current > self.settings.neutral_over_current {
            if !self.is_event_active(MeterEvent::NeutralOverCurrent) {
                self.trackers.neutral_over_current_active = true;
                self.log_event(MeterEvent::NeutralOverCurrent, self.neutral_current as u32, 1);
                assert(self.history@ =~= h0 + seq![log_entry(MeterEvent::NeutralOverCurrent, old(self).timestamp(), old(self).neutral() as u32, 1)]);
                return MeterEvent::NeutralOverCurrent.mask();
            }
        } else {
            self.trackers.neutral_over_current_active = false;
        }
        assert(self.history@ =~= h0 + Seq::<EventLogEntry>::empty());
        0
    }

    /// Check three-phase data after a metering poll: phase loss, over and
    /// under voltage, over current, frequency deviation, reverse power,
    /// voltage and current unbalance and neutral over-current. Returns the
    /// bitmap of the events that fire on this poll, which is also added to
    /// the pending events.
    #[verifier::rlimit(100)]
    #[verifier::spinoff_prover]
    pub fn check(&mut self, data: &PhaseData) -> (r: u32)
        requires
            old(self).wf(),
            unbalance_defined(data.voltage_a, data.voltage_b, data.voltage_c),
            unbalance_defined(data.current_a, data.current_b, data.current_c),
        ensures
            r == check_bits(old(self).trackers(), old(self).settings(), old(self).neutral(), *data),
            final(self).trackers() == trackers_after_check(old(self).trackers(), old(self).settings(), old(self).neutral(), *data),
            final(self).pending() == old(self).pending() | r,
            final(self).history() == old(self).history() + check_entries(
                old(self).trackers(),
                old(self).settings(),
                old(self).neutral(),
                old(self).timestamp(),
                *data,
            ),
            final(self).flash_pos() == wrap_add_u32(
                old(self).flash_pos(),
                check_entries(old(self).trackers(), old(self).settings(), old(self).neutral(), old(self).timestamp(), *data).len() as int,
            ),
            final(self).flash_count() == wrap_add_u32(
                old(self).flash_count(),
                check_entries(old(self).trackers(), old(self).settings(), old(self).neutral(), old(self).timestamp(), *data).len() as int,
            ),
            final(self).wf(),
            final(self).settings() == old(self).settings(),
            final(self).timestamp() == old(self).timestamp(),
            final(self).neutral() == old(self).neutral(),
    {
        let ghost t0 = self.trackers;
        let ghost ts = self.system_timestamp;
        let ghost h0 = self.history@;

        let bits_a = check_phase(
            &mut self.trackers.phase_a,
            data.voltage_a,
            data.current_a,
            &self.settings.v_thresholds,
            &self.settings.c_thresholds,
            MeterEvent::OverVoltageA,
            MeterEvent::UnderVoltageA,
            MeterEvent::PhaseLossA,
            MeterEvent::OverCurrentA,
        );
        let bits_b = check_phase(
            &mut self.trackers.phase_b,
            data.voltage_b,
            data.current_b,
            &self.settings.v_thresholds,
            &self.settings.c_thresholds,
            MeterEvent::OverVoltageB,
            MeterEvent::UnderVoltageB,
            MeterEvent::PhaseLossB,
            MeterEvent::OverCurrentB,
        );
        let bits_c = check_phase(
            &mut self.trackers.phase_c,
            data.voltage_c,
            data.current_c,
            &self.settings.v_thresholds,
            &self.settings.c_thresholds,
            MeterEvent::OverVoltageC,
            MeterEvent::UnderVoltageC,
            MeterEvent::PhaseLossC,
            MeterEvent::OverCurrentC,
        );
        let ghost fp_a = self.flash_write_pos;
        let ghost fc_a = self.flash_total_count;

        let bit_freq = self.check_frequency(data.frequency);
        let ghost h1 = self.history@;
        let ghost fp1 = self.flash_write_pos;
        let ghost fc1 = self.flash_total_count;

        let bit_reverse = self.check_reverse_power(data.active_power_total);
        let ghost h2 = self.history@;
        let ghost fp2 = self.flash_write_pos;
        let ghost fc2 = self.flash_total_count;

        let v_unbal = calc_voltage_unbalance(data.voltage_a, data.voltage_b, data.voltage_c);
        let bit_vu = self.check_voltage_unbalance(v_unbal);
        let ghost h3 = self.history@;
        let ghost fp3 = self.flash_write_pos;
        let ghost fc3 = self.flash_total_count;

        let i_unbal = calc_current_unbalance(data.current_a, data.current_b, data.current_c);
        let bit_cu = self.check_current_unbalance(i_unbal);
        let ghost h4 = self.history@;
        let ghost fp4 = self.flash_write_pos;
        let ghost fc4 = self.flash_total_count;

        let bit_neutral = self.check_neutral();

        let new_events = bits_a | bits_b | bits_c | bit_freq | bit_reverse | bit_vu | bit_cu | bit_neutral;
        self.pending_events = self.pending_events | new_events;
        proof {
            let s0 = self.settings;
            let nc = self.neutral_current;
            let p = data.active_power_total;
            let f = track_step(t0.freq_deviation_ticks, t0.freq_deviation_active, freq_deviation_cond(data.frequency), 3000);
            let vcond = v_unbal > s0.unbalance_thresholds.voltage_unbalance;
            let icond = i_unbal > s0.unbalance_thresholds.current_unbalance;
            let v = track_step(t0.unbalance.voltage_ticks, t0.unbalance.voltage_active, vcond, s0.unbalance_thresholds.duration_ms);
            let iv = track_step(t0.unbalance.current_ticks, t0.unbalance.current_active, icond, s0.unbalance_thresholds.duration_ms);
            let x1 = entry_if(f.2, log_entry(MeterEvent::FrequencyDeviation, ts, data.frequency as u32, 1));
            let x2 = entry_if(p < 0 && !t0.reverse_power_active, log_entry(MeterEvent::ReversePower, ts, abs_power(p), 1));
            let x3 = entry_if(p >= 0 && t0.reverse_power_active, log_entry(MeterEvent::ReversePower, ts, 0, 0));
            let x4 = entry_if(v.2, log_entry(MeterEvent::VoltageUnbalance, ts, v_unbal as u32, 1));
            let x5 = entry_if(!vcond && t0.unbalance.voltage_active, log_entry(MeterEvent::VoltageUnbalance, ts, 0, 0));
            let x6 = entry_if(iv.2, log_entry(MeterEvent::CurrentUnbalance, ts, i_unbal as u32, 1));
            let x7 = entry_if(!icond && t0.unbalance.current_active, log_entry(MeterEvent::CurrentUnbalance, ts, 0, 0));
            let x8 = entry_if(nc > s0.neutral_over_current && !t0.neutral_over_current_active, log_entry(MeterEvent::NeutralOverCurrent, ts, nc as u32, 1));
            assert(h1 == h0 + x1);
            assert(h2 == h1 + (x2 + x3));
            assert(h3 == h2 + (x4 + x5));
            assert(h4 == h3 + (x6 + x7));
            assert(self.history@ == h4 + x8);
            lemma_concat_segments(h0, h1, h2, h3, h4, self.history@, x1, x2, x3, x4, x5, x6, x7, x8);
            assert(check_entries(t0, s0, nc, ts, *data) == x1 + x2 + x3 + x4 + x5 + x6 + x7 + x8);
            lemma_wrap_add_compose(fp_a, x1.len() as int, (x2 + x3).len() as int);
            lemma_wrap_add_compose(fc_a, x1.len() as int, (x2 + x3).len() as int);
            lemma_wrap_add_compose(fp_a, (x1 + x2 + x3).len() as int, (x4 + x5).len() as int);
            lemma_wrap_add_compose(fc_a, (x1 + x2 + x3).len() as int, (x4 + x5).len() as int);
            lemma_wrap_add_compose(fp_a, (x1 + x2 + x3 + x4 + x5).len() as int, (x6 + x7).len() as int);
            lemma_wrap_add_compose(fc_a, (x1 + x2 + x3 + x4 + x5).len() as int, (x6 + x7).len() as int);
            lemma_wrap_add_compose(fp_a, (x1 + x2 + x3 + x4 + x5 + x6 + x7).len() as int, x8.len() as int);
            lemma_wrap_add_compose(fc_a, (x1 + x2 + x3 + x4 + x5 + x6 + x7).len() as int, x8.len() as int);
        }
        new_events
    }

    /// Whether the tracked condition behind `event` is currently active
    /// (always `false` for events without a tracker).
    pub fn is_event_active(&self, event: MeterEvent) -> (r: bool)
        ensures
            r == event_active(self.trackers(), event),
    {
        match event {
            MeterEvent::OverVoltageA => self.trackers.phase_a.over_voltage_active,
            MeterEvent::OverVoltageB => self.trackers.phase_b.over_voltage_active,
            MeterEvent::OverVoltageC => self.trackers.phase_c.over_voltage_active,
            MeterEvent::UnderVoltageA => self.trackers.phase_a.under_voltage_active,
            MeterEvent::UnderVoltageB => self.trackers.phase_b.under_voltage_active,
            MeterEvent::UnderVoltageC => self.trackers.phase_c.under_voltage_active,
            MeterEvent::PhaseLossA => self.trackers.phase_a.lost_voltage_active,
            MeterEvent::PhaseLossB => self.trackers.phase_b.lost_voltage_active,
            MeterEvent::PhaseLossC => self.trackers.phase_c.lost_voltage_active,
            MeterEvent::OverCurrentA => self.trackers.phase_a.over_current_active,
            MeterEvent::OverCurrentB => self.trackers.phase_b.over_current_active,
            MeterEvent::OverCurrentC => self.trackers.phase_c.over_current_active,
            MeterEvent::VoltageUnbalance => self.trackers.unbalance.voltage_active,
            MeterEvent::CurrentUnbalance => self.trackers.unbalance.current_active,
            MeterEvent::FrequencyDeviation => self.trackers.freq_deviation_active,
            MeterEvent::ReversePower => self.trackers.reverse_power_active,
            MeterEvent::MagneticTamper => self.trackers.magnetic.active,
            MeterEvent::NeutralOverCurrent => self.trackers.neutral_over_current_active,
            _ => false,
        }
    }

    /// Take the pending event bitmap, leaving nothing pending.
    pub fn consume_events(&mut self) -> (r: u32)
        requires
            old(self).wf(),
        ensures
            r == old(self).pending(),
            final(self).pending() == 0,
            final(self).wf(),
            final(self).settings() == old(self).settings(),
            final(self).trackers() == old(self).trackers(),
            final(self).timestamp() == old(self).timestamp(),
            final(self).neutral() == old(self).neutral(),
            final(self).history() == old(self).history(),
            final(self).log_slots() == old(self).log_slots(),
            final(self).flash_pos() == old(self).flash_pos(),
            final(self).flash_count() == old(self).flash_count(),
    {
        let events = self.pending_events;
        self.pending_events = 0;
        events
    }

    /// The valid slots of the RAM log, by slot index. Until the log wraps
    /// this is the history itself, oldest first.
    pub fn event_log(&self) -> (r: &[EventLogEntry])
        requires
            self.wf(),
        ensures
            r@ == self.log_slots().subrange(0, self.log_len()),
            r@.len() == (if self.history().len() < 256 { self.history().len() as int } else { 256 }),
            forall|i: int| 0 <= i < r@.len() ==> #[trigger] r@[i]
                == self.history()[ring_source(self.history().len() as int, self.log_pos(), i)],
            self.history().len() <= 256 ==> r@ == self.history(),
    {
        let r = slice_subrange(array_as_slice(&self.event_log), 0, self.event_log_len);
        proof {
            lemma_ring_position(self.history@.len() as int, self.event_log_pos as int);
            if self.history@.len() <= 256 {
                assert forall|i: int| 0 <= i < r@.len() implies r@[i] == self.history@[i] by {
                    assert(self.event_log@[i] == self.history@[ring_source(self.history@.len() as int, self.event_log_pos as int, i)]);
                }
                assert(r@ =~= self.history@);
            }
        }
        r
    }

    /// The most recent `n` records (at most as many as the log holds),
    /// oldest first, also when they wrap around the end of the ring.
    pub fn recent_events(&self, n: usize) -> (r: Vec<EventLogEntry>)
        requires
            self.wf(),
        ensures
            ({
                let h = self.history();
                let hl = h.len() as int;
                let k = if n < self.log_len() { n as int } else { self.log_len() };
                r@ == h.subrange(hl - k, hl)
            }),
    {
        let n = if n < self.event_log_len { n } else { self.event_log_len };
        let ghost h = self.history@;
        let ghost hl = h.len() as int;
        let pos = self.event_log_pos;
        proof {
            lemma_ring_position(hl, pos as int);
        }
        let start: usize = if pos >= n {
            pos - n
        } else {
            MAX_EVENT_LOG - (n - pos)
        };
        let mut r: Vec<EventLogEntry> = Vec::new();
        let mut i: usize = 0;
        while i < n
            invariant
                self.wf(),
                h == self.history@,
                hl == h.len(),
                pos == self.event_log_pos,
                0 <= pos < 256,
                pos <= hl,
                hl < 256 ==> pos == hl,
                n <= self.event_log_len,
                self.event_log_len == (if hl < 256 { hl } else { 256 }),
                start == (if pos >= n { pos - n } else { 256 - (n - pos) }),
                i <= n,
                r@ == h.subrange(hl - n, hl - n + i),
            decreases n - i,
        {
            let idx: usize = if start + i < MAX_EVENT_LOG { start + i } else { start + i - MAX_EVENT_LOG };
            proof {
                assert(self.event_log@[idx as int] == h[ring_source(hl, pos as int, idx as int)]);
                assert(ring_source(hl, pos as int, idx as int) == hl - n + i);
            }
            r.push(self.event_log[idx]);
            proof {
                assert(r@ =~= h.subrange(hl - n, hl - n + i + 1));
            }
            i = i + 1;
        }
        r
    }

    /// Clear the RAM event log (the persistent counters are kept).
    pub fn clear_log(&mut self)
        requires
            old(self).wf(),
        ensures
            final(self).wf(),
            final(self).history() == Seq::<EventLogEntry>::empty(),
            final(self).same_state(&*old(self)),
            final(self).flash_pos() == old(self).flash_pos(),
            final(self).flash_count() == old(self).flash_count(),
    {
        self.event_log_len = 0;
        self.event_log_pos = 0;
        self.history = Ghost(Seq::empty());
    }

    /// Persistent log write position.
    pub fn flash_write_pos(&self) -> (r: u32)
        ensures
            r == self.flash_pos(),
    {
        self.flash_write_pos
    }

    /// Set the persistent log position and count (restore from flash).
    pub fn set_flash_write_pos(&mut self, pos: u32, count: u32)
        requires
            old(self).wf(),
        ensures
            final(self).wf(),
            final(self).flash_pos() == pos,
            final(self).flash_count() == count,
            final(self).same_state(&*old(self)),
            final(self).history() == old(self).history(),
            final(self).log_slots() == old(self).log_slots(),
    {
        self.flash_write_pos = pos;
        self.flash_total_count = count;
    }

    /// Persistent log total write count.
    pub fn flash_total_count(&self) -> (r: u32)
        ensures
            r == self.flash_count(),
    {
        self.flash_total_count
    }

    /// The voltage thresholds.
    pub fn voltage_thresholds(&self) -> (r: &VoltageThresholds)
        ensures
            *r == self.settings().v_thresholds,
    {
        &self.settings.v_thresholds
    }

    /// The current thresholds.
    pub fn current_thresholds(&self) -> (r: &CurrentThresholds)
        ensures
            *r == self.settings().c_thresholds,
    {
        &self.settings.c_thresholds
    }
}

/* ---------------- CRC-32 ---------------- */

/// One bit step of the reflected CRC-32 register (polynomial 0xEDB88320).
pub open spec fn crc32_bit_step(crc: u32) -> u32 {
    if crc & 1 != 0 { (crc >> 1) ^ 0xEDB88320u32 } else { crc >> 1 }
}

/// `n` bit steps of the CRC-32 register.
pub open spec fn crc32_bit_steps(crc: u32, n: nat) -> u32
    decreases n,
{
    if n == 0 { crc } else { crc32_bit_steps(crc32_bit_step(crc), (n - 1) as nat) }
}

/// CRC-32 register after absorbing all of `data`, starting from all ones.
pub open spec fn crc32_register(data: Seq<u8>) -> u32
    decreases data.len(),
{
    if data.len() == 0 {
        0xFFFF_FFFFu32
    } else {
        crc32_bit_steps(crc32_register(data.drop_last()) ^ (data.last() as u32), 8)
    }
}

/// CRC-32 (zlib) of `data`.
pub open spec fn crc32_spec(data: Seq<u8>) -> u32 {
    !crc32_register(data)
}

/// CRC-32 (polynomial 0xEDB88320, zlib compatible), bit by bit.
pub fn crc32(data: &[u8]) -> (r: u32)
    ensures
        r == crc32_spec(data@),
{
    let mut crc: u32 = 0xFFFF_FFFF;
    let mut i: usize = 0;
    while i < data.len()
        invariant
            i <= data.len(),
            crc == crc32_register(data@.subrange(0, i as int)),
        decreases data.len() - i,
    {
        proof {
            assert(data@.subrange(0, i + 1).drop_last() =~= data@.subrange(0, i as int));
        }
        crc = crc ^ (data[i] as u32);
        let ghost start = crc;
        let mut j: u32 = 0;
        while j < 8
            invariant
                j <= 8,
                crc32_bit_steps(start, 8) == crc32_bit_steps(crc, (8 - j) as nat),
            decreases 8 - j,
        {
            if crc & 1 != 0 {
                crc = (crc >> 1) ^ 0xEDB88320;
            } else {
                crc = crc >> 1;
            }
            j = j + 1;
        }
        i = i + 1;
    }
    proof {
        assert(data@.subrange(0, data.len() as int) =~= data@);
    }
    !crc
}

} // verus!
