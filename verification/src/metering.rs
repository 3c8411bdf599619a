//! Metering bookkeeping: energy register roll-over tracking, per-tariff
//! energy accumulation, demand (period average, maximum and sliding
//! demand), harmonic snapshots and polling intervals.
use vstd::prelude::*;

use crate::hal::{EnergyData, HarmonicData, PhaseData};

verus! {

/// Largest energy register value (32-bit registers).
pub const ENERGY_REG_MAX: u32 = 0xFFFF_FFFF;
/// Energy per register LSB, in 0.01 kWh.
pub const WH_PER_LSB_X100: u64 = 1;
/// Number of tariffs.
pub const NUM_TARIFFS: usize = 4;
/// Sliding demand window (periods).
pub const DEMAND_SLIDING_N: usize = 5;
/// Demand period (s).
pub const DEMAND_INTERVAL_SEC: u32 = 15;
/// Demand history length (24 h of 15 min periods).
pub const DEMAND_HISTORY_MAX: usize = 96;
/// Highest harmonic order.
pub const MAX_HARMONIC_ORDER: usize = 31;

/* ---------------- tariff accumulators ---------------- */

/// Energy per tariff (0.01 kWh / 0.01 kvarh).
#[derive(Clone, Copy, Debug)]
pub struct TariffAccumulators {
    /// Active import [T1..T4]
    pub active_import: [u64; 4],
    /// Active export [T1..T4]
    pub active_export: [u64; 4],
    /// Reactive import [T1..T4]
    pub reactive_import: [u64; 4],
    /// Reactive export [T1..T4]
    pub reactive_export: [u64; 4],
    /// Current tariff (0..3)
    pub current_tariff: u8,
}

/// `a + b` wrapped to 64 bits.
pub open spec fn wrap64(a: u64, b: u64) -> u64 {
    ((a + b) % 0x1_0000_0000_0000_0000) as u64
}

impl Default for TariffAccumulators {
    fn default() -> (r: Self)
        ensures
            r.active_import@ == seq![0u64, 0u64, 0u64, 0u64],
            r.active_export@ == seq![0u64, 0u64, 0u64, 0u64],
            r.reactive_import@ == seq![0u64, 0u64, 0u64, 0u64],
            r.reactive_export@ == seq![0u64, 0u64, 0u64, 0u64],
            r.current_tariff == 0,
    {
        let r = TariffAccumulators {
            active_import: [0, 0, 0, 0],
            active_export: [0, 0, 0, 0],
            reactive_import: [0, 0, 0, 0],
            reactive_export: [0, 0, 0, 0],
            current_tariff: 0,
        };
        assert(r.active_import@ =~= seq![0u64, 0u64, 0u64, 0u64]);
        assert(r.active_export@ =~= seq![0u64, 0u64, 0u64, 0u64]);
        assert(r.reactive_import@ =~= seq![0u64, 0u64, 0u64, 0u64]);
        assert(r.reactive_export@ =~= seq![0u64, 0u64, 0u64, 0u64]);
        r
    }
}

impl TariffAccumulators {
    /// Switch to tariff `tariff` (0..3); other values are ignored.
    pub fn switch_tariff(&mut self, tariff: u8)
        ensures
            *final(self) == (TariffAccumulators {
                current_tariff: if tariff < 4 { tariff } else { old(self).current_tariff },
                ..*old(self)
            }),
    {
        if tariff < NUM_TARIFFS as u8 {
            self.current_tariff = tariff;
        }
    }

    /// Add energy increments to the current tariff (wrapping).
    pub fn accumulate(&mut self, d_active_import: u64, d_active_export: u64, d_reactive_import: u64, d_reactive_export: u64)
        requires
            old(self).current_tariff < 4,
        ensures
            ({
                let t = old(self).current_tariff as int;
                &&& final(self).active_import@ == old(self).active_import@.update(t, wrap64(old(self).active_import[t], d_active_import))
                &&& final(self).active_export@ == old(self).active_export@.update(t, wrap64(old(self).active_export[t], d_active_export))
                &&& final(self).reactive_import@ == old(self).reactive_import@.update(t, wrap64(old(self).reactive_import[t], d_reactive_import))
                &&& final(self).reactive_export@ == old(self).reactive_export@.update(t, wrap64(old(self).reactive_export[t], d_reactive_export))
                &&& final(self).current_tariff == old(self).current_tariff
            }),
    {
        let t = self.current_tariff as usize;
        self.active_import[t] = self.active_import[t].wrapping_add(d_active_import);
        self.active_export[t] = self.active_export[t].wrapping_add(d_active_export);
        self.reactive_import[t] = self.reactive_import[t].wrapping_add(d_reactive_import);
        self.reactive_export[t] = self.reactive_export[t].wrapping_add(d_reactive_export);
    }

    /// Total active energy (import + export, wrapping) of a tariff; 0 for
    /// an unknown tariff.
    pub fn total_active(&self, tariff: u8) -> (r: u64)
        ensures
            r == (if tariff < 4 { wrap64(self.active_import[tariff as int], self.active_export[tariff as int]) } else { 0 }),
    {
        let t = tariff as usize;
        if t >= NUM_TARIFFS {
            return 0;
        }
        self.active_import[t].wrapping_add(self.active_export[t])
    }

    /// Total reactive energy (import + export, wrapping) of a tariff; 0 for
    /// an unknown tariff.
    pub fn total_reactive(&self, tariff: u8) -> (r: u64)
        ensures
            r == (if tariff < 4 { wrap64(self.reactive_import[tariff as int], self.reactive_export[tariff as int]) } else { 0 }),
    {
        let t = tariff as usize;
        if t >= NUM_TARIFFS {
            return 0;
        }
        self.reactive_import[t].wrapping_add(self.reactive_export[t])
    }
}

/* ---------------- energy register roll-over ---------------- */

/// Tracks one energy register across roll-overs.
#[derive(Clone, Copy, Debug)]
pub struct EnergyTracker {
    /// Previous raw register value
    pub prev_raw: u32,
    /// Accumulated energy (0.01 kWh / 0.01 kvarh)
    pub accumulated: u64,
    /// A first reading has been taken
    pub initialized: bool,
}

/// Register increment from `prev` to `raw`, across a roll-over of the
/// 32-bit register when `raw` is smaller.
pub open spec fn register_delta(prev: u32, raw: u32) -> int {
    if raw >= prev { raw - prev } else { raw + 0x1_0000_0000 - prev }
}

/// A tracker after a reading, and the energy increment: the first reading
/// only sets the reference; later ones add the register increment
/// (roll-over included) to the accumulated energy.
pub open spec fn tracker_step(t: EnergyTracker, raw: u32) -> (EnergyTracker, u64) {
    if !t.initialized {
        (EnergyTracker { prev_raw: raw, initialized: true, ..t }, 0u64)
    } else {
        let d = register_delta(t.prev_raw, raw) as u64;
        (EnergyTracker { prev_raw: raw, accumulated: wrap64(t.accumulated, d), initialized: true }, d)
    }
}

impl EnergyTracker {
    /// A tracker waiting for its first reading.
    pub fn new() -> (r: Self)
        ensures
            r.prev_raw == 0 && r.accumulated == 0 && !r.initialized,
    {
        EnergyTracker { prev_raw: 0, accumulated: 0, initialized: false }
    }

    /// Take a new raw reading and return the energy increment: the first
    /// reading only sets the reference; later ones add the register
    /// increment (roll-over included) to the accumulated energy.
    pub fn update(&mut self, raw: u32) -> (r: u64)
        ensures
            (*final(self), r) == tracker_step(*old(self), raw),
            old(self).initialized ==> r == register_delta(old(self).prev_raw, raw),
    {
        if !self.initialized {
            self.prev_raw = raw;
            self.initialized = true;
            return 0;
        }
        let delta_raw: u32 = if raw >= self.prev_raw {
            raw - self.prev_raw
        } else {
            (ENERGY_REG_MAX - self.prev_raw).wrapping_add(1).wrapping_add(raw)
        };
        self.prev_raw = raw;
        let delta: u64 = (delta_raw as u64) * WH_PER_LSB_X100;
        self.accumulated = self.accumulated.wrapping_add(delta);
        delta
    }
}

/// A tracker after a run of readings, in order.
pub open spec fn tracker_run(t: EnergyTracker, raws: Seq<u32>) -> EnergyTracker
    decreases raws.len(),
{
    if raws.len() == 0 {
        t
    } else {
        tracker_run(tracker_step(t, raws[0]).0, raws.drop_first())
    }
}

/// Offset between the accumulated energy and the register, modulo the
/// register's 32 bits.
pub open spec fn register_offset(t: EnergyTracker) -> int {
    (t.accumulated as int - t.prev_raw as int) % 0x1_0000_0000
}

/// One reading keeps the offset of an initialized tracker.
proof fn lemma_step_keeps_offset(t: EnergyTracker, raw: u32)
    requires
        t.initialized,
    ensures
        register_offset(tracker_step(t, raw).0) == register_offset(t),
        tracker_step(t, raw).0.initialized,
{
    let d = register_delta(t.prev_raw, raw);
    let sum = t.accumulated as int + d;
    let q: int = if sum >= 0x1_0000_0000_0000_0000 { 1 } else { 0 };
    assert(sum % 0x1_0000_0000_0000_0000 == sum - q * 0x1_0000_0000_0000_0000);
    let w: int = if raw >= t.prev_raw { 0 } else { 1 };
    // accumulated' - raw = (acc - prev) + 2^32 * (w - q * 2^32)
    let m: int = w - q * 0x1_0000_0000;
    assert(tracker_step(t, raw).0.accumulated as int - raw as int
        == 0x1_0000_0000 * m + (t.accumulated as int - t.prev_raw as int)) by (nonlinear_arith)
        requires
            tracker_step(t, raw).0.accumulated as int == sum - q * 0x1_0000_0000_0000_0000,
            sum == t.accumulated as int + d,
            d == raw as int - t.prev_raw as int + w * 0x1_0000_0000,
            m == w - q * 0x1_0000_0000;
    vstd::arithmetic::div_mod::lemma_mod_multiples_vanish(m, t.accumulated as int - t.prev_raw as int, 0x1_0000_0000);
}

/// Roll-over law: once a tracker has its reference reading, any run of
/// further readings keeps the accumulated energy in step with the
/// register modulo its 32 bits, wherever the register rolled over: the
/// accumulated energy grows by the register's advance modulo 2^32.
pub proof fn lemma_tracker_run_keeps_offset(t: EnergyTracker, raws: Seq<u32>)
    requires
        t.initialized,
    ensures
        tracker_run(t, raws).initialized,
        register_offset(tracker_run(t, raws)) == register_offset(t),
    decreases raws.len(),
{
    if raws.len() > 0 {
        lemma_step_keeps_offset(t, raws[0]);
        lemma_tracker_run_keeps_offset(tracker_step(t, raws[0]).0, raws.drop_first());
    }
}

/// The first reading only sets the reference: the accumulated energy is
/// unchanged, and the offset starts from that reading.
pub proof fn lemma_first_reading_sets_reference(t: EnergyTracker, raw: u32)
    requires
        !t.initialized,
    ensures
        tracker_step(t, raw).1 == 0,
        tracker_step(t, raw).0.accumulated == t.accumulated,
        tracker_step(t, raw).0.prev_raw == raw,
        tracker_step(t, raw).0.initialized,
{
}

/* ---------------- demand ---------------- */

/// Demand (W / var).
#[derive(Clone, Copy, Debug)]
pub struct DemandData {
    /// Current demand (W)
    pub active: u32,
    /// Current reactive demand (var)
    pub reactive: u32,
    /// Maximum demand of the billing period (W)
    pub max_active: u32,
    /// Maximum reactive demand (var)
    pub max_reactive: u32,
    /// Demands of the last periods
    pub sliding_window: [u32; 5],
    /// Next window slot
    pub sliding_pos: usize,
    /// Filled window slots
    pub sliding_count: usize,
    /// Sum of the power samples of this period
    pub period_sum: u64,
    /// Number of samples of this period
    pub period_samples: u32,
    /// Sum of the reactive power magnitudes of this period
    pub reactive_sum: u64,
}

/// Magnitude of a signed 32-bit value.
pub open spec fn magnitude(v: i32) -> int {
    if v < 0 { -v } else { v as int }
}

/// Sum of the first `n` window entries, saturating at `u32::MAX`.
pub open spec fn saturating_sum(w: Seq<u32>, n: int) -> u32
    decreases n,
{
    if n <= 0 {
        0
    } else {
        let s = saturating_sum(w, n - 1);
        if s + w[n - 1] > u32::MAX { u32::MAX } else { (s + w[n - 1]) as u32 }
    }
}

/// A demand calculator at rest: nothing sampled or recorded.
pub open spec fn demand_zero(d: DemandData) -> bool {
    &&& d.active == 0 && d.reactive == 0 && d.max_active == 0 && d.max_reactive == 0
    &&& d.sliding_window@ == seq![0u32, 0u32, 0u32, 0u32, 0u32]
    &&& d.sliding_pos == 0 && d.sliding_count == 0
    &&& d.period_sum == 0 && d.period_samples == 0 && d.reactive_sum == 0
}

/// Whether one more power sample fits the period sums.
pub open spec fn sample_fits(d: DemandData, power: i32, reactive: i32) -> bool {
    &&& d.period_sum + (if power > 0 { power as int } else { 0 }) <= u64::MAX
    &&& d.period_samples < u32::MAX
    &&& d.reactive_sum + magnitude(reactive) <= u64::MAX
}

/// The demand calculator after one power sample: positive active power is
/// summed, the reactive magnitude is summed, the sample is counted.
pub open spec fn demand_after_sample(d: DemandData, power: i32, reactive: i32) -> DemandData {
    DemandData {
        period_sum: (d.period_sum + (if power > 0 { power as int } else { 0 })) as u64,
        period_samples: (d.period_samples + 1) as u32,
        reactive_sum: (d.reactive_sum + magnitude(reactive)) as u64,
        ..d
    }
}

/// `f` is `o` after closing a demand period that returned `r`: with no
/// sample, nothing changes and `r` is 0; otherwise the averages (narrowed
/// to 32 bits) become the current demand, raise the maxima, enter the
/// sliding window at its position, and the period sums restart.
pub open spec fn period_closed(o: DemandData, f: DemandData, r: u32) -> bool {
    if o.period_samples == 0 {
        r == 0 && f == o
    } else {
        let a = (o.period_sum as int / o.period_samples as int) as u32;
        let q = (o.reactive_sum as int / o.period_samples as int) as u32;
        &&& r == a
        &&& f.sliding_window@ == o.sliding_window@.update(o.sliding_pos as int, a)
        &&& f == (DemandData {
            active: a,
            reactive: q,
            max_active: if a > o.max_active { a } else { o.max_active },
            max_reactive: if q > o.max_reactive { q } else { o.max_reactive },
            sliding_window: f.sliding_window,
            sliding_pos: ((o.sliding_pos + 1) % 5) as usize,
            sliding_count: if o.sliding_count < 5 { (o.sliding_count + 1) as usize } else { 5 },
            period_sum: 0,
            period_samples: 0,
            reactive_sum: 0,
        })
    }
}

/// Maximum demand law: closing a demand period never lowers the maximum
/// demands, and the maximum is at least the demand of the period closed.
pub proof fn lemma_max_demand_monotone(o: DemandData, f: DemandData, r: u32)
    requires
        period_closed(o, f, r),
    ensures
        f.max_active >= o.max_active,
        f.max_reactive >= o.max_reactive,
        f.max_active >= r,
{
}

impl Default for DemandData {
    fn default() -> (r: Self)
        ensures
            demand_zero(r),
    {
        let r = DemandData {
            active: 0,
            reactive: 0,
            max_active: 0,
            max_reactive: 0,
            sliding_window: [0, 0, 0, 0, 0],
            sliding_pos: 0,
            sliding_count: 0,
            period_sum: 0,
            period_samples: 0,
            reactive_sum: 0,
        };
        assert(r.sliding_window@ =~= seq![0u32, 0u32, 0u32, 0u32, 0u32]);
        r
    }
}

impl DemandData {
    /// A demand calculator at rest.
    pub fn new() -> (r: Self)
        ensures
            demand_zero(r),
    {
        Self::default()
    }

    /// Record one power sample: positive active power is summed, the
    /// reactive magnitude is summed, the sample is counted.
    pub fn sample(&mut self, power: i32, reactive: i32)
        requires
            sample_fits(*old(self), power, reactive),
        ensures
            *final(self) == demand_after_sample(*old(self), power, reactive),
    {
        if power > 0 {
            self.period_sum = self.period_sum + power as u64;
        }
        self.period_samples = self.period_samples + 1;
        let mag: u64 = if reactive < 0 { (0i64 - reactive as i64) as u64 } else { reactive as u64 };
        self.reactive_sum = self.reactive_sum + mag;
    }

    /// Whether one more power sample fits the period sums.
    pub fn can_sample(&self, power: i32, reactive: i32) -> (r: bool)
        ensures
            r == sample_fits(*self, power, reactive),
    {
        let p: u64 = if power > 0 { power as u64 } else { 0 };
        let mag: u64 = if reactive < 0 { (0i64 - reactive as i64) as u64 } else { reactive as u64 };
        p <= u64::MAX - self.period_sum && self.period_samples < u32::MAX && mag <= u64::MAX - self.reactive_sum
    }

    /// End a demand period: the averages (narrowed to 32 bits) become the
    /// current demand, raise the maxima, enter the sliding window, and the
    /// period sums restart. Returns the active demand (0, with nothing
    /// changed, when nothing was sampled).
    pub fn end_period(&mut self) -> (r: u32)
        requires
            old(self).sliding_pos < 5,
            old(self).sliding_count <= 5,
        ensures
            period_closed(*old(self), *final(self), r),
    {
        if self.period_samples == 0 {
            return 0;
        }
        let avg_active: u32 = (self.period_sum / self.period_samples as u64) as u32;
        let avg_reactive: u32 = (self.reactive_sum / self.period_samples as u64) as u32;
        self.active = avg_active;
        self.reactive = avg_reactive;
        if avg_active > self.max_active {
            self.max_active = avg_active;
        }
        if avg_reactive > self.max_reactive {
            self.max_reactive = avg_reactive;
        }
        self.sliding_window[self.sliding_pos] = avg_active;
        self.sliding_pos = (self.sliding_pos + 1) % DEMAND_SLIDING_N;
        if self.sliding_count < DEMAND_SLIDING_N {
            self.sliding_count = self.sliding_count + 1;
        }
        self.period_sum = 0;
        self.reactive_sum = 0;
        self.period_samples = 0;
        avg_active
    }

    /// Sliding demand: 0 until the window of the last five periods is full,
    /// then the saturating sum of its slots over five.
    pub fn sliding_demand(&self) -> (r: u32)
        requires
            self.sliding_count <= 5,
        ensures
            r == (if self.sliding_count < 5 { 0 } else {
                (saturating_sum(self.sliding_window@, 5) as int / 5) as u32
            }),
    {
        if self.sliding_count < DEMAND_SLIDING_N {
            return 0;
        }
        let mut sum: u32 = 0;
        let mut i: usize = 0;
        while i < 5
            invariant
                i <= 5,
                sum == saturating_sum(self.sliding_window@, i as int),
            decreases 5 - i,
        {
            sum = sum.saturating_add(self.sliding_window[i]);
            i = i + 1;
        }
        sum / 5
    }

    /// Clear the maximum demands (billing day).
    pub fn reset_max_demand(&mut self)
        ensures
            *final(self) == (DemandData { max_active: 0, max_reactive: 0, ..*old(self) }),
    {
        self.max_active = 0;
        self.max_reactive = 0;
    }
}

/* ---------------- harmonics and polling ---------------- */

/// Harmonic measurement of the three phases.
#[derive(Clone, Copy, Debug)]
pub struct HarmonicSnapshot {
    /// Time of capture (s)
    pub timestamp: u32,
    pub phase_a: HarmonicData,
    pub phase_b: HarmonicData,
    pub phase_c: HarmonicData,
    /// The snapshot holds data
    pub valid: bool,
}

impl Default for HarmonicSnapshot {
    fn default() -> (r: Self)
        ensures
            r.timestamp == 0 && !r.valid,
    {
        HarmonicSnapshot {
            timestamp: 0,
            phase_a: HarmonicData::default(),
            phase_b: HarmonicData::default(),
            phase_c: HarmonicData::default(),
            valid: false,
        }
    }
}

/// Polling intervals.
#[derive(Clone, Copy, Debug)]
pub struct PollConfig {
    /// Instantaneous values (ms)
    pub instant_interval_ms: u32,
    /// Energy registers (ms)
    pub energy_interval_ms: u32,
    /// Demand period (s)
    pub demand_interval_sec: u32,
    /// Harmonics (s)
    pub harmonic_interval_sec: u32,
}

impl Default for PollConfig {
    fn default() -> (r: Self)
        ensures
            r.instant_interval_ms == 200 && r.energy_interval_ms == 1000 && r.demand_interval_sec == DEMAND_INTERVAL_SEC
                && r.harmonic_interval_sec == 60,
    {
        PollConfig {
            instant_interval_ms: 200,
            energy_interval_ms: 1000,
            demand_interval_sec: DEMAND_INTERVAL_SEC,
            harmonic_interval_sec: 60,
        }
    }
}

/* ---------------- metering state ---------------- */

/// The integer state of the metering manager: instantaneous values,
/// energy trackers, tariffs, demand and its history, harmonics and the
/// polling schedule. The application owns the chip and the floating-point
/// calibration and hands the readings in.
pub struct MeteringCore {
    pub instant: PhaseData,
    pub tracker_active_import: EnergyTracker,
    pub tracker_active_export: EnergyTracker,
    pub tracker_reactive_import: EnergyTracker,
    pub tracker_reactive_export: EnergyTracker,
    pub tracker_active_import_a: EnergyTracker,
    pub tracker_active_import_b: EnergyTracker,
    pub tracker_active_import_c: EnergyTracker,
    pub tariffs: TariffAccumulators,
    pub last_energy: EnergyData,
    pub demand: DemandData,
    /// Demand of each closed period (at most 96 kept)
    pub demand_history: [u32; 96],
    pub demand_history_len: usize,
    pub harmonics: HarmonicSnapshot,
    pub poll_config: PollConfig,
    pub last_energy_poll_ms: u32,
    pub last_harmonic_poll_ms: u32,
    pub demand_period_start_ms: u32,
    pub supports_harmonics: bool,
    pub supports_power_quality: bool,
    pub last_active_power: i32,
}

/// Accumulated values of the trackers, as energy data.
pub open spec fn energy_of(c: MeteringCore) -> EnergyData {
    EnergyData {
        active_import: c.tracker_active_import.accumulated,
        active_export: c.tracker_active_export.accumulated,
        reactive_import: c.tracker_reactive_import.accumulated,
        reactive_export: c.tracker_reactive_export.accumulated,
        active_import_a: c.tracker_active_import_a.accumulated,
        active_import_b: c.tracker_active_import_b.accumulated,
        active_import_c: c.tracker_active_import_c.accumulated,
    }
}

/// Whether `interval` has passed between `since` and `now` (tick wrap
/// included).
pub open spec fn elapsed(now: u32, since: u32, interval: int) -> bool {
    (if now >= since { now - since } else { now + 0x1_0000_0000 - since }) >= interval
}

impl MeteringCore {
    /// Indices and counters in range.
    pub open spec fn wf(&self) -> bool {
        &&& self.tariffs.current_tariff < 4
        &&& self.demand.sliding_pos < 5
        &&& self.demand.sliding_count <= 5
        &&& self.demand_history_len <= 96
    }

    /// Empty state: no readings, default schedule; `supports_harmonics`
    /// as the chip reports.
    pub fn new(supports_harmonics: bool) -> (r: Self)
        ensures
            r.wf(),
            demand_zero(r.demand),
            r.demand_history_len == 0,
            r.supports_harmonics == supports_harmonics,
            !r.supports_power_quality,
            r.last_active_power == 0,
            r.last_energy_poll_ms == 0 && r.last_harmonic_poll_ms == 0 && r.demand_period_start_ms == 0,
            r.poll_config.energy_interval_ms == 1000,
            r.poll_config.demand_interval_sec == DEMAND_INTERVAL_SEC,
            r.poll_config.harmonic_interval_sec == 60,
            !r.tracker_active_import.initialized && r.tracker_active_import.accumulated == 0,
    {
        MeteringCore {
            instant: PhaseData::default(),
            tracker_active_import: EnergyTracker::new(),
            tracker_active_export: EnergyTracker::new(),
            tracker_reactive_import: EnergyTracker::new(),
            tracker_reactive_export: EnergyTracker::new(),
            tracker_active_import_a: EnergyTracker::new(),
            tracker_active_import_b: EnergyTracker::new(),
            tracker_active_import_c: EnergyTracker::new(),
            tariffs: TariffAccumulators::default(),
            last_energy: EnergyData::default(),
            demand: DemandData::new(),
            demand_history: [0u32; 96],
            demand_history_len: 0,
            harmonics: HarmonicSnapshot::default(),
            poll_config: PollConfig::default(),
            last_energy_poll_ms: 0,
            last_harmonic_poll_ms: 0,
            demand_period_start_ms: 0,
            supports_harmonics,
            supports_power_quality: false,
            last_active_power: 0,
        }
    }

    /// Whether a corrected instantaneous reading can be recorded (its
    /// powers fit the demand sums).
    pub fn can_record_instant(&self, data: &PhaseData) -> (r: bool)
        ensures
            r == sample_fits(self.demand, data.active_power_total, data.reactive_power_total),
    {
        self.demand.can_sample(data.active_power_total, data.reactive_power_total)
    }

    /// Record a corrected instantaneous reading: it is sampled for demand
    /// and kept, with its total active power.
    pub fn record_instant(&mut self, data: PhaseData)
        requires
            sample_fits(old(self).demand, data.active_power_total, data.reactive_power_total),
        ensures
            final(self).demand == demand_after_sample(old(self).demand, data.active_power_total, data.reactive_power_total),
            final(self).instant == data,
            final(self).last_active_power == data.active_power_total,
            final(self).tariffs == old(self).tariffs,
            final(self).demand_history == old(self).demand_history,
            final(self).demand_history_len == old(self).demand_history_len,
            energy_of(*final(self)) == energy_of(*old(self)),
            final(self).last_energy == old(self).last_energy,
    {
        self.demand.sample(data.active_power_total, data.reactive_power_total);
        self.last_active_power = data.active_power_total;
        self.instant = data;
    }

    /// Record an energy reading: each register (low 32 bits) goes through
    /// its tracker, the increments of the four totals go to the current
    /// tariff, and the accumulated energies become the last energy data,
    /// which is returned.
    pub fn record_energy(&mut self, raw: EnergyData) -> (r: EnergyData)
        requires
            old(self).wf(),
        ensures
            final(self).wf(),
            ({
                let o = *old(self);
                let ai = tracker_step(o.tracker_active_import, raw.active_import as u32);
                let ae = tracker_step(o.tracker_active_export, raw.active_export as u32);
                let ri = tracker_step(o.tracker_reactive_import, raw.reactive_import as u32);
                let re = tracker_step(o.tracker_reactive_export, raw.reactive_export as u32);
                let t = o.tariffs.current_tariff as int;
                &&& final(self).tracker_active_import == ai.0
                &&& final(self).tracker_active_export == ae.0
                &&& final(self).tracker_reactive_import == ri.0
                &&& final(self).tracker_reactive_export == re.0
                &&& final(self).tracker_active_import_a == tracker_step(o.tracker_active_import_a, raw.active_import_a as u32).0
                &&& final(self).tracker_active_import_b == tracker_step(o.tracker_active_import_b, raw.active_import_b as u32).0
                &&& final(self).tracker_active_import_c == tracker_step(o.tracker_active_import_c, raw.active_import_c as u32).0
                &&& final(self).tariffs.current_tariff == o.tariffs.current_tariff
                &&& final(self).tariffs.active_import@ == o.tariffs.active_import@.update(t, wrap64(o.tariffs.active_import[t], ai.1))
                &&& final(self).tariffs.active_export@ == o.tariffs.active_export@.update(t, wrap64(o.tariffs.active_export[t], ae.1))
                &&& final(self).tariffs.reactive_import@ == o.tariffs.reactive_import@.update(t, wrap64(o.tariffs.reactive_import[t], ri.1))
                &&& final(self).tariffs.reactive_export@ == o.tariffs.reactive_export@.update(t, wrap64(o.tariffs.reactive_export[t], re.1))
            }),
            final(self).last_energy == energy_of(*final(self)),
            r == final(self).last_energy,
            final(self).demand == old(self).demand,
            final(self).demand_history_len == old(self).demand_history_len,
    {
        let d_ai = self.tracker_active_import.update(raw.active_import as u32);
        let d_ae = self.tracker_active_export.update(raw.active_export as u32);
        let d_ri = self.tracker_reactive_import.update(raw.reactive_import as u32);
        let d_re = self.tracker_reactive_export.update(raw.reactive_export as u32);
        let _d_aia = self.tracker_active_import_a.update(raw.active_import_a as u32);
        let _d_aib = self.tracker_active_import_b.update(raw.active_import_b as u32);
        let _d_aic = self.tracker_active_import_c.update(raw.active_import_c as u32);
        self.tariffs.accumulate(d_ai, d_ae, d_ri, d_re);
        self.last_energy = EnergyData {
            active_import: self.tracker_active_import.accumulated,
            active_export: self.tracker_active_export.accumulated,
            reactive_import: self.tracker_reactive_import.accumulated,
            reactive_export: self.tracker_reactive_export.accumulated,
            active_import_a: self.tracker_active_import_a.accumulated,
            active_import_b: self.tracker_active_import_b.accumulated,
            active_import_c: self.tracker_active_import_c.accumulated,
        };
        self.last_energy
    }

    /// Whether the energy registers are due at `now` (ms).
    pub fn energy_due(&self, now: u32) -> (r: bool)
        ensures
            r == elapsed(now, self.last_energy_poll_ms, self.poll_config.energy_interval_ms as int),
    {
        now.wrapping_sub(self.last_energy_poll_ms) >= self.poll_config.energy_interval_ms
    }

    /// The energy registers were read at `now`.
    pub fn mark_energy_polled(&mut self, now: u32)
        ensures
            *final(self) == (MeteringCore { last_energy_poll_ms: now, ..*old(self) }),
    {
        self.last_energy_poll_ms = now;
    }

    /// Whether the demand period ends at `now` (ms).
    pub fn demand_due(&self, now: u32) -> (r: bool)
        requires
            self.poll_config.demand_interval_sec * 1000 <= u32::MAX,
        ensures
            r == elapsed(now, self.demand_period_start_ms, self.poll_config.demand_interval_sec * 1000),
    {
        now.wrapping_sub(self.demand_period_start_ms) >= self.poll_config.demand_interval_sec * 1000
    }

    /// Close the demand period at `now`: its demand is computed, kept in
    /// the history while there is room, and a new period starts.
    pub fn close_demand_period(&mut self, now: u32) -> (r: u32)
        requires
            old(self).wf(),
        ensures
            final(self).wf(),
            period_closed(old(self).demand, final(self).demand, r),
            old(self).demand_history_len < 96 ==> final(self).demand_history_len == old(self).demand_history_len + 1
                && final(self).demand_history@ == old(self).demand_history@.update(old(self).demand_history_len as int, r),
            old(self).demand_history_len >= 96 ==> final(self).demand_history_len == old(self).demand_history_len
                && final(self).demand_history == old(self).demand_history,
            final(self).demand_period_start_ms == now,
            final(self).tariffs == old(self).tariffs,
            final(self).last_energy == old(self).last_energy,
    {
        let avg = self.demand.end_period();
        if self.demand_history_len < 96 {
            self.demand_history[self.demand_history_len] = avg;
            self.demand_history_len = self.demand_history_len + 1;
        }
        self.demand_period_start_ms = now;
        avg
    }

    /// Whether harmonics are due at `now` (ms): only for a chip that
    /// measures them.
    pub fn harmonics_due(&self, now: u32) -> (r: bool)
        requires
            self.poll_config.harmonic_interval_sec * 1000 <= u32::MAX,
        ensures
            r == (self.supports_harmonics && elapsed(now, self.last_harmonic_poll_ms, self.poll_config.harmonic_interval_sec * 1000)),
    {
        self.supports_harmonics
            && now.wrapping_sub(self.last_harmonic_poll_ms) >= self.poll_config.harmonic_interval_sec * 1000
    }

    /// A harmonics request at `timestamp` (s) for a chip without harmonic
    /// registers: the snapshot is stamped and marked not valid.
    pub fn poll_harmonics(&mut self, timestamp: u32)
        ensures
            *final(self) == (MeteringCore {
                harmonics: HarmonicSnapshot { timestamp, valid: false, ..old(self).harmonics },
                ..*old(self)
            }),
    {
        self.harmonics.timestamp = timestamp;
        self.harmonics.valid = false;
    }

    /// Harmonic readings of the three phases at `timestamp` (s): each one
    /// read replaces its phase; the snapshot is stamped and valid.
    pub fn record_harmonics(&mut self, a: Option<HarmonicData>, b: Option<HarmonicData>, c: Option<HarmonicData>, timestamp: u32)
        ensures
            final(self).harmonics.phase_a == (match a { Some(h) => h, None => old(self).harmonics.phase_a }),
            final(self).harmonics.phase_b == (match b { Some(h) => h, None => old(self).harmonics.phase_b }),
            final(self).harmonics.phase_c == (match c { Some(h) => h, None => old(self).harmonics.phase_c }),
            final(self).harmonics.timestamp == timestamp,
            final(self).harmonics.valid,
            *final(self) == (MeteringCore { harmonics: final(self).harmonics, ..*old(self) }),
    {
        if let Some(h) = a {
            self.harmonics.phase_a = h;
        }
        if let Some(h) = b {
            self.harmonics.phase_b = h;
        }
        if let Some(h) = c {
            self.harmonics.phase_c = h;
        }
        self.harmonics.timestamp = timestamp;
        self.harmonics.valid = true;
    }

    /// Harmonics were read at `now`.
    pub fn mark_harmonics_polled(&mut self, now: u32)
        ensures
            *final(self) == (MeteringCore { last_harmonic_poll_ms: now, ..*old(self) }),
    {
        self.last_harmonic_poll_ms = now;
    }

    /// Total active energy: import plus export (wrapping).
    pub fn accumulated_energy_active(&self) -> (r: u64)
        ensures
            r == wrap64(self.tracker_active_import.accumulated, self.tracker_active_export.accumulated),
    {
        self.tracker_active_import.accumulated.wrapping_add(self.tracker_active_export.accumulated)
    }

    /// Total reactive energy: import plus export (wrapping).
    pub fn accumulated_energy_reactive(&self) -> (r: u64)
        ensures
            r == wrap64(self.tracker_reactive_import.accumulated, self.tracker_reactive_export.accumulated),
    {
        self.tracker_reactive_import.accumulated.wrapping_add(self.tracker_reactive_export.accumulated)
    }

    /// Billing day: the maximum demands are cleared.
    pub fn settlement_reset(&mut self)
        ensures
            *final(self) == (MeteringCore {
                demand: DemandData { max_active: 0, max_reactive: 0, ..old(self).demand },
                ..*old(self)
            }),
    {
        self.demand.reset_max_demand();
    }
}


/* ---------------- energy pulse output ---------------- */

/// Accumulator increment of one pulse period: power (W) times the pulse
/// constant (imp/kWh) over 3 600 000, kept to 32 bits.
pub open spec fn pulse_increment(active_power: u32, constant: u32) -> int {
    ((active_power as int * constant as int) / 3_600_000) % 0x1_0000_0000
}

/// The accumulator does not overflow in this period.
pub open spec fn pulse_step_fits(accum: u32, active_power: u32, constant: u32) -> bool {
    constant == 0 || accum + pulse_increment(active_power, constant) <= u32::MAX
}

/// One period of the active energy pulse output, from the accumulator
/// and the magnitude of the active power: with a pulse constant of 0
/// nothing happens; otherwise the increment is added and every full 1000
/// of the accumulator is one toggle of the pulse output. Returns the new
/// accumulator and the number of toggles.
pub fn pulse_output_step(accum: u32, active_power: u32, constant: u32) -> (r: (u32, u32))
    requires
        pulse_step_fits(accum, active_power, constant),
    ensures
        constant == 0 ==> r == (accum, 0u32),
        constant > 0 ==> r.0 == (accum + pulse_increment(active_power, constant)) % 1000
            && r.1 == (accum + pulse_increment(active_power, constant)) / 1000,
{
    if constant == 0 {
        return (accum, 0);
    }
    assert((active_power as int) * (constant as int) <= 0xFFFF_FFFF * 0xFFFF_FFFF) by (nonlinear_arith)
        requires
            active_power <= 0xFFFF_FFFF,
            constant <= 0xFFFF_FFFF,
    ;
    let prod: u64 = (active_power as u64) * (constant as u64);
    let wide: u64 = prod / 3_600_000;
    let increment: u32 = wide as u32;
    assert(increment == pulse_increment(active_power, constant)) by (bit_vector)
        requires
            increment == wide as u32,
            wide == prod / 3_600_000,
            prod == active_power as u64 * constant as u64,
            pulse_increment(active_power, constant) == ((active_power as int * constant as int) / 3_600_000) % 0x1_0000_0000,
    ;
    let total: u32 = accum + increment;
    (total % 1000, total / 1000)
}

} // verus!
