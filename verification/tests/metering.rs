use femeter::hal::{EnergyData, HarmonicData, PhaseData};
use femeter::metering::{DemandData, EnergyTracker, MeteringCore, TariffAccumulators};

#[test]
fn metering_energy_register_wraps() {
    let mut t = EnergyTracker::new();
    assert_eq!(t.update(0xFFFF_FFF0), 0);
    assert_eq!(t.update(0xFFFF_FFFF), 15);
    assert_eq!(t.update(4), 5);
}

#[test]
fn metering_demand_average_and_max() {
    let mut d = DemandData::new();
    assert_eq!(d.end_period(), 0);
    d.sample(1000, -200);
    d.sample(3000, 200);
    d.sample(-500, 0);
    assert_eq!(d.end_period(), 1333);
    d.sample(500, 0);
    assert_eq!(d.end_period(), 500);
    // the window of five periods is not full yet
    assert_eq!(d.sliding_demand(), 0);
    for _ in 0..3 {
        d.sample(800, 0);
        d.end_period();
    }
    // (1333 + 500 + 800 + 800 + 800) / 5
    assert_eq!(d.sliding_demand(), 846);
}

// ---- metering state ----


fn raw_energy(ai: u64, ae: u64) -> EnergyData {
    let mut e = EnergyData::default();
    e.active_import = ai;
    e.active_export = ae;
    e
}

#[test]
fn metering_first_energy_reading_is_reference() {
    let mut core = MeteringCore::new(false);
    let e = core.record_energy(raw_energy(1000, 50));
    assert_eq!(e.active_import, 0);
    assert_eq!(e.active_export, 0);
    let e = core.record_energy(raw_energy(1300, 70));
    assert_eq!(e.active_import, 300);
    assert_eq!(e.active_export, 20);
    assert_eq!(core.accumulated_energy_active(), 320);
    assert_eq!(core.tariffs.active_import, [300, 0, 0, 0]);
}

#[test]
fn metering_increments_go_to_current_tariff() {
    let mut core = MeteringCore::new(false);
    core.record_energy(raw_energy(0, 0));
    core.record_energy(raw_energy(100, 0));
    core.tariffs.switch_tariff(2);
    core.record_energy(raw_energy(250, 0));
    core.tariffs.switch_tariff(7); // ignored
    core.record_energy(raw_energy(260, 0));
    assert_eq!(core.tariffs.active_import, [100, 0, 160, 0]);
    assert_eq!(core.tariffs.total_active(2), 160);
    assert_eq!(core.tariffs.total_active(9), 0);
}

#[test]
fn metering_register_rollover_keeps_step_with_register() {
    // the accumulated energy advances by the register's advance modulo 2^32
    let mut t = EnergyTracker::new();
    t.update(0xFFFF_FF00);
    t.update(0x0000_0100);
    t.update(0x0000_0300);
    assert_eq!(t.accumulated, 0x300 + 0x100);
    assert_eq!(t.prev_raw, 0x300);
}

#[test]
fn metering_demand_history_and_schedule() {
    let mut core = MeteringCore::new(true);
    let mut p = PhaseData::default();
    p.active_power_total = 2000;
    p.reactive_power_total = -100;
    assert!(core.can_record_instant(&p));
    core.record_instant(p);
    assert_eq!(core.last_active_power, 2000);
    assert!(!core.demand_due(14_999));
    assert!(core.demand_due(15_000));
    assert_eq!(core.close_demand_period(15_000), 2000);
    assert_eq!(core.demand_history_len, 1);
    assert_eq!(core.demand_history[0], 2000);
    assert_eq!(core.demand.max_active, 2000);
    assert!(!core.energy_due(999));
    assert!(core.energy_due(1000));
    core.mark_energy_polled(1000);
    assert!(!core.energy_due(1999));
    assert!(core.harmonics_due(60_000));
    core.settlement_reset();
    assert_eq!(core.demand.max_active, 0);
    assert_eq!(core.demand.active, 2000);
}

#[test]
fn metering_harmonics_without_chip_support() {
    let mut core = MeteringCore::new(false);
    assert!(!core.harmonics_due(60_000));
    core.poll_harmonics(42);
    assert_eq!(core.harmonics.timestamp, 42);
    assert!(!core.harmonics.valid);
    let mut h = HarmonicData::default();
    h.thd = 321;
    core.record_harmonics(Some(h), None, Some(h), 43);
    assert!(core.harmonics.valid);
    assert_eq!(core.harmonics.phase_a.thd, 321);
    assert_eq!(core.harmonics.phase_b.thd, 0);
    assert_eq!(core.harmonics.timestamp, 43);
}

#[test]
fn metering_tariff_defaults() {
    let t = TariffAccumulators::default();
    assert_eq!(t.current_tariff, 0);
    assert_eq!(t.total_reactive(0), 0);
}

#[test]
fn metering_pulse_output_step() {
    // 3 600 000 W at 6400 imp/kWh adds 6400 in a period: six toggles, 400 left
    assert_eq!(femeter::metering::pulse_output_step(0, 3_600_000, 6400), (400, 6));
    assert_eq!(femeter::metering::pulse_output_step(999, 563, 6400), (0, 1));
    assert_eq!(femeter::metering::pulse_output_step(500, 1000, 6400), (501, 0));
    // a pulse constant of 0 turns the output off
    assert_eq!(femeter::metering::pulse_output_step(1234, 5000, 0), (1234, 0));
}
