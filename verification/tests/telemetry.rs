//! Per-chip counter tracking.

use mujina_miner::asic::aura::protocol::{Register, Response};
use mujina_miner::asic::aura::telemetry::{ChipDeltas, TelemetryTracker, TELEMETRY_REGS};

const SECOND: u64 = 1_000_000_000;

fn response(chip: u8, register: Register, data: u32) -> Response {
    Response { chip, reg: u8::from(register), lcmd: 0x1200, data }
}

fn record_all(tracker: &mut TelemetryTracker, chip: u8, values: [u32; 5]) {
    for (register, data) in TELEMETRY_REGS.into_iter().zip(values) {
        assert!(tracker.record(response(chip, register, data)));
    }
}

#[test]
fn tracker_computes_deltas_across_polls() {
    let mut tracker = TelemetryTracker::new();
    let t0 = 7 * SECOND;

    // First poll: only a reference sample exists, no previous sample.
    tracker.record(response(3, Register::HitCount, 0));
    assert!(tracker.poll(t0).is_empty());

    // Complete first sample; still no deltas (no previous).
    tracker.record(response(3, Register::HitCountPrelim, 0));
    tracker.record(response(3, Register::ClkRef, 0));
    tracker.record(response(3, Register::ClkHash, 0));
    tracker.record(response(3, Register::VoltageAdc, 15_000));
    assert!(tracker.poll(t0).is_empty());

    // Second complete sample 1s later: deltas produce telemetry.
    tracker.record(response(3, Register::HitCount, 1_000_000));
    tracker.record(response(3, Register::HitCountPrelim, 1_250_000));
    tracker.record(response(3, Register::ClkRef, 25));
    tracker.record(response(3, Register::ClkHash, 250));
    tracker.record(response(3, Register::VoltageAdc, 15_000));
    let samples = tracker.poll(t0 + SECOND);
    assert_eq!(samples.len(), 1);
    let s = samples[0];
    assert_eq!(s.chip, 3);
    let secs = s.dt as f64 / 1e9;
    let hashrate_ghs = s.hits as f64 * (1u64 << 32) as f64 / secs / 1e9;
    assert!((hashrate_ghs - 4_294_967.296).abs() < 1e-3);
    let clock_mhz = 2.0 * s.clk_hash as f64 / s.clk_ref as f64 * 25.0;
    assert!((clock_mhz - 500.0).abs() < 1e-9);
    let voltage = f64::from(s.voltage_raw) * 0.000_101_103_5 - 0.276_029;
    assert!((voltage - 1.240_523_5).abs() < 1e-6);
    let engine_health = s.hits as f64 / s.prelim_hits as f64;
    assert!((engine_health - 0.8).abs() < 1e-9);
}

#[test]
fn deltas_are_exact_across_a_counter_wrap() {
    let mut tracker = TelemetryTracker::new();
    record_all(&mut tracker, 9, [u32::MAX - 1, u32::MAX, 5, 0, 1]);
    tracker.poll(SECOND);
    record_all(&mut tracker, 9, [3, 0, 5, 7, 2]);
    assert_eq!(
        tracker.poll(3 * SECOND),
        vec![ChipDeltas {
            chip: 9,
            hits: 5,
            prelim_hits: 1,
            clk_ref: 0,
            clk_hash: 7,
            voltage_raw: 2,
            dt: 2 * SECOND,
        }]
    );
}

#[test]
fn chips_are_reported_in_order() {
    let mut tracker = TelemetryTracker::default();
    for round in 0..2u32 {
        for chip in [200u8, 0, 255, 7] {
            record_all(&mut tracker, chip, [round; 5]);
        }
        let chips: Vec<u8> = tracker.poll(u64::from(round)).iter().map(|d| d.chip).collect();
        if round == 0 {
            assert!(chips.is_empty());
        } else {
            assert_eq!(chips, vec![0, 7, 200, 255]);
        }
    }
}

#[test]
fn partial_samples_carry_over() {
    let mut tracker = TelemetryTracker::new();
    record_all(&mut tracker, 1, [0; 5]);
    tracker.poll(0);
    for register in &TELEMETRY_REGS[..4] {
        tracker.record(response(1, *register, 10));
    }
    assert!(tracker.poll(SECOND).is_empty());
    tracker.record(response(1, Register::VoltageAdc, 11));
    let samples = tracker.poll(2 * SECOND);
    assert_eq!(samples.len(), 1);
    assert_eq!(samples[0].hits, 10);
    assert_eq!(samples[0].dt, 2 * SECOND);
    // A full sample is reported once.
    assert!(tracker.poll(3 * SECOND).is_empty());
}

#[test]
fn other_registers_are_not_stored() {
    let mut tracker = TelemetryTracker::new();
    assert!(!tracker.record(response(1, Register::Telemetry, 1)));
    assert!(!tracker.record(Response { chip: 1, reg: 0xff, lcmd: 0, data: 0 }));
    assert!(tracker.record(response(1, Register::ClkRef, 1)));
}
