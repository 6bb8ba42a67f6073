//! Frequency ramp, duty boundary and PSU curve.

use mujina_miner::asic::aura::chain::{
    duty_word, DUTY_GT_600_MHZ, DUTY_LE_600_MHZ, PLL_RAMP_END, PLL_RAMP_START, PLL_RAMP_STEP,
};
use mujina_miner::asic::aura::dvfs::{
    psu_duty_ns_for_pll_n, psu_hold, psu_voltage_step, ramp_steps, ramp_steps_up_to, PsuPurpose,
    RampState, PSU_DUTY_BASELINE_NS, PSU_DUTY_FULL_NS,
};
use mujina_miner::peripheral::pwm_sysfs::PwmSysfs;

#[test]
fn ramp_steps_cover_80_to_491() {
    let steps = ramp_steps();
    // 80, 100, ..., 480 (21 values) plus the final 491.
    assert_eq!(steps.len(), 22);
    assert_eq!(steps[0], 80);
    assert_eq!(steps[1], 100);
    assert_eq!(steps[steps.len() - 2], 480);
    assert_eq!(steps[steps.len() - 1], 491);
    for w in steps.windows(2) {
        let delta = w[1] - w[0];
        assert!(delta == PLL_RAMP_STEP || (w[1] == PLL_RAMP_END && delta == 11));
    }
}

#[test]
fn ramp_state_advances_and_completes() {
    let mut state = RampState::new();
    assert!(!state.done());
    assert_eq!(state.next_step(), Some(80));
    assert_eq!(state.next_step(), Some(100));
    let mut n = 0;
    while state.next_step().is_some() {
        n += 1;
    }
    // 20 remaining steps after the first two.
    assert_eq!(n, 20);
    assert!(state.done());
    assert_eq!(state.next_step(), None);
}

#[test]
fn duty_boundary_at_600_mhz() {
    // fhash(480) = 600 MHz exactly -> low duty; fhash(491) = 613.75 MHz -> high duty.
    assert_eq!(duty_word(480), DUTY_LE_600_MHZ);
    assert_eq!(duty_word(491), DUTY_GT_600_MHZ);
    assert_eq!(duty_word(80), DUTY_LE_600_MHZ);
}

#[test]
fn duty_agrees_with_the_clock_formula_everywhere() {
    for n in (0..2000u32).chain([u32::MAX - 1, u32::MAX]) {
        let mhz = 5.0 * f64::from(n) / 4.0;
        let expected = if mhz <= 600.0 { DUTY_LE_600_MHZ } else { DUTY_GT_600_MHZ };
        assert_eq!(duty_word(n), expected);
    }
}

#[test]
fn ramp_steps_up_to_stops_at_target() {
    // Full rate: identical to the full ramp.
    assert_eq!(ramp_steps_up_to(PLL_RAMP_END), ramp_steps());
    // A target off the step grid ends exactly at the target.
    let steps = ramp_steps_up_to(300);
    assert_eq!(steps[0], 80);
    assert_eq!(steps.last().copied(), Some(300));
    assert!(steps.windows(2).all(|w| {
        let delta = w[1] - w[0];
        delta == PLL_RAMP_STEP || (w[1] == 300 && delta < PLL_RAMP_STEP)
    }));
    // Clamped to the ramp bounds.
    assert_eq!(ramp_steps_up_to(0), vec![80]);
    assert_eq!(ramp_steps_up_to(10_000), ramp_steps());
}

#[test]
fn ramp_steps_off_the_grid() {
    assert_eq!(ramp_steps_up_to(101), vec![80, 100, 101]);
    assert_eq!(ramp_steps_up_to(81), vec![80, 81]);
}

#[test]
fn ramp_state_with_max_pll_completes_early() {
    let mut state = RampState::with_max_pll(300);
    assert_eq!(state.next_step(), Some(80));
    let mut count = 0;
    while state.next_step().is_some() {
        count += 1;
    }
    assert_eq!(count, ramp_steps_up_to(300).len() - 1);
    assert!(state.done());
}

#[test]
fn psu_duty_anchors_and_monotonic() {
    assert_eq!(psu_duty_ns_for_pll_n(PLL_RAMP_START), PSU_DUTY_BASELINE_NS);
    assert_eq!(psu_duty_ns_for_pll_n(PLL_RAMP_END), PSU_DUTY_FULL_NS);
    // Clamped outside the ramp range.
    assert_eq!(psu_duty_ns_for_pll_n(0), PSU_DUTY_BASELINE_NS);
    assert_eq!(psu_duty_ns_for_pll_n(u32::MAX), PSU_DUTY_FULL_NS);
    // Monotonic across the ramp.
    let mut last = 0u64;
    for n in (PLL_RAMP_START..=PLL_RAMP_END).step_by(PLL_RAMP_STEP as usize) {
        let duty = psu_duty_ns_for_pll_n(n);
        assert!(duty >= last, "duty must not fall: {duty} < {last} at N={n}");
        last = duty;
    }
}

#[test]
fn psu_duty_between_the_anchors() {
    // 20000 + (285 - 80) * 16000 / 411 = 27980.53...
    assert_eq!(psu_duty_ns_for_pll_n(285), 27_980);
}

#[test]
fn psu_writes_and_their_failures() {
    let psu = PwmSysfs::with_root("/root".to_string(), 1, 0);
    let writes = psu_hold(Some(&psu), true).unwrap();
    assert_eq!(writes.len(), 2);
    assert_eq!(writes[0].purpose, PsuPurpose::BaselineDuty);
    assert_eq!(writes[0].write.path, "/root/pwmchip1/pwm0/duty_cycle");
    assert_eq!(writes[0].write.contents, "20000");
    assert_eq!(writes[1].purpose, PsuPurpose::Enable);
    assert_eq!(writes[1].write.path, "/root/pwmchip1/pwm0/enable");
    assert_eq!(writes[1].write.contents, "1");
    assert!(psu_hold(None, false).unwrap().is_empty());

    let step = psu_voltage_step(Some(&psu), true, 491).unwrap().unwrap();
    assert_eq!(step.purpose, PsuPurpose::RampDuty(491));
    assert_eq!(step.write.contents, "36000");
    assert!(psu_voltage_step(None, false, 491).unwrap().is_none());

    // A channel that is not exported.
    let missing = "Hardware error: pwm channel 0 is not exported (missing /root/pwmchip1/pwm0)";
    assert_eq!(
        psu_hold(Some(&psu), false).unwrap_err().text,
        format!("failed to write PSU baseline duty: {missing}")
    );
    assert_eq!(
        psu_voltage_step(Some(&psu), false, 80).unwrap_err().text,
        format!("failed to write PSU duty for PLL N 80: {missing}")
    );
    assert_eq!(
        PsuPurpose::Enable.failure("I/O error: x"),
        "failed to enable PSU PWM: I/O error: x"
    );
}
