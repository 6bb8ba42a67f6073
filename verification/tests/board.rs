//! Board configuration, power-on sequence and monitor.

use mujina_miner::board::apollo_iii::{
    aura_config, bring_up_gpios, create_apollo_board, fan_turns, lm75_half_degrees, shutdown,
    ApolloBoardConfig, ApolloBoardMonitor, BoardStep, GpioStep, MonitorAction, MonitorEvent,
    MonitorFault, PwmStep, RailLine, ShutdownStep, WatchdogTiming, DEFAULT_BAUD_INIT,
    DEFAULT_BAUD_MINING, DEFAULT_EXPECTED_CHIPS, DEFAULT_SERIAL_PORT, THERMAL_TRIP_LIMIT,
};
use mujina_miner::hw_trait::{PinMode, PinValue};
use mujina_miner::peripheral::pwm_sysfs::PwmSysfs;

fn var(value: &str) -> Option<String> {
    Some(value.to_string())
}

#[test]
fn config_absent_without_serial_var() {
    assert!(ApolloBoardConfig::from_env(None, var("9600"), None, None).is_none());
}

#[test]
fn config_defaults_when_only_serial_set() {
    let config =
        ApolloBoardConfig::from_env(var("/dev/ttyS4"), None, None, None).expect("configured");
    assert_eq!(config.serial_port, DEFAULT_SERIAL_PORT);
    assert_eq!(config.baud_init, DEFAULT_BAUD_INIT);
    assert_eq!(config.baud_mining, DEFAULT_BAUD_MINING);
    assert_eq!(config.expected_chips, DEFAULT_EXPECTED_CHIPS);
}

#[test]
fn config_parses_explicit_values() {
    let config =
        ApolloBoardConfig::from_env(var("/dev/ttyUSB9"), var("9600"), var("1000000"), var("18"))
            .expect("configured");
    assert_eq!(config.serial_port, "/dev/ttyUSB9");
    assert_eq!(config.baud_init, 9600);
    assert_eq!(config.baud_mining, 1_000_000);
    assert_eq!(config.expected_chips, 18);
}

#[test]
fn empty_serial_var_falls_back_to_default() {
    for blank in ["", "  ", "\t\n", "\u{3000}"] {
        let config = ApolloBoardConfig::from_env(var(blank), None, None, None).expect("configured");
        assert_eq!(config.serial_port, DEFAULT_SERIAL_PORT);
    }
    // A device name is taken as it stands.
    let config = ApolloBoardConfig::from_env(var(" tty "), None, None, None).expect("configured");
    assert_eq!(config.serial_port, " tty ");
}

#[test]
fn numbers_parse_like_the_standard_library() {
    for text in [
        "0", "7", "+7", " 42 ", "\u{a0}42\n", "007", "-7", "+", "", "1_000", "4294967295",
        "4294967296", "99999999999999999999", "0x10", "1 2", "++1", "\u{0661}",
    ] {
        let expected: u32 = text.trim().parse().unwrap_or(DEFAULT_BAUD_INIT);
        let config = ApolloBoardConfig::from_env(var("x"), var(text), None, None).unwrap();
        assert_eq!(config.baud_init, expected, "{text:?}");
        let expected: usize = text.trim().parse().unwrap_or(DEFAULT_EXPECTED_CHIPS);
        let config = ApolloBoardConfig::from_env(var("x"), None, None, var(text)).unwrap();
        assert_eq!(config.expected_chips, expected, "{text:?}");
    }
    for code in (0..0x300u32).chain(0x1600..0x1700).chain(0x2000..0x2100).chain(0x3000..0x3010) {
        if let Some(c) = char::from_u32(code) {
            let text = format!("{c}5{c}");
            let expected: u32 = text.trim().parse().unwrap_or(DEFAULT_BAUD_INIT);
            let config = ApolloBoardConfig::from_env(var("x"), var(&text), None, None).unwrap();
            assert_eq!(config.baud_init, expected, "{text:?}");
        }
    }
}

#[test]
fn bring_up_orders_heartbeat_then_reset_pulse() {
    assert_eq!(
        bring_up_gpios(1_000_000),
        vec![
            GpioStep::Mode(148, PinMode::Output),
            GpioStep::Drive(148, PinValue::High),
            GpioStep::Mode(115, PinMode::Output),
            GpioStep::Drive(115, PinValue::Low),
            GpioStep::Hold(1_000_000),
            GpioStep::Drive(115, PinValue::High),
        ]
    );
}

#[test]
fn power_on_follows_the_boot_contract() {
    let config = ApolloBoardConfig::from_env(var("/dev/ttyS4"), None, None, None).unwrap();
    let steps = create_apollo_board(&config);
    assert_eq!(steps[0], BoardStep::OpenSerial(115_200));
    let position = |step: BoardStep| steps.iter().position(|s| *s == step).unwrap();
    let release = position(BoardStep::Gpio(GpioStep::Drive(115, PinValue::High)));
    let fan = position(BoardStep::Fan(PwmStep::DutyPercent(40)));
    let check = position(BoardStep::CheckFan(1_000_000_000));
    let thread = position(BoardStep::StartThread);
    assert!(release < fan && fan < check && check < thread);
    assert!(steps.contains(&BoardStep::Gpio(GpioStep::Hold(650_000_000))));
    assert!(steps.contains(&BoardStep::Psu(PwmStep::Period(40_000))));
    assert!(!steps.contains(&BoardStep::Psu(PwmStep::Enable)));
    for (i, step) in steps.iter().enumerate() {
        match step {
            BoardStep::Gpio(GpioStep::Drive(line, _)) => assert!(*line == 148 || *line == 115),
            BoardStep::Gpio(GpioStep::Export(138)) => assert!(i > thread),
            BoardStep::Gpio(GpioStep::Mode(138, mode)) => {
                assert!(i > thread);
                assert_eq!(*mode, PinMode::Input);
            }
            BoardStep::Gpio(GpioStep::Export(line) | GpioStep::Mode(line, _)) => {
                assert!(*line == 148 || *line == 115)
            }
            _ => {}
        }
    }
    assert!(steps.contains(&BoardStep::Gpio(GpioStep::Export(138))));
    assert_eq!(steps.last(), Some(&BoardStep::StartMonitor));
}

/// Run one cycle over a thermal-trip level and a temperature, returning what
/// was done to the rail and how the cycle ended.
fn cycle(
    monitor: &mut ApolloBoardMonitor,
    chain_ready: bool,
    now: u64,
    trip: PinValue,
) -> (Vec<&'static str>, MonitorAction) {
    let mut rail = Vec::new();
    let mut action = monitor.monitor_tick(MonitorEvent::Tick { chain_ready });
    loop {
        let event = match action {
            MonitorAction::HoldRail => {
                rail.push("high");
                MonitorEvent::RailHeld { now }
            }
            MonitorAction::DipRail => {
                rail.push("low");
                MonitorEvent::RailDipped { ok: true }
            }
            MonitorAction::Wait(ns) => {
                assert_eq!(ns, monitor.watchdog.dip);
                MonitorEvent::DipOver
            }
            MonitorAction::RestoreRail => {
                rail.push("high");
                MonitorEvent::RailRestored { ok: true, now }
            }
            MonitorAction::ReadTrip => MonitorEvent::TripRead { level: Some(trip) },
            MonitorAction::ReadTemp => MonitorEvent::TempRead { raw: Some(0x5A), now },
            MonitorAction::ControlFan { raw, .. } => {
                assert_eq!(raw, 0x5A);
                MonitorEvent::FanSet { duty: 20, ok: true }
            }
            MonitorAction::Publish { .. } | MonitorAction::Fail(_) => return (rail, action),
        };
        action = monitor.monitor_tick(event);
    }
}

#[test]
fn monitor_does_not_touch_rail_before_chain_ready() {
    let mut monitor = ApolloBoardMonitor::new(WatchdogTiming::default(), 0);
    for i in 1..5 {
        let (rail, _) = cycle(&mut monitor, false, i * 10_000_000_000, PinValue::Low);
        assert!(rail.is_empty());
    }
}

#[test]
fn monitor_holds_rail_and_dips_after_chain_ready() {
    let timing = WatchdogTiming { period: 1_000_000, dip: 1_000_000 };
    let mut monitor = ApolloBoardMonitor::new(timing, 0);
    let (rail, _) = cycle(&mut monitor, true, 10_000_000_000, PinValue::Low);
    assert_eq!(rail, ["high", "low", "high"]);
    // Not due again yet.
    let (rail, _) = cycle(&mut monitor, true, 10_000_999_999, PinValue::Low);
    assert_eq!(rail, ["high"]);
    let (rail, _) = cycle(&mut monitor, true, 10_001_000_000, PinValue::Low);
    assert_eq!(rail, ["high", "low", "high"]);
}

#[test]
fn rail_trouble() {
    let mut monitor = ApolloBoardMonitor::new(WatchdogTiming::default(), 0);
    assert_eq!(
        monitor.monitor_tick(MonitorEvent::RailDipped { ok: false }),
        MonitorAction::Fail(MonitorFault::RailDip)
    );
    assert_eq!(
        monitor.monitor_tick(MonitorEvent::RailRestored { ok: false, now: 5 }),
        MonitorAction::Fail(MonitorFault::RailRestore)
    );
    assert_eq!(
        monitor.monitor_tick(MonitorEvent::TripRead { level: None }),
        MonitorAction::Fail(MonitorFault::TripUnreadable)
    );
    assert_eq!(MonitorFault::RailDip.description(), "failed to dip ASIC rail power");
    assert_eq!(MonitorFault::RailRestore.description(), "failed to restore ASIC rail power");
    assert_eq!(MonitorFault::TripUnreadable.description(), "failed to read thermal trip GPIO");
}

#[test]
fn thermal_trip_escalates_to_emergency_stop() {
    let mut monitor = ApolloBoardMonitor::new(WatchdogTiming::default(), 0);
    // Two trips are tolerated (debounce), the third escalates.
    for _ in 0..THERMAL_TRIP_LIMIT - 1 {
        let (_, end) = cycle(&mut monitor, false, 1, PinValue::High);
        assert!(matches!(end, MonitorAction::Publish { .. }));
    }
    let (_, end) = cycle(&mut monitor, false, 1, PinValue::High);
    assert_eq!(end, MonitorAction::Fail(MonitorFault::TripSustained(3)));
    if let MonitorAction::Fail(fault) = end {
        assert_eq!(fault.description(), "thermal trip sustained for 3 readings");
    }
}

#[test]
fn a_low_reading_starts_the_trip_count_afresh() {
    let mut monitor = ApolloBoardMonitor::new(WatchdogTiming::default(), 0);
    for level in [PinValue::High, PinValue::High, PinValue::Low, PinValue::High, PinValue::High] {
        let (_, end) = cycle(&mut monitor, false, 1, level);
        assert!(matches!(end, MonitorAction::Publish { .. }));
    }
    let (_, end) = cycle(&mut monitor, false, 1, PinValue::High);
    assert!(matches!(end, MonitorAction::Fail(_)));
}

#[test]
fn shutdown_resets_asic_and_drops_rail() {
    assert_eq!(
        shutdown(),
        vec![
            ShutdownStep::SignalThread,
            ShutdownStep::Drive(115, PinValue::Low),
            ShutdownStep::Drive(100, PinValue::Low),
            ShutdownStep::StopFan,
        ]
    );
}

#[test]
fn telemetry_publishes_board_state() {
    let mut monitor = ApolloBoardMonitor::new(WatchdogTiming::default(), 0);
    let (_, end) = cycle(&mut monitor, false, 1_000_000_000, PinValue::Low);
    assert_eq!(end, MonitorAction::Publish { temp: Some(0x5A), fan_percent: Some(20) });
    // A failed temperature read keeps the last duty; a failed write too.
    assert_eq!(
        monitor.monitor_tick(MonitorEvent::TempRead { raw: None, now: 2 }),
        MonitorAction::Publish { temp: None, fan_percent: Some(20) }
    );
    monitor.monitor_tick(MonitorEvent::TempRead { raw: Some(1), now: 2 });
    assert_eq!(
        monitor.monitor_tick(MonitorEvent::FanSet { duty: 90, ok: false }),
        MonitorAction::Publish { temp: Some(1), fan_percent: Some(20) }
    );
}

#[test]
fn fan_loop_sees_the_time_gone_by() {
    let mut monitor = ApolloBoardMonitor::new(WatchdogTiming::default(), 1_000_000_000);
    assert_eq!(
        monitor.monitor_tick(MonitorEvent::TempRead { raw: Some(9), now: 3_500_000_000 }),
        MonitorAction::ControlFan { raw: 9, dt: 2_500_000_000 }
    );
    // Never less than a tenth of a second.
    assert_eq!(
        monitor.monitor_tick(MonitorEvent::TempRead { raw: Some(9), now: 3_500_000_001 }),
        MonitorAction::ControlFan { raw: 9, dt: 100_000_000 }
    );
}

#[test]
fn lm75_temp_decode() {
    // 0x5A = 90 LSB * 0.5 = 45 C; 0x00 = 0 C; 0xFF = -1 * 0.5 = -0.5 C.
    assert!((f32::from(lm75_half_degrees(0x5A)) * 0.5 - 45.0).abs() < 1e-6);
    assert!((f32::from(lm75_half_degrees(0x00)) * 0.5 - 0.0).abs() < 1e-6);
    assert!((f32::from(lm75_half_degrees(0xFF)) * 0.5 + 0.5).abs() < 1e-6);
    for raw in 0..=255u8 {
        assert_eq!(lm75_half_degrees(raw), raw as i8);
    }
}

#[test]
fn watchdog_defaults_are_locked() {
    let timing = WatchdogTiming::default();
    assert_eq!(timing.period, 2_000_000_000);
    assert_eq!(timing.dip, 100_000_000);
}

#[test]
fn rail_line_is_set_up_by_its_first_drive() {
    let mut rail = RailLine::new();
    for _ in 0..2 {
        assert_eq!(
            rail.drive(PinValue::High),
            vec![
                GpioStep::Export(100),
                GpioStep::Mode(100, PinMode::Output),
                GpioStep::Drive(100, PinValue::High),
            ]
        );
    }
    rail.prepared();
    assert_eq!(rail.drive(PinValue::Low), vec![GpioStep::Drive(100, PinValue::Low)]);
}

#[test]
fn a_standing_fan_refuses_asic_work() {
    assert!(fan_turns(1, 2, 1_000_000_000));
    assert!(!fan_turns(0, 2, 1_000_000_000));
    assert!(!fan_turns(77, 0, 1_000_000_000));
    assert!(!fan_turns(77, 2, 0));
}

#[test]
fn the_thread_gets_the_configured_chain() {
    let config = ApolloBoardConfig::from_env(var(""), None, None, var("18")).unwrap();
    let thread = aura_config(&config, 246, Some(PwmSysfs::new(1, 0)));
    assert_eq!(thread.chain.expected_chips, 18);
    assert_eq!(thread.chain.max_passes, 24);
    assert_eq!(thread.chain.pass_pace, 10_800_000_000);
    assert_eq!(thread.ramp_max_pll, 246);
    assert_eq!(thread.psu.unwrap().pwm_dir(), "/sys/class/pwm/pwmchip1/pwm0");
    assert_eq!(thread.heartbeat_interval, 2_100_000_000);
    assert_eq!(thread.ntime_interval, 1_000_000_000);
    assert!(aura_config(&config, 80, None).psu.is_none());
}

#[test]
fn gpio_failures_say_what_was_tried() {
    let texts: Vec<String> = bring_up_gpios(1).iter().map(|step| step.failure("E")).collect();
    assert_eq!(
        texts,
        [
            "failed to configure heartbeat GPIO: E",
            "failed to raise heartbeat GPIO: E",
            "failed to configure reset GPIO: E",
            "failed to assert ASIC reset: E",
            "E",
            "failed to release ASIC reset: E",
        ]
    );
    assert_eq!(GpioStep::Mode(138, PinMode::Input).failure("E"), "E");
    assert_eq!(GpioStep::Export(115).failure("E"), "E");
}
