//! Apollo III board: configuration, power-on sequence and monitor.
//!
//! Wires the Aura ASIC chain (over `/dev/ttyS4`) to the board power/thermal
//! envelope: GPIO bring-up, rail-power watchdog, fan loop, board temperature
//! and PSU telemetry.
//!
//! Bring-up follows the vendor-proven contract: gpio148 high (heartbeat
//! clock) -> gpio115 reset pulse `0 -> 1` -> discovery sweep. Rail power
//! (gpio100) is not touched before discovery, not even to be exported: it is
//! set up when it is first driven ([`RailLine`]). The thermal-trip input
//! (gpio138) is made an input, so that the monitor can read it from its first
//! cycle on, and nothing more. The rail-power hold and the PSU baseline come
//! only after the chain is live: the thread's post-bring-up hooks run right
//! after discovery, and the board monitor's watchdog gates on the same
//! `chain_ready` latch.

use crate::asic::aura::chain::ChainConfig;
use crate::asic::aura::thread::AuraConfig;
use crate::hw_trait::{PinMode, PinValue};
use crate::peripheral::pwm_sysfs::PwmSysfs;
use crate::text::{
    decimal, decimal_text, parse_unsigned, trim, trimmed, unsigned_up_to,
};
use vstd::prelude::*;
use vstd::string::StringExecFns;

verus! {

/// Default discovery baud rate (8-N-1).
pub const DEFAULT_BAUD_INIT: u32 = 115_200;

/// Default mining baud rate, switched to after discovery.
pub const DEFAULT_BAUD_MINING: u32 = 921_600;

/// Default expected number of Aura chips on the chain.
pub const DEFAULT_EXPECTED_CHIPS: usize = 21;

/// Default serial device for the Aura ASIC link.
pub const DEFAULT_SERIAL_PORT: &'static str = "/dev/ttyS4";

/// GPIO heartbeat-clock line (held high at bring-up).
pub const GPIO_HEARTBEAT: u8 = 148;

/// GPIO ASIC reset line (pulsed `0 -> 1` at bring-up).
pub const GPIO_RESET: u8 = 115;

/// GPIO ASIC rail power: `active_low = 0`, `value = 1` is ON. The monitor
/// holds it high and dips it ~100 ms every 1-4 s as the power-MCU watchdog
/// kick.
pub const GPIO_RAIL_POWER: u8 = 100;

/// GPIO thermal-trip input (fault -> emergency stop).
pub const GPIO_THERMAL_TRIP: u8 = 138;

/// I2C bus for the SIC450 PMBus / board temperature sensor.
pub const APOLLO_I2C_BUS: u8 = 3;

/// Fan PWM chip.
pub const FAN_PWM_CHIP: u32 = 0;

/// Fan PWM channel.
pub const FAN_PWM_CHANNEL: u32 = 0;

/// Fan PWM period in nanoseconds.
pub const FAN_PWM_PERIOD_NS: u64 = 40_000;

/// Safe startup fan duty percent, applied before the control loop takes over.
pub const FAN_SAFE_DUTY_PERCENT: u8 = 40;

/// Tachometer sample window for the startup RPM check, in nanoseconds.
pub const FAN_STARTUP_SAMPLE_WINDOW: u64 = 1_000_000_000;

/// Tachometer sample window used by the monitor loop, in nanoseconds.
pub const FAN_RPM_WINDOW: u64 = 1_000_000_000;

/// PSU PWM chip; its duty drives the SIC450 output voltage.
pub const PSU_PWM_CHIP: u32 = 1;

/// PSU PWM channel.
pub const PSU_PWM_CHANNEL: u32 = 0;

/// PSU PWM period in nanoseconds.
pub const PSU_PWM_PERIOD_NS: u64 = 40_000;

/// Vendor reset-pulse width at bring-up, in nanoseconds.
pub const RESET_PULSE_HOLD: u64 = 650_000_000;

/// Monitor tick cadence, in nanoseconds.
pub const MONITOR_TICK_INTERVAL: u64 = 2_000_000_000;

/// Consecutive thermal-trip readings before the emergency stop.
pub const THERMAL_TRIP_LIMIT: u32 = 3;

/// The least time that the fan loop counts as gone by, in nanoseconds.
pub const MIN_FAN_DT: u64 = 100_000_000;

/// Apollo III link configuration, parsed from environment variables.
///
/// The board is enabled by the *presence* of `MUJINA_APOLLO_SERIAL` (an empty
/// value falls back to [`DEFAULT_SERIAL_PORT`]); the other variables tune the
/// link.
#[derive(Debug)]
pub struct ApolloBoardConfig {
    /// Serial device path for the Aura ASIC link.
    pub serial_port: String,
    /// Discovery baud rate (8-N-1).
    pub baud_init: u32,
    /// Mining baud rate, switched to after discovery.
    pub baud_mining: u32,
    /// Expected number of Aura chips on the chain.
    pub expected_chips: usize,
}

impl Clone for ApolloBoardConfig {
    fn clone(&self) -> (r: Self)
        ensures
            r.serial_port@ == self.serial_port@,
            r.baud_init == self.baud_init,
            r.baud_mining == self.baud_mining,
            r.expected_chips == self.expected_chips,
    {
        ApolloBoardConfig {
            serial_port: self.serial_port.clone(),
            baud_init: self.baud_init,
            baud_mining: self.baud_mining,
            expected_chips: self.expected_chips,
        }
    }
}

/// The number that an environment variable holds, white space around it aside;
/// `default` where it is not set, not a number, or over `max`.
pub open spec fn setting(value: Option<String>, max: nat, default: nat) -> nat {
    match value {
        Some(text) => match unsigned_up_to(trimmed(text@), max) {
            Some(n) => n,
            None => default,
        },
        None => default,
    }
}

/// The number that an environment variable holds.
fn parse_setting(value: &Option<String>, max: u64, default: u64) -> (n: u64)
    requires
        default <= max,
    ensures
        n == setting(*value, max as nat, default as nat),
        n <= max,
{
    match value {
        Some(text) => match parse_unsigned(trim(text.as_str()), max) {
            Some(n) => n,
            None => default,
        },
        None => default,
    }
}

impl ApolloBoardConfig {
    /// Configuration from the values of environment variables, `None` where a
    /// variable is not set.
    ///
    /// The board is configured if and only if `MUJINA_APOLLO_SERIAL` is set.
    ///
    /// - `serial`: `MUJINA_APOLLO_SERIAL`, serial device (presence enables the
    ///   board; a blank value stands for the default device)
    /// - `baud_init`: `MUJINA_APOLLO_BAUD_INIT`, discovery baud (default
    ///   115200)
    /// - `baud_mining`: `MUJINA_APOLLO_BAUD_MINING`, mining baud (default
    ///   921600)
    /// - `expected_chips`: `MUJINA_APOLLO_EXPECTED_CHIPS`, expected chain size
    ///   (default 21)
    pub fn from_env(
        serial: Option<String>,
        baud_init: Option<String>,
        baud_mining: Option<String>,
        expected_chips: Option<String>,
    ) -> (r: Option<Self>)
        ensures
            match r {
                None => serial is None,
                Some(config) => {
                    &&& serial is Some
                    &&& config.serial_port@ == if trimmed(serial->0@).len() == 0 {
                        DEFAULT_SERIAL_PORT@
                    } else {
                        serial->0@
                    }
                    &&& config.baud_init == setting(
                        baud_init,
                        u32::MAX as nat,
                        DEFAULT_BAUD_INIT as nat,
                    )
                    &&& config.baud_mining == setting(
                        baud_mining,
                        u32::MAX as nat,
                        DEFAULT_BAUD_MINING as nat,
                    )
                    &&& config.expected_chips == setting(
                        expected_chips,
                        usize::MAX as nat,
                        DEFAULT_EXPECTED_CHIPS as nat,
                    )
                },
            },
            r matches Some(config) ==> {
                &&& trimmed(serial->0@).len() == 0 ==> config.serial_port@ == "/dev/ttyS4"@
                &&& baud_init is None ==> config.baud_init == 115_200
                &&& baud_mining is None ==> config.baud_mining == 921_600
                &&& expected_chips is None ==> config.expected_chips == 21
            },
    {
        match serial {
            None => None,
            Some(serial_port) => {
                let serial_port = if trim(serial_port.as_str()).is_empty() {
                    String::from_str(DEFAULT_SERIAL_PORT)
                } else {
                    serial_port
                };
                Some(
                    ApolloBoardConfig {
                        serial_port,
                        baud_init: parse_setting(
                            &baud_init,
                            u32::MAX as u64,
                            DEFAULT_BAUD_INIT as u64,
                        ) as u32,
                        baud_mining: parse_setting(
                            &baud_mining,
                            u32::MAX as u64,
                            DEFAULT_BAUD_MINING as u64,
                        ) as u32,
                        expected_chips: parse_setting(
                            &expected_chips,
                            usize::MAX as u64,
                            DEFAULT_EXPECTED_CHIPS as u64,
                        ) as usize,
                    },
                )
            },
        }
    }
}

/// One touch of a GPIO line.
#[derive(Debug, Clone, Copy, PartialEq, Eq, Structural)]
pub enum GpioStep {
    /// Export a line.
    Export(u8),
    /// Set the direction of a line.
    Mode(u8, PinMode),
    /// Drive a line.
    Drive(u8, PinValue),
    /// Wait this many nanoseconds.
    Hold(u64),
}

impl GpioStep {
    /// The line that is touched, if any.
    pub open spec fn line(self) -> Option<u8> {
        match self {
            GpioStep::Export(line) => Some(line),
            GpioStep::Mode(line, _) => Some(line),
            GpioStep::Drive(line, _) => Some(line),
            GpioStep::Hold(_) => None,
        }
    }

    /// What a failure of the step is reported with, before its cause. A step
    /// outside the bring-up reports the cause alone.
    pub open spec fn context(self) -> Seq<char> {
        match self {
            GpioStep::Mode(line, _) => if line == GPIO_HEARTBEAT {
                "failed to configure heartbeat GPIO: "@
            } else if line == GPIO_RESET {
                "failed to configure reset GPIO: "@
            } else {
                ""@
            },
            GpioStep::Drive(line, value) => if line == GPIO_HEARTBEAT {
                "failed to raise heartbeat GPIO: "@
            } else if line == GPIO_RESET {
                match value {
                    PinValue::Low => "failed to assert ASIC reset: "@,
                    PinValue::High => "failed to release ASIC reset: "@,
                }
            } else {
                ""@
            },
            _ => ""@,
        }
    }

    /// What is reported when the step fails for `cause`.
    pub fn failure(&self, cause: &str) -> (text: String)
        ensures
            text@ == self.context() + cause@,
    {
        let context = match *self {
            GpioStep::Mode(line, _) => if line == GPIO_HEARTBEAT {
                "failed to configure heartbeat GPIO: "
            } else if line == GPIO_RESET {
                "failed to configure reset GPIO: "
            } else {
                ""
            },
            GpioStep::Drive(line, value) => if line == GPIO_HEARTBEAT {
                "failed to raise heartbeat GPIO: "
            } else if line == GPIO_RESET {
                match value {
                    PinValue::Low => "failed to assert ASIC reset: ",
                    PinValue::High => "failed to release ASIC reset: ",
                }
            } else {
                ""
            },
            _ => "",
        };
        String::from_str(context).concat(cause)
    }
}

/// The GPIO bring-up sequence.
pub open spec fn gpio_bring_up(pulse_hold: u64) -> Seq<GpioStep> {
    seq![
        GpioStep::Mode(GPIO_HEARTBEAT, PinMode::Output),
        GpioStep::Drive(GPIO_HEARTBEAT, PinValue::High),
        GpioStep::Mode(GPIO_RESET, PinMode::Output),
        GpioStep::Drive(GPIO_RESET, PinValue::Low),
        GpioStep::Hold(pulse_hold),
        GpioStep::Drive(GPIO_RESET, PinValue::High),
    ]
}

/// Vendor-proven GPIO bring-up: heartbeat clock high, then ASIC reset pulse
/// `0 -> 1`. The first step that fails ends it and is reported with
/// [`GpioStep::failure`].
pub fn bring_up_gpios(pulse_hold: u64) -> (steps: Vec<GpioStep>)
    ensures
        steps@ == gpio_bring_up(pulse_hold),
{
    let mut steps: Vec<GpioStep> = Vec::new();
    steps.push(GpioStep::Mode(GPIO_HEARTBEAT, PinMode::Output));
    steps.push(GpioStep::Drive(GPIO_HEARTBEAT, PinValue::High));
    steps.push(GpioStep::Mode(GPIO_RESET, PinMode::Output));
    steps.push(GpioStep::Drive(GPIO_RESET, PinValue::Low));
    steps.push(GpioStep::Hold(pulse_hold));
    steps.push(GpioStep::Drive(GPIO_RESET, PinValue::High));
    assert(steps@ =~= gpio_bring_up(pulse_hold));
    steps
}

/// One touch of a PWM channel.
#[derive(Debug, Clone, Copy, PartialEq, Eq, Structural)]
pub enum PwmStep {
    /// Export the channel.
    Export,
    /// Set the period in nanoseconds.
    Period(u64),
    /// Set the duty as a percentage of the period.
    DutyPercent(u8),
    /// Switch the output on.
    Enable,
}

/// One step of powering the board on. The first that fails ends it.
#[derive(Debug, Clone, Copy, PartialEq, Eq, Structural)]
pub enum BoardStep {
    /// Open the serial link at this baud rate.
    OpenSerial(u32),
    /// Touch a GPIO line.
    Gpio(GpioStep),
    /// Touch the fan PWM channel.
    Fan(PwmStep),
    /// Open the fan tachometer.
    OpenTach,
    /// Count the edges of the fan over this window and refuse to go on unless
    /// it turns ([`fan_turns`]).
    CheckFan(u64),
    /// Touch the PSU PWM channel.
    Psu(PwmStep),
    /// Open this I2C bus for the SIC450.
    OpenI2c(u8),
    /// Start the hash thread ([`aura_config`]).
    StartThread,
    /// Start the board monitor.
    StartMonitor,
}

/// The power-on sequence of a board whose link opens at `baud_init`.
pub open spec fn power_on(baud_init: u32) -> Seq<BoardStep> {
    seq![
        BoardStep::OpenSerial(baud_init),
        BoardStep::Gpio(GpioStep::Export(GPIO_HEARTBEAT)),
        BoardStep::Gpio(GpioStep::Export(GPIO_RESET)),
        BoardStep::Gpio(GpioStep::Mode(GPIO_HEARTBEAT, PinMode::Output)),
        BoardStep::Gpio(GpioStep::Drive(GPIO_HEARTBEAT, PinValue::High)),
        BoardStep::Gpio(GpioStep::Mode(GPIO_RESET, PinMode::Output)),
        BoardStep::Gpio(GpioStep::Drive(GPIO_RESET, PinValue::Low)),
        BoardStep::Gpio(GpioStep::Hold(RESET_PULSE_HOLD)),
        BoardStep::Gpio(GpioStep::Drive(GPIO_RESET, PinValue::High)),
        BoardStep::Fan(PwmStep::Export),
        BoardStep::Fan(PwmStep::Period(FAN_PWM_PERIOD_NS)),
        BoardStep::Fan(PwmStep::DutyPercent(FAN_SAFE_DUTY_PERCENT)),
        BoardStep::Fan(PwmStep::Enable),
        BoardStep::OpenTach,
        BoardStep::CheckFan(FAN_STARTUP_SAMPLE_WINDOW),
        BoardStep::Psu(PwmStep::Export),
        BoardStep::Psu(PwmStep::Period(PSU_PWM_PERIOD_NS)),
        BoardStep::OpenI2c(APOLLO_I2C_BUS),
        BoardStep::StartThread,
        BoardStep::Gpio(GpioStep::Export(GPIO_THERMAL_TRIP)),
        BoardStep::Gpio(GpioStep::Mode(GPIO_THERMAL_TRIP, PinMode::Input)),
        BoardStep::StartMonitor,
    ]
}

/// Power the Apollo III board on: the steps to take, in order.
///
/// Opens the ASIC serial link at the discovery baud, performs the
/// vendor-proven GPIO bring-up (gpio148 high -> gpio115 reset pulse),
/// configures the fan at a safe duty and verifies the tachometer, then hands
/// the Aura chain thread to the scheduler. Discovery itself is lazy (runs on
/// the first job assignment inside the thread).
///
/// The PSU PWM is exported and given its period, but not enabled and not given
/// a duty; the thermal trip gets its direction only, and rail power is left
/// alone.
pub fn create_apollo_board(config: &ApolloBoardConfig) -> (steps: Vec<BoardStep>)
    ensures
        steps@ == power_on(config.baud_init),
{
    let mut steps: Vec<BoardStep> = Vec::new();
    steps.push(BoardStep::OpenSerial(config.baud_init));
    steps.push(BoardStep::Gpio(GpioStep::Export(GPIO_HEARTBEAT)));
    steps.push(BoardStep::Gpio(GpioStep::Export(GPIO_RESET)));
    let gpio = bring_up_gpios(RESET_PULSE_HOLD);
    let mut i: usize = 0;
    while i < gpio.len()
        invariant
            gpio@ == gpio_bring_up(RESET_PULSE_HOLD),
            i <= 6,
            steps@ == power_on(config.baud_init).take(3 + i),
        decreases 6 - i,
    {
        steps.push(BoardStep::Gpio(gpio[i]));
        assert(steps@ =~= power_on(config.baud_init).take(3 + i + 1));
        i = i + 1;
    }
    steps.push(BoardStep::Fan(PwmStep::Export));
    steps.push(BoardStep::Fan(PwmStep::Period(FAN_PWM_PERIOD_NS)));
    steps.push(BoardStep::Fan(PwmStep::DutyPercent(FAN_SAFE_DUTY_PERCENT)));
    steps.push(BoardStep::Fan(PwmStep::Enable));
    steps.push(BoardStep::OpenTach);
    steps.push(BoardStep::CheckFan(FAN_STARTUP_SAMPLE_WINDOW));
    steps.push(BoardStep::Psu(PwmStep::Export));
    steps.push(BoardStep::Psu(PwmStep::Period(PSU_PWM_PERIOD_NS)));
    steps.push(BoardStep::OpenI2c(APOLLO_I2C_BUS));
    steps.push(BoardStep::StartThread);
    steps.push(BoardStep::Gpio(GpioStep::Export(GPIO_THERMAL_TRIP)));
    steps.push(BoardStep::Gpio(GpioStep::Mode(GPIO_THERMAL_TRIP, PinMode::Input)));
    steps.push(BoardStep::StartMonitor);
    assert(steps@ =~= power_on(config.baud_init));
    steps
}

/// The boot contract: powering on touches no GPIO line but the heartbeat, the
/// reset and the thermal trip, and drives only the first two. Rail power is not
/// touched at all. The thermal trip is exported and made an input, once the fan
/// has been checked and the thread started, and nothing else is done to it. The
/// PSU is neither switched on nor given a duty. The fan spins, and is seen to,
/// before the thread starts.
pub proof fn lemma_power_on_keeps_the_boot_contract(baud_init: u32, i: int)
    requires
        0 <= i < power_on(baud_init).len(),
    ensures
        power_on(baud_init)[14] == BoardStep::CheckFan(FAN_STARTUP_SAMPLE_WINDOW),
        power_on(baud_init)[18] == BoardStep::StartThread,
        power_on(baud_init)[i] matches BoardStep::Gpio(step) ==> {
            &&& step.line() != Some(GPIO_RAIL_POWER)
            &&& step.line() matches Some(line) ==> line == GPIO_HEARTBEAT || line == GPIO_RESET
                || line == GPIO_THERMAL_TRIP
            &&& step.line() == Some(GPIO_THERMAL_TRIP) ==> i > 18 && (step == GpioStep::Export(
                GPIO_THERMAL_TRIP,
            ) || step == GpioStep::Mode(GPIO_THERMAL_TRIP, PinMode::Input))
            &&& step matches GpioStep::Drive(line, _) ==> line == GPIO_HEARTBEAT || line
                == GPIO_RESET
        },
        power_on(baud_init)[i] != BoardStep::Psu(PwmStep::Enable),
        !(power_on(baud_init)[i] matches BoardStep::Psu(PwmStep::DutyPercent(_))),
        power_on(baud_init)[i] == BoardStep::StartThread ==> i > 14 && power_on(baud_init)[12]
            == BoardStep::Fan(PwmStep::Enable),
{
}

/// Whether the fan turns: an edge was counted, over a window and with a number
/// of edges per revolution that give a speed at all. Where it does not, ASIC
/// work is refused.
pub fn fan_turns(edges: u64, pulses_per_rev: u32, window: u64) -> (r: bool)
    ensures
        r == (edges > 0 && pulses_per_rev > 0 && window > 0),
{
    edges > 0 && pulses_per_rev > 0 && window > 0
}

/// What the hash thread of the board is started with: the chain size from the
/// configuration, the PLL N at which the ramp stops, the PSU channel that it
/// climbs, and the defaults for the rest.
pub fn aura_config(
    config: &ApolloBoardConfig,
    ramp_max_pll: u32,
    psu: Option<PwmSysfs>,
) -> (r: AuraConfig)
    ensures
        r.chain == (ChainConfig {
            expected_chips: config.expected_chips,
            pass_drain: 3_500_000_000,
            pass_pace: 10_800_000_000,
            max_passes: 24,
        }),
        r.heartbeat_interval == 2_100_000_000,
        r.hit_poll_interval == 200_000_000,
        r.telemetry_interval == 5_000_000_000,
        r.ramp_step_interval == 50_000_000,
        r.ntime_interval == 1_000_000_000,
        r.ramp_max_pll == ramp_max_pll,
        r.psu == psu,
{
    let mut r = AuraConfig::default();
    r.chain.expected_chips = config.expected_chips;
    r.ramp_max_pll = ramp_max_pll;
    r.psu = psu;
    r
}

/// The rail-power line (gpio100).
///
/// It is exported and made an output only when it is first driven, which is
/// once the chain is live or when the board shuts down.
#[derive(Debug, Clone, Copy, PartialEq, Eq, Structural)]
pub struct RailLine {
    /// The line is exported and an output.
    pub ready: bool,
}

impl RailLine {
    /// A line that has not been touched.
    pub fn new() -> (r: Self)
        ensures
            !r.ready,
    {
        RailLine { ready: false }
    }

    /// What driving the line takes, in order. The first step that fails ends
    /// it.
    pub open spec fn steps(self, value: PinValue) -> Seq<GpioStep> {
        if self.ready {
            seq![GpioStep::Drive(GPIO_RAIL_POWER, value)]
        } else {
            seq![
                GpioStep::Export(GPIO_RAIL_POWER),
                GpioStep::Mode(GPIO_RAIL_POWER, PinMode::Output),
                GpioStep::Drive(GPIO_RAIL_POWER, value),
            ]
        }
    }

    /// Drive the line: the steps to take.
    pub fn drive(&self, value: PinValue) -> (steps: Vec<GpioStep>)
        ensures
            steps@ == self.steps(value),
    {
        let mut steps: Vec<GpioStep> = Vec::new();
        if !self.ready {
            steps.push(GpioStep::Export(GPIO_RAIL_POWER));
            steps.push(GpioStep::Mode(GPIO_RAIL_POWER, PinMode::Output));
        }
        steps.push(GpioStep::Drive(GPIO_RAIL_POWER, value));
        assert(steps@ =~= self.steps(value));
        steps
    }

    /// The line is exported and an output.
    pub fn prepared(&mut self)
        ensures
            final(self).ready,
    {
        self.ready = true;
    }
}

/// Per-tick watchdog timing for the ASIC rail-power kick, in nanoseconds.
#[derive(Debug, Clone, Copy, PartialEq, Eq, Structural)]
pub struct WatchdogTiming {
    /// Interval between dips (vendor range: 1-4 s).
    pub period: u64,
    /// Duration the rail is dipped low (~100 ms).
    pub dip: u64,
}

impl Default for WatchdogTiming {
    fn default() -> (r: Self)
        ensures
            r == (WatchdogTiming { period: 2_000_000_000, dip: 100_000_000 }),
    {
        WatchdogTiming { period: 2_000_000_000, dip: 100_000_000 }
    }
}

/// An LM75/TMP-style 1-byte temperature (register 0x00, MSB) in half degrees
/// Celsius: two's complement.
pub fn lm75_half_degrees(raw: u8) -> (r: i8)
    ensures
        r == (if raw < 0x80 {
            raw as int
        } else {
            raw - 0x100
        }),
{
    if raw < 0x80 {
        raw as i8
    } else {
        (raw as i16 - 0x100) as i8
    }
}

/// What happened since the last step of a monitoring cycle. Times are in
/// nanoseconds on a clock that does not run backwards.
#[derive(Debug, Clone, Copy, PartialEq, Eq, Structural)]
pub enum MonitorEvent {
    /// A cycle begins.
    Tick {
        /// Whether the chain is live.
        chain_ready: bool,
    },
    /// Holding the rail high was tried; a failure does not matter.
    RailHeld {
        /// Time now.
        now: u64,
    },
    /// The rail was driven low.
    RailDipped {
        /// Whether that worked.
        ok: bool,
    },
    /// The dip has lasted long enough.
    DipOver,
    /// The rail was driven high again.
    RailRestored {
        /// Whether that worked.
        ok: bool,
        /// Time now.
        now: u64,
    },
    /// The thermal-trip input was read; `None` where that failed.
    TripRead {
        /// Its level.
        level: Option<PinValue>,
    },
    /// The board temperature was read; `None` where that failed.
    TempRead {
        /// The raw byte.
        raw: Option<u8>,
        /// Time now.
        now: u64,
    },
    /// The fan duty was computed and written.
    FanSet {
        /// The duty in percent.
        duty: u8,
        /// Whether the write worked.
        ok: bool,
    },
}

/// What stops the board.
#[derive(Debug, Clone, Copy, PartialEq, Eq, Structural)]
pub enum MonitorFault {
    /// The rail could not be dipped.
    RailDip,
    /// The rail could not be restored after a dip.
    RailRestore,
    /// The thermal-trip input could not be read.
    TripUnreadable,
    /// The thermal trip was asserted for this many readings in a row.
    TripSustained(u32),
}

/// What to do next in a monitoring cycle.
#[derive(Debug, Clone, Copy, PartialEq, Eq, Structural)]
pub enum MonitorAction {
    /// Drive the rail high.
    HoldRail,
    /// Drive the rail low.
    DipRail,
    /// Wait this many nanoseconds.
    Wait(u64),
    /// Drive the rail high again.
    RestoreRail,
    /// Read the thermal-trip input.
    ReadTrip,
    /// Read the board temperature.
    ReadTemp,
    /// Run the fan loop on this temperature and write the duty it gives.
    ControlFan {
        /// The raw temperature byte.
        raw: u8,
        /// Time since the loop last ran, in nanoseconds.
        dt: u64,
    },
    /// Take the other readings and publish telemetry; the cycle ends.
    Publish {
        /// The raw temperature byte of this cycle.
        temp: Option<u8>,
        /// Last commanded fan duty.
        fan_percent: Option<u8>,
    },
    /// Stop the board.
    Fail(MonitorFault),
}

/// The board monitor.
#[derive(Debug, Clone, Copy, PartialEq, Eq, Structural)]
pub struct ApolloBoardMonitor {
    /// Rail watchdog timing.
    pub watchdog: WatchdogTiming,
    /// When the rail was last dipped (or the monitor started).
    pub last_dip: u64,
    /// When the fan loop last ran (or the monitor started).
    pub last_tick: u64,
    /// Last commanded fan duty.
    pub fan_duty_percent: Option<u8>,
    /// Consecutive thermal-trip readings (debounce).
    pub thermal_trip_count: u32,
    /// Raw temperature byte of the current cycle.
    pub temp: Option<u8>,
}

/// `a - b`, or zero where `b` is larger.
pub open spec fn since(a: u64, b: u64) -> u64 {
    if a > b {
        (a - b) as u64
    } else {
        0
    }
}

impl ApolloBoardMonitor {
    /// One step: the next state and what to do.
    pub open spec fn spec_step(self, event: MonitorEvent) -> (ApolloBoardMonitor, MonitorAction) {
        match event {
            MonitorEvent::Tick { chain_ready } => if chain_ready {
                (self, MonitorAction::HoldRail)
            } else {
                (self, MonitorAction::ReadTrip)
            },
            MonitorEvent::RailHeld { now } => if since(now, self.last_dip) >= self.watchdog.period {
                (self, MonitorAction::DipRail)
            } else {
                (self, MonitorAction::ReadTrip)
            },
            MonitorEvent::RailDipped { ok } => if ok {
                (self, MonitorAction::Wait(self.watchdog.dip))
            } else {
                (self, MonitorAction::Fail(MonitorFault::RailDip))
            },
            MonitorEvent::DipOver => (self, MonitorAction::RestoreRail),
            MonitorEvent::RailRestored { ok, now } => if ok {
                (ApolloBoardMonitor { last_dip: now, ..self }, MonitorAction::ReadTrip)
            } else {
                (self, MonitorAction::Fail(MonitorFault::RailRestore))
            },
            MonitorEvent::TripRead { level } => match level {
                None => (self, MonitorAction::Fail(MonitorFault::TripUnreadable)),
                Some(PinValue::Low) => (
                    ApolloBoardMonitor { thermal_trip_count: 0, ..self },
                    MonitorAction::ReadTemp,
                ),
                Some(PinValue::High) => {
                    let count = if self.thermal_trip_count < u32::MAX {
                        (self.thermal_trip_count + 1) as u32
                    } else {
                        u32::MAX
                    };
                    let next = ApolloBoardMonitor { thermal_trip_count: count, ..self };
                    if count >= THERMAL_TRIP_LIMIT {
                        (next, MonitorAction::Fail(MonitorFault::TripSustained(count)))
                    } else {
                        (next, MonitorAction::ReadTemp)
                    }
                },
            },
            MonitorEvent::TempRead { raw, now } => match raw {
                None => (
                    ApolloBoardMonitor { temp: None, ..self },
                    MonitorAction::Publish { temp: None, fan_percent: self.fan_duty_percent },
                ),
                Some(byte) => {
                    let dt = since(now, self.last_tick);
                    (
                        ApolloBoardMonitor { temp: raw, last_tick: now, ..self },
                        MonitorAction::ControlFan {
                            raw: byte,
                            dt: if dt < MIN_FAN_DT {
                                MIN_FAN_DT
                            } else {
                                dt
                            },
                        },
                    )
                },
            },
            MonitorEvent::FanSet { duty, ok } => {
                let next = if ok {
                    ApolloBoardMonitor { fan_duty_percent: Some(duty), ..self }
                } else {
                    self
                };
                (
                    next,
                    MonitorAction::Publish {
                        temp: next.temp,
                        fan_percent: next.fan_duty_percent,
                    },
                )
            },
        }
    }

    /// Start a monitor at time `now`.
    pub fn new(watchdog: WatchdogTiming, now: u64) -> (r: Self)
        ensures
            r == (ApolloBoardMonitor {
                watchdog,
                last_dip: now,
                last_tick: now,
                fan_duty_percent: None,
                thermal_trip_count: 0,
                temp: None,
            }),
    {
        ApolloBoardMonitor {
            watchdog,
            last_dip: now,
            last_tick: now,
            fan_duty_percent: None,
            thermal_trip_count: 0,
            temp: None,
        }
    }

    /// One step of a monitoring cycle.
    ///
    /// - Rail power: once the chain is live, hold gpio100 high and dip it low
    ///   for [`WatchdogTiming::dip`] every [`WatchdogTiming::period`]
    ///   (power-MCU watchdog kick).
    /// - Thermal trip: a sustained `High` on gpio138 escalates to an emergency
    ///   stop.
    /// - Fan: control loop against board temperature, then write the duty.
    /// - Telemetry: fan RPM, board temp, PSU voltage and the thread's
    ///   hashrate/activity.
    pub fn monitor_tick(&mut self, event: MonitorEvent) -> (action: MonitorAction)
        ensures
            (*final(self), action) == old(self).spec_step(event),
    {
        match event {
            MonitorEvent::Tick { chain_ready } => {
                if chain_ready {
                    MonitorAction::HoldRail
                } else {
                    MonitorAction::ReadTrip
                }
            },
            MonitorEvent::RailHeld { now } => {
                if now.saturating_sub(self.last_dip) >= self.watchdog.period {
                    MonitorAction::DipRail
                } else {
                    MonitorAction::ReadTrip
                }
            },
            MonitorEvent::RailDipped { ok } => {
                if ok {
                    MonitorAction::Wait(self.watchdog.dip)
                } else {
                    MonitorAction::Fail(MonitorFault::RailDip)
                }
            },
            MonitorEvent::DipOver => MonitorAction::RestoreRail,
            MonitorEvent::RailRestored { ok, now } => {
                if ok {
                    self.last_dip = now;
                    MonitorAction::ReadTrip
                } else {
                    MonitorAction::Fail(MonitorFault::RailRestore)
                }
            },
            MonitorEvent::TripRead { level } => {
                match level {
                    None => MonitorAction::Fail(MonitorFault::TripUnreadable),
                    Some(PinValue::Low) => {
                        self.thermal_trip_count = 0;
                        MonitorAction::ReadTemp
                    },
                    Some(PinValue::High) => {
                        self.thermal_trip_count = self.thermal_trip_count.saturating_add(1);
                        if self.thermal_trip_count >= THERMAL_TRIP_LIMIT {
                            MonitorAction::Fail(
                                MonitorFault::TripSustained(self.thermal_trip_count),
                            )
                        } else {
                            MonitorAction::ReadTemp
                        }
                    },
                }
            },
            MonitorEvent::TempRead { raw, now } => {
                self.temp = raw;
                match raw {
                    None => MonitorAction::Publish {
                        temp: None,
                        fan_percent: self.fan_duty_percent,
                    },
                    Some(byte) => {
                        let dt: u64 = now.saturating_sub(self.last_tick);
                        self.last_tick = now;
                        MonitorAction::ControlFan {
                            raw: byte,
                            dt: if dt < MIN_FAN_DT {
                                MIN_FAN_DT
                            } else {
                                dt
                            },
                        }
                    },
                }
            },
            MonitorEvent::FanSet { duty, ok } => {
                if ok {
                    self.fan_duty_percent = Some(duty);
                }
                MonitorAction::Publish { temp: self.temp, fan_percent: self.fan_duty_percent }
            },
        }
    }
}

impl MonitorFault {
    /// What is reported of the fault.
    pub open spec fn text(self) -> Seq<char> {
        match self {
            MonitorFault::RailDip => "failed to dip ASIC rail power"@,
            MonitorFault::RailRestore => "failed to restore ASIC rail power"@,
            MonitorFault::TripUnreadable => "failed to read thermal trip GPIO"@,
            MonitorFault::TripSustained(readings) => "thermal trip sustained for "@ + decimal_text(
                readings as nat,
            ) + " readings"@,
        }
    }

    /// What is reported of the fault.
    pub fn description(&self) -> (r: String)
        ensures
            r@ == self.text(),
    {
        match *self {
            MonitorFault::RailDip => String::from_str("failed to dip ASIC rail power"),
            MonitorFault::RailRestore => String::from_str("failed to restore ASIC rail power"),
            MonitorFault::TripUnreadable => String::from_str("failed to read thermal trip GPIO"),
            MonitorFault::TripSustained(readings) => String::from_str(
                "thermal trip sustained for ",
            ).concat(decimal(readings as u64).as_str()).concat(" readings"),
        }
    }
}

/// One step of shutting the board down. Each is taken whether or not the ones
/// before it worked.
#[derive(Debug, Clone, Copy, PartialEq, Eq, Structural)]
pub enum ShutdownStep {
    /// Signal the hash thread.
    SignalThread,
    /// Drive a GPIO line.
    Drive(u8, PinValue),
    /// Switch the fan PWM off.
    StopFan,
}

/// Board shutdown: signal the thread, reset the ASIC, drop the rail and stop
/// the fan. Matches the vendor's own SIGTERM shutdown behavior.
pub fn shutdown() -> (steps: Vec<ShutdownStep>)
    ensures
        steps@ == seq![
            ShutdownStep::SignalThread,
            ShutdownStep::Drive(GPIO_RESET, PinValue::Low),
            ShutdownStep::Drive(GPIO_RAIL_POWER, PinValue::Low),
            ShutdownStep::StopFan,
        ],
{
    let mut steps: Vec<ShutdownStep> = Vec::new();
    steps.push(ShutdownStep::SignalThread);
    steps.push(ShutdownStep::Drive(GPIO_RESET, PinValue::Low));
    steps.push(ShutdownStep::Drive(GPIO_RAIL_POWER, PinValue::Low));
    steps.push(ShutdownStep::StopFan);
    assert(steps@ =~= seq![
        ShutdownStep::SignalThread,
        ShutdownStep::Drive(GPIO_RESET, PinValue::Low),
        ShutdownStep::Drive(GPIO_RAIL_POWER, PinValue::Low),
        ShutdownStep::StopFan,
    ]);
    steps
}

/// `action` drives the rail.
pub open spec fn drives_rail(action: MonitorAction) -> bool {
    action is HoldRail || action is DipRail || action is RestoreRail
}

/// The events that can follow upon an action.
pub open spec fn answers(action: MonitorAction, event: MonitorEvent) -> bool {
    match action {
        MonitorAction::HoldRail => event is RailHeld,
        MonitorAction::DipRail => event is RailDipped,
        MonitorAction::Wait(_) => event is DipOver,
        MonitorAction::RestoreRail => event is RailRestored,
        MonitorAction::ReadTrip => event is TripRead,
        MonitorAction::ReadTemp => event is TempRead,
        MonitorAction::ControlFan { .. } => event is FanSet,
        MonitorAction::Publish { .. } => event is Tick,
        MonitorAction::Fail(_) => false,
    }
}

/// The monitor after `events`, one step each, and what it does last.
pub open spec fn conversation(monitor: ApolloBoardMonitor, events: Seq<MonitorEvent>) -> (
    ApolloBoardMonitor,
    MonitorAction,
)
    decreases events.len(),
{
    if events.len() <= 1 {
        monitor.spec_step(events.last())
    } else {
        conversation(monitor, events.drop_last()).0.spec_step(events.last())
    }
}

/// `events` begin with a cycle, and each is an answer to what the monitor did
/// before it.
pub open spec fn proper(monitor: ApolloBoardMonitor, events: Seq<MonitorEvent>) -> bool
    decreases events.len(),
{
    if events.len() <= 1 {
        events.len() == 1 && events[0] is Tick
    } else {
        proper(monitor, events.drop_last()) && answers(
            conversation(monitor, events.drop_last()).1,
            events.last(),
        )
    }
}

/// The rail is left alone before the chain is live: over any number of cycles
/// that begin while it is not, the monitor drives the rail at no point.
pub proof fn lemma_rail_untouched_before_chain_ready(
    monitor: ApolloBoardMonitor,
    events: Seq<MonitorEvent>,
)
    requires
        proper(monitor, events),
        forall|i: int|
            0 <= i < events.len() ==> (#[trigger] events[i] matches MonitorEvent::Tick {
                chain_ready,
            } ==> !chain_ready),
    ensures
        !drives_rail(conversation(monitor, events).1),
        !(conversation(monitor, events).1 is Wait),
    decreases events.len(),
{
    assert(events.last() == events[events.len() - 1]);
    if events.len() > 1 {
        let head = events.drop_last();
        assert forall|i: int| 0 <= i < head.len() implies (
        #[trigger] head[i] matches MonitorEvent::Tick { chain_ready } ==> !chain_ready) by {
            assert(head[i] == events[i]);
        }
        lemma_rail_untouched_before_chain_ready(monitor, head);
    }
}

/// A dip that was made is always followed by the restore, after the dip time,
/// and by no other touch of the rail in between.
pub proof fn lemma_dip_is_restored(monitor: ApolloBoardMonitor)
    ensures
        ({
            let (m1, a1) = monitor.spec_step(MonitorEvent::RailDipped { ok: true });
            let (m2, a2) = m1.spec_step(MonitorEvent::DipOver);
            &&& a1 == MonitorAction::Wait(monitor.watchdog.dip)
            &&& a2 == MonitorAction::RestoreRail
            &&& m2 == monitor
        }),
{
}

/// Dips are at least the watchdog period apart: the rail is dipped only once
/// that much time has gone by since it was last restored.
pub proof fn lemma_dips_are_spaced(monitor: ApolloBoardMonitor, event: MonitorEvent)
    ensures
        monitor.spec_step(event).1 is DipRail ==> (event matches MonitorEvent::RailHeld { now }
            && since(now, monitor.last_dip) >= monitor.watchdog.period),
{
}

/// How many of the last readings, up to the first `Low` from the end, were
/// `High`.
pub open spec fn trailing_highs(levels: Seq<PinValue>) -> nat
    decreases levels.len(),
{
    if levels.len() == 0 || levels.last() == PinValue::Low {
        0
    } else {
        trailing_highs(levels.drop_last()) + 1
    }
}

/// The monitor after a run of thermal-trip readings, whatever else happens in
/// between.
pub open spec fn after_readings(monitor: ApolloBoardMonitor, levels: Seq<PinValue>) ->
    ApolloBoardMonitor
    decreases levels.len(),
{
    if levels.len() == 0 {
        monitor
    } else {
        after_readings(monitor, levels.drop_last()).spec_step(
            MonitorEvent::TripRead { level: Some(levels.last()) },
        ).0
    }
}

/// The thermal trip is debounced: from a monitor that has counted none, a
/// reading stops the board exactly when it is the third `High` in a row (or a
/// later one); a single `Low` starts the count afresh.
pub proof fn lemma_trip_is_debounced(monitor: ApolloBoardMonitor, levels: Seq<PinValue>)
    requires
        monitor.thermal_trip_count == 0,
        0 < levels.len() <= u32::MAX,
    ensures
        trailing_highs(levels) <= levels.len(),
        after_readings(monitor, levels).thermal_trip_count == trailing_highs(levels),
        (after_readings(monitor, levels.drop_last()).spec_step(
            MonitorEvent::TripRead { level: Some(levels.last()) },
        ).1 is Fail) == (trailing_highs(levels) >= 3),
    decreases levels.len(),
{
    let head = levels.drop_last();
    if head.len() > 0 {
        lemma_trip_is_debounced(monitor, head);
    } else {
        reveal_with_fuel(after_readings, 2);
        reveal_with_fuel(trailing_highs, 2);
    }
}

/// Nothing but a thermal-trip reading changes the count of trips, so it runs
/// on from cycle to cycle.
pub proof fn lemma_only_readings_count(monitor: ApolloBoardMonitor, event: MonitorEvent)
    ensures
        !(event is TripRead) ==> monitor.spec_step(event).0.thermal_trip_count
            == monitor.thermal_trip_count,
{
}

} // verus!
