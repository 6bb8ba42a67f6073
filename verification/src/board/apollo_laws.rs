//! What holds of the board's settings, its power-on sequence and its monitor,
//! for every value and at every step.

use super::apollo_iii::{
    after_readings, conversation, gpio_bring_up, power_on, setting, ApolloBoardMonitor, BoardStep,
    GpioStep, MonitorAction, MonitorEvent, MonitorFault, PwmStep, RailLine,
};
use crate::hw_trait::{PinMode, PinValue};
use crate::text::{
    decimal_text, lemma_decimal_round_trip, lemma_trim_keeps_digits, trimmed, unsigned_value,
};
use vstd::prelude::*;

verus! {

/// A variable that holds a number in its range gives that number back; one
/// that is not set, holds no number or holds one out of range gives the
/// default.
pub proof fn lemma_setting_reads(text: String, n: nat, max: nat, default: nat)
    ensures
        setting(None, max, default) == default,
        text@ == decimal_text(n) && n <= max ==> setting(Some(text), max, default) == n,
        text@ == decimal_text(n) && n > max ==> setting(Some(text), max, default) == default,
        unsigned_value(trimmed(text@)) == Some(n) && n <= max ==> setting(Some(text), max, default)
            == n,
        unsigned_value(trimmed(text@)) == Some(n) && n > max ==> setting(Some(text), max, default)
            == default,
        unsigned_value(trimmed(text@)) is None ==> setting(Some(text), max, default) == default,
        default <= max ==> setting(Some(text), max, default) <= max,
{
    lemma_decimal_round_trip(n);
    lemma_trim_keeps_digits(decimal_text(n));
}

/// GPIO bring-up raises line 148 and then pulses line 115: low, for the given
/// time, and high again. Each line is made an output before it is driven.
pub proof fn lemma_gpio_bring_up_order(pulse_hold: u64)
    ensures
        ({
            let steps = gpio_bring_up(pulse_hold);
            &&& steps.len() == 6
            &&& steps[0] == GpioStep::Mode(148, PinMode::Output)
            &&& steps[1] == GpioStep::Drive(148, PinValue::High)
            &&& steps[2] == GpioStep::Mode(115, PinMode::Output)
            &&& steps[3] == GpioStep::Drive(115, PinValue::Low)
            &&& steps[4] == GpioStep::Hold(pulse_hold)
            &&& steps[5] == GpioStep::Drive(115, PinValue::High)
        }),
{
}

/// Powering on, step by step: the link at the discovery baud; lines 148 and
/// 115; the bring-up with a pulse of 650 ms; the fan at 40 % of a 40 us period,
/// looked at for a second; the PSU channel with its period; I2C bus 3; the
/// thread; line 138 as an input; and the monitor.
pub proof fn lemma_power_on_order(baud_init: u32)
    ensures
        ({
            let steps = power_on(baud_init);
            let pulse = gpio_bring_up(650_000_000);
            &&& steps.len() == 22
            &&& steps[0] == BoardStep::OpenSerial(baud_init)
            &&& steps[1] == BoardStep::Gpio(GpioStep::Export(148))
            &&& steps[2] == BoardStep::Gpio(GpioStep::Export(115))
            &&& forall|i: int| 0 <= i < 6 ==> steps[3 + i] == BoardStep::Gpio(#[trigger] pulse[i])
            &&& steps[9] == BoardStep::Fan(PwmStep::Export)
            &&& steps[10] == BoardStep::Fan(PwmStep::Period(40_000))
            &&& steps[11] == BoardStep::Fan(PwmStep::DutyPercent(40))
            &&& steps[12] == BoardStep::Fan(PwmStep::Enable)
            &&& steps[13] == BoardStep::OpenTach
            &&& steps[14] == BoardStep::CheckFan(1_000_000_000)
            &&& steps[15] == BoardStep::Psu(PwmStep::Export)
            &&& steps[16] == BoardStep::Psu(PwmStep::Period(40_000))
            &&& steps[17] == BoardStep::OpenI2c(3)
            &&& steps[18] == BoardStep::StartThread
            &&& steps[19] == BoardStep::Gpio(GpioStep::Export(138))
            &&& steps[20] == BoardStep::Gpio(GpioStep::Mode(138, PinMode::Input))
            &&& steps[21] == BoardStep::StartMonitor
        }),
{
}

/// What a failed touch of a line is reported with: the bring-up lines by what
/// was to be done to them, every other line and step with the cause alone.
pub proof fn lemma_gpio_contexts(line: u8, mode: PinMode, value: PinValue, ns: u64)
    ensures
        GpioStep::Mode(148, mode).context() == "failed to configure heartbeat GPIO: "@,
        GpioStep::Mode(115, mode).context() == "failed to configure reset GPIO: "@,
        GpioStep::Drive(148, value).context() == "failed to raise heartbeat GPIO: "@,
        GpioStep::Drive(115, PinValue::Low).context() == "failed to assert ASIC reset: "@,
        GpioStep::Drive(115, PinValue::High).context() == "failed to release ASIC reset: "@,
        line != 148 && line != 115 ==> GpioStep::Mode(line, mode).context().len() == 0,
        line != 148 && line != 115 ==> GpioStep::Drive(line, value).context().len() == 0,
        GpioStep::Export(line).context().len() == 0,
        GpioStep::Hold(ns).context().len() == 0,
        GpioStep::Export(line).line() == Some(line),
        GpioStep::Mode(line, mode).line() == Some(line),
        GpioStep::Drive(line, value).line() == Some(line),
        GpioStep::Hold(ns).line() is None,
{
    reveal_strlit("");
}

/// Rail power is line 100. However it stands, the last thing that driving it
/// does is to drive it to the value asked for; it is exported and made an
/// output before that exactly if it was not ready.
pub proof fn lemma_rail_is_driven(rail: RailLine, value: PinValue)
    ensures
        rail.steps(value).last() == GpioStep::Drive(100, value),
        rail.ready ==> rail.steps(value).len() == 1,
        !rail.ready ==> rail.steps(value).len() == 3 && rail.steps(value)[0] == GpioStep::Export(
            100,
        ) && rail.steps(value)[1] == GpioStep::Mode(100, PinMode::Output),
{
}

/// A cycle begins with the rail where the chain is live, and with the thermal
/// trip where it is not.
pub proof fn lemma_cycle_begins(monitor: ApolloBoardMonitor, chain_ready: bool)
    ensures
        monitor.spec_step(MonitorEvent::Tick { chain_ready }) == (
            monitor,
            if chain_ready {
                MonitorAction::HoldRail
            } else {
                MonitorAction::ReadTrip
            },
        ),
{
}

/// The rail is dipped exactly if the watchdog period has gone by since the last
/// dip ended. A clock that stands before that counts as no time gone by.
pub proof fn lemma_when_the_rail_dips(monitor: ApolloBoardMonitor, now: u64)
    ensures
        ({
            let (next, action) = monitor.spec_step(MonitorEvent::RailHeld { now });
            let due = now >= monitor.last_dip + monitor.watchdog.period || monitor.watchdog.period
                == 0;
            &&& next == monitor
            &&& due ==> action == MonitorAction::DipRail
            &&& !due ==> action == MonitorAction::ReadTrip
        }),
{
}

/// A dip lasts for the dip time and ends with the rail restored, from when on
/// the next period counts. A dip or a restore that fails stops the board.
pub proof fn lemma_dip_and_restore(monitor: ApolloBoardMonitor, now: u64)
    ensures
        monitor.spec_step(MonitorEvent::RailDipped { ok: true }) == (
            monitor,
            MonitorAction::Wait(monitor.watchdog.dip),
        ),
        monitor.spec_step(MonitorEvent::RailDipped { ok: false }) == (
            monitor,
            MonitorAction::Fail(MonitorFault::RailDip),
        ),
        monitor.spec_step(MonitorEvent::DipOver) == (monitor, MonitorAction::RestoreRail),
        monitor.spec_step(MonitorEvent::RailRestored { ok: true, now }) == (
            ApolloBoardMonitor { last_dip: now, ..monitor },
            MonitorAction::ReadTrip,
        ),
        monitor.spec_step(MonitorEvent::RailRestored { ok: false, now }) == (
            monitor,
            MonitorAction::Fail(MonitorFault::RailRestore),
        ),
{
}

/// What a thermal-trip reading does: one that fails stops the board; a low one
/// clears the count; a high one adds one to it, and stops the board exactly if
/// that makes three or more.
pub proof fn lemma_trip_reading(monitor: ApolloBoardMonitor)
    ensures
        monitor.spec_step(MonitorEvent::TripRead { level: None }) == (
            monitor,
            MonitorAction::Fail(MonitorFault::TripUnreadable),
        ),
        monitor.spec_step(MonitorEvent::TripRead { level: Some(PinValue::Low) }) == (
            ApolloBoardMonitor { thermal_trip_count: 0, ..monitor },
            MonitorAction::ReadTemp,
        ),
        ({
            let (next, action) = monitor.spec_step(
                MonitorEvent::TripRead { level: Some(PinValue::High) },
            );
            let count = next.thermal_trip_count;
            &&& next == (ApolloBoardMonitor { thermal_trip_count: count, ..monitor })
            &&& monitor.thermal_trip_count < u32::MAX ==> count == monitor.thermal_trip_count + 1
            &&& monitor.thermal_trip_count == u32::MAX ==> count == u32::MAX
            &&& count >= 3 ==> action == MonitorAction::Fail(MonitorFault::TripSustained(count))
            &&& count < 3 ==> action == MonitorAction::ReadTemp
        }),
{
}

/// A temperature that was read goes to the fan loop with the time since the
/// loop last ran, 100 ms at the least; one that was not is published as
/// missing, with the fan as it was last set, and the loop's clock stands still.
pub proof fn lemma_temperature_reading(monitor: ApolloBoardMonitor, byte: u8, now: u64)
    ensures
        monitor.spec_step(MonitorEvent::TempRead { raw: None, now }) == (
            ApolloBoardMonitor { temp: None, ..monitor },
            MonitorAction::Publish { temp: None, fan_percent: monitor.fan_duty_percent },
        ),
        ({
            let (next, action) = monitor.spec_step(
                MonitorEvent::TempRead { raw: Some(byte), now },
            );
            &&& next == (ApolloBoardMonitor { temp: Some(byte), last_tick: now, ..monitor })
            &&& now >= monitor.last_tick + 100_000_000 ==> action == (MonitorAction::ControlFan {
                raw: byte,
                dt: (now - monitor.last_tick) as u64,
            })
            &&& now < monitor.last_tick + 100_000_000 ==> action == (MonitorAction::ControlFan {
                raw: byte,
                dt: 100_000_000,
            })
        }),
{
}

/// What is published after the fan was set: the temperature of this cycle, and
/// the new duty where the write worked, else the old one.
pub proof fn lemma_fan_setting(monitor: ApolloBoardMonitor, duty: u8)
    ensures
        monitor.spec_step(MonitorEvent::FanSet { duty, ok: true }) == (
            ApolloBoardMonitor { fan_duty_percent: Some(duty), ..monitor },
            MonitorAction::Publish { temp: monitor.temp, fan_percent: Some(duty) },
        ),
        monitor.spec_step(MonitorEvent::FanSet { duty, ok: false }) == (
            monitor,
            MonitorAction::Publish { temp: monitor.temp, fan_percent: monitor.fan_duty_percent },
        ),
{
}

/// A cycle that reads a temperature and sets the fan publishes both, whatever
/// was published before.
pub proof fn lemma_cycle_publishes_what_it_read(
    monitor: ApolloBoardMonitor,
    byte: u8,
    now: u64,
    duty: u8,
)
    ensures
        monitor.spec_step(MonitorEvent::TempRead { raw: Some(byte), now }).0.spec_step(
            MonitorEvent::FanSet { duty, ok: true },
        ).1 == (MonitorAction::Publish { temp: Some(byte), fan_percent: Some(duty) }),
{
}

/// What a fault is reported as.
pub proof fn lemma_fault_texts(readings: u32)
    ensures
        MonitorFault::RailDip.text() == "failed to dip ASIC rail power"@,
        MonitorFault::RailRestore.text() == "failed to restore ASIC rail power"@,
        MonitorFault::TripUnreadable.text() == "failed to read thermal trip GPIO"@,
        MonitorFault::TripSustained(readings).text() == "thermal trip sustained for "@
            + decimal_text(readings as nat) + " readings"@,
{
}

/// Steps follow one another: what happens after a run of events is one step
/// from where the run before the last event ended.
pub proof fn lemma_steps_follow(
    monitor: ApolloBoardMonitor,
    events: Seq<MonitorEvent>,
    event: MonitorEvent,
    levels: Seq<PinValue>,
    level: PinValue,
)
    ensures
        conversation(monitor, seq![event]) == monitor.spec_step(event),
        events.len() > 0 ==> conversation(monitor, events.push(event)) == conversation(
            monitor,
            events,
        ).0.spec_step(event),
        after_readings(monitor, levels.push(level)) == after_readings(monitor, levels).spec_step(
            MonitorEvent::TripRead { level: Some(level) },
        ).0,
{
    assert(events.push(event).drop_last() =~= events);
    assert(levels.push(level).drop_last() =~= levels);
}

} // verus!
