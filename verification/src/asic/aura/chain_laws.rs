//! What bring-up, the heartbeat and the ramp put on the bus, and how discovery
//! goes on from every state.

use super::chain::{
    bring_up_commands, duty_for, dvfs_init_commands, init_commands, lemma_window_word_halves,
    pll_word, read_command, version_commands, window_lower, window_upper, window_word,
    write_command, ChainConfig,
};
use super::discovery::{
    run, senders, strictly_ascending, sweep_command, DiscoveryAction, DiscoveryEvent, DiscoveryState,
};
use super::dvfs::{
    heartbeat_commands, holds_baseline, psu_duty, ramp_commands, ramp_to, steps_psu, PsuError,
    PsuPurpose, PsuWrite,
};
use super::framing::drain;
use super::protocol::{Command, Register, Response};
use crate::peripheral::pwm_sysfs::{PwmChannel, PwmSysfs};
use crate::text::{decimal_text, joined};
use vstd::prelude::*;

verus! {

/// A register write goes to the chip, register and command word it names and
/// carries its data; a register read addresses one chip and carries none.
pub proof fn lemma_register_access(
    broadcast: bool,
    chip: u8,
    register: Register,
    lcmd: u16,
    data: u32,
)
    ensures
        write_command(broadcast, chip, register, lcmd, data) == (Command::WriteRegister {
            broadcast,
            chip_address: chip,
            register,
            lcmd,
            data,
        }),
        read_command(chip, register, lcmd) == (Command::ReadRegister {
            broadcast: false,
            chip_address: chip,
            register,
            lcmd,
            data: 0,
        }),
{
}

/// Chip `index` of a full chain works in the window of `0xc30` nonces that
/// begins at `0xc30 * index`; its word holds the first nonce in the low half
/// and the last one in the high half.
pub proof fn lemma_window_of_chip(index: int)
    ensures
        window_lower(index) == 0xc30 * index,
        window_upper(index) == 0xc30 * index + 0xc2f,
        0 <= index < 21 ==> window_word(index) == 0xc30 * index + 0x1_0000 * (0xc30 * index
            + 0xc2f),
{
    if 0 <= index < 21 {
        lemma_window_word_halves(index);
    }
}

/// Every chip gets two writes of its own, in the order of the chips: its
/// window to VERSION_BOUND, and 13 to VERSION_SHIFT.
pub proof fn lemma_version_writes(chips: Seq<u8>, k: int)
    requires
        0 <= k < chips.len(),
    ensures
        version_commands(chips).len() == 2 * chips.len(),
        k < 21 ==> version_commands(chips)[2 * k] == (Command::WriteRegister {
            broadcast: false,
            chip_address: chips[k],
            register: Register::VersionBound,
            lcmd: 0x1000,
            data: (0xc30 * k + 0x1_0000 * (0xc30 * k + 0xc2f)) as u32,
        }),
        version_commands(chips)[2 * k] == (Command::WriteRegister {
            broadcast: false,
            chip_address: chips[k],
            register: Register::VersionBound,
            lcmd: 0x1000,
            data: (((0xc30 * k) as u32) | (((0xc30 * k + 0xc2f) as u32) << 16)),
        }),
        version_commands(chips)[2 * k + 1] == (Command::WriteRegister {
            broadcast: false,
            chip_address: chips[k],
            register: Register::VersionShift,
            lcmd: 0x1000,
            data: 13,
        }),
{
    lemma_window_of_chip(k);
    assert((2 * k) / 2 == k && (2 * k) % 2 == 0);
    assert((2 * k + 1) / 2 == k && (2 * k + 1) % 2 == 1);
}

/// A broadcast write of `data` under the ordinary command word.
pub open spec fn to_all(register: Register, data: u32) -> Command {
    Command::WriteRegister { broadcast: true, chip_address: 0, register, lcmd: 0x1000, data }
}

/// Chain init at any PLL N is four broadcasts in this order: PLL_CONFIG,
/// PLL_FREQ with N in its top twelve bits, the duty that goes with that same
/// N (the low one up to and at `5 * N / 4 = 600`), and HASHCONFIG.
pub proof fn lemma_init_writes(pll_n: u32)
    ensures
        init_commands(pll_n).len() == 4,
        init_commands(pll_n)[0] == to_all(Register::PllConfig, 0x0050_2411),
        init_commands(pll_n)[1] == to_all(
            Register::PllFreq,
            ((pll_n % 0x1000) * 0x10_0000) as u32,
        ),
        pll_n <= 480 ==> init_commands(pll_n)[2] == to_all(Register::DutyCycle, 0x8080_0000),
        pll_n > 480 ==> init_commands(pll_n)[2] == to_all(Register::DutyCycle, 0x8088_0000),
        init_commands(pll_n)[3] == to_all(Register::HashConfig, 0x0200_0200),
{
}

/// A ramp step at any PLL N is three broadcasts in this order: PLL_FREQ with N
/// in its top twelve bits, the duty that goes with that same N (the low one up
/// to and at `5 * N / 4 = 600`), and HASHCONFIG.
pub proof fn lemma_ramp_step_writes(pll_n: u32)
    ensures
        ramp_commands(pll_n).len() == 3,
        ramp_commands(pll_n)[0] == to_all(
            Register::PllFreq,
            ((pll_n % 0x1000) * 0x10_0000) as u32,
        ),
        pll_n <= 480 ==> ramp_commands(pll_n)[1] == to_all(Register::DutyCycle, 0x8080_0000),
        pll_n > 480 ==> ramp_commands(pll_n)[1] == to_all(Register::DutyCycle, 0x8088_0000),
        ramp_commands(pll_n)[2] == to_all(Register::HashConfig, 0x0200_0200),
{
}

/// A ramp step to some PLL N leaves the chain as chain init at that same N
/// would: the same three writes close both.
pub proof fn lemma_ramp_step_matches_init(pll_n: u32)
    ensures
        ramp_commands(pll_n) == init_commands(pll_n).skip(1),
{
    assert(ramp_commands(pll_n) =~= init_commands(pll_n).skip(1));
}

/// The duty word never falls back as PLL N rises, and the PLL word of any N
/// below `0x1000` gives that N back.
pub proof fn lemma_ramp_words(a: u32, b: u32)
    ensures
        a <= b && duty_for(a) == 0x8088_0000 ==> duty_for(b) == 0x8088_0000,
        duty_for(a) == 0x8088_0000 <==> 5 * a > 2400,
        duty_for(a) == 0x8080_0000 <==> 5 * a <= 2400,
        a < 0x1000 ==> pll_word(a) / 0x10_0000 == a && pll_word(a) % 0x10_0000 == 0,
{
}

/// Write `i` of the DVFS initial setup: its command word and its data.
pub open spec fn setup_word(i: int) -> (u16, u32) {
    if i == 0 {
        (0x1800, 11_245_000)
    } else if i == 1 || i == 15 {
        (0x1900, 10)
    } else if i == 2 || i == 8 {
        (0x2500, 0x00f0_ff00)
    } else if i == 3 || i == 5 || i == 9 || i == 11 {
        (0x1400, 0x0200_0200)
    } else if i == 4 || i == 10 || i == 14 {
        (0x6800, 0x8080_0000)
    } else if i == 6 {
        (0x1c00, 0x0100_0000)
    } else if i == 7 {
        (0x1d00, 0x0d00_0000)
    } else if i == 12 {
        (0x1900, 5)
    } else if i == 13 || i == 17 {
        (0x2300, 0x4408_0000)
    } else {
        (0x2400, 0)
    }
}

/// The DVFS initial setup is eighteen broadcasts to register 0x81.
pub proof fn lemma_setup_writes(i: int)
    requires
        0 <= i < 18,
    ensures
        dvfs_init_commands().len() == 18,
        dvfs_init_commands()[i] == (Command::WriteRegister {
            broadcast: true,
            chip_address: 0,
            register: Register::Dvfs,
            lcmd: setup_word(i).0,
            data: setup_word(i).1,
        }),
{
}

/// The heartbeat is five broadcasts to register 0x81 under command word
/// `0x1f00`: 2, 3, 1, `0x5074` and 5.
pub proof fn lemma_heartbeat_writes(i: int)
    requires
        0 <= i < 5,
    ensures
        heartbeat_commands().len() == 5,
        heartbeat_commands()[i] == (Command::WriteRegister {
            broadcast: true,
            chip_address: 0,
            register: Register::Dvfs,
            lcmd: 0x1f00,
            data: if i == 0 {
                2
            } else if i == 1 {
                3
            } else if i == 2 {
                1
            } else if i == 3 {
                0x5074
            } else {
                5
            },
        }),
{
}

/// Bring-up is the version writes of all chips, then the DVFS initial setup,
/// then chain init at PLL N 80.
pub proof fn lemma_bring_up_order(chips: Seq<u8>)
    ensures
        bring_up_commands(chips).len() == 2 * chips.len() + 22,
        bring_up_commands(chips).take(2 * chips.len() as int) == version_commands(chips),
        bring_up_commands(chips).subrange(2 * chips.len() as int, 2 * chips.len() as int + 18)
            == dvfs_init_commands(),
        bring_up_commands(chips).skip(2 * chips.len() as int + 18) == init_commands(80),
{
    let all = bring_up_commands(chips);
    let n = 2 * chips.len() as int;
    assert(all.take(n) =~= version_commands(chips));
    assert(all.subrange(n, n + 18) =~= dvfs_init_commands());
    assert(all.skip(n + 18) =~= init_commands(80));
}

/// The ramp to `max_n` begins at 80, climbs by 20 while that stays below the
/// target, and ends on the target, which is `max_n` held between 80 and 491.
pub proof fn lemma_ramp_values(max_n: u32)
    ensures
        ({
            let ramp = ramp_to(max_n);
            let top: int = if max_n < 80 {
                80
            } else if max_n > 491 {
                491
            } else {
                max_n as int
            };
            &&& ramp.len() >= 1
            &&& ramp.last() == top
            &&& forall|i: int| 0 <= i < ramp.len() - 1 ==> #[trigger] ramp[i] == 80 + 20 * i
            &&& forall|i: int| 0 <= i < ramp.len() - 1 ==> #[trigger] ramp[i] < top
            &&& 80 + 20 * (ramp.len() - 1) >= top
        }),
{
}

/// The PSU duty is the largest whole number on or below the line from 20000 at
/// PLL N 80 to 36000 at 491; it stays level outside.
pub proof fn lemma_psu_duty_line(n: u32)
    ensures
        n <= 80 ==> psu_duty(n) == 20_000,
        n >= 491 ==> psu_duty(n) == 36_000,
        80 <= n <= 491 ==> {
            &&& 411 * (psu_duty(n) - 20_000) <= 16_000 * (n - 80)
            &&& 16_000 * (n - 80) < 411 * (psu_duty(n) - 20_000 + 1)
        },
{
}

/// What holding the baseline does: the duty 20000 is written to the channel,
/// and then it is switched on.
pub proof fn lemma_baseline_writes(psu: PwmSysfs, writes: Seq<PsuWrite>)
    requires
        holds_baseline(psu, writes),
    ensures
        writes.len() == 2,
        writes[0].purpose == PsuPurpose::BaselineDuty,
        writes[0].write.path@ == joined(psu@.pwm_dir(), "duty_cycle"@),
        writes[0].write.contents@ == "20000"@,
        writes[1].purpose == PsuPurpose::Enable,
        writes[1].write.path@ == joined(psu@.pwm_dir(), "enable"@),
        writes[1].write.contents@ == "1"@,
{
    reveal_strlit("20000");
    reveal_with_fuel(decimal_text, 6);
    assert(decimal_text(20_000) =~= "20000"@);
}

/// A ramp step writes the duty of that step's own PLL N to the channel, where
/// there is one and it is exported; with no channel it writes nothing; a
/// channel that is not exported is an error.
pub proof fn lemma_psu_step_writes(
    psu: Option<&PwmSysfs>,
    n: u32,
    exported: bool,
    r: Result<Option<PsuWrite>, PsuError>,
)
    requires
        steps_psu(psu, n, exported, r),
    ensures
        psu is None <==> r matches Ok(None),
        psu is Some && exported <==> r matches Ok(Some(_)),
        psu is Some && !exported <==> r is Err,
        psu matches Some(psu) ==> (r matches Ok(Some(step)) ==> {
            &&& step.purpose == PsuPurpose::RampDuty(n)
            &&& step.write.contents@ == decimal_text(psu_duty(n) as nat)
            &&& step.write.path@ == joined(psu@.pwm_dir(), "duty_cycle"@)
        }),
        psu matches Some(psu) ==> (r matches Err(e) ==> e.text@
            == "failed to write PSU duty for PLL N "@ + decimal_text(n as nat) + ": "@ + (
        "Hardware error: "@ + psu@.not_exported())),
{
}

/// What a failed PSU write is reported with.
pub proof fn lemma_psu_contexts(n: u32)
    ensures
        PsuPurpose::BaselineDuty.context() == "failed to write PSU baseline duty: "@,
        PsuPurpose::Enable.context() == "failed to enable PSU PWM: "@,
        PsuPurpose::RampDuty(n).context() == "failed to write PSU duty for PLL N "@ + decimal_text(
            n as nat,
        ) + ": "@,
{
}

/// What a PSU that cannot be written is reported with, whatever was to be
/// done: the purpose, and the hardware error of the channel.
pub proof fn lemma_psu_error_says(error: PsuError, purpose: PsuPurpose, channel: PwmChannel)
    ensures
        error.reports(purpose, channel) <==> error.text@ == purpose.context() + (
        "Hardware error: "@ + channel.not_exported()),
{
}

/// Chips are in ascending order exactly if each is smaller than the next.
pub proof fn lemma_ascending_chips(chips: Seq<u8>)
    ensures
        strictly_ascending(chips) <==> forall|i: int|
            0 < i < chips.len() ==> chips[i - 1] < #[trigger] chips[i],
{
    if forall|i: int| 0 < i < chips.len() ==> chips[i - 1] < #[trigger] chips[i] {
        assert forall|i: int, j: int| 0 <= i < j < chips.len() implies chips[i] < chips[j] by {
            lemma_ascending_between(chips, i, j);
        }
    }
}

proof fn lemma_ascending_between(chips: Seq<u8>, i: int, j: int)
    requires
        forall|k: int| 0 < k < chips.len() ==> chips[k - 1] < #[trigger] chips[k],
        0 <= i < j < chips.len(),
    ensures
        chips[i] < chips[j],
    decreases j - i,
{
    if i + 1 < j {
        lemma_ascending_between(chips, i, j - 1);
    }
    assert(chips[j - 1] < chips[j]);
}

/// The sweep is a broadcast write of zero to register 0x02 under command word
/// `0x1200`.
pub proof fn lemma_sweep()
    ensures
        sweep_command() == (Command::WriteRegister {
            broadcast: true,
            chip_address: 0,
            register: Register::Telemetry,
            lcmd: 0x1200,
            data: 0,
        }),
{
}

/// A chip has sent some of `responses` exactly if one of them is from it.
pub proof fn lemma_senders(responses: Seq<Response>, chip: u8)
    ensures
        senders(responses).contains(chip) <==> exists|i: int|
            0 <= i < responses.len() && #[trigger] responses[i].chip == chip,
{
    let f = |response: Response| response.chip;
    let chips = responses.map_values(f);
    if chips.contains(chip) {
        let i = choose|i: int| 0 <= i < chips.len() && chips[i] == chip;
        assert(responses[i].chip == chip);
    }
    if exists|i: int| 0 <= i < responses.len() && #[trigger] responses[i].chip == chip {
        let i = choose|i: int| 0 <= i < responses.len() && #[trigger] responses[i].chip == chip;
        assert(chips[i] == chip);
    }
}

/// When discovery is ready for the next pass, a pass begins exactly if fewer
/// chips than expected were found and fewer passes than allowed were begun.
/// Otherwise discovery is finished.
pub proof fn lemma_discovery_goes_on(config: ChainConfig, state: DiscoveryState)
    ensures
        ({
            let (next, action) = state.step(config, DiscoveryEvent::Ready);
            let more = state.found.len() < config.expected_chips && state.pass < config.max_passes;
            &&& more ==> action == DiscoveryAction::Sweep && next.pass == state.pass + 1
            &&& !more ==> action == DiscoveryAction::Finish && next.pass == state.pass
            &&& next.found == state.found
            &&& next.rx == state.rx
            &&& next.since == state.since
        }),
{
}

/// Discovery finishes only with all expected chips found or all passes used,
/// whatever happened; and where the bus falls quiet it finishes then.
pub proof fn lemma_discovery_ends(
    config: ChainConfig,
    state: DiscoveryState,
    event: DiscoveryEvent,
)
    ensures
        ({
            let (next, action) = state.step(config, event);
            let over = next.found.len() >= config.expected_chips || next.pass >= config.max_passes;
            &&& action == DiscoveryAction::Finish ==> over
            &&& action is Rest ==> !over
            &&& event is Quiet && over ==> action == DiscoveryAction::Finish
            &&& event is Quiet && !over ==> action is Rest
        }),
{
}

/// How long a pass listens and rests. Within a pass the bus is read for what
/// is left of `pass_drain` since the sweep. When that is used up, or the bus
/// is quiet, the pass rests for what is left of `pass_pace` since the sweep if
/// chips are missing and passes are left, and discovery is finished if not.
pub proof fn lemma_discovery_timing(
    config: ChainConfig,
    state: DiscoveryState,
    event: DiscoveryEvent,
    now: u64,
)
    requires
        match event {
            DiscoveryEvent::Ready => false,
            DiscoveryEvent::SweepSent { now: t } => t == now,
            DiscoveryEvent::Received { now: t, .. } => t == now,
            DiscoveryEvent::Quiet { now: t } => t == now,
        },
    ensures
        ({
            let (next, action) = state.step(config, event);
            let begun: u64 = if event is SweepSent {
                now
            } else {
                state.since
            };
            let gone: int = if now > begun {
                now - begun
            } else {
                0
            };
            let missing = next.found.len() < config.expected_chips;
            &&& next.since == begun
            &&& next.pass == state.pass
            &&& !(event is Quiet) && gone < config.pass_drain ==> action == DiscoveryAction::Read(
                (config.pass_drain - gone) as u64,
            )
            &&& event is Quiet || gone >= config.pass_drain ==> {
                &&& missing && state.pass < config.max_passes && gone < config.pass_pace ==> action
                    == DiscoveryAction::Rest((config.pass_pace - gone) as u64)
                &&& missing && state.pass < config.max_passes && gone >= config.pass_pace ==> action
                    == DiscoveryAction::Rest(0)
                &&& !missing || state.pass >= config.max_passes ==> action
                    == DiscoveryAction::Finish
            }
        }),
{
}

/// What discovery knows after bytes arrived: the chips known before, and every
/// chip with an intact response in what was waiting and what arrived. Nothing
/// else that happens tells it of a chip.
pub proof fn lemma_discovery_enrolls(
    config: ChainConfig,
    state: DiscoveryState,
    event: DiscoveryEvent,
    chip: u8,
)
    ensures
        ({
            let next = state.step(config, event).0;
            match event {
                DiscoveryEvent::Received { chunk, .. } => {
                    let came = drain(state.rx + chunk@);
                    &&& next.found.contains(chip) <==> state.found.contains(chip) || exists|i: int|
                        0 <= i < came.responses.len() && #[trigger] came.responses[i].chip == chip
                    &&& next.rx == came.rest
                },
                _ => next.found == state.found && next.rx == state.rx,
            }
        }),
{
    if let DiscoveryEvent::Received { chunk, .. } = event {
        lemma_senders(drain(state.rx + chunk@).responses, chip);
    }
}

/// A chain that answers short of the expected number is swept until the passes
/// are used up: from every state that discovery can reach, with a chip missing
/// and a pass left, being ready leads to a sweep.
pub proof fn lemma_discovery_persists(config: ChainConfig, events: Seq<DiscoveryEvent>)
    ensures
        ({
            let start = DiscoveryState { found: Set::empty(), rx: Seq::empty(), pass: 0, since: 0 };
            let end = run(config, start, events);
            let action = end.step(config, DiscoveryEvent::Ready).1;
            &&& end.found.len() < config.expected_chips && end.pass < config.max_passes <==> action
                == DiscoveryAction::Sweep
            &&& end.found.len() >= config.expected_chips || end.pass >= config.max_passes
                <==> action == DiscoveryAction::Finish
        }),
{
}

} // verus!
