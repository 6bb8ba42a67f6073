//! Aura DVFS: continuous heartbeat and the post-job frequency ramp.
//!
//! The DVFS heartbeat (every ~2.1 s) writes the five payload words to
//! register 0x81 with lcmd `0x1f00`; `0x5074` is the corrected vendor
//! full-rate payload (not `0x5009`). The ramp raises PLL_FREQ N from 80 to
//! 491 in +20 steps (~25 MHz each, ~50 ms apart), rewriting DUTY_CYCLE and
//! HASHCONFIG on every step. The ramp only runs once pool work is live on the
//! chips; the thread gates it accordingly.
//!
//! The board-level PSU voltage climb is wired here: an injected [`PwmSysfs`]
//! channel (pwmchip1/pwm0 on Apollo III) gets the baseline 5.0 V duty from
//! [`psu_hold`] once the chain is live, then one duty step per ramp step from
//! [`psu_voltage_step`].

use super::chain::{
    duty_for, duty_word, pll_word, rewrites_hashconfig, write_command, write_reg,
    HASHCONFIG_VALUE, PLL_RAMP_END, PLL_RAMP_START, PLL_RAMP_STEP, REG_LCMD,
};
use super::protocol::{
    all_on_wire, lemma_all_on_wire_push, lemma_on_wire_len, on_wire, pll_freq_word, Command,
    Register,
};
use crate::buffer::{buffered, has_room};
use crate::hw_trait::sysfs::SysfsWrite;
use crate::hw_trait::HwError;
use crate::peripheral::pwm_sysfs::{PwmChannel, PwmSysfs};
use crate::text::{decimal, decimal_text, joined};
use bytes::BytesMut;
use vstd::prelude::*;
use vstd::string::StringExecFns;

verus! {

/// Low-level command word for the DVFS heartbeat.
pub const DVFS_HEARTBEAT_LCMD: u16 = 0x1f00;

/// The heartbeat payload: `0x5074` is the corrected vendor full-rate word.
pub const DVFS_HEARTBEAT_PAYLOAD: [u32; 5] = [0x02, 0x03, 0x01, 0x5074, 0x05];

/// Interval between DVFS heartbeats, in nanoseconds.
pub const HEARTBEAT_INTERVAL: u64 = 2_100_000_000;

/// Interval between ramp steps, in nanoseconds.
pub const RAMP_STEP_INTERVAL: u64 = 50_000_000;

/// Baseline PSU PWM duty (ns) held once the chain is live (~5.0 V on
/// Apollo III; vendor anchor).
pub const PSU_DUTY_BASELINE_NS: u64 = 20_000;

/// PSU PWM duty (ns) at full rate (~6.1 V on Apollo III; vendor anchor).
pub const PSU_DUTY_FULL_NS: u64 = 36_000;

/// The heartbeat as broadcast commands.
pub open spec fn heartbeat_commands() -> Seq<Command> {
    Seq::new(
        5,
        |i: int|
            write_command(
                true,
                0,
                Register::Dvfs,
                DVFS_HEARTBEAT_LCMD,
                DVFS_HEARTBEAT_PAYLOAD@[i],
            ),
    )
}

/// Send one DVFS heartbeat: the five payload words to reg 0x81 (broadcast).
pub fn heartbeat(writer: &mut BytesMut)
    requires
        has_room(*old(writer), 180),
    ensures
        buffered(*final(writer)) == buffered(*old(writer)) + all_on_wire(heartbeat_commands()),
{
    let ghost start = buffered(*writer);
    let payload: [u32; 5] = DVFS_HEARTBEAT_PAYLOAD;
    let mut i: usize = 0;
    assert(heartbeat_commands().take(0) =~= Seq::<Command>::empty());
    assert(start + Seq::<u8>::empty() =~= start);
    while i < 5
        invariant
            i <= 5,
            payload == DVFS_HEARTBEAT_PAYLOAD,
            2 * (start.len() + 180) <= isize::MAX,
            buffered(*writer) == start + all_on_wire(heartbeat_commands().take(i as int)),
        decreases 5 - i,
    {
        let ghost done = heartbeat_commands().take(i as int);
        let ghost next = heartbeat_commands()[i as int];
        proof {
            lemma_on_wire_len(done);
            lemma_all_on_wire_push(done, next);
            assert(heartbeat_commands().take(i + 1) =~= done.push(next));
        }
        write_reg(writer, true, 0x00, Register::Dvfs, DVFS_HEARTBEAT_LCMD, payload[i]);
        assert(start + all_on_wire(done) + on_wire(next) =~= start + (all_on_wire(done) + on_wire(
            next,
        )));
        i = i + 1;
    }
    assert(heartbeat_commands().take(5) =~= heartbeat_commands());
}

/// `n` brought into the ramp's range.
pub open spec fn clamped_pll(n: u32) -> u32 {
    if n < PLL_RAMP_START {
        PLL_RAMP_START
    } else if n > PLL_RAMP_END {
        PLL_RAMP_END
    } else {
        n
    }
}

/// How many ramp steps lie below `max_n`, itself in range.
pub open spec fn steps_below(max_n: u32) -> nat {
    ((max_n - PLL_RAMP_START + PLL_RAMP_STEP - 1) / PLL_RAMP_STEP as int) as nat
}

/// The ramp that stops at `max_n`, brought into range: up from 80 in steps of
/// 20 for as long as that stays below the target, then the target itself.
pub open spec fn ramp_to(max_n: u32) -> Seq<u32> {
    let top = clamped_pll(max_n);
    Seq::new(
        steps_below(top) + 1,
        |i: int|
            if i < steps_below(top) {
                (PLL_RAMP_START + PLL_RAMP_STEP * i) as u32
            } else {
                top
            },
    )
}

/// `n` brought into the ramp's range.
pub fn clamp_pll(n: u32) -> (r: u32)
    ensures
        r == clamped_pll(n),
{
    if n < PLL_RAMP_START {
        PLL_RAMP_START
    } else if n > PLL_RAMP_END {
        PLL_RAMP_END
    } else {
        n
    }
}

/// PLL N dividers for the frequency ramp: `80, 100, ..., 480, 491`.
pub fn ramp_steps() -> (steps: Vec<u32>)
    ensures
        steps@ == ramp_to(PLL_RAMP_END),
{
    ramp_steps_up_to(PLL_RAMP_END)
}

/// PLL N dividers for a ramp that stops at `max_n` (clamped to the
/// [`PLL_RAMP_START`]..=[`PLL_RAMP_END`] range): `80, 100, ...` in
/// [`PLL_RAMP_STEP`] increments, ending exactly at `max_n` even when it is
/// not on the step grid (mirroring how the full ramp ends at 491).
pub fn ramp_steps_up_to(max_n: u32) -> (steps: Vec<u32>)
    ensures
        steps@ == ramp_to(max_n),
{
    let top: u32 = clamp_pll(max_n);
    let mut steps: Vec<u32> = Vec::new();
    let mut n: u32 = PLL_RAMP_START;
    while n < top
        invariant
            PLL_RAMP_START <= n <= top <= PLL_RAMP_END,
            steps@.len() <= steps_below(top),
            n == (if steps@.len() < steps_below(top) {
                PLL_RAMP_START + PLL_RAMP_STEP * steps@.len()
            } else {
                top as int
            }),
            forall|i: int|
                0 <= i < steps@.len() ==> #[trigger] steps@[i] == PLL_RAMP_START + PLL_RAMP_STEP
                    * i,
        decreases top - n,
    {
        steps.push(n);
        n = if n + PLL_RAMP_STEP < top {
            n + PLL_RAMP_STEP
        } else {
            top
        };
    }
    steps.push(top);
    assert(steps@ =~= ramp_to(max_n));
    steps
}

/// Every ramp starts at 80, ends exactly at its target brought into range,
/// and rises on the way, by 20 each time and by at most 20 at the end.
pub proof fn lemma_ramp_shape(max_n: u32)
    ensures
        ramp_to(max_n).len() >= 1,
        ramp_to(max_n)[0] == PLL_RAMP_START,
        ramp_to(max_n).last() == clamped_pll(max_n),
        forall|i: int, j: int|
            0 <= i < j < ramp_to(max_n).len() ==> ramp_to(max_n)[i] < ramp_to(max_n)[j],
        forall|i: int|
            0 <= i < ramp_to(max_n).len() - 1 ==> (#[trigger] ramp_to(max_n)[i + 1])
                - ramp_to(max_n)[i] <= PLL_RAMP_STEP,
        forall|i: int|
            0 <= i < ramp_to(max_n).len() - 2 ==> (#[trigger] ramp_to(max_n)[i + 1])
                - ramp_to(max_n)[i] == PLL_RAMP_STEP,
{
}

/// The full ramp has 22 steps, `480` and `491` the last.
pub proof fn lemma_full_ramp()
    ensures
        ramp_to(PLL_RAMP_END).len() == 22,
        ramp_to(PLL_RAMP_END)[20] == 480,
        ramp_to(PLL_RAMP_END)[21] == 491,
{
}

/// The PSU duty for a PLL N divider: on the line between the anchors, rounded
/// down.
pub open spec fn psu_duty(pll_n: u32) -> int {
    PSU_DUTY_BASELINE_NS + (clamped_pll(pll_n) - PLL_RAMP_START) * (PSU_DUTY_FULL_NS
        - PSU_DUTY_BASELINE_NS) / (PLL_RAMP_END - PLL_RAMP_START)
}

/// PSU PWM duty (ns) for a PLL N divider: linear between the vendor anchors
/// `20000` (~5.0 V) at the ramp start and `36000` (~6.1 V) at full rate. The
/// anchors are vendor-verified; the linear curve between them is an
/// assumption to confirm on device.
pub fn psu_duty_ns_for_pll_n(pll_n: u32) -> (duty: u64)
    ensures
        duty == psu_duty(pll_n),
{
    let n: u64 = clamp_pll(pll_n) as u64;
    let span_n: u64 = PLL_RAMP_END as u64 - PLL_RAMP_START as u64;
    let rise: u64 = PSU_DUTY_FULL_NS - PSU_DUTY_BASELINE_NS;
    PSU_DUTY_BASELINE_NS + (n - PLL_RAMP_START as u64) * rise / span_n
}

/// The PSU duty meets both anchors, never leaves the range between them, and
/// never falls as PLL N rises.
pub proof fn lemma_psu_duty_monotone(a: u32, b: u32)
    ensures
        psu_duty(PLL_RAMP_START) == PSU_DUTY_BASELINE_NS,
        psu_duty(PLL_RAMP_END) == PSU_DUTY_FULL_NS,
        PSU_DUTY_BASELINE_NS <= psu_duty(a) <= PSU_DUTY_FULL_NS,
        a <= b ==> psu_duty(a) <= psu_duty(b),
{
}

/// What a write to the PSU channel is for.
#[derive(Debug, Clone, Copy, PartialEq, Eq, Structural)]
pub enum PsuPurpose {
    /// Set the baseline duty.
    BaselineDuty,
    /// Switch the output on.
    Enable,
    /// Set the duty for this PLL N.
    RampDuty(u32),
}

impl PsuPurpose {
    /// What a failure of the write is reported with, before its cause.
    pub open spec fn context(self) -> Seq<char> {
        match self {
            PsuPurpose::BaselineDuty => "failed to write PSU baseline duty: "@,
            PsuPurpose::Enable => "failed to enable PSU PWM: "@,
            PsuPurpose::RampDuty(pll_n) => "failed to write PSU duty for PLL N "@ + decimal_text(
                pll_n as nat,
            ) + ": "@,
        }
    }

    /// What is reported when the write fails for `cause`.
    pub fn failure(&self, cause: &str) -> (text: String)
        ensures
            text@ == self.context() + cause@,
    {
        match *self {
            PsuPurpose::BaselineDuty => String::from_str(
                "failed to write PSU baseline duty: ",
            ).concat(cause),
            PsuPurpose::Enable => String::from_str("failed to enable PSU PWM: ").concat(cause),
            PsuPurpose::RampDuty(pll_n) => String::from_str(
                "failed to write PSU duty for PLL N ",
            ).concat(decimal(pll_n as u64).as_str()).concat(": ").concat(cause),
        }
    }
}

/// A write to the PSU channel and what it is for.
#[derive(Debug)]
pub struct PsuWrite {
    /// What it is for.
    pub purpose: PsuPurpose,
    /// The write.
    pub write: SysfsWrite,
}

/// A PSU channel that cannot be written.
#[derive(Debug)]
pub struct PsuError {
    /// What was to be done, and why it cannot be.
    pub text: String,
}

impl PsuError {
    /// `purpose` is out of reach because `channel` is not exported.
    pub open spec fn reports(self, purpose: PsuPurpose, channel: PwmChannel) -> bool {
        self.text@ == purpose.context() + ("Hardware error: "@ + channel.not_exported())
    }

    /// The error of a write that the channel refuses for `cause`.
    fn new(purpose: PsuPurpose, cause: HwError) -> (r: PsuError)
        requires
            cause is Other,
        ensures
            cause matches HwError::Other(text) && r.text@ == purpose.context() + (
            "Hardware error: "@ + text@),
    {
        match cause {
            HwError::Other(text) => {
                let cause = String::from_str("Hardware error: ").concat(text.as_str());
                PsuError { text: purpose.failure(cause.as_str()) }
            },
            _ => PsuError { text: purpose.failure("") },
        }
    }
}

/// What holding the baseline writes to an exported PSU channel: the duty while
/// the channel may still be disabled, then the enable.
pub open spec fn holds_baseline(psu: PwmSysfs, writes: Seq<PsuWrite>) -> bool {
    &&& writes.len() == 2
    &&& writes[0].purpose == PsuPurpose::BaselineDuty
    &&& writes[0].write.path@ == joined(psu@.pwm_dir(), "duty_cycle"@)
    &&& writes[0].write.contents@ == decimal_text(PSU_DUTY_BASELINE_NS as nat)
    &&& writes[1].purpose == PsuPurpose::Enable
    &&& writes[1].write.path@ == joined(psu@.pwm_dir(), "enable"@)
    &&& writes[1].write.contents@ == "1"@
}

/// Enable the PSU PWM and hold the baseline voltage (~5.0 V): the writes to
/// make, in order.
///
/// Called once by the thread after chain bring-up (post-discovery, before any
/// job is dispatched) so the rail is at a known voltage before the ramp
/// starts climbing it. A `None` channel (no board-level PSU) is a no-op; a
/// channel that is not exported is an error. A write that fails ends the hold
/// and is reported with [`PsuPurpose::failure`].
pub fn psu_hold(psu: Option<&PwmSysfs>, exported: bool) -> (r: Result<Vec<PsuWrite>, PsuError>)
    ensures
        match psu {
            None => r matches Ok(writes) && writes@.len() == 0,
            Some(psu) => if exported {
                r matches Ok(writes) && holds_baseline(*psu, writes@)
            } else {
                r matches Err(e) && e.reports(PsuPurpose::BaselineDuty, psu@)
            },
        },
{
    let mut writes: Vec<PsuWrite> = Vec::new();
    match psu {
        None => {},
        Some(psu) => {
            // The duty goes first: on enable the output goes straight to the
            // baseline.
            match psu.set_duty_ns(PSU_DUTY_BASELINE_NS, exported) {
                Ok(write) => writes.push(
                    PsuWrite { purpose: PsuPurpose::BaselineDuty, write },
                ),
                Err(e) => {
                    return Err(PsuError::new(PsuPurpose::BaselineDuty, e));
                },
            }
            match psu.enable(exported) {
                Ok(write) => writes.push(PsuWrite { purpose: PsuPurpose::Enable, write }),
                Err(e) => {
                    return Err(PsuError::new(PsuPurpose::Enable, e));
                },
            }
        },
    }
    Ok(writes)
}

/// One ramp step as broadcast commands.
pub open spec fn ramp_commands(pll_n: u32) -> Seq<Command> {
    seq![
        write_command(true, 0, Register::PllFreq, REG_LCMD, pll_word(pll_n)),
        write_command(true, 0, Register::DutyCycle, REG_LCMD, duty_for(pll_n)),
        write_command(true, 0, Register::HashConfig, REG_LCMD, HASHCONFIG_VALUE),
    ]
}

/// `r` sets the PSU duty that goes with `pll_n`, where there is a PSU.
pub open spec fn steps_psu(
    psu: Option<&PwmSysfs>,
    pll_n: u32,
    exported: bool,
    r: Result<Option<PsuWrite>, PsuError>,
) -> bool {
    match psu {
        None => r matches Ok(None),
        Some(psu) => match r {
            Ok(Some(step)) => {
                &&& exported
                &&& step.purpose == PsuPurpose::RampDuty(pll_n)
                &&& step.write.path@ == joined(psu@.pwm_dir(), "duty_cycle"@)
                &&& step.write.contents@ == decimal_text(psu_duty(pll_n) as nat)
            },
            Ok(None) => false,
            Err(e) => !exported && e.reports(PsuPurpose::RampDuty(pll_n), psu@),
        },
    }
}

/// Write one ramp step for PLL N: PLL_FREQ, then DUTY_CYCLE + HASHCONFIG. The
/// result is the PSU write that goes with it.
pub fn write_ramp_step(
    writer: &mut BytesMut,
    psu: Option<&PwmSysfs>,
    exported: bool,
    pll_n: u32,
) -> (r: Result<Option<PsuWrite>, PsuError>)
    requires
        has_room(*old(writer), 108),
    ensures
        buffered(*final(writer)) == buffered(*old(writer)) + all_on_wire(ramp_commands(pll_n)),
        steps_psu(psu, pll_n, exported, r),
{
    let ghost cs = ramp_commands(pll_n);
    proof {
        lemma_on_wire_len(cs);
        lemma_all_on_wire_push(Seq::empty(), cs[0]);
        lemma_all_on_wire_push(seq![cs[0]], cs[1]);
        lemma_all_on_wire_push(seq![cs[0], cs[1]], cs[2]);
        assert(Seq::<Command>::empty().push(cs[0]) =~= seq![cs[0]]);
        assert(seq![cs[0]].push(cs[1]) =~= seq![cs[0], cs[1]]);
        assert(seq![cs[0], cs[1]].push(cs[2]) =~= cs);
    }
    write_reg(writer, true, 0x00, Register::PllFreq, REG_LCMD, pll_freq_word(pll_n));
    write_reg(writer, true, 0x00, Register::DutyCycle, REG_LCMD, duty_word(pll_n));
    write_reg(writer, true, 0x00, Register::HashConfig, REG_LCMD, HASHCONFIG_VALUE);
    assert(buffered(*writer) =~= buffered(*old(writer)) + all_on_wire(cs));
    psu_voltage_step(psu, exported, pll_n)
}

/// A ramp step rewrites HASHCONFIG after its duty-cycle change.
pub proof fn lemma_ramp_rewrites_hashconfig(pll_n: u32)
    ensures
        rewrites_hashconfig(ramp_commands(pll_n)),
{
}

/// Board-level PSU voltage climb: the write of the PWM duty for the current
/// PLL N.
///
/// `None` (no injected PSU channel) is a no-op. The duty curve is
/// [`psu_duty_ns_for_pll_n`]; the PSU channel must be enabled once via
/// [`psu_hold`] before the ramp climbs it.
pub fn psu_voltage_step(psu: Option<&PwmSysfs>, exported: bool, pll_n: u32) -> (r: Result<
    Option<PsuWrite>,
    PsuError,
>)
    ensures
        steps_psu(psu, pll_n, exported, r),
{
    match psu {
        None => Ok(None),
        Some(psu) => match psu.set_duty_ns(psu_duty_ns_for_pll_n(pll_n), exported) {
            Ok(write) => Ok(Some(PsuWrite { purpose: PsuPurpose::RampDuty(pll_n), write })),
            Err(e) => Err(PsuError::new(PsuPurpose::RampDuty(pll_n), e)),
        },
    }
}

/// Ramp progress state machine.
///
/// The thread ticks [`Self::next_step`] every [`RAMP_STEP_INTERVAL`] while a
/// job is live. Ramping resumes where it left off if the thread goes idle
/// mid-ramp.
#[derive(Debug)]
pub struct RampState {
    steps: Vec<u32>,
    idx: usize,
}

impl View for RampState {
    type V = Seq<u32>;

    /// The steps still to be written.
    closed spec fn view(&self) -> Seq<u32> {
        self.steps@.skip(self.idx as int)
    }
}

impl RampState {
    /// The position is within the ramp.
    #[verifier::type_invariant]
    spec fn within(self) -> bool {
        self.idx <= self.steps@.len()
    }

    /// Start at the low end of the ramp.
    pub fn new() -> (r: Self)
        ensures
            r@ == ramp_to(PLL_RAMP_END),
    {
        Self::with_max_pll(PLL_RAMP_END)
    }

    /// Start at the low end of a ramp that stops at `max_pll` instead of full
    /// rate (used when the board's hashrate target is below full rate).
    pub fn with_max_pll(max_pll: u32) -> (r: Self)
        ensures
            r@ == ramp_to(max_pll),
    {
        let r = RampState { steps: ramp_steps_up_to(max_pll), idx: 0 };
        assert(r.steps@.skip(0) =~= r.steps@);
        r
    }

    /// Whether the ramp has reached its end.
    pub fn done(&self) -> (r: bool)
        ensures
            r == (self@.len() == 0),
    {
        proof {
            use_type_invariant(self);
        }
        self.idx >= self.steps.len()
    }

    /// The next PLL N to write, advancing the state machine.
    pub fn next_step(&mut self) -> (r: Option<u32>)
        ensures
            old(self)@.len() == 0 ==> r is None && final(self)@ == old(self)@,
            old(self)@.len() > 0 ==> r == Some(old(self)@[0]) && final(self)@
                == old(self)@.drop_first(),
    {
        proof {
            use_type_invariant(&*self);
        }
        if self.idx < self.steps.len() {
            let n: u32 = self.steps[self.idx];
            self.idx = self.idx + 1;
            assert(self@ =~= old(self)@.drop_first());
            Some(n)
        } else {
            None
        }
    }
}

impl Default for RampState {
    fn default() -> (r: Self)
        ensures
            r@ == ramp_to(PLL_RAMP_END),
    {
        Self::new()
    }
}

} // verus!
