//! Rules of the Aura hash thread.
//!
//! An [`AuraThread`] is a chain of Aura chips as a schedulable worker. It is a
//! state machine: the caller feeds it what happened (a scheduler command, a
//! tick, bytes from the bus, the outcome of something it was asked to do) and
//! performs what it answers.
//!
//! Chip bring-up (discovery, version bounds, DVFS initial setup, PLL/duty
//! init) happens lazily on the first job assignment, followed once by the
//! board's post-bring-up hooks. The DVFS heartbeat then runs continuously;
//! hit polls, telemetry reads and ntime rolling run while a task is live; the
//! frequency ramp runs only once pool work is on the chips.

use super::chain::{read_command, ChainConfig, PLL_RAMP_END, TELEMETRY_LCMD};
use super::discovery::strictly_ascending;
use super::dvfs::{
    heartbeat_commands, ramp_to, RampState, DVFS_HEARTBEAT_LCMD, DVFS_HEARTBEAT_PAYLOAD,
    HEARTBEAT_INTERVAL, RAMP_STEP_INTERVAL,
};
use super::framing::{drain, drain_frames, lemma_drain_rest};
use super::job::{
    claims, collect_shares, dispatch_job, job_frames, shares_among, task_merkle, HashTask, JobError,
    Share, ShareClaim,
};
use super::protocol::{Command, Register, Response, LONG_FRAME_LEN};
use super::telemetry::{ChipDeltas, TelemetryTracker, TrackerState, TELEMETRY_REGS};
use crate::buffer::buffered;
use crate::peripheral::pwm_sysfs::PwmSysfs;
use bytes::BytesMut;
use vstd::prelude::*;

verus! {

/// Pause after a read that brought nothing or failed, in nanoseconds (10 ms).
pub const READ_PAUSE: u64 = 10_000_000;

/// Aura thread parameters (locked defaults; tests shrink timings). Durations
/// are in nanoseconds.
#[derive(Debug)]
pub struct AuraConfig {
    /// Chain discovery parameters.
    pub chain: ChainConfig,
    /// DVFS heartbeat interval (~2.1 s on device).
    pub heartbeat_interval: u64,
    /// Hit-poll interval (tunable; not locked ground truth).
    pub hit_poll_interval: u64,
    /// Telemetry counter poll interval (tunable; not locked ground truth).
    pub telemetry_interval: u64,
    /// Ramp step interval (~50 ms on device).
    pub ramp_step_interval: u64,
    /// ntime roll interval.
    pub ntime_interval: u64,
    /// PLL N at which the frequency ramp stops.
    pub ramp_max_pll: u32,
    /// PSU PWM channel that the ramp climbs, where the board has one.
    pub psu: Option<PwmSysfs>,
}

/// Two thread configurations name the same PSU channel, or neither names one.
pub open spec fn same_psu(a: Option<PwmSysfs>, b: Option<PwmSysfs>) -> bool {
    match (a, b) {
        (None, None) => true,
        (Some(x), Some(y)) => x@ == y@,
        _ => false,
    }
}

impl Clone for AuraConfig {
    fn clone(&self) -> (r: Self)
        ensures
            r.chain == self.chain,
            r.heartbeat_interval == self.heartbeat_interval,
            r.hit_poll_interval == self.hit_poll_interval,
            r.telemetry_interval == self.telemetry_interval,
            r.ramp_step_interval == self.ramp_step_interval,
            r.ntime_interval == self.ntime_interval,
            r.ramp_max_pll == self.ramp_max_pll,
            same_psu(r.psu, self.psu),
    {
        AuraConfig {
            chain: self.chain,
            heartbeat_interval: self.heartbeat_interval,
            hit_poll_interval: self.hit_poll_interval,
            telemetry_interval: self.telemetry_interval,
            ramp_step_interval: self.ramp_step_interval,
            ntime_interval: self.ntime_interval,
            ramp_max_pll: self.ramp_max_pll,
            psu: match &self.psu {
                Some(psu) => Some(psu.clone()),
                None => None,
            },
        }
    }
}

impl Default for AuraConfig {
    fn default() -> (r: Self)
        ensures
            r.chain == (ChainConfig {
                expected_chips: 21,
                pass_drain: 3_500_000_000,
                pass_pace: 10_800_000_000,
                max_passes: 24,
            }),
            r.heartbeat_interval == 2_100_000_000,
            r.hit_poll_interval == 200_000_000,
            r.telemetry_interval == 5_000_000_000,
            r.ramp_step_interval == 50_000_000,
            r.ntime_interval == 1_000_000_000,
            r.ramp_max_pll == PLL_RAMP_END,
            r.psu is None,
    {
        AuraConfig {
            chain: ChainConfig::default(),
            heartbeat_interval: HEARTBEAT_INTERVAL,
            hit_poll_interval: 200_000_000,
            telemetry_interval: 5_000_000_000,
            ramp_step_interval: RAMP_STEP_INTERVAL,
            ntime_interval: 1_000_000_000,
            ramp_max_pll: PLL_RAMP_END,
            psu: None,
        }
    }
}

/// What the board tells the thread about its removal.
#[derive(Debug)]
pub enum ThreadRemovalSignal {
    /// The thread is to keep running.
    Running,
    /// The board shuts down.
    Shutdown,
    /// The hardware failed.
    HardwareFault {
        /// What failed.
        description: String,
    },
}

/// Counters and activity that the thread reports.
#[derive(Debug, Clone, Copy, PartialEq, Eq, Structural)]
pub struct ThreadStatus {
    /// Whether work is on the chips.
    pub is_active: bool,
    /// Shares found by the chips.
    pub chip_shares_found: u64,
    /// Shares handed to the scheduler.
    pub pool_shares_submitted: u64,
    /// Failed reads from the bus.
    pub hardware_errors: u64,
}

/// The periodic duties of the thread.
#[derive(Debug, Clone, Copy, PartialEq, Eq, Structural)]
pub enum Tick {
    /// DVFS heartbeat.
    Heartbeat,
    /// Poll every chip for a hit.
    HitPoll,
    /// Read the telemetry counters of every chip.
    Telemetry,
    /// Roll ntime and send the job again.
    Ntime,
    /// Climb one step of the frequency ramp.
    Ramp,
}

/// What happened.
#[derive(Debug)]
pub enum ThreadEvent {
    /// The removal signal changed.
    Removal(ThreadRemovalSignal),
    /// Nobody can signal removal anymore.
    RemovalClosed,
    /// The scheduler asks for the expected hashrate.
    Configure,
    /// New work; shares of the old work are still valid.
    UpdateTask(HashTask),
    /// New work; the old work is invalid.
    ReplaceTask(HashTask),
    /// The scheduler has no work.
    GoIdle,
    /// The scheduler stops the thread.
    Shutdown,
    /// Chain bring-up ended: with these chips, ascending, or in failure.
    BroughtUp(Option<Vec<u8>>),
    /// The post-bring-up hooks have run.
    HooksRun,
    /// The job frames were written, or the write failed.
    JobWritten(bool),
    /// Bytes arrived on the bus.
    Received(Vec<u8>),
    /// The bus is at its end.
    Closed,
    /// The read failed.
    ReadFailed,
    /// A periodic duty is due.
    Ticked(Tick),
    /// The telemetry reads were written. Time `now` is in nanoseconds on a
    /// clock that does not run backwards.
    TelemetryRead {
        /// Time after the writes.
        now: u64,
    },
    /// The scheduler took a share, or its channel was closed.
    ShareSent(bool),
}

/// Why an assignment is refused.
#[derive(Debug, Clone, Copy, PartialEq, Eq, Structural)]
pub enum Rejection {
    /// The chain could not be brought up.
    BringUpFailed,
    /// The task cannot be sent.
    Job(JobError),
    /// The job frames could not be written.
    WriteFailed,
}

/// What to do.
#[derive(Debug)]
pub enum ThreadAction {
    /// Nothing.
    Wait,
    /// End the thread.
    Stop,
    /// Send the expected hashrate to the scheduler.
    AnnounceHashrate,
    /// Bring the chain up; answer with [`ThreadEvent::BroughtUp`].
    BringUp,
    /// Run the post-bring-up hooks ([`bring_up_hooks`]); answer with
    /// [`ThreadEvent::HooksRun`].
    RunHooks,
    /// Write these job frames; answer with [`ThreadEvent::JobWritten`].
    WriteJob(BytesMut),
    /// Tell the scheduler that the assignment holds, handing back the task
    /// that it took the place of.
    Accept(Option<HashTask>),
    /// Tell the scheduler that the assignment failed.
    Reject(Rejection),
    /// Tell the scheduler that the thread is idle, handing back its task.
    Release(Option<HashTask>),
    /// The job with the rolled ntime cannot be sent.
    RollFailed(JobError),
    /// Hand these shares to the scheduler, reporting each with
    /// [`ThreadEvent::ShareSent`].
    Submit(Vec<Share>),
    /// Pause for this many nanoseconds.
    Pause(u64),
    /// Write these commands. A write that fails ends its group; the next
    /// group goes on.
    Write(Vec<Vec<Command>>),
    /// Write these reads in the same way; answer with
    /// [`ThreadEvent::TelemetryRead`].
    ReadTelemetry(Vec<Vec<Command>>),
    /// Publish the status with the hashrate that these increments give.
    Publish(Vec<ChipDeltas>),
    /// Write the ramp step for this PLL N.
    RampTo(u32),
}

/// One of the post-bring-up hooks. Each is run whether or not the ones before
/// it worked.
#[derive(Debug, Clone, Copy, PartialEq, Eq, Structural)]
pub enum HookStep {
    /// Tell the board monitor that the chain is live.
    LatchChainReady,
    /// Switch the serial link to this baud rate.
    SwitchBaud(u32),
    /// Hold the PSU baseline voltage
    /// ([`psu_hold`](super::dvfs::psu_hold)).
    HoldPsu,
}

/// The post-bring-up hooks of a board that mines at `baud_mining`, in order:
/// flip the monitor's latch, switch the link to the mining baud, hold the PSU
/// baseline.
pub fn bring_up_hooks(baud_mining: u32) -> (steps: Vec<HookStep>)
    ensures
        steps@ == seq![
            HookStep::LatchChainReady,
            HookStep::SwitchBaud(baud_mining),
            HookStep::HoldPsu,
        ],
{
    let mut steps: Vec<HookStep> = Vec::new();
    steps.push(HookStep::LatchChainReady);
    steps.push(HookStep::SwitchBaud(baud_mining));
    steps.push(HookStep::HoldPsu);
    assert(steps@ =~= seq![
        HookStep::LatchChainReady,
        HookStep::SwitchBaud(baud_mining),
        HookStep::HoldPsu,
    ]);
    steps
}

/// What is done.
#[verifier::ext_equal]
pub enum Doing {
    /// Nothing.
    Wait,
    /// End the thread.
    Stop,
    /// Send the expected hashrate to the scheduler.
    AnnounceHashrate,
    /// Bring the chain up.
    BringUp,
    /// Run the post-bring-up hooks.
    RunHooks,
    /// Write these job frames.
    WriteJob(Seq<u8>),
    /// The assignment holds.
    Accept(Option<HashTask>),
    /// The assignment failed.
    Reject(Rejection),
    /// The thread is idle.
    Release(Option<HashTask>),
    /// The job with the rolled ntime cannot be sent.
    RollFailed(JobError),
    /// Hand these shares to the scheduler.
    Submit(Seq<ShareClaim>),
    /// Pause.
    Pause(u64),
    /// Write these groups of commands.
    Write(Seq<Seq<Command>>),
    /// Write these groups of reads.
    ReadTelemetry(Seq<Seq<Command>>),
    /// Publish the status.
    Publish(Seq<ChipDeltas>),
    /// Write the ramp step for this PLL N.
    RampTo(u32),
}

/// The commands of each group.
pub open spec fn groups(commands: Seq<Vec<Command>>) -> Seq<Seq<Command>> {
    commands.map_values(|group: Vec<Command>| group@)
}

impl View for ThreadAction {
    type V = Doing;

    open spec fn view(&self) -> Doing {
        match *self {
            ThreadAction::Wait => Doing::Wait,
            ThreadAction::Stop => Doing::Stop,
            ThreadAction::AnnounceHashrate => Doing::AnnounceHashrate,
            ThreadAction::BringUp => Doing::BringUp,
            ThreadAction::RunHooks => Doing::RunHooks,
            ThreadAction::WriteJob(frames) => Doing::WriteJob(buffered(frames)),
            ThreadAction::Accept(task) => Doing::Accept(task),
            ThreadAction::Reject(why) => Doing::Reject(why),
            ThreadAction::Release(task) => Doing::Release(task),
            ThreadAction::RollFailed(why) => Doing::RollFailed(why),
            ThreadAction::Submit(shares) => Doing::Submit(claims(shares@)),
            ThreadAction::Pause(ns) => Doing::Pause(ns),
            ThreadAction::Write(commands) => Doing::Write(groups(commands@)),
            ThreadAction::ReadTelemetry(commands) => Doing::ReadTelemetry(groups(commands@)),
            ThreadAction::Publish(deltas) => Doing::Publish(deltas@),
            ThreadAction::RampTo(n) => Doing::RampTo(n),
        }
    }
}

/// What the thread waits for an answer to.
#[derive(Debug, Clone, Copy)]
pub enum Pending {
    /// Nothing.
    Nothing,
    /// Bring-up or the hooks, so that the held task can be assigned.
    Setup(HashTask),
    /// The write of an assigned job that took the place of the held task.
    Assign(Option<HashTask>),
    /// The write of a job with a rolled ntime.
    Roll,
}

/// The state of a thread.
#[verifier::ext_equal]
pub struct ThreadState {
    /// Chips on the chain.
    pub chips: Seq<u8>,
    /// The chain was brought up.
    pub chain_initialized: bool,
    /// The post-bring-up hooks have run.
    pub hooks_run: bool,
    /// A job has been written, so the ramp may run.
    pub ramp_started: bool,
    /// The task that is live.
    pub current_task: Option<HashTask>,
    /// Slot of the next job.
    pub slot: u8,
    /// Number of the next job.
    pub job_id: u32,
    /// Telemetry counters.
    pub telemetry: TrackerState,
    /// Ramp steps still to be written.
    pub ramp: Seq<u32>,
    /// Bytes received that do not make a whole frame yet.
    pub rx: Seq<u8>,
    /// What the thread reports.
    pub status: ThreadStatus,
    /// What the thread waits for.
    pub pending: Pending,
}

/// `task` one second later.
pub open spec fn rolled(task: HashTask) -> HashTask {
    HashTask { ntime: ((task.ntime + 1) % 0x1_0000_0000) as u32, ..task }
}

/// One hit poll per chip, each in a group of its own.
pub open spec fn poll_groups(chips: Seq<u8>) -> Seq<Seq<Command>> {
    Seq::new(chips.len(), |i: int| seq![Command::HitPoll { chip_address: chips[i] }])
}

/// The telemetry reads of one chip, in read order.
pub open spec fn telemetry_reads(chip: u8) -> Seq<Command> {
    Seq::new(5, |i: int| read_command(chip, TELEMETRY_REGS@[i], TELEMETRY_LCMD))
}

/// The telemetry reads, one group per chip.
pub open spec fn telemetry_groups(chips: Seq<u8>) -> Seq<Seq<Command>> {
    Seq::new(chips.len(), |i: int| telemetry_reads(chips[i]))
}

/// The tracker with a run of responses recorded.
pub open spec fn recorded(tracker: TrackerState, responses: Seq<Response>) -> TrackerState
    decreases responses.len(),
{
    if responses.len() == 0 {
        tracker
    } else {
        recorded(tracker, responses.drop_last()).record(responses.last())
    }
}

impl ThreadState {
    /// A thread that has not been given work yet.
    pub open spec fn start(max_pll: u32) -> ThreadState {
        ThreadState {
            chips: Seq::empty(),
            chain_initialized: false,
            hooks_run: false,
            ramp_started: false,
            current_task: None,
            slot: 0,
            job_id: 0,
            telemetry: TrackerState::empty(),
            ramp: ramp_to(max_pll),
            rx: Seq::empty(),
            status: ThreadStatus {
                is_active: false,
                chip_shares_found: 0,
                pool_shares_submitted: 0,
                hardware_errors: 0,
            },
            pending: Pending::Nothing,
        }
    }

    /// Whether a periodic duty is on: the heartbeat once the chain is up, hit
    /// polls and telemetry while work is live on it, ntime rolling while there
    /// is a task, and the ramp while work is live and it is not done.
    pub open spec fn enabled(self, tick: Tick) -> bool {
        match tick {
            Tick::Heartbeat => self.chain_initialized,
            Tick::HitPoll => self.chain_initialized && self.current_task is Some,
            Tick::Telemetry => self.chain_initialized && self.current_task is Some,
            Tick::Ntime => self.current_task is Some,
            Tick::Ramp => self.chain_initialized && self.ramp_started && self.current_task is Some
                && self.ramp.len() > 0,
        }
    }

    /// Take on `task`: bring the chain up first where that has not happened,
    /// then run the hooks, then send the job.
    pub open spec fn assign(self, task: HashTask) -> (ThreadState, Doing) {
        if !self.chain_initialized {
            (ThreadState { pending: Pending::Setup(task), ..self }, Doing::BringUp)
        } else if !self.hooks_run {
            (ThreadState { pending: Pending::Setup(task), ..self }, Doing::RunHooks)
        } else {
            let next = ThreadState { current_task: Some(task), ..self };
            match task_merkle(task) {
                Ok(merkle) => (
                    ThreadState { pending: Pending::Assign(self.current_task), ..next },
                    Doing::WriteJob(
                        job_frames(self.chips, self.slot, self.job_id, task, merkle),
                    ),
                ),
                Err(why) => (
                    ThreadState { pending: Pending::Nothing, ..next },
                    Doing::Reject(Rejection::Job(why)),
                ),
            }
        }
    }

    /// With slot and job id advanced, once for the whole dispatch.
    pub open spec fn advanced(self) -> ThreadState {
        ThreadState {
            slot: ((self.slot + 1) % 0x100) as u8,
            job_id: ((self.job_id + 1) % 0x1_0000_0000) as u32,
            pending: Pending::Nothing,
            ..self
        }
    }

    /// A periodic duty is due.
    pub open spec fn ticked(self, tick: Tick) -> (ThreadState, Doing) {
        if !self.enabled(tick) {
            (self, Doing::Wait)
        } else {
            match tick {
                Tick::Heartbeat => (self, Doing::Write(seq![heartbeat_commands()])),
                Tick::HitPoll => (self, Doing::Write(poll_groups(self.chips))),
                Tick::Telemetry => (self, Doing::ReadTelemetry(telemetry_groups(self.chips))),
                Tick::Ntime => {
                    let task = rolled(self.current_task->0);
                    let next = ThreadState { current_task: Some(task), ..self };
                    match task_merkle(task) {
                        Ok(merkle) => (
                            ThreadState { pending: Pending::Roll, ..next },
                            Doing::WriteJob(
                                job_frames(self.chips, self.slot, self.job_id, task, merkle),
                            ),
                        ),
                        Err(why) => (next, Doing::RollFailed(why)),
                    }
                },
                Tick::Ramp => (
                    ThreadState { ramp: self.ramp.drop_first(), ..self },
                    Doing::RampTo(self.ramp[0]),
                ),
            }
        }
    }

    /// The outcome of writing job frames is in.
    pub open spec fn job_written(self, ok: bool) -> (ThreadState, Doing) {
        match self.pending {
            Pending::Assign(old_task) => if ok {
                (
                    ThreadState {
                        ramp_started: true,
                        status: ThreadStatus { is_active: true, ..self.status },
                        ..self.advanced()
                    },
                    Doing::Accept(old_task),
                )
            } else {
                (
                    ThreadState { pending: Pending::Nothing, ..self },
                    Doing::Reject(Rejection::WriteFailed),
                )
            },
            Pending::Roll => if ok {
                (self.advanced(), Doing::Wait)
            } else {
                (ThreadState { pending: Pending::Nothing, ..self }, Doing::Wait)
            },
            _ => (self, Doing::Wait),
        }
    }

    /// Bytes arrived: responses go to the telemetry tracker, hits are judged
    /// against the current task.
    pub open spec fn received(self, chunk: Seq<u8>) -> (ThreadState, Doing) {
        let drained = drain(self.rx + chunk);
        (
            ThreadState {
                telemetry: recorded(self.telemetry, drained.responses),
                rx: drained.rest,
                ..self
            },
            Doing::Submit(shares_among(drained.hits, self.current_task)),
        )
    }

    /// One step: the next state and what to do.
    pub open spec fn step(self, event: ThreadEvent) -> (ThreadState, Doing) {
        match event {
            ThreadEvent::Removal(signal) => match signal {
                ThreadRemovalSignal::Running => (self, Doing::Wait),
                _ => (
                    ThreadState {
                        status: ThreadStatus { is_active: false, ..self.status },
                        ..self
                    },
                    Doing::Stop,
                ),
            },
            ThreadEvent::RemovalClosed => (self, Doing::Stop),
            ThreadEvent::Configure => (self, Doing::AnnounceHashrate),
            ThreadEvent::UpdateTask(task) => self.assign(task),
            ThreadEvent::ReplaceTask(task) => self.assign(task),
            ThreadEvent::GoIdle => (
                ThreadState {
                    current_task: None,
                    status: ThreadStatus { is_active: false, ..self.status },
                    ..self
                },
                Doing::Release(self.current_task),
            ),
            ThreadEvent::Shutdown => (self, Doing::Stop),
            ThreadEvent::BroughtUp(outcome) => match self.pending {
                Pending::Setup(task) => match outcome {
                    Some(chips) => ThreadState {
                        chips: chips@,
                        chain_initialized: true,
                        ..self
                    }.assign(task),
                    None => (
                        ThreadState { pending: Pending::Nothing, ..self },
                        Doing::Reject(Rejection::BringUpFailed),
                    ),
                },
                _ => (self, Doing::Wait),
            },
            ThreadEvent::HooksRun => match self.pending {
                Pending::Setup(task) => ThreadState { hooks_run: true, ..self }.assign(task),
                _ => (ThreadState { hooks_run: true, ..self }, Doing::Wait),
            },
            ThreadEvent::JobWritten(ok) => self.job_written(ok),
            ThreadEvent::Received(chunk) => self.received(chunk@),
            ThreadEvent::Closed => (self, Doing::Pause(READ_PAUSE)),
            ThreadEvent::ReadFailed => (
                ThreadState {
                    status: ThreadStatus {
                        hardware_errors: ((self.status.hardware_errors + 1)
                            % 0x1_0000_0000_0000_0000) as u64,
                        ..self.status
                    },
                    ..self
                },
                Doing::Pause(READ_PAUSE),
            ),
            ThreadEvent::Ticked(tick) => self.ticked(tick),
            ThreadEvent::TelemetryRead { now } => (
                ThreadState { telemetry: self.telemetry.polled(now), ..self },
                Doing::Publish(self.telemetry.deltas(now)),
            ),
            ThreadEvent::ShareSent(ok) => if ok {
                (
                    ThreadState {
                        status: ThreadStatus {
                            chip_shares_found: ((self.status.chip_shares_found + 1)
                                % 0x1_0000_0000_0000_0000) as u64,
                            pool_shares_submitted: ((self.status.pool_shares_submitted + 1)
                                % 0x1_0000_0000_0000_0000) as u64,
                            ..self.status
                        },
                        ..self
                    },
                    Doing::Wait,
                )
            } else {
                (self, Doing::Wait)
            },
        }
    }
}

/// A chain of Aura chips as a schedulable worker.
pub struct AuraThread {
    chips: Vec<u8>,
    chain_initialized: bool,
    hooks_run: bool,
    ramp_started: bool,
    current_task: Option<HashTask>,
    slot: u8,
    job_id: u32,
    telemetry: TelemetryTracker,
    ramp: RampState,
    rx: BytesMut,
    status: ThreadStatus,
    pending: Pending,
}

impl View for AuraThread {
    type V = ThreadState;

    closed spec fn view(&self) -> ThreadState {
        ThreadState {
            chips: self.chips@,
            chain_initialized: self.chain_initialized,
            hooks_run: self.hooks_run,
            ramp_started: self.ramp_started,
            current_task: self.current_task,
            slot: self.slot,
            job_id: self.job_id,
            telemetry: self.telemetry@,
            ramp: self.ramp@,
            rx: buffered(self.rx),
            status: self.status,
            pending: self.pending,
        }
    }
}

/// An ascending list of chip addresses has at most 256 of them.
proof fn lemma_at_most_256_chips(chips: Seq<u8>)
    requires
        strictly_ascending(chips),
    ensures
        chips.len() <= 256,
{
    if chips.len() > 256 {
        lemma_ascending_at_least(chips, 256);
    }
}

proof fn lemma_ascending_at_least(chips: Seq<u8>, i: int)
    requires
        strictly_ascending(chips),
        0 <= i < chips.len(),
    ensures
        chips[i] >= i,
    decreases i,
{
    if i > 0 {
        lemma_ascending_at_least(chips, i - 1);
    }
}

impl AuraThread {
    /// The chips stand in ascending order, and what waits in the receive
    /// buffer is less than a frame.
    pub closed spec fn wf(self) -> bool {
        &&& strictly_ascending(self.chips@)
        &&& buffered(self.rx).len() < LONG_FRAME_LEN
    }

    /// Create a thread with chips unconfigured; the chain is brought up
    /// lazily on the first job assignment.
    pub fn new(config: &AuraConfig) -> (r: Self)
        ensures
            r.wf(),
            r@ == ThreadState::start(config.ramp_max_pll),
    {
        AuraThread {
            chips: Vec::new(),
            chain_initialized: false,
            hooks_run: false,
            ramp_started: false,
            current_task: None,
            slot: 0,
            job_id: 0,
            telemetry: TelemetryTracker::new(),
            ramp: RampState::with_max_pll(config.ramp_max_pll),
            rx: BytesMut::new(),
            status: ThreadStatus {
                is_active: false,
                chip_shares_found: 0,
                pool_shares_submitted: 0,
                hardware_errors: 0,
            },
            pending: Pending::Nothing,
        }
    }

    /// Whether a periodic duty is on. Its ticker need not run while it is
    /// off.
    pub fn wants(&self, tick: Tick) -> (r: bool)
        ensures
            r == self@.enabled(tick),
    {
        match tick {
            Tick::Heartbeat => self.chain_initialized,
            Tick::HitPoll => self.chain_initialized && self.current_task.is_some(),
            Tick::Telemetry => self.chain_initialized && self.current_task.is_some(),
            Tick::Ntime => self.current_task.is_some(),
            Tick::Ramp => self.chain_initialized && self.ramp_started && self.current_task.is_some()
                && !self.ramp.done(),
        }
    }

    /// What the thread reports.
    pub fn status(&self) -> (r: ThreadStatus)
        ensures
            r == self@.status,
    {
        self.status
    }

    /// The job frames of `task` for every chip of the chain.
    fn encode_job(&self, task: &HashTask) -> (r: Result<BytesMut, JobError>)
        requires
            self.wf(),
        ensures
            match task_merkle(*task) {
                Ok(merkle) => r matches Ok(frames) && buffered(frames) == job_frames(
                    self@.chips,
                    self@.slot,
                    self@.job_id,
                    *task,
                    merkle,
                ),
                Err(why) => r == Err::<BytesMut, JobError>(why),
            },
    {
        proof {
            lemma_at_most_256_chips(self.chips@);
        }
        let mut frames = BytesMut::new();
        match dispatch_job(&mut frames, self.chips.as_slice(), self.slot, self.job_id, task) {
            Ok(()) => {
                assert(task_merkle(*task) matches Ok(merkle) ==> Seq::<u8>::empty() + job_frames(
                    self@.chips,
                    self@.slot,
                    self@.job_id,
                    *task,
                    merkle,
                ) =~= job_frames(self@.chips, self@.slot, self@.job_id, *task, merkle));
                Ok(frames)
            },
            Err(why) => Err(why),
        }
    }

    fn assign(&mut self, task: HashTask) -> (action: ThreadAction)
        requires
            old(self).wf(),
        ensures
            final(self).wf(),
            (final(self)@, action@) == old(self)@.assign(task),
    {
        if !self.chain_initialized {
            self.pending = Pending::Setup(task);
            return ThreadAction::BringUp;
        }
        if !self.hooks_run {
            self.pending = Pending::Setup(task);
            return ThreadAction::RunHooks;
        }
        let old_task = self.current_task;
        self.current_task = Some(task);
        match self.encode_job(&task) {
            Ok(frames) => {
                self.pending = Pending::Assign(old_task);
                ThreadAction::WriteJob(frames)
            },
            Err(why) => {
                self.pending = Pending::Nothing;
                ThreadAction::Reject(Rejection::Job(why))
            },
        }
    }

    /// Advance slot and job id, once for the whole dispatch.
    fn advance(&mut self)
        requires
            old(self).wf(),
        ensures
            final(self).wf(),
            final(self)@ == old(self)@.advanced(),
    {
        self.slot = self.slot.wrapping_add(1);
        self.job_id = self.job_id.wrapping_add(1);
        self.pending = Pending::Nothing;
    }

    fn job_written(&mut self, ok: bool) -> (action: ThreadAction)
        requires
            old(self).wf(),
        ensures
            final(self).wf(),
            (final(self)@, action@) == old(self)@.job_written(ok),
    {
        match self.pending {
            Pending::Assign(old_task) => {
                if ok {
                    self.advance();
                    self.ramp_started = true;
                    self.status.is_active = true;
                    ThreadAction::Accept(old_task)
                } else {
                    self.pending = Pending::Nothing;
                    ThreadAction::Reject(Rejection::WriteFailed)
                }
            },
            Pending::Roll => {
                if ok {
                    self.advance();
                } else {
                    self.pending = Pending::Nothing;
                }
                ThreadAction::Wait
            },
            _ => ThreadAction::Wait,
        }
    }

    fn receive(&mut self, chunk: &[u8]) -> (action: ThreadAction)
        requires
            old(self).wf(),
            2 * (chunk@.len() + LONG_FRAME_LEN) <= isize::MAX,
        ensures
            final(self).wf(),
            (final(self)@, action@) == old(self)@.received(chunk@),
    {
        let ghost before = self@;
        proof {
            lemma_drain_rest(before.rx + chunk@);
        }
        self.rx.extend_from_slice(chunk);
        let (responses, hits) = drain_frames(&mut self.rx);
        let mut i: usize = 0;
        assert(responses@.take(0) =~= Seq::<Response>::empty());
        while i < responses.len()
            invariant
                self.wf(),
                i <= responses@.len(),
                self@ == (ThreadState {
                    telemetry: recorded(before.telemetry, responses@.take(i as int)),
                    rx: self@.rx,
                    ..before
                }),
                self@.rx == drain(before.rx + chunk@).rest,
            decreases responses@.len() - i,
        {
            assert(responses@.take(i + 1).drop_last() =~= responses@.take(i as int));
            self.telemetry.record(responses[i]);
            i = i + 1;
        }
        assert(responses@.take(i as int) =~= responses@);
        ThreadAction::Submit(collect_shares(&hits, &self.current_task))
    }

    fn tick(&mut self, tick: Tick) -> (action: ThreadAction)
        requires
            old(self).wf(),
        ensures
            final(self).wf(),
            (final(self)@, action@) == old(self)@.ticked(tick),
    {
        if !self.wants(tick) {
            return ThreadAction::Wait;
        }
        match tick {
            Tick::Heartbeat => {
                let group = heartbeat_group();
                let all = vec![group];
                assert(groups(all@) =~= seq![heartbeat_commands()]);
                ThreadAction::Write(all)
            },
            Tick::HitPoll => ThreadAction::Write(poll_chips(&self.chips)),
            Tick::Telemetry => ThreadAction::ReadTelemetry(read_chips(&self.chips)),
            Tick::Ntime => {
                match self.current_task {
                    None => ThreadAction::Wait,
                    Some(task) => {
                        let mut task = task;
                        task.ntime = task.ntime.wrapping_add(1);
                        self.current_task = Some(task);
                        match self.encode_job(&task) {
                            Ok(frames) => {
                                self.pending = Pending::Roll;
                                ThreadAction::WriteJob(frames)
                            },
                            Err(why) => ThreadAction::RollFailed(why),
                        }
                    },
                }
            },
            Tick::Ramp => {
                match self.ramp.next_step() {
                    Some(n) => ThreadAction::RampTo(n),
                    None => ThreadAction::Wait,
                }
            },
        }
    }

    /// One step of the thread.
    pub fn step(&mut self, event: ThreadEvent) -> (action: ThreadAction)
        requires
            old(self).wf(),
            event matches ThreadEvent::BroughtUp(Some(chips)) ==> strictly_ascending(chips@),
            event matches ThreadEvent::Received(chunk) ==> 2 * (chunk@.len() + LONG_FRAME_LEN)
                <= isize::MAX,
        ensures
            final(self).wf(),
            (final(self)@, action@) == old(self)@.step(event),
    {
        match event {
            ThreadEvent::Removal(signal) => match signal {
                ThreadRemovalSignal::Running => ThreadAction::Wait,
                _ => {
                    self.status.is_active = false;
                    ThreadAction::Stop
                },
            },
            ThreadEvent::RemovalClosed => ThreadAction::Stop,
            ThreadEvent::Configure => ThreadAction::AnnounceHashrate,
            ThreadEvent::UpdateTask(task) => self.assign(task),
            ThreadEvent::ReplaceTask(task) => self.assign(task),
            ThreadEvent::GoIdle => {
                let old_task = self.current_task;
                self.current_task = None;
                self.status.is_active = false;
                ThreadAction::Release(old_task)
            },
            ThreadEvent::Shutdown => ThreadAction::Stop,
            ThreadEvent::BroughtUp(outcome) => match self.pending {
                Pending::Setup(task) => match outcome {
                    Some(chips) => {
                        self.chips = chips;
                        self.chain_initialized = true;
                        self.assign(task)
                    },
                    None => {
                        self.pending = Pending::Nothing;
                        ThreadAction::Reject(Rejection::BringUpFailed)
                    },
                },
                _ => ThreadAction::Wait,
            },
            ThreadEvent::HooksRun => {
                self.hooks_run = true;
                match self.pending {
                    Pending::Setup(task) => self.assign(task),
                    _ => ThreadAction::Wait,
                }
            },
            ThreadEvent::JobWritten(ok) => self.job_written(ok),
            ThreadEvent::Received(chunk) => self.receive(chunk.as_slice()),
            ThreadEvent::Closed => ThreadAction::Pause(READ_PAUSE),
            ThreadEvent::ReadFailed => {
                self.status.hardware_errors = self.status.hardware_errors.wrapping_add(1);
                ThreadAction::Pause(READ_PAUSE)
            },
            ThreadEvent::Ticked(tick) => self.tick(tick),
            ThreadEvent::TelemetryRead { now } => ThreadAction::Publish(self.telemetry.poll(now)),
            ThreadEvent::ShareSent(ok) => {
                if ok {
                    self.status.chip_shares_found = self.status.chip_shares_found.wrapping_add(1);
                    self.status.pool_shares_submitted =
                        self.status.pool_shares_submitted.wrapping_add(1);
                }
                ThreadAction::Wait
            },
        }
    }
}

/// The heartbeat as one group of commands.
fn heartbeat_group() -> (group: Vec<Command>)
    ensures
        group@ == heartbeat_commands(),
{
    let payload: [u32; 5] = DVFS_HEARTBEAT_PAYLOAD;
    let mut group: Vec<Command> = Vec::new();
    let mut i: usize = 0;
    while i < 5
        invariant
            i <= 5,
            payload == DVFS_HEARTBEAT_PAYLOAD,
            group@ == heartbeat_commands().take(i as int),
        decreases 5 - i,
    {
        group.push(
            Command::WriteRegister {
                broadcast: true,
                chip_address: 0x00,
                register: Register::Dvfs,
                lcmd: DVFS_HEARTBEAT_LCMD,
                data: payload[i],
            },
        );
        assert(group@ =~= heartbeat_commands().take(i + 1));
        i = i + 1;
    }
    assert(heartbeat_commands().take(5) =~= heartbeat_commands());
    group
}

/// One hit poll per chip, each in a group of its own.
fn poll_chips(chips: &Vec<u8>) -> (all: Vec<Vec<Command>>)
    ensures
        groups(all@) == poll_groups(chips@),
{
    let mut all: Vec<Vec<Command>> = Vec::new();
    let mut i: usize = 0;
    while i < chips.len()
        invariant
            i <= chips@.len(),
            groups(all@) =~= poll_groups(chips@).take(i as int),
        decreases chips@.len() - i,
    {
        let ghost before = all@;
        let group = vec![Command::HitPoll { chip_address: chips[i] }];
        assert(group@ =~= poll_groups(chips@)[i as int]);
        all.push(group);
        assert(groups(all@) =~= groups(before).push(group@));
        i = i + 1;
    }
    assert(poll_groups(chips@).take(i as int) =~= poll_groups(chips@));
    all
}

/// The telemetry reads of one chip.
fn read_chip(chip: u8) -> (group: Vec<Command>)
    ensures
        group@ == telemetry_reads(chip),
{
    let registers: [Register; 5] = TELEMETRY_REGS;
    let mut group: Vec<Command> = Vec::new();
    let mut i: usize = 0;
    while i < 5
        invariant
            i <= 5,
            registers == TELEMETRY_REGS,
            group@ == telemetry_reads(chip).take(i as int),
        decreases 5 - i,
    {
        group.push(
            Command::ReadRegister {
                broadcast: false,
                chip_address: chip,
                register: registers[i],
                lcmd: TELEMETRY_LCMD,
                data: 0,
            },
        );
        assert(group@ =~= telemetry_reads(chip).take(i + 1));
        i = i + 1;
    }
    assert(telemetry_reads(chip).take(5) =~= telemetry_reads(chip));
    group
}

/// The telemetry reads, one group per chip.
fn read_chips(chips: &Vec<u8>) -> (all: Vec<Vec<Command>>)
    ensures
        groups(all@) == telemetry_groups(chips@),
{
    let mut all: Vec<Vec<Command>> = Vec::new();
    let mut i: usize = 0;
    while i < chips.len()
        invariant
            i <= chips@.len(),
            groups(all@) =~= telemetry_groups(chips@).take(i as int),
        decreases chips@.len() - i,
    {
        let ghost before = all@;
        let group = read_chip(chips[i]);
        all.push(group);
        assert(groups(all@) =~= groups(before).push(group@));
        i = i + 1;
    }
    assert(telemetry_groups(chips@).take(i as int) =~= telemetry_groups(chips@));
    all
}

} // verus!
