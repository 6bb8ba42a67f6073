//! How the Aura thread answers each event, from every state.

use super::chain_laws::lemma_heartbeat_writes;
use super::dvfs::{heartbeat_commands, ramp_to};
use super::framing::{drain, reported};
use super::job::{
    claims, job_frames, shares_among, HashTask, JobError, MerkleRootKind, Share,
};
use super::job_laws::lemma_root_of_task;
use super::protocol::{Command, HitFrame, Register};
use super::telemetry::TrackerState;
use super::thread::{
    groups, recorded, rolled, same_psu, Doing, Pending, Rejection, ThreadAction, ThreadEvent,
    ThreadRemovalSignal, ThreadState, ThreadStatus, Tick,
};
use crate::buffer::buffered;
use crate::peripheral::pwm_sysfs::PwmSysfs;
use vstd::prelude::*;

verus! {

/// `task` can be sent, with `root` as its merkle root: it is fixed, or it was
/// computed and the task has an extranonce2.
pub open spec fn sends_root(task: HashTask, root: Seq<u8>) -> bool {
    match task.merkle_root {
        MerkleRootKind::Fixed(r) => r@ == root,
        MerkleRootKind::Computed(Some(r)) => task.en2 is Some && r@ == root,
        MerkleRootKind::Computed(None) => false,
    }
}

/// `event` gives the thread `task`, whether or not the old work stays valid.
pub open spec fn assigns(event: ThreadEvent, task: HashTask) -> bool {
    event == ThreadEvent::UpdateTask(task) || event == ThreadEvent::ReplaceTask(task)
}

/// On a chain that is up, with its hooks run, a task that can be sent is sent
/// at once to every chip and becomes the live task, no matter what was live
/// before and which of the two assignments it came with. Once it is written
/// the scheduler gets the task back that was live before, the thread is
/// active, the ramp may run, and slot and job id move on by one. A failed write
/// refuses the assignment.
pub proof fn lemma_assignment_goes_out(
    state: ThreadState,
    event: ThreadEvent,
    task: HashTask,
    root: Seq<u8>,
)
    requires
        assigns(event, task),
        state.chain_initialized,
        state.hooks_run,
        sends_root(task, root),
    ensures
        ({
            let (sent, doing) = state.step(event);
            let (held, answer) = sent.step(ThreadEvent::JobWritten(true));
            let (failed, refusal) = sent.step(ThreadEvent::JobWritten(false));
            &&& doing == Doing::WriteJob(
                job_frames(state.chips, state.slot, state.job_id, task, root),
            )
            &&& sent.current_task == Some(task)
            &&& sent == (ThreadState {
                current_task: Some(task),
                pending: sent.pending,
                ..state
            })
            &&& answer == Doing::Accept(state.current_task)
            &&& held == (ThreadState {
                current_task: Some(task),
                slot: ((state.slot + 1) % 256) as u8,
                job_id: ((state.job_id + 1) % 0x1_0000_0000) as u32,
                ramp_started: true,
                status: ThreadStatus { is_active: true, ..state.status },
                pending: Pending::Nothing,
                ..state
            })
            &&& refusal == Doing::Reject(Rejection::WriteFailed)
            &&& failed == (ThreadState {
                current_task: Some(task),
                pending: Pending::Nothing,
                ..state
            })
        }),
{
    lemma_root_of_task(task);
}

/// The outcome of an outstanding write counts whatever happened since it was
/// asked for. An assigned job that was written is accepted and makes the thread
/// active; a rolled one only moves slot and job id on. A failed write leaves
/// all of that alone, and an assignment is refused.
pub proof fn lemma_write_outcome(state: ThreadState, old_task: Option<HashTask>)
    ensures
        ({
            let slot = ((state.slot + 1) % 256) as u8;
            let job_id = ((state.job_id + 1) % 0x1_0000_0000) as u32;
            let good = state.step(ThreadEvent::JobWritten(true));
            let bad = state.step(ThreadEvent::JobWritten(false));
            &&& state.pending == Pending::Assign(old_task) ==> {
                &&& good == (
                    ThreadState {
                        slot,
                        job_id,
                        ramp_started: true,
                        status: ThreadStatus { is_active: true, ..state.status },
                        pending: Pending::Nothing,
                        ..state
                    },
                    Doing::Accept(old_task),
                )
                &&& bad == (
                    ThreadState { pending: Pending::Nothing, ..state },
                    Doing::Reject(Rejection::WriteFailed),
                )
            }
            &&& state.pending is Roll ==> {
                &&& good == (
                    ThreadState { slot, job_id, pending: Pending::Nothing, ..state },
                    Doing::Wait,
                )
                &&& bad == (ThreadState { pending: Pending::Nothing, ..state }, Doing::Wait)
            }
        }),
{
}

/// An update and a replacement are taken on alike, from every state.
pub proof fn lemma_update_and_replace_agree(state: ThreadState, task: HashTask)
    ensures
        state.step(ThreadEvent::UpdateTask(task)) == state.step(ThreadEvent::ReplaceTask(task)),
{
}

/// A task that cannot be sent is refused, and the refusal says why: it has no
/// extranonce2 for a computed merkle root, or the computation failed. No job
/// goes out.
pub proof fn lemma_unsendable_task_is_refused(
    state: ThreadState,
    event: ThreadEvent,
    task: HashTask,
)
    requires
        assigns(event, task),
        state.chain_initialized,
        state.hooks_run,
        forall|root: Seq<u8>| !sends_root(task, root),
    ensures
        ({
            let (next, doing) = state.step(event);
            &&& task.en2 is None ==> doing == Doing::Reject(
                Rejection::Job(JobError::Extranonce2Required),
            )
            &&& task.en2 is Some ==> doing == Doing::Reject(
                Rejection::Job(JobError::MerkleRootFailed),
            )
            &&& next == (ThreadState {
                current_task: Some(task),
                pending: Pending::Nothing,
                ..state
            })
        }),
{
    lemma_root_of_task(task);
    match task.merkle_root {
        MerkleRootKind::Fixed(r) => {
            assert(sends_root(task, r@));
        },
        MerkleRootKind::Computed(Some(r)) => {
            assert(task.en2 is Some ==> sends_root(task, r@));
        },
        MerkleRootKind::Computed(None) => {},
    }
}

/// A task for a chain that is down asks for bring-up first; a task for a chain
/// that is up asks for the hooks first where they have not run. The thread
/// keeps the task for later, and the live task stays until then.
pub proof fn lemma_assignment_waits_for_setup(
    state: ThreadState,
    event: ThreadEvent,
    task: HashTask,
)
    requires
        assigns(event, task),
        !state.chain_initialized || !state.hooks_run,
    ensures
        ({
            let (next, doing) = state.step(event);
            &&& !state.chain_initialized ==> doing == Doing::BringUp
            &&& state.chain_initialized ==> doing == Doing::RunHooks
            &&& next == (ThreadState { pending: Pending::Setup(task), ..state })
        }),
{
}

/// A chain that came up holds the chips found, and the task that waited for it
/// goes on as if it had been assigned to that chain.
pub proof fn lemma_bring_up_goes_on(state: ThreadState, task: HashTask, chips: Vec<u8>)
    requires
        state.pending == Pending::Setup(task),
    ensures
        ({
            let up = ThreadState { chips: chips@, chain_initialized: true, ..state };
            &&& state.step(ThreadEvent::BroughtUp(Some(chips))) == up.step(
                ThreadEvent::UpdateTask(task),
            )
            &&& state.step(ThreadEvent::BroughtUp(None)) == (
                ThreadState { pending: Pending::Nothing, ..state },
                Doing::Reject(Rejection::BringUpFailed),
            )
        }),
{
}

/// Once the hooks have run, the task that waited for them goes on as if it had
/// been assigned then.
pub proof fn lemma_hooks_go_on(state: ThreadState, task: HashTask)
    requires
        state.pending == Pending::Setup(task),
    ensures
        state.step(ThreadEvent::HooksRun) == (ThreadState { hooks_run: true, ..state }).step(
            ThreadEvent::UpdateTask(task),
        ),
{
}

/// The first task of a thread: bring-up, the hooks, and then the job, sent to
/// every chip that was found.
pub proof fn lemma_first_task_reaches_the_chips(
    state: ThreadState,
    event: ThreadEvent,
    task: HashTask,
    root: Seq<u8>,
    chips: Vec<u8>,
)
    requires
        assigns(event, task),
        !state.chain_initialized,
        !state.hooks_run,
        sends_root(task, root),
    ensures
        ({
            let (a, first) = state.step(event);
            let (b, second) = a.step(ThreadEvent::BroughtUp(Some(chips)));
            let (c, third) = b.step(ThreadEvent::HooksRun);
            let (d, fourth) = c.step(ThreadEvent::JobWritten(true));
            &&& first == Doing::BringUp
            &&& second == Doing::RunHooks
            &&& third == Doing::WriteJob(
                job_frames(chips@, state.slot, state.job_id, task, root),
            )
            &&& fourth == Doing::Accept(state.current_task)
            &&& d.chips == chips@
            &&& d.chain_initialized && d.hooks_run && d.ramp_started && d.status.is_active
            &&& d.current_task == Some(task)
        }),
{
    lemma_root_of_task(task);
}

/// Answers to what was not asked for change nothing, but that the hooks count
/// as run.
pub proof fn lemma_stray_answers(
    state: ThreadState,
    outcome: Option<Vec<u8>>,
    ok: bool,
)
    ensures
        !(state.pending is Setup) ==> state.step(ThreadEvent::BroughtUp(outcome)) == (
            state,
            Doing::Wait,
        ),
        !(state.pending is Setup) ==> state.step(ThreadEvent::HooksRun) == (
            ThreadState { hooks_run: true, ..state },
            Doing::Wait,
        ),
        state.pending is Nothing || state.pending is Setup ==> state.step(
            ThreadEvent::JobWritten(ok),
        ) == (state, Doing::Wait),
{
}

/// When a duty is on. The heartbeat needs the chain up; hit polls and
/// telemetry need work on it too; ntime rolls while there is a task; the ramp
/// needs all of that, a job written, and steps that are left.
pub proof fn lemma_when_duties_are_on(state: ThreadState)
    ensures
        state.enabled(Tick::Heartbeat) <==> state.chain_initialized,
        state.enabled(Tick::HitPoll) <==> state.chain_initialized && state.current_task is Some,
        state.enabled(Tick::Telemetry) <==> state.chain_initialized && state.current_task is Some,
        state.enabled(Tick::Ntime) <==> state.current_task is Some,
        state.enabled(Tick::Ramp) <==> state.chain_initialized && state.current_task is Some
            && state.ramp_started && state.ramp.len() > 0,
{
}

/// A duty that is off does nothing when it is due.
pub proof fn lemma_duties_that_are_off(state: ThreadState, tick: Tick)
    requires
        match tick {
            Tick::Heartbeat => !state.chain_initialized,
            Tick::HitPoll => !state.chain_initialized || state.current_task is None,
            Tick::Telemetry => !state.chain_initialized || state.current_task is None,
            Tick::Ntime => state.current_task is None,
            Tick::Ramp => !state.chain_initialized || state.current_task is None
                || !state.ramp_started || state.ramp.len() == 0,
        },
    ensures
        state.step(ThreadEvent::Ticked(tick)) == (state, Doing::Wait),
{
}

/// A heartbeat sends the five words to all chips, in one group.
pub proof fn lemma_heartbeat_due(state: ThreadState)
    requires
        state.chain_initialized,
    ensures
        state.step(ThreadEvent::Ticked(Tick::Heartbeat)) == (
            state,
            Doing::Write(seq![heartbeat_commands()]),
        ),
        heartbeat_commands().len() == 5,
{
    lemma_heartbeat_writes(0);
}

/// A hit poll asks every chip once, in the order of the chips, each in a group
/// of its own.
pub proof fn lemma_hit_poll_due(state: ThreadState, i: int)
    requires
        state.chain_initialized,
        state.current_task is Some,
        0 <= i < state.chips.len(),
    ensures
        ({
            let (next, doing) = state.step(ThreadEvent::Ticked(Tick::HitPoll));
            &&& next == state
            &&& doing matches Doing::Write(all) && all.len() == state.chips.len() && all[i]
                == seq![Command::HitPoll { chip_address: state.chips[i] }]
        }),
{
}

/// Telemetry reads five registers of every chip, in the order of the chips,
/// one group per chip: hits, preliminary hits, reference clock, hash clock and
/// voltage.
pub proof fn lemma_telemetry_due(state: ThreadState, i: int, j: int)
    requires
        state.chain_initialized,
        state.current_task is Some,
        0 <= i < state.chips.len(),
        0 <= j < 5,
    ensures
        ({
            let (next, doing) = state.step(ThreadEvent::Ticked(Tick::Telemetry));
            &&& next == state
            &&& doing matches Doing::ReadTelemetry(all) && all.len() == state.chips.len()
                && all[i].len() == 5 && all[i][j] == (Command::ReadRegister {
                broadcast: false,
                chip_address: state.chips[i],
                register: if j == 0 {
                    Register::HitCount
                } else if j == 1 {
                    Register::HitCountPrelim
                } else if j == 2 {
                    Register::ClkRef
                } else if j == 3 {
                    Register::ClkHash
                } else {
                    Register::VoltageAdc
                },
                lcmd: 0x1200,
                data: 0,
            })
        }),
{
}

/// A task one second later differs in its time alone, which wraps at 32 bits.
pub proof fn lemma_rolled_task(task: HashTask)
    ensures
        task.ntime < u32::MAX ==> rolled(task).ntime == task.ntime + 1,
        task.ntime == u32::MAX ==> rolled(task).ntime == 0,
        rolled(task) == (HashTask { ntime: rolled(task).ntime, ..task }),
{
}

/// Rolling ntime sends the live task one second later to every chip and keeps
/// it live; slot and job id move on once it is written, and stay if the write
/// fails. The scheduler is not told. A task that can no longer be sent is
/// reported.
pub proof fn lemma_ntime_due(state: ThreadState, task: HashTask, later: HashTask, root: Seq<u8>)
    requires
        state.current_task == Some(task),
        later == (HashTask { ntime: later.ntime, ..task }),
        later.ntime == (task.ntime + 1) % 0x1_0000_0000,
    ensures
        ({
            let (sent, doing) = state.step(ThreadEvent::Ticked(Tick::Ntime));
            let (held, answer) = sent.step(ThreadEvent::JobWritten(true));
            let (failed, silence) = sent.step(ThreadEvent::JobWritten(false));
            &&& sent == (ThreadState { current_task: Some(later), pending: sent.pending, ..state })
            &&& sends_root(task, root) ==> {
                &&& doing == Doing::WriteJob(
                    job_frames(state.chips, state.slot, state.job_id, later, root),
                )
                &&& answer == Doing::Wait
                &&& held == (ThreadState {
                    current_task: Some(later),
                    slot: ((state.slot + 1) % 256) as u8,
                    job_id: ((state.job_id + 1) % 0x1_0000_0000) as u32,
                    pending: Pending::Nothing,
                    ..state
                })
                &&& silence == Doing::Wait
                &&& failed == (ThreadState {
                    current_task: Some(later),
                    pending: Pending::Nothing,
                    ..state
                })
            }
            &&& (forall|r: Seq<u8>| !sends_root(task, r)) ==> sent.pending == state.pending
                && doing == Doing::RollFailed(
                if task.en2 is None {
                    JobError::Extranonce2Required
                } else {
                    JobError::MerkleRootFailed
                },
            )
        }),
{
    lemma_root_of_task(task);
    lemma_root_of_task(later);
    assert(rolled(task) == later);
    match task.merkle_root {
        MerkleRootKind::Fixed(r) => {
            assert(sends_root(task, r@));
        },
        MerkleRootKind::Computed(Some(r)) => {
            assert(task.en2 is Some ==> sends_root(task, r@));
        },
        MerkleRootKind::Computed(None) => {},
    }
}

/// The ramp climbs to the next of its steps and leaves the ones after it.
pub proof fn lemma_ramp_due(state: ThreadState, n: u32, rest: Seq<u32>)
    requires
        state.chain_initialized,
        state.current_task is Some,
        state.ramp_started,
        state.ramp == seq![n] + rest,
    ensures
        state.step(ThreadEvent::Ticked(Tick::Ramp)) == (
            ThreadState { ramp: rest, ..state },
            Doing::RampTo(n),
        ),
{
    assert(state.ramp.drop_first() =~= rest);
}

/// Going idle hands the live task back and leaves none; the thread is no
/// longer active.
pub proof fn lemma_idle_hands_back(state: ThreadState)
    ensures
        state.step(ThreadEvent::GoIdle) == (
            ThreadState {
                current_task: None,
                status: ThreadStatus { is_active: false, ..state.status },
                ..state
            },
            Doing::Release(state.current_task),
        ),
{
}

/// The thread ends when the board shuts down or fails, when nobody can signal
/// removal anymore, and when the scheduler says so; it goes on while it is to
/// keep running. A removal makes it inactive, and nothing else of it changes.
pub proof fn lemma_when_the_thread_ends(state: ThreadState, signal: ThreadRemovalSignal)
    ensures
        signal is Running ==> state.step(ThreadEvent::Removal(signal)) == (state, Doing::Wait),
        !(signal is Running) ==> state.step(ThreadEvent::Removal(signal)) == (
            ThreadState { status: ThreadStatus { is_active: false, ..state.status }, ..state },
            Doing::Stop,
        ),
        state.step(ThreadEvent::RemovalClosed) == (state, Doing::Stop),
        state.step(ThreadEvent::Shutdown) == (state, Doing::Stop),
        state.step(ThreadEvent::Configure) == (state, Doing::AnnounceHashrate),
{
}

/// Nothing but a removal, its closing and a shutdown ends the thread.
pub proof fn lemma_nothing_else_ends_it(state: ThreadState, event: ThreadEvent)
    ensures
        state.step(event).1 is Stop <==> event is RemovalClosed || event is Shutdown || (
        event matches ThreadEvent::Removal(signal) && !(signal is Running)),
{
}

/// A bus that is at its end and a read that fails make the thread pause for
/// 10 ms; a failed read is counted.
pub proof fn lemma_bus_trouble(state: ThreadState)
    ensures
        state.step(ThreadEvent::Closed) == (state, Doing::Pause(10_000_000)),
        state.step(ThreadEvent::ReadFailed).1 == Doing::Pause(10_000_000),
        ({
            let next = state.step(ThreadEvent::ReadFailed).0;
            &&& next == (ThreadState {
                status: ThreadStatus {
                    hardware_errors: next.status.hardware_errors,
                    ..state.status
                },
                ..state
            })
            &&& state.status.hardware_errors < u64::MAX ==> next.status.hardware_errors
                == state.status.hardware_errors + 1
            &&& state.status.hardware_errors == u64::MAX ==> next.status.hardware_errors == 0
        }),
{
}

/// A share that the scheduler took counts once as found and once as
/// submitted; one that it did not take does not count.
pub proof fn lemma_shares_are_counted(state: ThreadState)
    ensures
        state.step(ThreadEvent::ShareSent(false)) == (state, Doing::Wait),
        state.step(ThreadEvent::ShareSent(true)).1 == Doing::Wait,
        ({
            let next = state.step(ThreadEvent::ShareSent(true)).0;
            &&& next == (ThreadState {
                status: ThreadStatus {
                    chip_shares_found: next.status.chip_shares_found,
                    pool_shares_submitted: next.status.pool_shares_submitted,
                    ..state.status
                },
                ..state
            })
            &&& next.status.chip_shares_found == (if state.status.chip_shares_found == u64::MAX {
                0
            } else {
                state.status.chip_shares_found + 1
            })
            &&& next.status.pool_shares_submitted == (if state.status.pool_shares_submitted
                == u64::MAX {
                0
            } else {
                state.status.pool_shares_submitted + 1
            })
        }),
{
}

/// Bytes from the bus join those that wait. What the frames in them answer
/// goes to the tracker, the shares among their hits under the live task go to
/// the scheduler, and what makes no frame yet waits.
pub proof fn lemma_bytes_arrive(state: ThreadState, chunk: Vec<u8>)
    ensures
        ({
            let came = drain(state.rx + chunk@);
            state.step(ThreadEvent::Received(chunk)) == (
                ThreadState {
                    telemetry: recorded(state.telemetry, came.responses),
                    rx: came.rest,
                    ..state
                },
                Doing::Submit(shares_among(came.hits, state.current_task)),
            )
        }),
{
}

/// Once the reads are out the increments since the last full samples are
/// published, and those samples replaced.
pub proof fn lemma_reads_are_out(state: ThreadState, now: u64)
    ensures
        state.step(ThreadEvent::TelemetryRead { now }) == (
            ThreadState { telemetry: state.telemetry.polled(now), ..state },
            Doing::Publish(state.telemetry.deltas(now)),
        ),
{
}

/// A new thread has no chips and no work, has counted nothing, and has the
/// whole ramp before it.
pub proof fn lemma_new_thread(max_pll: u32)
    ensures
        ({
            let new = ThreadState::start(max_pll);
            &&& new.chips.len() == 0
            &&& !new.chain_initialized
            &&& !new.hooks_run
            &&& !new.ramp_started
            &&& new.current_task is None
            &&& new.slot == 0
            &&& new.job_id == 0
            &&& new.telemetry == TrackerState::empty()
            &&& new.ramp == ramp_to(max_pll)
            &&& new.rx.len() == 0
            &&& new.status == (ThreadStatus {
                is_active: false,
                chip_shares_found: 0,
                pool_shares_submitted: 0,
                hardware_errors: 0,
            })
            &&& new.pending is Nothing
        }),
{
}

/// What is asked for is what is done: each action stands for the doing of its
/// own name, with what it carries.
pub proof fn lemma_actions_say(action: ThreadAction)
    ensures
        match action {
            ThreadAction::Wait => action@ == Doing::Wait,
            ThreadAction::Stop => action@ == Doing::Stop,
            ThreadAction::AnnounceHashrate => action@ == Doing::AnnounceHashrate,
            ThreadAction::BringUp => action@ == Doing::BringUp,
            ThreadAction::RunHooks => action@ == Doing::RunHooks,
            ThreadAction::WriteJob(frames) => action@ == Doing::WriteJob(buffered(frames)),
            ThreadAction::Accept(task) => action@ == Doing::Accept(task),
            ThreadAction::Reject(why) => action@ == Doing::Reject(why),
            ThreadAction::Release(task) => action@ == Doing::Release(task),
            ThreadAction::RollFailed(why) => action@ == Doing::RollFailed(why),
            ThreadAction::Submit(shares) => action@ matches Doing::Submit(c) && c.len()
                == shares@.len() && forall|i: int|
                0 <= i < c.len() ==> #[trigger] c[i] == shares@[i]@,
            ThreadAction::Pause(ns) => action@ == Doing::Pause(ns),
            ThreadAction::Write(all) => action@ matches Doing::Write(g) && g.len() == all@.len()
                && forall|i: int| 0 <= i < g.len() ==> #[trigger] g[i] == all@[i]@,
            ThreadAction::ReadTelemetry(all) => action@ matches Doing::ReadTelemetry(g) && g.len()
                == all@.len() && forall|i: int| 0 <= i < g.len() ==> #[trigger] g[i] == all@[i]@,
            ThreadAction::Publish(deltas) => action@ == Doing::Publish(deltas@),
            ThreadAction::RampTo(n) => action@ == Doing::RampTo(n),
        },
{
}

/// What is said of a run of shares, of groups of commands and of hit frames is
/// said of each of them in turn.
pub proof fn lemma_said_of_each(
    shares: Seq<Share>,
    all: Seq<Vec<Command>>,
    hits: Seq<HitFrame>,
    i: int,
)
    ensures
        claims(shares).len() == shares.len(),
        0 <= i < shares.len() ==> claims(shares)[i] == shares[i]@,
        groups(all).len() == all.len(),
        0 <= i < all.len() ==> groups(all)[i] == all[i]@,
        reported(hits).len() == hits.len(),
        0 <= i < hits.len() ==> reported(hits)[i] == hits[i]@,
{
}

/// Two configurations name the same PSU exactly if both name a channel and the
/// channels agree, or neither names one.
pub proof fn lemma_same_psu(a: PwmSysfs, b: PwmSysfs)
    ensures
        same_psu(None, None),
        same_psu(Some(a), Some(b)) <==> a@ == b@,
        !same_psu(Some(a), None),
        !same_psu(None, Some(a)),
{
}

/// What stands in a hit frame is what is said of it.
pub proof fn lemma_hit_frame_says(hit: HitFrame)
    ensures
        hit@.chip == hit.chip,
        hit@.nonce == hit.nonce,
        hit@.header == hit.header@,
{
}

} // verus!
