//! What holds of the Aura thread over time.

use super::dvfs::ramp_to;
use super::framing::{
    drain, lemma_drain_in_chunks, lemma_drain_reads_hit_back, lemma_drain_rest,
};
use super::job::{
    belongs_to, hit_hash, outcome, shares_among, HashTask, HitOutcome, ShareClaim,
};
use super::protocol::{hit_frame, lemma_hit_round_trip, Hit, Response};
use super::telemetry::TrackerState;
use super::thread::{
    recorded, rolled, Doing, Pending, Rejection, ThreadEvent, ThreadState, Tick,
};
use crate::wire::le_value;
use vstd::prelude::*;

verus! {

/// What holds of a thread at all times: a live task means that the chain is up
/// and the hooks have run, the ramp starts only after that, every share that
/// was found was submitted, and an outstanding job write belongs to a chain
/// that is up.
pub open spec fn sound(state: ThreadState) -> bool {
    &&& state.current_task is Some ==> state.chain_initialized && state.hooks_run
    &&& state.ramp_started ==> state.chain_initialized && state.hooks_run
    &&& state.status.chip_shares_found == state.status.pool_shares_submitted
    &&& (state.pending is Assign || state.pending is Roll) ==> state.chain_initialized
        && state.hooks_run
}

/// A new thread is sound.
pub proof fn lemma_start_is_sound(max_pll: u32)
    ensures
        sound(ThreadState::start(max_pll)),
{
}

/// A sound thread stays sound, whatever happens.
pub proof fn lemma_step_stays_sound(state: ThreadState, event: ThreadEvent)
    requires
        sound(state),
    ensures
        sound(state.step(event).0),
{
}

/// The state after `events`, one step each.
pub open spec fn run(state: ThreadState, events: Seq<ThreadEvent>) -> ThreadState
    decreases events.len(),
{
    if events.len() == 0 {
        state
    } else {
        run(state, events.drop_last()).step(events.last()).0
    }
}

/// What was done about the last of `events`.
pub open spec fn last_doing(state: ThreadState, events: Seq<ThreadEvent>) -> Doing {
    run(state, events.drop_last()).step(events.last()).1
}

/// A thread is sound at every point of its life.
pub proof fn lemma_always_sound(max_pll: u32, events: Seq<ThreadEvent>)
    ensures
        sound(run(ThreadState::start(max_pll), events)),
    decreases events.len(),
{
    if events.len() > 0 {
        lemma_always_sound(max_pll, events.drop_last());
        lemma_step_stays_sound(
            run(ThreadState::start(max_pll), events.drop_last()),
            events.last(),
        );
    }
}

/// `doing` sends something to the chips.
pub open spec fn touches_chips(doing: Doing) -> bool {
    doing is WriteJob || doing is Write || doing is ReadTelemetry || doing is RampTo
}

/// The chain is left alone until it has been brought up: before that, nothing
/// that a sound thread does sends anything to the chips.
pub proof fn lemma_chips_untouched_before_bring_up(state: ThreadState, event: ThreadEvent)
    requires
        sound(state),
        !state.step(event).0.chain_initialized,
    ensures
        !touches_chips(state.step(event).1),
{
}

/// Bring-up is asked for only while the chain is down, and the chain never
/// goes down again.
pub proof fn lemma_bring_up_happens_once(state: ThreadState, event: ThreadEvent)
    ensures
        state.step(event).1 is BringUp ==> !state.chain_initialized,
        state.chain_initialized ==> state.step(event).0.chain_initialized,
{
}

/// The hooks are asked for only on a chain that is up and before they have
/// run; once they have run they are never asked for again; and no job goes
/// out before they have run.
pub proof fn lemma_hooks_run_once_before_any_job(state: ThreadState, event: ThreadEvent)
    requires
        sound(state),
    ensures
        state.step(event).1 is RunHooks ==> state.step(event).0.chain_initialized
            && !state.hooks_run,
        state.hooks_run ==> state.step(event).0.hooks_run && !(state.step(event).1 is RunHooks),
        state.step(event).1 is WriteJob ==> state.step(event).0.hooks_run,
{
}

/// Slot and job id advance together, by one, exactly when job frames have
/// been written, and never otherwise.
pub proof fn lemma_slot_advances_once_per_dispatch(state: ThreadState, event: ThreadEvent)
    ensures
        ({
            let next = state.step(event).0;
            if event == ThreadEvent::JobWritten(true) && (state.pending is Assign
                || state.pending is Roll) {
                &&& next.slot == (state.slot + 1) % 0x100
                &&& next.job_id == (state.job_id + 1) % 0x1_0000_0000
            } else {
                &&& next.slot == state.slot
                &&& next.job_id == state.job_id
            }
        }),
{
}

/// A failed bring-up refuses the assignment and changes nothing else: the old
/// task, if any, stays, and the next assignment tries again.
pub proof fn lemma_failed_bring_up_changes_nothing(state: ThreadState, task: HashTask)
    requires
        !state.chain_initialized,
    ensures
        ({
            let (asking, doing) = state.step(ThreadEvent::UpdateTask(task));
            let (after, answer) = asking.step(ThreadEvent::BroughtUp(None));
            &&& doing is BringUp
            &&& answer == Doing::Reject(Rejection::BringUpFailed)
            &&& after == (ThreadState { pending: Pending::Nothing, ..state })
        }),
{
}

/// On an idle thread hit polls, telemetry reads, ntime rolling and the ramp are
/// off; the heartbeat goes on as it was. The ramp keeps its place, so it resumes
/// where it left off.
pub proof fn lemma_idle_rests(state: ThreadState)
    ensures
        ({
            let idle = state.step(ThreadEvent::GoIdle).0;
            &&& !idle.enabled(Tick::HitPoll)
            &&& !idle.enabled(Tick::Telemetry)
            &&& !idle.enabled(Tick::Ntime)
            &&& !idle.enabled(Tick::Ramp)
            &&& idle.enabled(Tick::Heartbeat) == state.enabled(Tick::Heartbeat)
            &&& idle.ramp == state.ramp
            &&& !idle.status.is_active
        }),
{
}

/// The ramp runs only while work is live on the chips.
pub proof fn lemma_ramp_needs_live_work(state: ThreadState, event: ThreadEvent)
    ensures
        state.step(event).1 is RampTo ==> state.ramp_started && state.current_task is Some,
{
}

/// The ramp steps asked for over `events`.
pub open spec fn climbed(state: ThreadState, events: Seq<ThreadEvent>) -> Seq<u32>
    decreases events.len(),
{
    if events.len() == 0 {
        Seq::empty()
    } else {
        let earlier = climbed(state, events.drop_last());
        match last_doing(state, events) {
            Doing::RampTo(n) => earlier.push(n),
            _ => earlier,
        }
    }
}

/// Over the life of a thread the ramp is climbed in order, each step once and
/// none skipped, whatever else happens in between.
pub proof fn lemma_ramp_climbs_in_order(max_pll: u32, events: Seq<ThreadEvent>)
    ensures
        climbed(ThreadState::start(max_pll), events) + run(
            ThreadState::start(max_pll),
            events,
        ).ramp == ramp_to(max_pll),
    decreases events.len(),
{
    let start = ThreadState::start(max_pll);
    if events.len() == 0 {
        assert(climbed(start, events) + start.ramp =~= ramp_to(max_pll));
    } else {
        lemma_ramp_climbs_in_order(max_pll, events.drop_last());
        let before = run(start, events.drop_last());
        let after = run(start, events);
        let head = climbed(start, events.drop_last());
        match last_doing(start, events) {
            Doing::RampTo(n) => {
                assert(before.ramp =~= seq![n] + after.ramp);
                assert(head.push(n) + after.ramp =~= head + before.ramp);
            },
            _ => {
                assert(after.ramp == before.ramp);
            },
        }
    }
}

proof fn lemma_recorded_concat(tracker: TrackerState, a: Seq<Response>, b: Seq<Response>)
    ensures
        recorded(tracker, a + b) == recorded(recorded(tracker, a), b),
    decreases b.len(),
{
    if b.len() == 0 {
        assert(a + b =~= a);
    } else {
        assert((a + b).drop_last() =~= a + b.drop_last());
        lemma_recorded_concat(tracker, a, b.drop_last());
    }
}

proof fn lemma_shares_concat(a: Seq<Hit>, b: Seq<Hit>, task: Option<HashTask>)
    ensures
        shares_among(a + b, task) == shares_among(a, task) + shares_among(b, task),
    decreases b.len(),
{
    if b.len() == 0 {
        assert(a + b =~= a);
        assert(shares_among(a, task) + shares_among(b, task) =~= shares_among(a, task));
    } else {
        assert((a + b).drop_last() =~= a + b.drop_last());
        lemma_shares_concat(a, b.drop_last(), task);
        assert(shares_among(a + b, task) =~= shares_among(a, task) + shares_among(b, task));
    }
}

/// How the bus cuts its bytes into chunks does not matter: two chunks leave
/// the thread as their concatenation does, and yield the same shares.
pub proof fn lemma_received_in_chunks(state: ThreadState, a: Seq<u8>, b: Seq<u8>)
    ensures
        ({
            let (middle, first) = state.received(a);
            let (end, second) = middle.received(b);
            &&& end == state.received(a + b).0
            &&& first matches Doing::Submit(x) && second matches Doing::Submit(y)
                && state.received(a + b).1 == Doing::Submit(x + y)
        }),
{
    lemma_drain_in_chunks(state.rx + a, b);
    assert((state.rx + a) + b =~= state.rx + (a + b));
    let first = drain(state.rx + a);
    let second = drain(first.rest + b);
    lemma_recorded_concat(state.telemetry, first.responses, second.responses);
    lemma_shares_concat(first.hits, second.hits, state.current_task);
}

/// A winning nonce reaches the scheduler: a hit frame that echoes the header
/// of the live task, and whose hash meets the share target, is submitted as a
/// share as soon as it has arrived, whether or not zero bytes came before it.
pub proof fn lemma_winning_nonce_is_submitted(
    state: ThreadState,
    task: HashTask,
    zeros: nat,
    chip: u8,
    reg: u8,
    nbits: u8,
    id_hi_seq: u8,
    header: Seq<u8>,
)
    requires
        state.current_task == Some(task),
        state.rx.len() == 0,
        header.len() == 80,
        ({
            let hit = Hit { chip, nonce: le_value(header.skip(76)) as u32, header };
            belongs_to(hit, task) && le_value(hit_hash(hit)) <= le_value(task.share_target@)
        }),
    ensures
        ({
            let hit = Hit { chip, nonce: le_value(header.skip(76)) as u32, header };
            let chunk = Seq::new(zeros, |i: int| 0u8) + hit_frame(
                chip,
                reg,
                nbits,
                id_hi_seq,
                header,
            );
            &&& outcome(hit, Some(task), hit_hash(hit)) is Share
            &&& state.received(chunk).1 == Doing::Submit(
                seq![outcome(hit, Some(task), hit_hash(hit))->Share_0],
            )
            &&& state.received(chunk).0.rx.len() == 0
        }),
{
    let hit = Hit { chip, nonce: le_value(header.skip(76)) as u32, header };
    let frame = hit_frame(chip, reg, nbits, id_hi_seq, header);
    let chunk = Seq::new(zeros, |i: int| 0u8) + frame;
    lemma_hit_round_trip(chip, reg, nbits, id_hi_seq, header);
    lemma_drain_reads_hit_back(zeros, chip, reg, nbits, id_hi_seq, header, Seq::empty());
    assert(frame + Seq::<u8>::empty() =~= frame);
    assert(state.rx + chunk =~= chunk);
    let hits = drain(chunk).hits;
    assert(drain(Seq::<u8>::empty()).hits =~= Seq::<Hit>::empty());
    assert(hits =~= seq![hit]);
    assert(hits.drop_last() =~= Seq::<Hit>::empty());
    assert(shares_among(Seq::<Hit>::empty(), Some(task)) =~= Seq::<ShareClaim>::empty());
    assert(shares_among(hits, Some(task)) =~= seq![
        outcome(hit, Some(task), hit_hash(hit))->Share_0,
    ]);
}

/// Rolling ntime makes the earlier header stale: no hit belongs both to a task
/// and to that task one second later.
pub proof fn lemma_rolled_task_makes_hits_stale(hit: Hit, task: HashTask)
    requires
        belongs_to(hit, task),
    ensures
        !belongs_to(hit, rolled(task)),
        outcome(hit, Some(rolled(task)), hit_hash(hit)) == HitOutcome::Stale,
{
}

/// What the thread keeps of the bytes it received is never a whole frame.
pub proof fn lemma_rx_stays_short(state: ThreadState, chunk: Seq<u8>)
    ensures
        state.received(chunk).0.rx.len() < 92,
{
    lemma_drain_rest(state.rx + chunk);
}

} // verus!
