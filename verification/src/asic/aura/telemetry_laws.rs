//! What the tracker knows after answers and polls.

use super::protocol::Response;
use super::telemetry::{
    counter_delta, deltas_between, is_telemetry, ChipCounters, ChipDeltas, ChipSample,
    TrackerState, TELEMETRY_REGS,
};
use super::thread::recorded;
use vstd::prelude::*;

verus! {

/// Five registers carry telemetry.
pub proof fn lemma_telemetry_registers(number: u8)
    ensures
        is_telemetry(number) <==> number == 0x61 || number == 0x60 || number == 0x04 || number
            == 0x06 || number == 0x20,
{
    assert(TELEMETRY_REGS@[0].number() == 0x61);
    assert(TELEMETRY_REGS@[1].number() == 0x60);
    assert(TELEMETRY_REGS@[2].number() == 0x04);
    assert(TELEMETRY_REGS@[3].number() == 0x06);
    assert(TELEMETRY_REGS@[4].number() == 0x20);
}

/// What `counters` hold of the register numbered `reg`.
pub open spec fn held(counters: ChipCounters, reg: u8) -> Option<u32> {
    if reg == 0x61 {
        counters.hit_count
    } else if reg == 0x60 {
        counters.hit_count_prelim
    } else if reg == 0x04 {
        counters.clk_ref
    } else if reg == 0x06 {
        counters.clk_hash
    } else if reg == 0x20 {
        counters.voltage_raw
    } else {
        None
    }
}

/// What `state` holds of the register numbered `reg` of `chip`.
pub open spec fn known(state: TrackerState, chip: u8, reg: u8) -> Option<u32> {
    if state.current.contains_key(chip) {
        held(state.current[chip], reg)
    } else {
        None
    }
}

/// After an answer the tracker holds that answer, whatever it held of that
/// register before. It holds of every other register and chip what it held
/// before, and the earlier full samples are left alone.
pub proof fn lemma_record_takes_the_answer(
    state: TrackerState,
    response: Response,
    chip: u8,
    reg: u8,
)
    ensures
        ({
            let next = state.record(response);
            let carries = reg == 0x61 || reg == 0x60 || reg == 0x04 || reg == 0x06 || reg == 0x20;
            &&& chip == response.chip && reg == response.reg && carries ==> known(next, chip, reg)
                == Some(response.data)
            &&& chip != response.chip || reg != response.reg ==> known(next, chip, reg) == known(
                state,
                chip,
                reg,
            )
            &&& next.previous == state.previous
            &&& next.current.contains_key(chip) <==> state.current.contains_key(chip) || chip
                == response.chip
        }),
{
}

/// Two answers of one register in a row: the later one counts, as if the
/// earlier one had not come.
pub proof fn lemma_later_answer_replaces(state: TrackerState, first: Response, second: Response)
    requires
        first.chip == second.chip,
        first.reg == second.reg,
    ensures
        state.record(first).record(second) == state.record(second),
{
    assert(state.record(first).record(second).current =~= state.record(second).current);
}

/// Over a run of answers the last one of each chip's register counts; of a
/// register that did not answer, what was held before.
pub proof fn lemma_last_answer_counts(
    state: TrackerState,
    responses: Seq<Response>,
    chip: u8,
    reg: u8,
    k: int,
)
    requires
        reg == 0x61 || reg == 0x60 || reg == 0x04 || reg == 0x06 || reg == 0x20,
        -1 <= k < responses.len(),
        k >= 0 ==> responses[k].chip == chip && responses[k].reg == reg,
        forall|j: int|
            k < j < responses.len() ==> (#[trigger] responses[j]).chip != chip || responses[j].reg
                != reg,
    ensures
        k >= 0 ==> known(recorded(state, responses), chip, reg) == Some(responses[k].data),
        k < 0 ==> known(recorded(state, responses), chip, reg) == known(state, chip, reg),
        recorded(state, responses).previous == state.previous,
    decreases responses.len(),
{
    if responses.len() > 0 {
        let head = responses.drop_last();
        let last = responses.last();
        lemma_record_takes_the_answer(recorded(state, head), last, chip, reg);
        if k == responses.len() - 1 {
            lemma_recorded_keeps_previous(state, head);
        } else {
            assert(responses[responses.len() - 1] == last);
            lemma_last_answer_counts(state, head, chip, reg, k);
        }
    }
}

proof fn lemma_recorded_keeps_previous(state: TrackerState, responses: Seq<Response>)
    ensures
        recorded(state, responses).previous == state.previous,
    decreases responses.len(),
{
    if responses.len() > 0 {
        lemma_recorded_keeps_previous(state, responses.drop_last());
    }
}

/// A chip has a full sample waiting exactly if all five of its registers have
/// answered.
pub proof fn lemma_full_means_all_five(state: TrackerState, chip: u8)
    ensures
        state.full(chip) <==> known(state, chip, 0x61) is Some && known(state, chip, 0x60) is Some
            && known(state, chip, 0x04) is Some && known(state, chip, 0x06) is Some && known(
            state,
            chip,
            0x20,
        ) is Some,
{
}

/// A counter's increment brings the earlier value to the later one, and is
/// below `2^32`.
pub proof fn lemma_increment_closes_the_gap(to: u32, from: u32)
    ensures
        counter_delta(to, from) < 0x1_0000_0000,
        to >= from ==> from + counter_delta(to, from) == to,
        to < from ==> from + counter_delta(to, from) == to + 0x1_0000_0000,
{
}

/// `delta` counts brought a 32-bit counter from `from` to `to`.
pub open spec fn moved(from: u32, to: u32, delta: u64) -> bool {
    delta < 0x1_0000_0000 && (from + delta == to || from + delta == to + 0x1_0000_0000)
}

/// `delta` is what happened to `chip` between its earlier full sample and the
/// five registers as they answered before a poll at `now`.
pub open spec fn reports(state: TrackerState, now: u64, delta: ChipDeltas) -> bool {
    let chip = delta.chip;
    let before = state.previous[chip];
    &&& state.previous.contains_key(chip)
    &&& known(state, chip, 0x61) matches Some(to) && moved(before.hit_count, to, delta.hits)
    &&& known(state, chip, 0x60) matches Some(to) && moved(
        before.hit_count_prelim,
        to,
        delta.prelim_hits,
    )
    &&& known(state, chip, 0x04) matches Some(to) && moved(before.clk_ref, to, delta.clk_ref)
    &&& known(state, chip, 0x06) matches Some(to) && moved(before.clk_hash, to, delta.clk_hash)
    &&& known(state, chip, 0x20) == Some(delta.voltage_raw)
    &&& now >= before.taken ==> before.taken + delta.dt == now
    &&& now < before.taken ==> delta.dt == 0
}

/// A poll reports exactly the chips whose five registers have all answered and
/// that had a full sample before, and reports of each what happened between
/// the two.
pub proof fn lemma_poll_reports(state: TrackerState, now: u64, chip: u8)
    ensures
        forall|i: int|
            0 <= i < state.deltas(now).len() ==> reports(
                state,
                now,
                #[trigger] state.deltas(now)[i],
            ),
        state.full(chip) && state.previous.contains_key(chip) <==> exists|i: int|
            0 <= i < state.deltas(now).len() && #[trigger] state.deltas(now)[i].chip == chip,
{
    lemma_poll_reports_below(state, now, 256, chip);
    let deltas = state.deltas(now);
    assert(deltas == state.deltas_below(now, 256));
    if exists|i: int| 0 <= i < deltas.len() && #[trigger] deltas[i].chip == chip {
        let i = choose|i: int| 0 <= i < deltas.len() && #[trigger] deltas[i].chip == chip;
        assert(state.deltas_below(now, 256)[i].chip == chip);
    }
    if state.full(chip) && state.previous.contains_key(chip) {
        let i = choose|i: int|
            0 <= i < deltas.len() && #[trigger] state.deltas_below(now, 256)[i].chip == chip;
        assert(state.deltas(now)[i].chip == chip);
    }
}

proof fn lemma_poll_reports_below(state: TrackerState, now: u64, n: nat, chip: u8)
    requires
        n <= 256,
    ensures
        ({
            let deltas = state.deltas_below(now, n);
            &&& forall|i: int|
                0 <= i < deltas.len() ==> reports(state, now, #[trigger] deltas[i])
            &&& chip < n && state.full(chip) && state.previous.contains_key(chip) <==> exists|
                i: int,
            |
                0 <= i < deltas.len() && #[trigger] deltas[i].chip == chip
        }),
    decreases n,
{
    if n > 0 {
        let this = (n - 1) as u8;
        let head = state.deltas_below(now, (n - 1) as nat);
        let all = state.deltas_below(now, n);
        lemma_poll_reports_below(state, now, (n - 1) as nat, chip);
        if state.full(this) && state.previous.contains_key(this) {
            let d = deltas_between(
                this,
                state.current[this].sample_at(now),
                state.previous[this],
            );
            assert(all == head.push(d));
            assert(reports(state, now, d));
            assert(all[head.len() as int].chip == this);
        } else {
            assert(all == head);
        }
        assert forall|i: int| 0 <= i < all.len() implies reports(state, now, #[trigger] all[i]) by {
            if i < head.len() {
                assert(all[i] == head[i]);
            }
        }
        if exists|i: int| 0 <= i < head.len() && #[trigger] head[i].chip == chip {
            let i = choose|i: int| 0 <= i < head.len() && #[trigger] head[i].chip == chip;
            assert(all[i].chip == chip);
        }
        if exists|i: int| 0 <= i < all.len() && #[trigger] all[i].chip == chip {
            let i = choose|i: int| 0 <= i < all.len() && #[trigger] all[i].chip == chip;
            if i < head.len() {
                assert(head[i].chip == chip);
            }
        }
    }
}

/// After a poll the counters of a chip whose five registers had answered have
/// become its earlier full sample, taken at the poll, and nothing waits of it;
/// every other chip is as before.
pub proof fn lemma_poll_moves_full_samples(state: TrackerState, now: u64, chip: u8)
    ensures
        ({
            let next = state.polled(now);
            &&& state.full(chip) ==> !next.current.contains_key(chip)
            &&& state.full(chip) ==> next.previous.contains_key(chip) && next.previous[chip] == (
            ChipSample {
                hit_count: known(state, chip, 0x61)->0,
                hit_count_prelim: known(state, chip, 0x60)->0,
                clk_ref: known(state, chip, 0x04)->0,
                clk_hash: known(state, chip, 0x06)->0,
                voltage_raw: known(state, chip, 0x20)->0,
                taken: now,
            })
            &&& !state.full(chip) ==> {
                &&& next.current.contains_key(chip) == state.current.contains_key(chip)
                &&& next.previous.contains_key(chip) == state.previous.contains_key(chip)
                &&& state.current.contains_key(chip) ==> next.current[chip] == state.current[chip]
                &&& state.previous.contains_key(chip) ==> next.previous[chip]
                    == state.previous[chip]
            }
        }),
{
}

/// A new tracker knows nothing of any chip.
pub proof fn lemma_new_tracker_is_blank(chip: u8)
    ensures
        !TrackerState::empty().current.contains_key(chip),
        !TrackerState::empty().previous.contains_key(chip),
{
}

} // verus!
