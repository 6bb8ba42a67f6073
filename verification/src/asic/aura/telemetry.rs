//! Aura per-chip counter tracking.
//!
//! Hashrate comes from the hit-count counter (0x61): each count represents
//! `2^32` hashes. The preliminary counter (0x60) leads the hit counter; their
//! ratio is the engine health ratio. Clock is derived from the reference
//! (0x04) and hash (0x06) counters, and the per-chip voltage from its ADC word
//! (0x20). This module tracks the counters and yields their exact increments;
//! turning increments into rates is left to the caller.

use super::protocol::{Register, Response};
use std::collections::HashMap;
use vstd::prelude::*;

verus! {

/// Registers polled per chip for telemetry, in read order.
pub const TELEMETRY_REGS: [Register; 5] = [
    Register::HitCount,
    Register::HitCountPrelim,
    Register::ClkRef,
    Register::ClkHash,
    Register::VoltageAdc,
];

/// Counter increments of one chip over one poll interval.
#[derive(Debug, Clone, Copy, PartialEq, Eq, Structural)]
pub struct ChipDeltas {
    /// Chip address.
    pub chip: u8,
    /// Increment of the hit counter.
    pub hits: u64,
    /// Increment of the preliminary hit counter.
    pub prelim_hits: u64,
    /// Increment of the reference clock counter.
    pub clk_ref: u64,
    /// Increment of the hash clock counter.
    pub clk_hash: u64,
    /// Voltage ADC word of the later sample.
    pub voltage_raw: u32,
    /// Nanoseconds between the two polls that took the samples.
    pub dt: u64,
}

/// Latest raw counters observed for one chip; `None` where the register has
/// not answered since the last full sample.
#[derive(Debug, Clone, Copy, PartialEq, Eq, Structural)]
pub struct ChipCounters {
    /// Hit counter (0x61).
    pub hit_count: Option<u32>,
    /// Preliminary hit counter (0x60).
    pub hit_count_prelim: Option<u32>,
    /// Reference clock counter (0x04).
    pub clk_ref: Option<u32>,
    /// Hash clock counter (0x06).
    pub clk_hash: Option<u32>,
    /// Voltage ADC word (0x20).
    pub voltage_raw: Option<u32>,
}

/// A full sample of one chip.
#[derive(Debug, Clone, Copy, PartialEq, Eq, Structural)]
pub struct ChipSample {
    /// Hit counter (0x61).
    pub hit_count: u32,
    /// Preliminary hit counter (0x60).
    pub hit_count_prelim: u32,
    /// Reference clock counter (0x04).
    pub clk_ref: u32,
    /// Hash clock counter (0x06).
    pub clk_hash: u32,
    /// Voltage ADC word (0x20).
    pub voltage_raw: u32,
    /// Time of the poll that took it, in nanoseconds.
    pub taken: u64,
}

/// How far a 32-bit counter has moved from `from` to `to`.
pub open spec fn counter_delta(to: u32, from: u32) -> u64 {
    ((to - from) % 0x1_0000_0000) as u64
}

/// A counter that wraps at 32 bits still yields its exact increment: after
/// fewer than `2^32` counts from any value, the delta is that number.
pub proof fn lemma_counter_delta_exact(from: u32, counts: int)
    requires
        0 <= counts < 0x1_0000_0000,
    ensures
        counter_delta(((from + counts) % 0x1_0000_0000) as u32, from) == counts,
{
}

impl ChipCounters {
    /// No register seen.
    pub open spec fn none() -> ChipCounters {
        ChipCounters {
            hit_count: None,
            hit_count_prelim: None,
            clk_ref: None,
            clk_hash: None,
            voltage_raw: None,
        }
    }

    /// Every register seen.
    pub open spec fn complete(self) -> bool {
        self.hit_count is Some && self.hit_count_prelim is Some && self.clk_ref is Some
            && self.clk_hash is Some && self.voltage_raw is Some
    }

    /// With `data` seen for the register numbered `reg`; unchanged where that
    /// is not a telemetry register.
    pub open spec fn with(self, reg: u8, data: u32) -> ChipCounters {
        if reg == Register::HitCount.number() {
            ChipCounters { hit_count: Some(data), ..self }
        } else if reg == Register::HitCountPrelim.number() {
            ChipCounters { hit_count_prelim: Some(data), ..self }
        } else if reg == Register::ClkRef.number() {
            ChipCounters { clk_ref: Some(data), ..self }
        } else if reg == Register::ClkHash.number() {
            ChipCounters { clk_hash: Some(data), ..self }
        } else if reg == Register::VoltageAdc.number() {
            ChipCounters { voltage_raw: Some(data), ..self }
        } else {
            self
        }
    }

    /// The full sample that complete counters make, taken at `now`.
    pub open spec fn sample_at(self, now: u64) -> ChipSample {
        ChipSample {
            hit_count: self.hit_count->0,
            hit_count_prelim: self.hit_count_prelim->0,
            clk_ref: self.clk_ref->0,
            clk_hash: self.clk_hash->0,
            voltage_raw: self.voltage_raw->0,
            taken: now,
        }
    }

    /// The full sample, where every register was seen.
    fn sample(&self, now: u64) -> (r: Option<ChipSample>)
        ensures
            r == (if self.complete() {
                Some(self.sample_at(now))
            } else {
                None
            }),
    {
        match (self.hit_count, self.hit_count_prelim, self.clk_ref, self.clk_hash, self.voltage_raw) {
            (
                Some(hit_count),
                Some(hit_count_prelim),
                Some(clk_ref),
                Some(clk_hash),
                Some(voltage_raw),
            ) => Some(
                ChipSample {
                    hit_count,
                    hit_count_prelim,
                    clk_ref,
                    clk_hash,
                    voltage_raw,
                    taken: now,
                },
            ),
            _ => None,
        }
    }
}

/// `number` is that of a telemetry register.
pub open spec fn is_telemetry(number: u8) -> bool {
    exists|i: int| 0 <= i < 5 && #[trigger] TELEMETRY_REGS@[i].number() == number
}

/// The increments from one full sample to the next.
pub open spec fn deltas_between(chip: u8, later: ChipSample, earlier: ChipSample) -> ChipDeltas {
    ChipDeltas {
        chip,
        hits: counter_delta(later.hit_count, earlier.hit_count),
        prelim_hits: counter_delta(later.hit_count_prelim, earlier.hit_count_prelim),
        clk_ref: counter_delta(later.clk_ref, earlier.clk_ref),
        clk_hash: counter_delta(later.clk_hash, earlier.clk_hash),
        voltage_raw: later.voltage_raw,
        dt: if later.taken > earlier.taken {
            (later.taken - earlier.taken) as u64
        } else {
            0
        },
    }
}

/// Accumulates per-chip telemetry responses and produces deltas on poll.
///
/// Counters wrap at 32 bits; deltas are computed mod 2^32, which is exact for
/// monotonically increasing counters.
#[derive(Debug)]
pub struct TelemetryTracker {
    current: HashMap<u8, ChipCounters>,
    previous: HashMap<u8, ChipSample>,
}

/// What a tracker knows.
#[verifier::ext_equal]
pub struct TrackerState {
    /// Counters seen since the last full sample, per chip.
    pub current: Map<u8, ChipCounters>,
    /// Last full sample, per chip.
    pub previous: Map<u8, ChipSample>,
}

impl View for TelemetryTracker {
    type V = TrackerState;

    closed spec fn view(&self) -> TrackerState {
        TrackerState { current: self.current@, previous: self.previous@ }
    }
}

impl TrackerState {
    /// Nothing known.
    pub open spec fn empty() -> TrackerState {
        TrackerState { current: Map::empty(), previous: Map::empty() }
    }

    /// Counters seen of `chip` since its last full sample.
    pub open spec fn seen(self, chip: u8) -> ChipCounters {
        if self.current.contains_key(chip) {
            self.current[chip]
        } else {
            ChipCounters::none()
        }
    }

    /// With `response` recorded.
    pub open spec fn record(self, response: Response) -> TrackerState {
        TrackerState {
            current: self.current.insert(
                response.chip,
                self.seen(response.chip).with(response.reg, response.data),
            ),
            ..self
        }
    }

    /// `chip` has a full sample waiting.
    pub open spec fn full(self, chip: u8) -> bool {
        self.current.contains_key(chip) && self.current[chip].complete()
    }

    /// What a poll at `now` yields for the chips numbered below `n`, in
    /// ascending order: the increments of each chip that has a full sample
    /// waiting and had one before.
    pub open spec fn deltas_below(self, now: u64, n: nat) -> Seq<ChipDeltas>
        decreases n,
    {
        if n == 0 {
            Seq::empty()
        } else {
            let chip = (n - 1) as u8;
            let earlier = self.deltas_below(now, (n - 1) as nat);
            if self.full(chip) && self.previous.contains_key(chip) {
                earlier.push(
                    deltas_between(
                        chip,
                        self.current[chip].sample_at(now),
                        self.previous[chip],
                    ),
                )
            } else {
                earlier
            }
        }
    }

    /// After a poll at `now` of the chips numbered below `n`: their full
    /// samples have become the previous ones; partial samples stay.
    pub open spec fn polled_below(self, now: u64, n: nat) -> TrackerState {
        TrackerState {
            current: self.current.remove_keys(
                Set::new(|chip: u8| chip < n && self.full(chip)),
            ),
            previous: self.previous.union_prefer_right(
                Map::new(
                    |chip: u8| chip < n && self.full(chip),
                    |chip: u8| self.current[chip].sample_at(now),
                ),
            ),
        }
    }

    /// After a poll at `now`.
    pub open spec fn polled(self, now: u64) -> TrackerState {
        self.polled_below(now, 256)
    }

    /// What a poll at `now` yields.
    pub open spec fn deltas(self, now: u64) -> Seq<ChipDeltas> {
        self.deltas_below(now, 256)
    }
}

impl TelemetryTracker {
    /// Create an empty tracker.
    pub fn new() -> (r: Self)
        ensures
            r@ == TrackerState::empty(),
    {
        let r = TelemetryTracker { current: HashMap::new(), previous: HashMap::new() };
        assert(r@ =~= TrackerState::empty());
        r
    }

    /// Record one telemetry response.
    ///
    /// Returns `true` if the response matched a telemetry register and was
    /// stored, `false` otherwise.
    pub fn record(&mut self, response: Response) -> (r: bool)
        ensures
            r == is_telemetry(response.reg),
            final(self)@ == old(self)@.record(response),
    {
        broadcast use vstd::std_specs::hash::group_hash_axioms;

        let mut counters = match self.current.get(&response.chip) {
            Some(counters) => *counters,
            None => ChipCounters {
                hit_count: None,
                hit_count_prelim: None,
                clk_ref: None,
                clk_hash: None,
                voltage_raw: None,
            },
        };
        let mut stored = true;
        proof {
            assert(TELEMETRY_REGS@[0] == Register::HitCount);
            assert(TELEMETRY_REGS@[1] == Register::HitCountPrelim);
            assert(TELEMETRY_REGS@[2] == Register::ClkRef);
            assert(TELEMETRY_REGS@[3] == Register::ClkHash);
            assert(TELEMETRY_REGS@[4] == Register::VoltageAdc);
        }
        if response.reg == u8::from(Register::HitCount) {
            assert(TELEMETRY_REGS@[0].number() == response.reg);
            counters.hit_count = Some(response.data);
        } else if response.reg == u8::from(Register::HitCountPrelim) {
            assert(TELEMETRY_REGS@[1].number() == response.reg);
            counters.hit_count_prelim = Some(response.data);
        } else if response.reg == u8::from(Register::ClkRef) {
            assert(TELEMETRY_REGS@[2].number() == response.reg);
            counters.clk_ref = Some(response.data);
        } else if response.reg == u8::from(Register::ClkHash) {
            assert(TELEMETRY_REGS@[3].number() == response.reg);
            counters.clk_hash = Some(response.data);
        } else if response.reg == u8::from(Register::VoltageAdc) {
            assert(TELEMETRY_REGS@[4].number() == response.reg);
            counters.voltage_raw = Some(response.data);
        } else {
            stored = false;
        }
        self.current.insert(response.chip, counters);
        stored
    }

    /// Compute per-chip increments from the last two full samples, in
    /// ascending order of chip address.
    ///
    /// Chips without a full current sample (or without a previous sample) are
    /// skipped; their partial current sample carries into the next poll.
    pub fn poll(&mut self, now: u64) -> (out: Vec<ChipDeltas>)
        ensures
            out@ == old(self)@.deltas(now),
            final(self)@ == old(self)@.polled(now),
    {
        broadcast use vstd::std_specs::hash::group_hash_axioms;

        let ghost before = self@;
        let mut out: Vec<ChipDeltas> = Vec::new();
        let mut n: u16 = 0;
        assert(self@ =~= before.polled_below(now, 0));
        while n < 256
            invariant
                n <= 256,
                out@ == before.deltas_below(now, n as nat),
                self@ == before.polled_below(now, n as nat),
            decreases 256 - n,
        {
            broadcast use vstd::std_specs::hash::group_hash_axioms;

            let chip: u8 = n as u8;
            let ghost here = self@;
            assert(here.current.contains_key(chip) == before.current.contains_key(chip));
            assert(here.previous.contains_key(chip) == before.previous.contains_key(chip));
            assert(here.full(chip) == before.full(chip));
            let sample = match self.current.get(&chip) {
                Some(counters) => counters.sample(now),
                None => None,
            };
            match sample {
                Some(sample) => {
                    match self.previous.get(&chip) {
                        Some(earlier) => {
                            out.push(
                                ChipDeltas {
                                    chip,
                                    hits: delta(sample.hit_count, earlier.hit_count),
                                    prelim_hits: delta(
                                        sample.hit_count_prelim,
                                        earlier.hit_count_prelim,
                                    ),
                                    clk_ref: delta(sample.clk_ref, earlier.clk_ref),
                                    clk_hash: delta(sample.clk_hash, earlier.clk_hash),
                                    voltage_raw: sample.voltage_raw,
                                    dt: now.saturating_sub(earlier.taken),
                                },
                            );
                        },
                        None => {},
                    }
                    self.current.remove(&chip);
                    self.previous.insert(chip, sample);
                    assert(self@ =~= before.polled_below(now, (n + 1) as nat));
                },
                None => {
                    assert(self@ =~= before.polled_below(now, (n + 1) as nat));
                },
            }
            n = n + 1;
        }
        out
    }
}

/// How far a 32-bit counter has moved.
fn delta(to: u32, from: u32) -> (r: u64)
    ensures
        r == counter_delta(to, from),
{
    to.wrapping_sub(from) as u64
}

impl Default for TelemetryTracker {
    fn default() -> (r: Self)
        ensures
            r@ == TrackerState::empty(),
    {
        Self::new()
    }
}

/// The registers of a chip may answer in any order.
pub proof fn lemma_registers_answer_in_any_order(
    counters: ChipCounters,
    a: u8,
    a_data: u32,
    b: u8,
    b_data: u32,
)
    requires
        a != b,
    ensures
        counters.with(a, a_data).with(b, b_data) == counters.with(b, b_data).with(a, a_data),
{
}

/// A poll yields each chip at most once, in ascending order.
pub proof fn lemma_poll_ascending(state: TrackerState, now: u64)
    ensures
        forall|i: int, j: int|
            0 <= i < j < state.deltas(now).len() ==> state.deltas(now)[i].chip < state.deltas(
                now,
            )[j].chip,
{
    lemma_deltas_below_ascending(state, now, 256);
}

proof fn lemma_deltas_below_ascending(state: TrackerState, now: u64, n: nat)
    requires
        n <= 256,
    ensures
        forall|i: int|
            0 <= i < state.deltas_below(now, n).len() ==> (#[trigger] state.deltas_below(
                now,
                n,
            )[i]).chip < n,
        forall|i: int, j: int|
            0 <= i < j < state.deltas_below(now, n).len() ==> state.deltas_below(now, n)[i].chip
                < state.deltas_below(now, n)[j].chip,
    decreases n,
{
    if n > 0 {
        lemma_deltas_below_ascending(state, now, (n - 1) as nat);
        let all = state.deltas_below(now, n);
        let head = state.deltas_below(now, (n - 1) as nat);
        assert forall|i: int| 0 <= i < all.len() implies (#[trigger] all[i]).chip < n by {
            if i < head.len() {
                assert(all[i] == head[i]);
            }
        }
        assert forall|i: int, j: int| 0 <= i < j < all.len() implies all[i].chip < all[j].chip by {
            assert(all[i] == head[i]);
            if j < head.len() {
                assert(all[j] == head[j]);
            }
        }
    }
}

/// A poll keeps what it does not report: a chip with a partial sample keeps it
/// and its previous full sample; a chip with a full sample starts afresh.
pub proof fn lemma_poll_keeps_partial_samples(state: TrackerState, now: u64, chip: u8)
    ensures
        !state.full(chip) ==> state.polled(now).seen(chip) == state.seen(chip),
        !state.full(chip) ==> state.polled(now).previous.contains_key(chip)
            == state.previous.contains_key(chip),
        !state.full(chip) && state.previous.contains_key(chip) ==> state.polled(now).previous[chip]
            == state.previous[chip],
        state.full(chip) ==> state.polled(now).seen(chip) == ChipCounters::none(),
        state.full(chip) ==> state.polled(now).previous.contains_key(chip) && state.polled(
            now,
        ).previous[chip] == state.current[chip].sample_at(now),
{
}

} // verus!
