//! Multi-pass chip discovery as a state machine.
//!
//! The caller performs what [`Discovery::step`] asks for and reports back what
//! happened; every decision (when to sweep, how long to listen, when to stop)
//! is taken here.

use super::chain::{write_command, ChainConfig, TELEMETRY_LCMD};
use super::framing::{drain, drain_frames, lemma_drain_in_chunks, lemma_drain_rest};
use super::protocol::{Command, Register, Response, LONG_FRAME_LEN};
use crate::buffer::buffered;
use bytes::BytesMut;
use vstd::prelude::*;

verus! {

/// What happened since the last step.
#[derive(Debug)]
pub enum DiscoveryEvent {
    /// Discovery starts, or the rest between two passes is over.
    Ready,
    /// The sweep was written. Time `now` is in nanoseconds on a clock that
    /// does not run backwards.
    SweepSent {
        /// Time at which the write finished.
        now: u64,
    },
    /// Bytes arrived on the bus.
    Received {
        /// The bytes.
        chunk: Vec<u8>,
        /// Time after the read.
        now: u64,
    },
    /// The bus closed, the read failed, or the time to read ran out.
    Quiet {
        /// Time after the read.
        now: u64,
    },
}

/// What to do next.
#[derive(Debug, Clone, Copy, PartialEq, Eq, Structural)]
pub enum DiscoveryAction {
    /// Write the broadcast telemetry sweep ([`sweep`]).
    Sweep,
    /// Read from the bus for at most this many nanoseconds.
    Read(u64),
    /// Wait this many nanoseconds before the next pass.
    Rest(u64),
    /// Stop; the result is [`Discovery::chips`].
    Finish,
}

/// Chip discovery in progress.
pub struct Discovery {
    config: ChainConfig,
    found: Vec<u8>,
    rx: BytesMut,
    pass: usize,
    since: u64,
}

/// The state of a discovery.
#[verifier::ext_equal]
pub struct DiscoveryState {
    /// Chips that have ACKed.
    pub found: Set<u8>,
    /// Bytes received that do not make a whole frame yet.
    pub rx: Seq<u8>,
    /// Passes begun.
    pub pass: nat,
    /// When the current pass began to listen.
    pub since: u64,
}

/// `chips` in ascending order, each once.
pub open spec fn strictly_ascending(chips: Seq<u8>) -> bool {
    forall|i: int, j: int| 0 <= i < j < chips.len() ==> chips[i] < chips[j]
}

/// The chips that sent `responses`.
pub open spec fn senders(responses: Seq<Response>) -> Set<u8> {
    responses.map_values(|response: Response| response.chip).to_set()
}

/// `a - b`, or zero where `b` is larger.
pub open spec fn left_of(a: u64, b: u64) -> u64 {
    if a > b {
        (a - b) as u64
    } else {
        0
    }
}

impl DiscoveryState {
    /// Another pass is due: chips are missing and passes are left.
    pub open spec fn wants_pass(self, config: ChainConfig) -> bool {
        self.found.len() < config.expected_chips && self.pass < config.max_passes
    }

    /// The state with `chunk` received.
    pub open spec fn absorb(self, chunk: Seq<u8>) -> DiscoveryState {
        let drained = drain(self.rx + chunk);
        DiscoveryState {
            found: self.found.union(senders(drained.responses)),
            rx: drained.rest,
            ..self
        }
    }

    /// What to do when a pass ends at time `now`: rest for what is left of
    /// `pass_pace`, so that passes start that far apart, or finish.
    pub open spec fn end_pass(self, config: ChainConfig, now: u64) -> DiscoveryAction {
        if self.wants_pass(config) {
            DiscoveryAction::Rest(left_of(config.pass_pace, left_of(now, self.since)))
        } else {
            DiscoveryAction::Finish
        }
    }

    /// What to do within a pass at time `now`: read for what is left of
    /// `pass_drain`, or end the pass when nothing is left.
    pub open spec fn listen(self, config: ChainConfig, now: u64) -> DiscoveryAction {
        let left = left_of(config.pass_drain, left_of(now, self.since));
        if left > 0 {
            DiscoveryAction::Read(left)
        } else {
            self.end_pass(config, now)
        }
    }

    /// One step: the next state and what to do.
    pub open spec fn step(self, config: ChainConfig, event: DiscoveryEvent) -> (
        DiscoveryState,
        DiscoveryAction,
    ) {
        match event {
            DiscoveryEvent::Ready => if self.wants_pass(config) {
                (DiscoveryState { pass: self.pass + 1, ..self }, DiscoveryAction::Sweep)
            } else {
                (self, DiscoveryAction::Finish)
            },
            DiscoveryEvent::SweepSent { now } => {
                let next = DiscoveryState { since: now, ..self };
                (next, next.listen(config, now))
            },
            DiscoveryEvent::Received { chunk, now } => {
                let next = self.absorb(chunk@);
                (next, next.listen(config, now))
            },
            DiscoveryEvent::Quiet { now } => (self, self.end_pass(config, now)),
        }
    }
}

/// The broadcast telemetry sweep.
pub open spec fn sweep_command() -> Command {
    write_command(true, 0, Register::Telemetry, TELEMETRY_LCMD, 0)
}

/// The broadcast telemetry sweep; a subset of the chips ACKs each one.
pub fn sweep() -> (command: Command)
    ensures
        command == sweep_command(),
{
    Command::WriteRegister {
        broadcast: true,
        chip_address: 0x00,
        register: Register::Telemetry,
        lcmd: TELEMETRY_LCMD,
        data: 0,
    }
}

/// Discover the chain by sweeping for ACKs across multiple passes.
///
/// Drive the machine with [`Discovery::step`], beginning with
/// [`DiscoveryEvent::Ready`]. A partial result (fewer than `expected_chips`)
/// is not an error: discovery is probabilistic and the caller decides how to
/// treat a short chain.
pub fn discover_chips(config: &ChainConfig) -> (r: Discovery)
    ensures
        r.wf(),
        r.config() == *config,
        r@ == (DiscoveryState { found: Set::empty(), rx: Seq::empty(), pass: 0, since: 0 }),
{
    let r = Discovery {
        config: *config,
        found: Vec::new(),
        rx: BytesMut::new(),
        pass: 0,
        since: 0,
    };
    assert(r@.found =~= Set::empty());
    r
}

impl View for Discovery {
    type V = DiscoveryState;

    closed spec fn view(&self) -> DiscoveryState {
        DiscoveryState {
            found: self.found@.to_set(),
            rx: buffered(self.rx),
            pass: self.pass as nat,
            since: self.since,
        }
    }
}

impl Discovery {
    /// The parameters it was started with.
    pub closed spec fn config(self) -> ChainConfig {
        self.config
    }

    /// The chips found so far are kept in ascending order, each once; what
    /// waits in the receive buffer is less than a frame; no more passes were
    /// begun than allowed.
    pub closed spec fn wf(self) -> bool {
        &&& strictly_ascending(self.found@)
        &&& buffered(self.rx).len() < LONG_FRAME_LEN
        &&& self.pass <= self.config.max_passes
    }

    /// Whether another pass is due.
    fn wants_pass(&self) -> (r: bool)
        requires
            self.wf(),
        ensures
            r == self@.wants_pass(self.config()),
    {
        proof {
            self.found@.unique_seq_to_set();
        }
        self.found.len() < self.config.expected_chips && self.pass < self.config.max_passes
    }

    fn end_pass(&self, now: u64) -> (r: DiscoveryAction)
        requires
            self.wf(),
        ensures
            r == self@.end_pass(self.config(), now),
    {
        if self.wants_pass() {
            let elapsed: u64 = now.saturating_sub(self.since);
            DiscoveryAction::Rest(self.config.pass_pace.saturating_sub(elapsed))
        } else {
            DiscoveryAction::Finish
        }
    }

    fn listen(&self, now: u64) -> (r: DiscoveryAction)
        requires
            self.wf(),
        ensures
            r == self@.listen(self.config(), now),
    {
        let left: u64 = self.config.pass_drain.saturating_sub(now.saturating_sub(self.since));
        if left > 0 {
            DiscoveryAction::Read(left)
        } else {
            self.end_pass(now)
        }
    }

    /// Insert `chip` in its place, unless it is there.
    fn enroll(&mut self, chip: u8)
        requires
            old(self).wf(),
        ensures
            final(self).wf(),
            final(self).config() == old(self).config(),
            final(self)@ == (DiscoveryState {
                found: old(self)@.found.insert(chip),
                ..old(self)@
            }),
    {
        let mut at: usize = 0;
        while at < self.found.len() && self.found[at] < chip
            invariant
                at <= self.found@.len(),
                forall|i: int| 0 <= i < at ==> self.found@[i] < chip,
            decreases self.found@.len() - at,
        {
            at = at + 1;
        }
        let ghost before = self.found@;
        if at < self.found.len() && self.found[at] == chip {
            assert(before.contains(chip));
            assert(before.to_set().insert(chip) =~= before.to_set());
        } else {
            self.found.insert(at, chip);
            let ghost after = self.found@;
            assert(after == before.insert(at as int, chip));
            assert forall|x: u8| after.to_set().contains(x) <==> before.to_set().insert(
                chip,
            ).contains(x) by {
                if after.contains(x) {
                    let k = choose|k: int| 0 <= k < after.len() && after[k] == x;
                    if k < at {
                        assert(before[k] == x);
                    } else if k > at {
                        assert(before[k - 1] == x);
                    }
                }
                if before.contains(x) {
                    let k = choose|k: int| 0 <= k < before.len() && before[k] == x;
                    assert(after[if k < at { k } else { k + 1 }] == x);
                }
                assert(after[at as int] == chip);
            }
            assert(after.to_set() =~= before.to_set().insert(chip));
        }
    }

    /// One step of discovery.
    ///
    /// A pass sweeps, then reads until `pass_drain` has gone by or the bus
    /// goes quiet, taking in every chip that answers. Passes repeat, spaced
    /// by `pass_pace`, until `expected_chips` have answered or `max_passes`
    /// are used up.
    pub fn step(&mut self, event: DiscoveryEvent) -> (action: DiscoveryAction)
        requires
            old(self).wf(),
            event matches DiscoveryEvent::Received { chunk, .. } ==> 2 * (chunk@.len()
                + LONG_FRAME_LEN) <= isize::MAX,
        ensures
            final(self).wf(),
            final(self).config() == old(self).config(),
            (final(self)@, action) == old(self)@.step(old(self).config(), event),
    {
        match event {
            DiscoveryEvent::Ready => {
                if self.wants_pass() {
                    self.pass = self.pass + 1;
                    DiscoveryAction::Sweep
                } else {
                    DiscoveryAction::Finish
                }
            },
            DiscoveryEvent::SweepSent { now } => {
                self.since = now;
                self.listen(now)
            },
            DiscoveryEvent::Received { chunk, now } => {
                self.receive(chunk.as_slice());
                self.listen(now)
            },
            DiscoveryEvent::Quiet { now } => self.end_pass(now),
        }
    }

    fn receive(&mut self, chunk: &[u8])
        requires
            old(self).wf(),
            2 * (chunk@.len() + LONG_FRAME_LEN) <= isize::MAX,
        ensures
            final(self).wf(),
            final(self).config() == old(self).config(),
            final(self)@ == old(self)@.absorb(chunk@),
    {
        let ghost before = self@;
        proof {
            lemma_drain_rest(before.rx + chunk@);
        }
        self.rx.extend_from_slice(chunk);
        let (responses, _hits) = drain_frames(&mut self.rx);
        let mut i: usize = 0;
        assert(senders(responses@.take(0)) =~= Set::<u8>::empty());
        assert(before.found.union(Set::<u8>::empty()) =~= before.found);
        while i < responses.len()
            invariant
                self.wf(),
                self.config() == old(self).config(),
                i <= responses@.len(),
                self@ == (DiscoveryState {
                    found: before.found.union(senders(responses@.take(i as int))),
                    rx: self@.rx,
                    ..before
                }),
                self@.rx == drain(before.rx + chunk@).rest,
            decreases responses@.len() - i,
        {
            proof {
                let head = responses@.take(i as int);
                let more = responses@.take(i + 1);
                let chip = responses@[i as int].chip;
                let f = |response: Response| response.chip;
                assert(more =~= head.push(responses@[i as int]));
                assert(more.map_values(f) =~= head.map_values(f).push(chip));
                assert forall|x: u8| senders(more).contains(x) <==> senders(head).insert(
                    chip,
                ).contains(x) by {
                    let m = more.map_values(f);
                    let h = head.map_values(f);
                    if m.contains(x) {
                        let k = choose|k: int| 0 <= k < m.len() && m[k] == x;
                        assert(k < h.len() ==> h[k] == x);
                    }
                    if h.contains(x) {
                        let k = choose|k: int| 0 <= k < h.len() && h[k] == x;
                        assert(m[k] == x);
                    }
                    assert(m[h.len() as int] == chip);
                }
                assert(senders(more) =~= senders(head).insert(chip));
                assert(before.found.union(senders(more)) =~= before.found.union(
                    senders(head),
                ).insert(chip));
            }
            self.enroll(responses[i].chip);
            i = i + 1;
        }
        assert(responses@.take(i as int) =~= responses@);
    }

    /// The unique ACKing chip IDs, sorted ascending.
    pub fn chips(&self) -> (chips: Vec<u8>)
        requires
            self.wf(),
        ensures
            strictly_ascending(chips@),
            chips@.to_set() == self@.found,
    {
        let chips = self.found.clone();
        assert(chips@ =~= self.found@);
        chips
    }
}

/// The chips that sent two runs of responses are those of the joined run.
proof fn lemma_senders_concat(a: Seq<Response>, b: Seq<Response>)
    ensures
        senders(a + b) == senders(a).union(senders(b)),
{
    let f = |response: Response| response.chip;
    let x = a.map_values(f);
    let y = b.map_values(f);
    assert((a + b).map_values(f) =~= x + y);
    assert forall|c: u8| (x + y).contains(c) <==> x.contains(c) || y.contains(c) by {
        if x.contains(c) {
            let k = choose|k: int| 0 <= k < x.len() && x[k] == c;
            assert((x + y)[k] == c);
        }
        if y.contains(c) {
            let k = choose|k: int| 0 <= k < y.len() && y[k] == c;
            assert((x + y)[x.len() + k] == c);
        }
        if (x + y).contains(c) {
            let k = choose|k: int| 0 <= k < (x + y).len() && (x + y)[k] == c;
            if k < x.len() {
                assert(x[k] == c);
            } else {
                assert(y[k - x.len()] == c);
            }
        }
    }
    assert(senders(a + b) =~= senders(a).union(senders(b)));
}

/// How the bytes are cut into chunks does not matter to discovery.
pub proof fn lemma_absorb_in_chunks(state: DiscoveryState, a: Seq<u8>, b: Seq<u8>)
    ensures
        state.absorb(a).absorb(b) == state.absorb(a + b),
{
    lemma_drain_in_chunks(state.rx + a, b);
    assert((state.rx + a) + b =~= state.rx + (a + b));
    lemma_senders_concat(
        drain(state.rx + a).responses,
        drain(drain(state.rx + a).rest + b).responses,
    );
    assert(state.absorb(a).absorb(b).found =~= state.absorb(a + b).found);
}

/// The state after `events`, one step each.
pub open spec fn run(config: ChainConfig, state: DiscoveryState, events: Seq<DiscoveryEvent>) ->
    DiscoveryState
    decreases events.len(),
{
    if events.len() == 0 {
        state
    } else {
        run(config, state, events.drop_last()).step(config, events.last()).0
    }
}

/// All bytes received over `events`.
pub open spec fn received(events: Seq<DiscoveryEvent>) -> Seq<u8>
    decreases events.len(),
{
    if events.len() == 0 {
        Seq::empty()
    } else {
        received(events.drop_last()) + match events.last() {
            DiscoveryEvent::Received { chunk, .. } => chunk@,
            _ => Seq::empty(),
        }
    }
}

/// The result of a discovery is exactly the set of chips that sent an intact
/// response in the bytes received from its start on, however they were
/// chunked and over however many passes; and no more passes are begun than
/// allowed.
pub proof fn lemma_finds_exactly_the_senders(config: ChainConfig, events: Seq<DiscoveryEvent>)
    ensures
        ({
            let start = DiscoveryState { found: Set::empty(), rx: Seq::empty(), pass: 0, since: 0 };
            let end = run(config, start, events);
            &&& end.found == senders(drain(received(events)).responses)
            &&& end.rx == drain(received(events)).rest
            &&& end.pass <= config.max_passes
        }),
    decreases events.len(),
{
    let start = DiscoveryState { found: Set::empty(), rx: Seq::empty(), pass: 0, since: 0 };
    if events.len() == 0 {
        assert(senders(Seq::empty()) =~= Set::<u8>::empty());
    } else {
        let earlier = events.drop_last();
        lemma_finds_exactly_the_senders(config, earlier);
        let before = run(config, start, earlier);
        match events.last() {
            DiscoveryEvent::Received { chunk, .. } => {
                lemma_drain_in_chunks(received(earlier), chunk@);
                lemma_senders_concat(
                    drain(received(earlier)).responses,
                    drain(drain(received(earlier)).rest + chunk@).responses,
                );
            },
            _ => {
                assert(received(events) =~= received(earlier));
            },
        }
    }
}

/// No step forgets a chip, and discovery finishes only when the expected
/// number of chips has answered or the passes are used up.
pub proof fn lemma_step_keeps_chips(
    config: ChainConfig,
    state: DiscoveryState,
    event: DiscoveryEvent,
)
    ensures
        state.found.subset_of(state.step(config, event).0.found),
        state.step(config, event).1 == DiscoveryAction::Finish ==> !state.step(
            config,
            event,
        ).0.wants_pass(config),
        state.step(config, event).1 == DiscoveryAction::Sweep ==> state.wants_pass(config),
{
}

/// An ascending list is determined by what is in it, so the list of chips is
/// determined by the set of chips found.
pub proof fn lemma_ascending_unique(a: Seq<u8>, b: Seq<u8>)
    requires
        strictly_ascending(a),
        strictly_ascending(b),
        a.to_set() == b.to_set(),
    ensures
        a == b,
    decreases a.len(),
{
    if a.len() == 0 {
        if b.len() > 0 {
            assert(b.to_set().contains(b[0]));
            assert(!a.contains(b[0]));
        }
    } else {
        assert(a.to_set().contains(a.last()));
        assert(b.contains(a.last()));
        assert(b.to_set().contains(b.last()));
        assert(a.contains(b.last()));
        assert(a.last() == b.last());
        let x = a.drop_last();
        let y = b.drop_last();
        assert forall|c: u8| x.to_set().contains(c) <==> y.to_set().contains(c) by {
            if x.contains(c) {
                let k = choose|k: int| 0 <= k < x.len() && x[k] == c;
                assert(a[k] == c);
                assert(a.to_set().contains(c));
                let m = choose|m: int| 0 <= m < b.len() && b[m] == c;
                assert(m < y.len());
                assert(y[m] == c);
            }
            if y.contains(c) {
                let k = choose|k: int| 0 <= k < y.len() && y[k] == c;
                assert(b[k] == c);
                assert(b.to_set().contains(c));
                let m = choose|m: int| 0 <= m < a.len() && a[m] == c;
                assert(m < x.len());
                assert(x[m] == c);
            }
        }
        assert(x.to_set() =~= y.to_set());
        lemma_ascending_unique(x, y);
        assert(a =~= x.push(a.last()));
        assert(b =~= y.push(b.last()));
    }
}

/// The time that an event carries.
pub open spec fn time_of(event: DiscoveryEvent) -> Option<u64> {
    match event {
        DiscoveryEvent::Ready => None,
        DiscoveryEvent::SweepSent { now } => Some(now),
        DiscoveryEvent::Received { now, .. } => Some(now),
        DiscoveryEvent::Quiet { now } => Some(now),
    }
}

/// Passes start `pass_pace` apart, or as far apart as the pass took where that
/// is longer. However a pass ended, the rest and the time since its sweep add
/// up to that.
pub proof fn lemma_passes_are_paced(
    config: ChainConfig,
    state: DiscoveryState,
    event: DiscoveryEvent,
)
    ensures
        ({
            let (next, action) = state.step(config, event);
            action matches DiscoveryAction::Rest(rest) ==> {
                &&& time_of(event) matches Some(now)
                &&& rest + left_of(now, next.since) == if config.pass_pace > left_of(
                    now,
                    next.since,
                ) {
                    config.pass_pace
                } else {
                    left_of(now, next.since)
                }
            }
        }),
{
}

/// A pass listens for `pass_drain` from its sweep on, and not longer: the time
/// to read for and the time since the sweep add up to it, and reading stops
/// only when nothing is left of it, or when the bus is quiet.
pub proof fn lemma_pass_listens_within_its_window(
    config: ChainConfig,
    state: DiscoveryState,
    event: DiscoveryEvent,
)
    ensures
        ({
            let (next, action) = state.step(config, event);
            match event {
                DiscoveryEvent::SweepSent { now } => {
                    &&& next.since == now
                    &&& action matches DiscoveryAction::Read(left) ==> left == config.pass_drain
                    &&& !(action is Read) ==> config.pass_drain == 0
                },
                DiscoveryEvent::Received { now, .. } => {
                    &&& next.since == state.since
                    &&& action matches DiscoveryAction::Read(left) ==> 0 < left && left + left_of(
                        now,
                        state.since,
                    ) == config.pass_drain
                    &&& !(action is Read) ==> left_of(now, state.since) >= config.pass_drain
                },
                _ => !(action is Read),
            }
        }),
{
}

} // verus!
