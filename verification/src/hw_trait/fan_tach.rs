//! Fan RPM counter via the Linux GPIO character device.
//!
//! The fan tachometer signal is connected to a GPIO line; each revolution
//! produces `PPR` edges on the line (Apollo III: `/dev/gpiochip0`, line 14,
//! `PPR = 2`). The line is located by offset with `GPIO_GET_LINEINFO`,
//! both-edge events are requested with `GPIO_GET_LINEEVENT` (consumer
//! `mujina-fan`), and `struct gpioevent_data` records are counted over a
//! measurement window.

use super::HwError;
use vstd::prelude::*;
use vstd::string::StringExecFns;

verus! {

/// GPIO chip of the fan tachometer on Apollo III.
pub const DEFAULT_CHIP_PATH: &'static str = "/dev/gpiochip0";

/// Line of the fan tachometer on Apollo III.
pub const DEFAULT_LINE_OFFSET: u32 = 14;

/// Edges that the Apollo III fan produces per revolution.
pub const DEFAULT_PULSES_PER_REV: u32 = 2;

/// `_IOC_READ`.
pub const IOC_READ: u32 = 2;

/// `_IOC_READ | _IOC_WRITE`.
pub const IOC_READWRITE: u32 = 3;

/// Size of `struct gpiochip_info` (linux/gpio.h) in bytes.
pub const GPIOCHIP_INFO_SIZE: usize = 68;

/// Size of `struct gpioline_info` (linux/gpio.h) in bytes.
pub const GPIOLINE_INFO_SIZE: usize = 72;

/// Size of `struct gpioevent_request` (linux/gpio.h) in bytes.
pub const GPIOEVENT_REQUEST_SIZE: usize = 48;

/// Size of `struct gpioevent_data` (linux/gpio.h) in bytes.
pub const GPIOEVENT_DATA_SIZE: usize = 16;

/// Request code that reads `struct gpiochip_info`.
pub const GPIO_GET_CHIPINFO: u64 = 0x8044_B401;

/// Request code that reads `struct gpioline_info`.
pub const GPIO_GET_LINEINFO: u64 = 0x8048_B402;

/// Request code that asks for edge events.
pub const GPIO_GET_LINEEVENT: u64 = 0xC030_B405;

/// The line must be requested as an input.
pub const GPIOHANDLE_REQUEST_INPUT: u32 = 0x0001;

/// Count rising edges.
pub const GPIOEVENT_REQUEST_RISING_EDGE: u32 = 0x0001;

/// Count falling edges.
pub const GPIOEVENT_REQUEST_FALLING_EDGE: u32 = 0x0002;

/// The longest that one poll for events waits, in milliseconds.
pub const POLL_SLICE_MS: u64 = 100;

/// Kernel `_IOC` request encoding for 64-bit userspace.
pub fn ioc(dir: u32, ty: u8, nr: u8, size: usize) -> (code: u64)
    ensures
        code == ((dir << 30) | ((size as u32) << 16) | ((ty as u32) << 8) | (nr as u32)) as u64,
        dir < 4 && size < 0x4000 ==> code == 0x4000_0000 * dir + 0x1_0000 * size + 0x100 * ty + nr,
{
    let s: u32 = size as u32;
    let t: u32 = ty as u32;
    let n: u32 = nr as u32;
    proof {
        if dir < 4 && size < 0x4000 {
            assert(((dir << 30) | (s << 16) | (t << 8) | n) == 0x4000_0000 * dir + 0x1_0000 * s
                + 0x100 * t + n) by (bit_vector)
                requires
                    dir < 4,
                    s < 0x4000,
                    t < 0x100,
                    n < 0x100,
            ;
        }
    }
    ((dir << 30) | (s << 16) | (t << 8) | n) as u64
}

/// The request codes are what the encoding gives for type `0xB4`, their
/// direction and number, and the size of their argument.
pub proof fn lemma_gpio_request_codes()
    ensures
        GPIO_GET_CHIPINFO == 0x4000_0000 * IOC_READ + 0x1_0000 * GPIOCHIP_INFO_SIZE + 0x100 * 0xB4
            + 0x01,
        GPIO_GET_LINEINFO == 0x4000_0000 * IOC_READ + 0x1_0000 * GPIOLINE_INFO_SIZE + 0x100 * 0xB4
            + 0x02,
        GPIO_GET_LINEEVENT == 0x4000_0000 * IOC_READWRITE + 0x1_0000 * GPIOEVENT_REQUEST_SIZE
            + 0x100 * 0xB4 + 0x05,
{
}

/// NUL-terminated consumer name for the event request.
pub fn consumer_name() -> (name: [i8; 32])
    ensures
        forall|i: int| 0 <= i < 10 ==> #[trigger] name@[i] == "mujina-fan"@[i] as int,
        forall|i: int| 10 <= i < 32 ==> #[trigger] name@[i] == 0,
{
    proof {
        reveal_strlit("mujina-fan");
    }
    [
        109,
        117,
        106,
        105,
        110,
        97,
        45,
        102,
        97,
        110,
        0,
        0,
        0,
        0,
        0,
        0,
        0,
        0,
        0,
        0,
        0,
        0,
        0,
        0,
        0,
        0,
        0,
        0,
        0,
        0,
        0,
        0,
    ]
}

/// `struct gpioevent_request` (linux/gpio.h).
#[derive(Debug, Clone, Copy)]
pub struct GpioeventRequest {
    /// Line on the chip.
    pub lineoffset: u32,
    /// How the line is requested.
    pub handleflags: u32,
    /// Which edges are counted.
    pub eventflags: u32,
    /// Who asks.
    pub consumer: [i8; 32],
    /// Event file, filled in by the kernel.
    pub fd: i32,
}

/// `request` asks for events on both edges of a line, taken as an input, in
/// the name of `mujina-fan`.
pub open spec fn asks_for_edges(request: GpioeventRequest, line_offset: u32) -> bool {
    &&& request.lineoffset == line_offset
    &&& request.handleflags == GPIOHANDLE_REQUEST_INPUT
    &&& request.eventflags == GPIOEVENT_REQUEST_RISING_EDGE | GPIOEVENT_REQUEST_FALLING_EDGE
    &&& forall|i: int|
        0 <= i < 10 ==> #[trigger] request.consumer@[i] == "mujina-fan"@[i] as int
    &&& forall|i: int| 10 <= i < 32 ==> #[trigger] request.consumer@[i] == 0
    &&& request.fd == -1
}

/// The request for events on both edges of a line.
pub fn event_request(line_offset: u32) -> (r: GpioeventRequest)
    ensures
        asks_for_edges(r, line_offset),
{
    GpioeventRequest {
        lineoffset: line_offset,
        handleflags: GPIOHANDLE_REQUEST_INPUT,
        eventflags: GPIOEVENT_REQUEST_RISING_EDGE | GPIOEVENT_REQUEST_FALLING_EDGE,
        consumer: consumer_name(),
        fd: -1,
    }
}

/// One step of opening the tachometer. The first that fails ends it.
#[derive(Debug, Clone, Copy)]
pub enum OpenStep {
    /// Open the GPIO chip, read-only and close-on-exec.
    OpenChip,
    /// Read `struct gpiochip_info` with this request code: the chip exists.
    ChipInfo(u64),
    /// Read `struct gpioline_info` of this line with this request code: the
    /// offset is in range.
    LineInfo(u64, u32),
    /// Ask for edge events with this request code and argument; the answer is
    /// the event file.
    LineEvent(u64, GpioeventRequest),
}

/// Fan tachometer counter backed by the GPIO chardev.
///
/// Call [`FanTach::open`] once after construction, then [`FanTach::sample`] to
/// count edges over a window.
#[derive(Debug)]
pub struct FanTach {
    chip_path: String,
    line_offset: u32,
    pulses_per_rev: u32,
    is_open: bool,
}

/// What a tachometer is set to.
pub struct TachSetup {
    /// Path of the GPIO chip.
    pub chip_path: Seq<char>,
    /// Line on the chip.
    pub line_offset: u32,
    /// Edges per revolution.
    pub pulses_per_rev: u32,
    /// Whether its event file is open.
    pub is_open: bool,
}

impl View for FanTach {
    type V = TachSetup;

    closed spec fn view(&self) -> TachSetup {
        TachSetup {
            chip_path: self.chip_path@,
            line_offset: self.line_offset,
            pulses_per_rev: self.pulses_per_rev,
            is_open: self.is_open,
        }
    }
}

impl FanTach {
    /// Create a counter for `line_offset` on `chip_path` with the given
    /// pulses-per-revolution.
    pub fn new(chip_path: String, line_offset: u32, pulses_per_rev: u32) -> (r: Self)
        ensures
            r@ == (TachSetup {
                chip_path: chip_path@,
                line_offset,
                pulses_per_rev,
                is_open: false,
            }),
    {
        FanTach { chip_path, line_offset, pulses_per_rev, is_open: false }
    }

    /// Path of the GPIO chip.
    pub fn chip_path(&self) -> (path: &str)
        ensures
            path@ == self@.chip_path,
    {
        self.chip_path.as_str()
    }

    /// Edges per revolution.
    pub fn pulses_per_rev(&self) -> (n: u32)
        ensures
            n == self@.pulses_per_rev,
    {
        self.pulses_per_rev
    }

    /// Open the chip and request edge events on the line: the steps to take.
    /// An open tachometer takes none.
    pub fn open(&self) -> (steps: Vec<OpenStep>)
        ensures
            self@.is_open ==> steps@.len() == 0,
            !self@.is_open ==> {
                &&& steps@.len() == 4
                &&& steps@[0] is OpenChip
                &&& steps@[1] == OpenStep::ChipInfo(GPIO_GET_CHIPINFO)
                &&& steps@[2] == OpenStep::LineInfo(GPIO_GET_LINEINFO, self@.line_offset)
                &&& steps@[3] matches OpenStep::LineEvent(code, request) && code
                    == GPIO_GET_LINEEVENT && asks_for_edges(request, self@.line_offset)
            },
            !self@.is_open ==> {
                &&& steps@[1] == OpenStep::ChipInfo(0x8044_B401)
                &&& steps@[2] == OpenStep::LineInfo(0x8048_B402, self@.line_offset)
                &&& steps@[3] matches OpenStep::LineEvent(code, _) && code == 0xC030_B405
            },
    {
        let mut steps: Vec<OpenStep> = Vec::new();
        if !self.is_open {
            steps.push(OpenStep::OpenChip);
            steps.push(OpenStep::ChipInfo(GPIO_GET_CHIPINFO));
            steps.push(OpenStep::LineInfo(GPIO_GET_LINEINFO, self.line_offset));
            steps.push(OpenStep::LineEvent(GPIO_GET_LINEEVENT, event_request(self.line_offset)));
        }
        steps
    }

    /// The event file is open.
    pub fn opened(&mut self)
        ensures
            final(self)@ == (TachSetup { is_open: true, ..old(self)@ }),
    {
        self.is_open = true;
    }

    /// Start counting edges over `window` nanoseconds at time `now`. A
    /// tachometer that is not open is an error.
    pub fn sample(&self, window: u64, now: u64) -> (r: Result<TachCount, HwError>)
        ensures
            match r {
                Ok(count) => self@.is_open && count == (TachCount {
                    start: now,
                    window,
                    count: 0,
                }),
                Err(HwError::Other(text)) => !self@.is_open && text@
                    == "fan tach not open; call open() first"@,
                Err(_) => false,
            },
    {
        if !self.is_open {
            return Err(HwError::Other(String::from_str("fan tach not open; call open() first")));
        }
        Ok(TachCount::new(window, now))
    }
}

/// What happened since the last step of a count. Times are in nanoseconds on
/// a clock that does not run backwards.
#[derive(Debug, Clone, Copy, PartialEq, Eq, Structural)]
pub enum TachEvent {
    /// The count starts, or it is time to look at the clock again.
    Clock {
        /// Time now.
        now: u64,
    },
    /// The poll failed; `interrupted` by a signal, or for good.
    PollFailed {
        /// Whether a signal came in between.
        interrupted: bool,
    },
    /// The poll ran out of time without an event.
    PollElapsed,
    /// The poll found an event.
    PollReady,
    /// The read failed; `interrupted` by a signal, or for good.
    ReadFailed {
        /// Whether a signal came in between.
        interrupted: bool,
    },
    /// The read brought this many bytes.
    Read {
        /// Number of bytes.
        bytes: usize,
    },
}

/// What to do next in a count.
#[derive(Debug, Clone, Copy, PartialEq, Eq, Structural)]
pub enum TachAction {
    /// Look at the clock.
    Clock,
    /// Poll for an event for at most this many milliseconds.
    Poll(u64),
    /// Read one `struct gpioevent_data`.
    Read,
    /// Succeed with this count.
    Done(u64),
    /// Fail with the error of the last call.
    Fail,
}

/// A count of tachometer edges over a window, polling in short slices so that
/// the deadline is honored.
#[derive(Debug, Clone, Copy, PartialEq, Eq, Structural)]
pub struct TachCount {
    /// Start of the window.
    pub start: u64,
    /// Length of the window, in nanoseconds.
    pub window: u64,
    /// Edges counted.
    pub count: u64,
}

impl TachCount {
    /// Time gone by at `now`.
    pub open spec fn elapsed(self, now: u64) -> int {
        if now > self.start {
            now - self.start
        } else {
            0
        }
    }

    /// One step: the next state and what to do.
    pub open spec fn spec_step(self, event: TachEvent) -> (TachCount, TachAction) {
        match event {
            TachEvent::Clock { now } => if self.elapsed(now) >= self.window {
                (self, TachAction::Done(self.count))
            } else {
                let left_ms = (self.window - self.elapsed(now)) / 1_000_000;
                (
                    self,
                    TachAction::Poll(
                        if left_ms < POLL_SLICE_MS {
                            left_ms as u64
                        } else {
                            POLL_SLICE_MS
                        },
                    ),
                )
            },
            TachEvent::PollFailed { interrupted } => if interrupted {
                (self, TachAction::Clock)
            } else {
                (self, TachAction::Fail)
            },
            TachEvent::PollElapsed => (self, TachAction::Clock),
            TachEvent::PollReady => (self, TachAction::Read),
            TachEvent::ReadFailed { interrupted } => if interrupted {
                (self, TachAction::Clock)
            } else {
                (self, TachAction::Fail)
            },
            TachEvent::Read { bytes } => (
                if bytes == GPIOEVENT_DATA_SIZE {
                    TachCount {
                        count: ((self.count + 1) % 0x1_0000_0000_0000_0000) as u64,
                        ..self
                    }
                } else {
                    self
                },
                TachAction::Clock,
            ),
        }
    }

    /// Start a count over `window` nanoseconds at time `now`.
    pub fn new(window: u64, now: u64) -> (r: Self)
        ensures
            r == (TachCount { start: now, window, count: 0 }),
    {
        TachCount { start: now, window, count: 0 }
    }

    /// One step of a count. Each whole event record counts once; a signal or
    /// an empty poll slice only leads back to the clock; the count ends when
    /// the window has gone by.
    pub fn step(&mut self, event: TachEvent) -> (action: TachAction)
        ensures
            (*final(self), action) == old(self).spec_step(event),
    {
        match event {
            TachEvent::Clock { now } => {
                let elapsed: u64 = now.saturating_sub(self.start);
                if elapsed >= self.window {
                    TachAction::Done(self.count)
                } else {
                    let left_ms: u64 = (self.window - elapsed) / 1_000_000;
                    TachAction::Poll(
                        if left_ms < POLL_SLICE_MS {
                            left_ms
                        } else {
                            POLL_SLICE_MS
                        },
                    )
                }
            },
            TachEvent::PollFailed { interrupted } => {
                if interrupted {
                    TachAction::Clock
                } else {
                    TachAction::Fail
                }
            },
            TachEvent::PollElapsed => TachAction::Clock,
            TachEvent::PollReady => TachAction::Read,
            TachEvent::ReadFailed { interrupted } => {
                if interrupted {
                    TachAction::Clock
                } else {
                    TachAction::Fail
                }
            },
            TachEvent::Read { bytes } => {
                if bytes == GPIOEVENT_DATA_SIZE {
                    self.count = self.count.wrapping_add(1);
                }
                TachAction::Clock
            },
        }
    }
}

/// The count after `events`, one step each.
pub open spec fn count_run(count: TachCount, events: Seq<TachEvent>) -> TachCount
    decreases events.len(),
{
    if events.len() == 0 {
        count
    } else {
        count_run(count, events.drop_last()).spec_step(events.last()).0
    }
}

/// How many of `events` brought a whole event record.
pub open spec fn records(events: Seq<TachEvent>) -> nat
    decreases events.len(),
{
    if events.len() == 0 {
        0
    } else {
        records(events.drop_last()) + if events.last() == (TachEvent::Read {
            bytes: GPIOEVENT_DATA_SIZE,
        }) {
            1nat
        } else {
            0nat
        }
    }
}

/// A count is the number of whole event records read, whatever came in
/// between, and the window it runs over never changes.
pub proof fn lemma_counts_every_record(count: TachCount, events: Seq<TachEvent>)
    requires
        count.count + events.len() < 0x1_0000_0000_0000_0000,
    ensures
        count_run(count, events) == (TachCount {
            count: (count.count + records(events)) as u64,
            ..count
        }),
        records(events) <= events.len(),
    decreases events.len(),
{
    if events.len() > 0 {
        lemma_counts_every_record(count, events.drop_last());
    }
}

} // verus!
