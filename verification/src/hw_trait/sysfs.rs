//! What the sysfs backends share: attribute writes and the export handshake.

use vstd::prelude::*;

verus! {

/// Number the kernel gives `EBUSY` on Linux.
pub const EBUSY: i32 = 16;

/// How many times to look for an exported directory. sysfs creates it
/// asynchronously; this bounds the wait.
pub const EXPORT_POLL_ATTEMPTS: u32 = 100;

/// Pause after each look, in nanoseconds (1 ms).
pub const EXPORT_POLL_INTERVAL: u64 = 1_000_000;

/// A write to a sysfs attribute.
#[derive(Debug, PartialEq, Eq)]
pub struct SysfsWrite {
    /// Path of the attribute.
    pub path: String,
    /// Text to write to it.
    pub contents: String,
}

impl Clone for SysfsWrite {
    fn clone(&self) -> (r: Self)
        ensures
            r.path@ == self.path@,
            r.contents@ == self.contents@,
    {
        SysfsWrite { path: self.path.clone(), contents: self.contents.clone() }
    }
}

/// What happened since the last step of an export.
#[derive(Debug, Clone, Copy, PartialEq, Eq, Structural)]
pub enum ExportEvent {
    /// The `export` attribute took the write.
    Written,
    /// The write failed with this OS error number, where there is one.
    WriteFailed {
        /// OS error number.
        errno: Option<i32>,
    },
    /// The exported directory was looked for.
    Probed {
        /// Whether it is there.
        exists: bool,
    },
    /// The pause is over.
    Slept,
}

/// What to do next in an export.
#[derive(Debug, Clone, Copy, PartialEq, Eq, Structural)]
pub enum ExportAction {
    /// Look whether the exported directory is there.
    Probe,
    /// Pause for this many nanoseconds.
    Sleep(u64),
    /// Succeed: the directory is there.
    Ready,
    /// Fail with the error of the write.
    Refused,
    /// Fail: the directory did not appear.
    Missing,
}

/// An export in progress.
///
/// Writing to `export` when the line or channel is already exported fails
/// with `EBUSY`; that is treated as success. After a successful write the
/// directory appears asynchronously, so it is polled for briefly.
#[derive(Debug, Clone, Copy, PartialEq, Eq, Structural)]
pub struct ExportPoll {
    /// Looks that found nothing.
    pub misses: u32,
}

impl ExportPoll {
    /// One step: the next state and what to do.
    pub open spec fn spec_step(self, event: ExportEvent) -> (ExportPoll, ExportAction) {
        match event {
            ExportEvent::Written => (self, ExportAction::Probe),
            ExportEvent::WriteFailed { errno } => if errno == Some(EBUSY) {
                (self, ExportAction::Probe)
            } else {
                (self, ExportAction::Refused)
            },
            ExportEvent::Probed { exists } => if exists {
                (self, ExportAction::Ready)
            } else {
                (
                    ExportPoll {
                        misses: if self.misses < EXPORT_POLL_ATTEMPTS {
                            (self.misses + 1) as u32
                        } else {
                            self.misses
                        },
                    },
                    ExportAction::Sleep(EXPORT_POLL_INTERVAL),
                )
            },
            ExportEvent::Slept => if self.misses < EXPORT_POLL_ATTEMPTS {
                (self, ExportAction::Probe)
            } else {
                (self, ExportAction::Missing)
            },
        }
    }

    /// Start an export, before the write to `export`.
    pub fn new() -> (r: Self)
        ensures
            r == (ExportPoll { misses: 0 }),
    {
        ExportPoll { misses: 0 }
    }

    /// One step of an export.
    pub fn step(&mut self, event: ExportEvent) -> (action: ExportAction)
        ensures
            (*final(self), action) == old(self).spec_step(event),
    {
        match event {
            ExportEvent::Written => ExportAction::Probe,
            ExportEvent::WriteFailed { errno } => {
                let busy = match errno {
                    Some(number) => number == EBUSY,
                    None => false,
                };
                if busy {
                    ExportAction::Probe
                } else {
                    ExportAction::Refused
                }
            },
            ExportEvent::Probed { exists } => {
                if exists {
                    ExportAction::Ready
                } else {
                    if self.misses < EXPORT_POLL_ATTEMPTS {
                        self.misses = self.misses + 1;
                    }
                    ExportAction::Sleep(EXPORT_POLL_INTERVAL)
                }
            },
            ExportEvent::Slept => {
                if self.misses < EXPORT_POLL_ATTEMPTS {
                    ExportAction::Probe
                } else {
                    ExportAction::Missing
                }
            },
        }
    }
}

/// The export after `rounds` looks that found nothing, each followed by its
/// pause.
pub open spec fn after_misses(rounds: nat) -> ExportPoll
    decreases rounds,
{
    if rounds == 0 {
        ExportPoll { misses: 0 }
    } else {
        after_misses((rounds - 1) as nat).spec_step(
            ExportEvent::Probed { exists: false },
        ).0.spec_step(ExportEvent::Slept).0
    }
}

/// An export whose directory never appears is given up after exactly 100
/// looks: the pause after each of the first 99 leads to another look, the one
/// after the hundredth to failure.
pub proof fn lemma_export_gives_up_after_100(rounds: nat)
    requires
        1 <= rounds <= EXPORT_POLL_ATTEMPTS,
    ensures
        after_misses(rounds).misses == rounds,
        after_misses((rounds - 1) as nat).spec_step(
            ExportEvent::Probed { exists: false },
        ).0.spec_step(ExportEvent::Slept).1 == if rounds < EXPORT_POLL_ATTEMPTS {
            ExportAction::Probe
        } else {
            ExportAction::Missing
        },
    decreases rounds,
{
    if rounds > 1 {
        lemma_export_gives_up_after_100((rounds - 1) as nat);
    } else {
        reveal_with_fuel(after_misses, 2);
    }
}

} // verus!
