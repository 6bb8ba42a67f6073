//! Aura ASIC family chip support (Apollo III).
//!
//! The protocol core (CRC-32, 16-byte command/response frames with 20-byte
//! zero preamble handling, 92-byte job frames, hit responses and PLL words)
//! and, on top of it, the chain driver: discovery, version bounds, DVFS setup
//! and heartbeat, the frequency ramp, telemetry counters and the rules of the
//! hash thread. The modules whose names end in `laws` state what holds of these
//! for every input.

pub mod chain;
pub mod chain_laws;
pub mod crc;
pub mod discovery;
pub mod dvfs;
pub mod error;
pub mod frame_laws;
pub mod framing;
pub mod job;
pub mod job_laws;
pub mod protocol;
pub mod telemetry;
pub mod telemetry_laws;
pub mod thread;
pub mod thread_laws;
pub mod thread_step_laws;

pub use chain::{bring_up_chain, discover_chips, version_bounds, ChainConfig};
pub use dvfs::{ramp_steps, write_ramp_step, RampState};
pub use protocol::{Command, FrameCodec, HitFrame, JobFrame, Register, Response};
pub use telemetry::TelemetryTracker;
pub use thread::{AuraConfig, AuraThread};
