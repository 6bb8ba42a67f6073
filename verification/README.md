# mujina-miner: verified Apollo III core

The part of the Apollo III miner that computes, written in Verus: the Aura ASIC
wire protocol, chain discovery and bring-up, the frequency ramp, telemetry
counters, the rules of the hash thread, and the board, bus and peripheral logic
around them. Every function states in its contract what it returns or changes,
and Verus proves it.

## Layout

- `src/asic/aura/` the Aura chain: CRC, frames and the frame codec
  (`crc`, `protocol`, `framing`), chain setup and discovery (`chain`,
  `discovery`), DVFS and the ramp (`dvfs`), telemetry counters (`telemetry`),
  jobs and shares (`job`), and the hash thread as a state machine (`thread`),
  with its laws in `thread_laws`.
- `src/board/` the Apollo III board: configuration, power-on order, the
  monitor's rail watchdog, thermal trip and fan cycle, shutdown.
- `src/hw_trait/` sysfs GPIO, I2C transfers, the fan tachometer.
- `src/peripheral/` sysfs PWM and the SIC450 power supply.
- `src/buffer.rs` what is stated of `bytes::BytesMut`; `src/text.rs` and
  `src/wire.rs` decimal text, paths and little-endian words.
- `app/` ordinary Rust: serial port, ioctls, sysfs files, timers, channels and
  everything in floating point. It feeds events to the library's state machines
  and performs the actions they answer.
- `tests/` tests of the library.

Times are nanoseconds in `u64`. Public functions named `lemma_*` are the laws of
the library: what holds of all inputs, over several calls, or of every state.

## What is not proved

The contracts of the functions of `bytes` (`src/buffer.rs`), of the three
functions of `bitcoin` in `src/asic/aura/job.rs`, and of the debug formatting of
a string in `src/peripheral/pwm_sysfs.rs` are stated, not proved.
