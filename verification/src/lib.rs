//! Verified core of the Apollo III miner: the Aura ASIC wire protocol, chain
//! bring-up and thread rules, and the board, bus and peripheral logic around
//! them.
//!
//! Everything here computes. Serial, GPIO, I2C and sysfs traffic is performed
//! by the caller, which hands in plain values and carries out the plain
//! values it gets back.

pub mod asic;
pub mod board;
pub mod buffer;
pub mod hw_trait;
pub mod peripheral;
pub mod text;
pub mod transport;
pub mod wire;
