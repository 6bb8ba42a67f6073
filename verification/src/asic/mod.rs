//! ASIC families.

pub mod aura;
