//! Peripheral drivers.

pub mod pwm_sysfs;
pub mod sic450;
pub mod supply_laws;
