//! Hardware abstraction layer: bus and pin vocabulary, and the logic of the
//! Linux backends.

use vstd::prelude::*;

pub mod bus_laws;
pub mod fan_tach;
pub mod linux_i2c;
pub mod sysfs;
pub mod sysfs_gpio;

pub use fan_tach::FanTach;
pub use sysfs_gpio::{SysfsGpio, SysfsGpioPin};

verus! {

/// I2C bus errors.
#[derive(Debug, Clone, Copy, PartialEq, Eq, Structural)]
pub enum I2cError {
    /// The device at this address did not acknowledge.
    NoAck(u8),
}

/// Common error type for hardware operations.
#[derive(Debug)]
pub enum HwError {
    /// I/O error from underlying transport.
    Io(std::io::Error),
    /// I2C-specific errors.
    I2c(I2cError),
    /// Invalid parameter or argument.
    InvalidParameter(String),
    /// Operation not supported by hardware.
    NotSupported(String),
    /// Timeout waiting for hardware response.
    Timeout,
    /// Other hardware-specific error.
    Other(String),
}

impl From<std::io::Error> for HwError {
    fn from(error: std::io::Error) -> (r: HwError) {
        HwError::Io(error)
    }
}

impl vstd::std_specs::convert::FromSpecImpl<std::io::Error> for HwError {
    open spec fn obeys_from_spec() -> bool {
        true
    }

    open spec fn from_spec(error: std::io::Error) -> HwError {
        HwError::Io(error)
    }
}

impl From<I2cError> for HwError {
    fn from(error: I2cError) -> (r: HwError) {
        HwError::I2c(error)
    }
}

impl vstd::std_specs::convert::FromSpecImpl<I2cError> for HwError {
    open spec fn obeys_from_spec() -> bool {
        true
    }

    open spec fn from_spec(error: I2cError) -> HwError {
        HwError::I2c(error)
    }
}

/// Direction of a GPIO line.
#[derive(Debug, Clone, Copy, PartialEq, Eq, Structural)]
pub enum PinMode {
    /// The line is read.
    Input,
    /// The line is driven.
    Output,
}

/// Level of a GPIO line.
#[derive(Debug, Clone, Copy, PartialEq, Eq, Structural)]
pub enum PinValue {
    /// Logic low.
    Low,
    /// Logic high.
    High,
}

} // verus!
