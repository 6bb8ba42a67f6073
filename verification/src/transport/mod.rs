//! Board transports.

pub mod apollo;
