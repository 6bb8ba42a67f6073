//! Apollo III board virtual transport (startup-only).
//!
//! Apollo events are synthesized at startup from environment configuration
//! (`MUJINA_APOLLO_SERIAL` presence) rather than discovered from hardware: the
//! daemon emits exactly one connect event, then an enumeration-complete event,
//! and the channel closes.

use vstd::prelude::*;

verus! {

/// Transport events for the Apollo III board.
#[derive(Debug)]
pub enum TransportEvent {
    /// The Apollo III board was enabled via the environment.
    ApolloDeviceConnected(ApolloDeviceInfo),
    /// The Apollo III board was disconnected.
    ApolloDeviceDisconnected {
        /// Identifier of the device.
        device_id: String,
    },
}

/// Information about the Apollo III virtual device.
#[derive(Debug)]
pub struct ApolloDeviceInfo {
    /// Unique identifier for this virtual device (also the board id used by
    /// the backplane).
    pub device_id: String,
}

impl Clone for ApolloDeviceInfo {
    fn clone(&self) -> (r: Self)
        ensures
            r.device_id@ == self.device_id@,
    {
        ApolloDeviceInfo { device_id: self.device_id.clone() }
    }
}

} // verus!
