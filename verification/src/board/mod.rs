//! Boards.

pub mod apollo_iii;
pub mod apollo_laws;
