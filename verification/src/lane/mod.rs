//! Decisions of a lane.

pub mod accept;
pub mod claim;
pub mod configure;
pub mod intake;
pub mod queue;
pub mod requests;
pub mod settle;
pub mod snapshot;
