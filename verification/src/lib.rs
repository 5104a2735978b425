//! Verified decisions of an agent runtime.

pub mod command;
pub mod drive;
pub mod durable;
pub mod harness;
pub mod inbox;
pub mod json;
pub mod lane;
pub mod laws;
pub mod model;
pub mod names;
pub mod observe;
pub mod progress;
pub mod reducer;
pub mod restore;
pub mod same;
pub mod state;
pub mod text;
pub mod transcript;
pub mod types;
