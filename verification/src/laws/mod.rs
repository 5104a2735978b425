//! What the decisions of the runtime are for, stated of their inputs and results.

pub mod acceptance;
pub mod booking;
pub mod boundary;
pub mod harness;
pub mod lane;
pub mod observer;
pub mod placement;
pub mod queue;
pub mod reading;
pub mod response;
pub mod run;
pub mod session;
pub mod structural;
pub mod telling;
pub mod tools;
pub mod transcript;
