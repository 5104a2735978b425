//! Driving an operation from leaf to leaf.

pub mod boundary;
pub mod checkpoint;
pub mod deferred;
pub mod dispatch;
pub mod finish;
pub mod generation;
pub mod lifecycle;
pub mod reconcile;
pub mod recovery;
pub mod response;
pub mod retry;
pub mod structural;
pub mod structural_run;
pub mod terminal;
pub mod tool_placement;
pub mod tools;
