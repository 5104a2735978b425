//! The data the runtime works on. Each type has a view, its contents as a
//! mathematical value, and a `clone` that keeps the view.

pub mod event;
pub mod message;
pub mod session;
pub mod storage;
