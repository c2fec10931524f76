//! A single-process software timer scheduler.
//!
//! Alarms are registered with a [`Timer`], which keeps them in an ordered
//! queue keyed by due time and fires them, one per tick, in due-time order.

pub mod clock;
pub mod queue;
pub mod handler;
pub mod timer;

pub use clock::now_microsecond;
pub use handler::{Factory, Handler, RetTimer};
pub use timer::{Timer, TimerError};
