//! Sticky Timer: desktop sticky notes, each a task with a countdown or
//! stopwatch timer and an optional one-shot or weekly schedule.
//!
//! This crate holds the application's logic: the timer state machine, the
//! schedule rules, the task store and the per-second heartbeat decisions,
//! and the Telegram message templates. The desktop shell (windows, tray,
//! persistence, notifications, network) drives it from outside.

pub mod clock;
pub mod heartbeat;
pub mod schedule;
pub mod settings;
pub mod shell;
pub mod store;
pub mod task;
pub mod telegram;
pub mod text;
pub mod timer;
pub mod wall;
