//! Supervision of child processes, with automatic restarts and exponential backoffs.
//!
//! This library decides; the program around it acts. [`ProcessManager`] knows the processes and
//! the settings, and answers requests. A [`supervisor::Supervisor`] sees one process through:
//! it is told what happened, and says what to do. Neither waits, spawns or signals anything.

pub mod backoff;
pub mod draw;
pub mod error;
pub mod history;
pub mod laws;
pub mod liveness;
pub mod manager;
pub mod message;
pub mod process;
pub mod promises;
pub mod supervisor;
pub mod table;
pub mod text;
pub mod time;
pub mod util;

pub use manager::{
    ProcessManager, RestartMode, DEFAULT_LIVENESS_INTERVAL_SECS, DEFAULT_MAX_BACKOFF_SECS,
    RESTART_DECAY_UPTIME_SECS,
};
pub use table::ProcessKey;
pub use time::Duration;
