//! A deterministic intent processor and durable task queue for driving an
//! external code-execution agent: free-form directives are normalized into a
//! fixed command schema, queued with an explicit status state machine, and
//! dispatched first-in-first-out.

mod clock;

pub mod audio;
pub mod config;
pub mod dispatch;
pub mod executor;
pub mod panel;
pub mod processor;
pub mod queue;
pub mod schema;
pub mod text;

pub use config::Config;
pub use executor::ClaudeExecutor;
pub use queue::{Task, TaskQueue, TaskStatus};
