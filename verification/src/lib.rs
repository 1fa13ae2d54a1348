//! Verified core of a file-watching command runner.
//!
//! The library models and verifies the logic of a tool that watches one file
//! and, on each change, runs a user-given command chain with shell-style
//! sequencing (`;`, `&&`, `||`) and `{}` path substitution:
//!
//! - [`command`]: atomic commands and the separator tokens;
//! - [`config`]: the chain parser and placeholder substitution;
//! - [`executor`]: gated execution of a chain, as a decision function over
//!   observed process outcomes;
//! - [`dispatch`]: the async-work manager protocol;
//! - [`watch`]: the watch event loop state machine.
//!
//! Process spawning, the filesystem watcher and the CLI live outside the
//! library; they hand plain values in and carry the decided actions out.

pub mod chain;
pub mod command;
pub mod config;
pub mod dispatch;
pub mod executor;
pub mod subst;
pub mod watch;
