//! Tasker: a small task scheduler that keeps its tasks and execution logs in an
//! encrypted table, decides each minute which tasks are due, and how long the
//! service may sleep before it looks again.
//!
//! The modules of this crate hold the scheduling rules, the table rules (no two
//! rows share a name), the byte form of every stored field and the command lines
//! the service runs. Storage, the keyring, the cipher, the shell and the clock
//! are reached from outside: the cipher through closures, the clock and random
//! names through small trusted wrappers.
pub mod structs;
pub mod enums;
pub mod time;
pub mod bytes;
pub mod secure;
pub mod tables;
pub mod shell;
pub mod config;
pub mod taskerctl;
pub mod tasker_logic;
