//! USB device tracking by polling: each scan of the bus is diffed against
//! the previous one, newcomers go through a blacklist/whitelist policy, every
//! transition is counted per device and kept in bounded logs, and a
//! command/event driven service decides what the loop around it does.
//!
//! - `device`: snapshots, identity keys, changes, statistics records.
//! - `diff`: the diff model, its laws, and the keyed-map builder.
//! - `config`: rule matching, the security policy, the configuration.
//! - `monitor`: the monitor state (previous map, statistics, logs) and its
//!   operations, analytics included.
//! - `bounded_log`: the FIFO-evicting log and its law.
//! - `communication`: commands, events, status and the status cache.
//! - `service`: the monitoring service as a state machine.
//! - `error`, `cli`, `text`: errors, command-line choices, string helpers.
//!
//! Times are plain milliseconds since the Unix epoch, read by the caller.

pub mod device;
pub mod text;
pub mod config;
pub mod bounded_log;
pub mod diff;
pub mod monitor;
pub mod communication;
pub mod service;
pub mod error;
pub mod cli;
