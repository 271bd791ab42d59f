//! Remote-debugging supervisor core.
//!
//! The crate models the session state machine, subprocess supervision
//! decisions, readiness polling, log fan-out and the command surface of a
//! remote-debugging supervisor.  Everything here is plain data and verified
//! logic; the surrounding process (HTTP server, child processes, sockets)
//! drives these state machines from outside.

pub mod bridge;
pub mod build_runner;
pub mod commands;
pub mod config;
pub mod device;
pub mod json;
pub mod loghub;
pub mod poller;
pub mod session;
pub mod text;
pub mod tunnel;
