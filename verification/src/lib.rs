//! Overwatch: a framework for applications made of independent services that talk to each
//! other through relays, under a single runner that manages their life cycle and settings.
//!
//! This crate holds the parts of the framework that decide: service identification, the
//! bookkeeping of life-cycle handles, the state machine of the runner, relay connection
//! states, state initialisation and the status protocol. The asynchronous plumbing that
//! moves values between tasks is driven from outside by calling these functions.

pub mod services;
pub mod utils;
pub mod overwatch;
pub mod derive;
pub mod ping_pong;
