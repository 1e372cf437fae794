//! Interception engine for a pointing device.
//!
//! The engine takes a configured subset of button events out of the stream of
//! a physical device, maps each press among them to an action, and hands every
//! other event on, in order, to a synthetic device that mirrors the physical
//! one. All device access is left to the caller: the engine is a state machine
//! that is told what happened and answers with what to do next.
//!
//! - [`config`]: what is fixed for a run.
//! - [`intercept`]: the intercepted keys and their actions.
//! - [`event`]: event records and the forwarding policy.
//! - [`capability`]: capability sets and the plan of the synthetic device.
//! - [`locator`]: finding the physical device.
//! - [`watchdog`]: the activity clock and the termination predicates.
//! - [`engine`]: the state machine of a run.
//! - [`laws`]: what holds of every run.
//! - [`session`]: the boundary to the action dispatcher.
//! - [`outcome`]: how a run ends.

pub mod capability;
pub mod config;
pub mod engine;
pub mod event;
pub mod intercept;
pub mod laws;
pub mod locator;
pub mod outcome;
pub mod session;
pub mod watchdog;
