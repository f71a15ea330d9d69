//! Lifecycle orchestration for a node made of independently built subsystems:
//! the order in which they start, what is handed to each, how a failure or an
//! operator's signal turns into one ordered shutdown, and the small record
//! that keeps restarts consistent.

pub mod accounts;
pub mod bundle;
pub mod config;
pub mod coordinator;
pub mod daemon;
pub mod hub;
pub mod notify;
pub mod restart;
pub mod sequencer;
pub mod startup;
pub mod step;
pub mod subsystem;
pub mod text;
pub mod trace;
