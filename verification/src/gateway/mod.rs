//! The gateway with declared inputs: a fixed set of captures that is provisioned,
//! supervised and registered unattended, and the desktop app that starts inputs one by
//! one.

pub mod book;
pub mod client;
pub mod config;
pub mod control;
pub mod flow;
pub mod identity;
pub mod process;
pub mod prompt;
pub mod registration;
pub mod rollout;
pub mod runner;
pub mod session;
pub mod state;
pub mod status;
pub mod supervisor;
pub mod token;
