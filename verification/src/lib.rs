//! The verified core of a contribution gateway for Open Live: settings, flows, ports,
//! sources, status, and the rules by which they are kept in step.

pub mod bring_up;
pub mod config;
pub mod devices;
pub mod documents;
pub mod flow;
pub mod gateway;
pub mod gui;
pub mod headless;
pub mod heartbeat;
pub mod json;
pub mod local_strom;
pub mod openlive;
pub mod osc;
pub mod report;
pub mod run;
pub mod setup;
pub mod strom;
pub mod text;
pub mod tui;
