//! The desktop app: its settings form, what its commands do, and what its window says.

pub mod controller;
pub mod settings;
pub mod window;
