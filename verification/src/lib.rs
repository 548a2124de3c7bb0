//! Supervision core for interactive assistant sessions.

pub mod buffer;
pub mod classifier;
pub mod json;
pub mod model;
pub mod ports;
pub mod project;
pub mod registry;
pub mod session;
pub mod table;
pub mod transcript;
