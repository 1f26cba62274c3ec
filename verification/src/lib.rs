//! Supervision logic for an HF data link decoder: band catalog, band choosers,
//! the network state store and the session state machine.

pub mod args;
pub mod autopilot;
pub mod bands;
pub mod chooser;
pub mod clock;
pub mod config;
pub mod hfdl;
pub mod http;
pub mod pattern;
pub mod random;
pub mod state;
pub mod text;
pub mod utils;
