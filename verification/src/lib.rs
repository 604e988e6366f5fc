//! A queue-ticketing engine for physical service counters ("guichets").
//!
//! One global counter numbers the tickets; an append-only history log is the
//! source of truth for desk sessions, closures and resets; a broadcast hub
//! fans ticket calls out to display subscribers; a device registry hands out
//! and checks bearer tokens.

pub mod analyzer;
pub mod annonces;
pub mod database;
pub mod gateway;
pub mod hub;
pub mod laws;
pub mod log;
pub mod registry;
pub mod token;
pub mod types;
pub mod util;
