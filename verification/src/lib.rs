//! Anonymous gift-exchange parties: join phrases that double as capability
//! tokens, deadline scheduling that survives restarts, and give-to pairings in
//! which nobody draws themselves.

pub mod codec;
pub mod derange;
pub mod laws;
pub mod matching;
pub mod model;
pub mod payload;
pub mod registry;
pub mod schedule;
pub mod service;
pub mod store;
pub mod workflow;
