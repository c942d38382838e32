//! Mechanical context reduction for long agent conversations.

pub mod agent;
pub mod artifacts;
pub mod cache_staleness;
pub mod config;
pub mod fork_update;
pub mod fragments;
pub mod items;
pub mod read_artifact;
pub mod session;
pub mod shake;
pub mod shake_cost;
pub mod shake_preview;
pub mod smart_compact;
pub mod stats;
pub mod text;
pub mod time;
