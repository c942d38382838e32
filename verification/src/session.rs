//! Reducing the context of a running session.

pub mod context_reduction_telemetry;
pub mod mid_turn_reduction;
pub mod prompt_cache_clock;
pub mod reduction_laws;
pub mod subagent_context_reduction;
pub mod thread_settings;
pub mod turn;
