//! Agents, and the policy that keeps each one's context small.

pub mod context_policy;
pub mod policy_laws;
pub mod target;
pub mod target_laws;
pub mod types;
