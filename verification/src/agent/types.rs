//! What is known of agents, and what is handed to them.

use vstd::prelude::*;

use crate::agent::target::ThreadId;

verus! {

/// Who an agent is, whether it is loaded or not. An agent that is about to be
/// spawned may have no id yet.
#[derive(Debug, PartialEq, Eq)]
pub struct AgentMetadata {
    pub agent_id: Option<ThreadId>,
    pub agent_path: Option<String>,
    pub agent_nickname: Option<String>,
    pub agent_role: Option<String>,
}

/// An agent that is loaded, and what it was last seen to do.
#[derive(Debug, PartialEq, Eq)]
pub struct LiveAgent {
    pub thread_id: ThreadId,
    pub metadata: AgentMetadata,
    pub status: String,
}

/// What a spawned agent gets from its parent.
#[derive(Debug, PartialEq, Eq)]
pub struct SpawnAgentOptions {
    pub fork_parent_spawn_call_id: Option<String>,
    pub fork_mode: Option<SpawnAgentForkMode>,
    pub parent_thread_id: Option<ThreadId>,
    pub parent_turn_id: Option<String>,
    /// The turn that the agent's usage is attributed to.
    pub turn_trigger: Option<String>,
    pub root_turn_id: Option<String>,
    pub environments: Option<Vec<String>>,
    pub multi_agent_v2_usage_hints: Option<ResolvedMultiAgentV2UsageHints>,
    pub cyber_access_program: Option<String>,
}

/// How much of its parent's conversation a spawned agent starts with.
#[derive(Clone, Copy, Debug, PartialEq, Eq, Structural)]
pub enum SpawnAgentForkMode {
    FullHistory,
    LastNTurns(usize),
}

/// How an automatic context reduction ended.
#[derive(Clone, Copy, Debug, PartialEq, Eq, Structural)]
pub enum ContextReductionOutcome {
    /// Shaking alone was enough.
    Shaken,
    /// A compaction ran: shaking was skipped or not enough, or a new context
    /// window was asked for.
    Compacted,
    /// The context stayed too large.
    Insufficient,
}

impl ContextReductionOutcome {
    /// The machine-readable name.
    pub fn as_str(self) -> (name: &'static str)
        ensures
            name@ == match self {
                ContextReductionOutcome::Shaken => "shaken"@,
                ContextReductionOutcome::Compacted => "compacted"@,
                ContextReductionOutcome::Insufficient => "insufficient"@,
            },
    {
        match self {
            ContextReductionOutcome::Shaken => "shaken",
            ContextReductionOutcome::Compacted => "compacted",
            ContextReductionOutcome::Insufficient => "insufficient",
        }
    }
}

/// The last automatic context reduction of an agent.
#[derive(Clone, Copy, Debug, PartialEq, Eq, Structural)]
pub struct ContextReductionRecord {
    /// Unix seconds.
    pub at: i64,
    pub before_tokens: i64,
    /// `None` when the size afterwards is unknown.
    pub after_tokens: Option<i64>,
    pub outcome: ContextReductionOutcome,
}

/// Where the size of an agent's context comes from.
#[derive(Clone, Copy, Debug, PartialEq, Eq, Structural)]
pub enum ContextTokenBasis {
    /// The usage that the model last reported, and an estimate of what was
    /// recorded since.
    Usage,
    /// An estimate of the recorded history.
    Estimate,
}

impl ContextTokenBasis {
    /// The machine-readable name.
    pub fn as_str(self) -> (name: &'static str)
        ensures
            name@ == match self {
                ContextTokenBasis::Usage => "usage"@,
                ContextTokenBasis::Estimate => "estimate"@,
            },
    {
        match self {
            ContextTokenBasis::Usage => "usage",
            ContextTokenBasis::Estimate => "estimate",
        }
    }
}

/// The size of an agent's context, as its parent sees it.
#[derive(Clone, Copy, Debug, PartialEq, Eq, Structural)]
pub struct AgentContextUsage {
    pub active_tokens: i64,
    pub basis: ContextTokenBasis,
    pub last_reduction: Option<ContextReductionRecord>,
}

/// What agents are told of their role.
#[derive(Debug, PartialEq, Eq)]
pub struct ResolvedMultiAgentV2UsageHints {
    pub root: Option<String>,
    pub subagent: Option<String>,
}

/// When a message to an agent is acted on.
#[derive(Clone, Copy, Debug, PartialEq, Eq, Structural)]
pub enum MessageDeliveryMode {
    /// It waits in the mailbox, and starts no idle agent.
    QueueOnly,
    /// It goes to the active turn, or starts work in an idle agent.
    TriggerTurn,
}

/// A message to an agent: text, or content that only the model reads.
#[derive(Debug, PartialEq, Eq)]
pub enum AgentMessage {
    Plaintext(String),
    Encrypted(String),
}

/// Holds a permit to run until the turn ends. Dropping the guard drops the
/// permit, and with it the reservation.
#[must_use]
#[derive(Debug, PartialEq, Eq)]
pub struct AgentExecutionGuard<P> {
    pub permit: P,
}

impl<P> AgentExecutionGuard<P> {
    /// A guard that holds a permit.
    pub fn new(permit: P) -> (guard: Self)
        ensures
            guard.permit == permit,
    {
        AgentExecutionGuard { permit }
    }
}

} // verus!
