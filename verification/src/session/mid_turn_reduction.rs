//! Rolling over to a smaller context in the middle of a turn.
//!
//! A spawned agent is shaken first, and a compaction that is not enough ends its
//! turn. Any other session compacts at once and goes on. Where a new context was
//! asked for, every session compacts at once.

use vstd::prelude::*;

use crate::agent::types::ContextReductionOutcome;
use crate::agent::types::ContextReductionRecord;
use crate::session::subagent_context_reduction::ContextWindowTokenStatus;

verus! {

/// Why the context rolls over.
#[derive(Clone, Copy, Debug, PartialEq, Eq, Structural)]
pub enum RollOverTrigger {
    /// The model asked for a new context.
    NewContextWindowRequested,
    /// The limit was reached.
    TokenLimitReached,
}

/// How the context was reduced.
#[derive(Clone, Copy, Debug, PartialEq, Eq, Structural)]
pub enum MidTurnReduction {
    /// A shake was enough.
    Shaken,
    /// A compaction ran, and the turn goes on.
    Compacted,
    /// A compaction ran, and a spawned agent is still at its limit.
    Insufficient,
}

/// What to do next.
#[derive(Clone, Copy, Debug, PartialEq, Eq, Structural)]
pub enum MidTurnAction {
    Shake,
    Compact,
    /// Record the reduction: it is over.
    Finish { record: ContextReductionRecord, reduction: MidTurnReduction },
}

/// A roll-over: of which session, and why.
#[derive(Clone, Copy, Debug, PartialEq, Eq, Structural)]
pub struct MidTurnRun {
    pub subagent: bool,
    pub trigger: RollOverTrigger,
    pub tokens_before: i64,
}

/// The record of a roll-over.
pub open spec fn rolled_over(
    run: MidTurnRun,
    outcome: ContextReductionOutcome,
    tokens_after: i64,
    at: i64,
) -> ContextReductionRecord {
    ContextReductionRecord {
        at,
        before_tokens: run.tokens_before,
        after_tokens: Some(tokens_after),
        outcome,
    }
}

/// How a roll-over begins.
pub open spec fn first_action(run: MidTurnRun) -> MidTurnAction {
    if run.subagent && run.trigger is TokenLimitReached {
        MidTurnAction::Shake
    } else {
        MidTurnAction::Compact
    }
}

/// What follows a shake.
pub open spec fn action_after_shake(
    run: MidTurnRun,
    status: ContextWindowTokenStatus,
    at: i64,
) -> MidTurnAction {
    if status.token_limit_reached {
        MidTurnAction::Compact
    } else {
        MidTurnAction::Finish {
            record: rolled_over(
                run,
                ContextReductionOutcome::Shaken,
                status.active_context_tokens,
                at,
            ),
            reduction: MidTurnReduction::Shaken,
        }
    }
}

/// What follows a compaction.
pub open spec fn action_after_compaction(
    run: MidTurnRun,
    status: ContextWindowTokenStatus,
    at: i64,
) -> MidTurnAction {
    MidTurnAction::Finish {
        record: rolled_over(
            run,
            if status.token_limit_reached {
                ContextReductionOutcome::Insufficient
            } else {
                ContextReductionOutcome::Compacted
            },
            status.active_context_tokens,
            at,
        ),
        reduction: if status.token_limit_reached && run.subagent {
            MidTurnReduction::Insufficient
        } else {
            MidTurnReduction::Compacted
        },
    }
}

impl MidTurnRun {
    /// How the roll-over begins.
    pub fn begin(&self) -> (action: MidTurnAction)
        ensures
            action == first_action(*self),
    {
        match self.trigger {
            RollOverTrigger::NewContextWindowRequested => MidTurnAction::Compact,
            RollOverTrigger::TokenLimitReached => if self.subagent {
                MidTurnAction::Shake
            } else {
                MidTurnAction::Compact
            },
        }
    }

    /// Takes in the size of the context after a shake.
    pub fn on_shaken(&self, status: &ContextWindowTokenStatus, at: i64) -> (action: MidTurnAction)
        ensures
            action == action_after_shake(*self, *status, at),
    {
        if status.token_limit_reached {
            return MidTurnAction::Compact;
        }
        MidTurnAction::Finish {
            record: self.record(
                ContextReductionOutcome::Shaken,
                status.active_context_tokens,
                at,
            ),
            reduction: MidTurnReduction::Shaken,
        }
    }

    /// Takes in the size of the context after a compaction.
    pub fn on_compacted(&self, status: &ContextWindowTokenStatus, at: i64) -> (action:
        MidTurnAction)
        ensures
            action == action_after_compaction(*self, *status, at),
    {
        let outcome = if status.token_limit_reached {
            ContextReductionOutcome::Insufficient
        } else {
            ContextReductionOutcome::Compacted
        };
        let reduction = if status.token_limit_reached && self.subagent {
            MidTurnReduction::Insufficient
        } else {
            MidTurnReduction::Compacted
        };
        MidTurnAction::Finish {
            record: self.record(outcome, status.active_context_tokens, at),
            reduction,
        }
    }

    fn record(&self, outcome: ContextReductionOutcome, tokens_after: i64, at: i64) -> (record:
        ContextReductionRecord)
        ensures
            record == rolled_over(*self, outcome, tokens_after, at),
    {
        ContextReductionRecord {
            at,
            before_tokens: self.tokens_before,
            after_tokens: Some(tokens_after),
            outcome,
        }
    }
}

/// A session that nobody spawned always compacts, and always goes on.
pub proof fn law_root_sessions_compact_and_go_on(
    run: MidTurnRun,
    status: ContextWindowTokenStatus,
    at: i64,
)
    requires
        !run.subagent,
    ensures
        first_action(run) is Compact,
        action_after_compaction(run, status, at) matches MidTurnAction::Finish {
            record,
            reduction,
        } && reduction is Compacted,
{
}

/// A spawned agent goes on only within its limit.
pub proof fn law_subagents_go_on_within_their_limit(
    run: MidTurnRun,
    status: ContextWindowTokenStatus,
    at: i64,
)
    requires
        run.subagent,
        status.token_limit_reached,
    ensures
        action_after_shake(run, status, at) is Compact,
        action_after_compaction(run, status, at) matches MidTurnAction::Finish {
            record,
            reduction,
        } && reduction is Insufficient,
{
}

/// Where a new context was asked for, no session is shaken first.
pub proof fn law_requested_contexts_are_compacted(run: MidTurnRun)
    requires
        run.trigger is NewContextWindowRequested,
    ensures
        first_action(run) is Compact,
{
}

/// A roll-over is recorded with the size before it, the size after it and its
/// moment; and the outcome says what was done and whether it was enough.
pub proof fn law_roll_overs_are_recorded(
    run: MidTurnRun,
    status: ContextWindowTokenStatus,
    at: i64,
)
    ensures
        status.token_limit_reached ==> action_after_shake(run, status, at) is Compact,
        !status.token_limit_reached ==> (action_after_shake(
            run,
            status,
            at,
        ) matches MidTurnAction::Finish { record, reduction } && {
            &&& reduction is Shaken
            &&& record.outcome is Shaken
            &&& record.at == at
            &&& record.before_tokens == run.tokens_before
            &&& record.after_tokens == Some(status.active_context_tokens)
        }),
        action_after_compaction(run, status, at) matches MidTurnAction::Finish {
            record,
            reduction,
        } && {
            &&& reduction is Insufficient == (status.token_limit_reached && run.subagent)
            &&& reduction is Compacted == !(status.token_limit_reached && run.subagent)
            &&& record.outcome is Insufficient == status.token_limit_reached
            &&& record.outcome is Compacted == !status.token_limit_reached
            &&& record.at == at
            &&& record.before_tokens == run.tokens_before
            &&& record.after_tokens == Some(status.active_context_tokens)
        },
{
}

/// A spawned agent that has come to its limit is shaken first.
pub proof fn law_subagents_at_their_limit_are_shaken(run: MidTurnRun)
    requires
        run.subagent,
        run.trigger is TokenLimitReached,
    ensures
        first_action(run) is Shake,
{
}

} // verus!
