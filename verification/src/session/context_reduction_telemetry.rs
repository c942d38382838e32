//! What a parent sees of an agent's context.

use vstd::prelude::*;

use crate::agent::types::AgentContextUsage;
use crate::agent::types::ContextReductionRecord;
use crate::agent::types::ContextTokenBasis;

verus! {

/// What is kept of the reductions of a session.
#[derive(Clone, Copy, Debug, PartialEq, Eq, Structural)]
pub struct ContextReductionTelemetry {
    pub last_context_reduction: Option<ContextReductionRecord>,
}

impl ContextReductionTelemetry {
    /// Nothing was reduced yet.
    pub fn new() -> (telemetry: Self)
        ensures
            telemetry.last_context_reduction is None,
    {
        ContextReductionTelemetry { last_context_reduction: None }
    }

    /// Keeps a reduction in place of the one before.
    pub fn record_context_reduction(&mut self, record: ContextReductionRecord)
        ensures
            final(self).last_context_reduction == Some(record),
    {
        self.last_context_reduction = Some(record);
    }

    /// The size of the context. It rests on what the model reported, unless the
    /// model reported nothing, or the report itself was estimated.
    pub fn context_usage(
        &self,
        active_tokens: i64,
        has_token_info: bool,
        token_usage_estimated: bool,
    ) -> (usage: AgentContextUsage)
        ensures
            usage == (AgentContextUsage {
                active_tokens,
                basis: if has_token_info && !token_usage_estimated {
                    ContextTokenBasis::Usage
                } else {
                    ContextTokenBasis::Estimate
                },
                last_reduction: self.last_context_reduction,
            }),
    {
        let basis = if has_token_info && !token_usage_estimated {
            ContextTokenBasis::Usage
        } else {
            ContextTokenBasis::Estimate
        };
        AgentContextUsage { active_tokens, basis, last_reduction: self.last_context_reduction }
    }
}

} // verus!
