//! What holds of every reduction of a spawned agent's context.

use vstd::prelude::*;
use vstd::string::*;

use crate::session::subagent_context_reduction as reduction;
use crate::session::subagent_context_reduction::AutoShakeOutcomeView;
use crate::session::subagent_context_reduction::CompactionFailureView;
use crate::session::subagent_context_reduction::ContextWindowTokenStatus;
use crate::session::subagent_context_reduction::EffectView;
use crate::session::subagent_context_reduction::OutcomeView;
use crate::session::subagent_context_reduction::ReductionFacts;
use crate::session::subagent_context_reduction::ReductionRun;
use crate::session::subagent_context_reduction::ShakeActionView;
use crate::session::subagent_context_reduction::SuppressedContextReduction;
use crate::session::subagent_context_reduction::SuppressionDecision;
use crate::shake::auto::AutoShakeSettings;

verus! {

/// An effect records a reduction.
pub open spec fn records_attempt(effect: EffectView) -> bool {
    effect is RecordAttempt
}

/// Every compaction is recorded once, with the sizes that were measured before
/// and after it.
pub proof fn law_compactions_are_recorded_once(
    run: ReductionRun,
    facts: ReductionFacts,
    after: ContextWindowTokenStatus,
    failure: Option<CompactionFailureView>,
)
    ensures
        ({
            let effects = reduction::compaction_end(run, facts, after, failure).0;
            &&& effects.len() >= 2
            &&& effects[1] matches EffectView::RecordAttempt { attempt, suppression }
                && attempt.before_tokens == facts.before.active_context_tokens
                && attempt.after_tokens == after.active_context_tokens && attempt.compact is Some
            &&& forall|i: int|
                0 <= i < effects.len() && i != 1 ==> !records_attempt(#[trigger] effects[i])
        }),
{
}

/// A shake that was enough is recorded where it was tried, and a shake that was
/// not tried is not.
pub proof fn law_shakes_are_recorded_where_tried(run: ReductionRun, facts: ReductionFacts)
    requires
        !reduction::compaction_needed(
            run.boundary.explicit_context_reset,
            facts.after_shake.token_limit_reached,
            facts.after_shake.active_context_tokens as int,
            run.policy,
        ),
    ensures
        facts.shake.attempted == exists|i: int|
            0 <= i < reduction::shaken_effects(run, facts).len() && records_attempt(
                #[trigger] reduction::shaken_effects(run, facts)[i],
            ),
{
    let effects = reduction::shaken_effects(run, facts);
    if facts.shake.attempted {
        assert(records_attempt(effects[effects.len() - 1]));
    }
}

/// A new context that was asked for always comes to a compaction: nothing
/// suppresses it, and no shake takes its place.
pub proof fn law_explicit_resets_compact(
    run: ReductionRun,
    before: ContextWindowTokenStatus,
    after_shake: ContextWindowTokenStatus,
    suppressed: Option<SuppressedContextReduction>,
    auto_shake_enabled: bool,
)
    requires
        run.boundary.explicit_context_reset,
    ensures
        reduction::is_forced(run, before),
        !(reduction::shake_action(run, before, suppressed, auto_shake_enabled) is Finish),
        reduction::compaction_needed(
            run.boundary.explicit_context_reset,
            after_shake.token_limit_reached,
            after_shake.active_context_tokens as int,
            run.policy,
        ),
{
}

/// A context that is within the model's limit and below the threshold, or that
/// has no threshold, is not compacted.
pub proof fn law_small_contexts_are_not_compacted(
    run: ReductionRun,
    after_shake: ContextWindowTokenStatus,
)
    requires
        !run.boundary.explicit_context_reset,
        !after_shake.token_limit_reached,
        !run.policy.enabled || after_shake.active_context_tokens < run.policy.threshold_tokens,
    ensures
        !reduction::compaction_needed(
            run.boundary.explicit_context_reset,
            after_shake.token_limit_reached,
            after_shake.active_context_tokens as int,
            run.policy,
        ),
{
}

/// A policy that is in force and forbids shakes is kept: the context is not
/// shaken, whatever the settings for automatic shakes say.
pub proof fn law_off_never_shakes(
    run: ReductionRun,
    before: ContextWindowTokenStatus,
    suppressed: Option<SuppressedContextReduction>,
    auto_shake_enabled: bool,
)
    requires
        run.policy.enabled,
        run.policy.shake is Off,
    ensures
        ({
            let action = reduction::shake_action(run, before, suppressed, auto_shake_enabled);
            action is Finish || action is Skip
        }),
{
}

/// A policy that is not in force changes nothing: the settings for automatic
/// shakes decide, and no threshold leads to a compaction.
pub proof fn law_disabled_policies_change_nothing(
    run: ReductionRun,
    before: ContextWindowTokenStatus,
    suppressed: Option<SuppressedContextReduction>,
    auto_shake_enabled: bool,
)
    requires
        !run.policy.enabled,
    ensures
        reduction::shake_action(run, before, suppressed, auto_shake_enabled)
            == ShakeActionView::AutoShake,
        reduction::measured_effects(run, before).len() == 1,
{
}

/// An agent that goes on after a failure does not try again with the next
/// request, but only once its context has grown by the retry amount, or under
/// another policy, or when it is forced to.
pub proof fn law_failures_wait_for_growth(
    run: ReductionRun,
    facts: ReductionFacts,
    after: ContextWindowTokenStatus,
    failure: Option<CompactionFailureView>,
    next: ReductionRun,
    status: ContextWindowTokenStatus,
    auto_shake_enabled: bool,
)
    requires
        reduction::compaction_end(run, facts, after, failure).1 == OutcomeView::NoAction,
        next.policy.enabled,
        reduction::threshold_reached(next, status),
        !reduction::is_forced(next, status),
    ensures
        reduction::compaction_end(run, facts, after, failure).0[1] matches
            EffectView::RecordAttempt { attempt, suppression } && suppression is Some && ({
            let action = reduction::shake_action(next, status, suppression, auto_shake_enabled);
            action is Finish == (next.revision == run.revision && status.active_context_tokens
                - after.active_context_tokens < reduction::CONTEXT_GROWTH_RETRY_TOKENS)
        }),
{
}

/// A policy that stops after a failure never goes on above the threshold, and
/// leaves nothing suppressed. One that goes on never stops.
pub proof fn law_failure_policies_are_kept(
    run: ReductionRun,
    facts: ReductionFacts,
    after: ContextWindowTokenStatus,
    failure: Option<CompactionFailureView>,
)
    ensures
        ({
            let end = reduction::compaction_end(run, facts, after, failure);
            &&& run.policy.on_failure is Stop ==> {
                &&& !(end.1 is NoAction)
                &&& end.0.len() == 2
                &&& end.0[1] matches EffectView::RecordAttempt { attempt, suppression }
                    && suppression is None
            }
            &&& run.policy.on_failure is Continue ==> !(end.1 is Stop)
            &&& end.1 is NoAction ==> end.0.len() == 3 && end.0[2] is NotifyParentOnce
        }),
{
}

/// A reduction ends well only where the context is within the model's limit and
/// below the threshold.
pub proof fn law_compacted_means_small(
    run: ReductionRun,
    facts: ReductionFacts,
    after: ContextWindowTokenStatus,
    failure: Option<CompactionFailureView>,
)
    ensures
        (reduction::compaction_end(run, facts, after, failure).1 is Compacted) == (failure is None
            && !after.token_limit_reached && !reduction::threshold_reached(run, after)),
        (reduction::compaction_end(run, facts, after, failure).1 is ContextWindowExceeded) == (
        failure is None && after.token_limit_reached),
{
}

/// A context that is back below its threshold forgets an earlier failure, and
/// so does one under another policy.
pub proof fn law_recovery_forgets_failures(
    run: ReductionRun,
    before: ContextWindowTokenStatus,
    suppression: SuppressedContextReduction,
)
    requires
        run.policy.enabled,
    ensures
        reduction::below_threshold(run, before) ==> {
            &&& reduction::measured_effects(run, before)[1] is ClearSuppressed
            &&& reduction::measured_effects(run, before)[2] is ClearFailureEpisode
        },
        suppression.policy_revision != run.revision ==> reduction::suppression_effects(
            reduction::known_failure(run, before, Some(suppression)),
        ) == seq![EffectView::ClearSuppressed, EffectView::ClearFailureEpisode],
        reduction::known_failure(run, before, Some(suppression)) == Some(
            SuppressionDecision::Suppress,
        ) ==> reduction::suppression_effects(
            reduction::known_failure(run, before, Some(suppression)),
        ).len() == 0,
{
}

/// A context that is still at the threshold of a policy in force, or above it,
/// is compacted, whatever else holds: no shake is recorded as having been
/// enough. So is every larger one.
pub proof fn law_full_contexts_are_compacted(
    run: ReductionRun,
    facts: ReductionFacts,
    explicit_context_reset: bool,
    model_token_limit_reached: bool,
    active_context_tokens: int,
)
    requires
        run.policy.enabled,
        active_context_tokens >= run.policy.threshold_tokens,
        facts.after_shake.active_context_tokens >= run.policy.threshold_tokens,
    ensures
        reduction::compaction_needed(
            explicit_context_reset,
            model_token_limit_reached,
            active_context_tokens,
            run.policy,
        ),
        reduction::shaken_effects(run, facts).len() == 1,
        reduction::shaken_effects(run, facts)[0] is RecordUsage,
{
}

/// A context that the model has no room for is compacted, and so is one that is
/// to be new, whether or not a policy is in force.
pub proof fn law_forced_contexts_are_compacted(
    run: ReductionRun,
    facts: ReductionFacts,
    active_context_tokens: int,
)
    requires
        run.boundary.explicit_context_reset || facts.after_shake.token_limit_reached,
    ensures
        reduction::compaction_needed(
            run.boundary.explicit_context_reset,
            facts.after_shake.token_limit_reached,
            active_context_tokens,
            run.policy,
        ),
        forall|i: int|
            0 <= i < reduction::shaken_effects(run, facts).len() ==> !records_attempt(
                #[trigger] reduction::shaken_effects(run, facts)[i],
            ),
{
}

/// The size at which a compaction starts is the threshold itself: one token less
/// needs none, unless it is forced.
pub proof fn law_compaction_starts_at_the_threshold(run: ReductionRun)
    requires
        run.policy.enabled,
    ensures
        reduction::compaction_needed(
            false,
            false,
            run.policy.threshold_tokens as int,
            run.policy,
        ),
        !reduction::compaction_needed(
            false,
            false,
            run.policy.threshold_tokens - 1,
            run.policy,
        ),
{
}

/// Each measurement is recorded with what was measured and the threshold. Only a
/// context below the threshold of a policy in force clears an earlier failure.
pub proof fn law_measurements_are_recorded(run: ReductionRun, status: ContextWindowTokenStatus)
    ensures
        ({
            let effects = reduction::measured_effects(run, status);
            let below = run.policy.enabled && status.active_context_tokens
                < run.policy.threshold_tokens;
            &&& effects[0] matches EffectView::RecordUsage { status: told, threshold_tokens }
                && told == status && threshold_tokens == run.policy.threshold_tokens
            &&& below ==> effects.len() == 3 && effects[1] is ClearSuppressed
                && effects[2] is ClearFailureEpisode
            &&& !below ==> effects.len() == 1
        }),
{
}

/// A shake that was tried, and after which the context is within the model's
/// limit and below the threshold, is recorded last: with both sizes, without a
/// compaction, and with the reason that it was done for.
pub proof fn law_sufficient_shakes_are_recorded(run: ReductionRun, facts: ReductionFacts)
    requires
        facts.shake.attempted,
        !run.boundary.explicit_context_reset,
        !facts.after_shake.token_limit_reached,
        !run.policy.enabled || facts.after_shake.active_context_tokens
            < run.policy.threshold_tokens,
    ensures
        ({
            let effects = reduction::shaken_effects(run, facts);
            let full = run.policy.enabled && facts.before.active_context_tokens
                >= run.policy.threshold_tokens;
            let limited = run.boundary.forced_model_rollover || facts.before.token_limit_reached;
            &&& effects.last() matches EffectView::RecordAttempt { attempt, suppression } && {
                &&& suppression is None
                &&& attempt.at == facts.at
                &&& attempt.before_tokens == facts.before.active_context_tokens
                &&& attempt.after_tokens == facts.after_shake.active_context_tokens
                &&& attempt.compact is None
                &&& attempt.outcome == "shaken"@
                &&& limited ==> attempt.reason == "model_context_limit"@
                &&& !limited && full ==> attempt.reason == "child_context_threshold"@
                &&& !limited && !full ==> attempt.reason == "configured_auto_shake"@
                &&& attempt.shake matches Some(stage) && stage.reason == facts.shake.skipped_reason
            }
        }),
{
}

/// What is said of a shake: it was applied just where it was tried and made the
/// context smaller; one that could not save what it took out says so; and only
/// one that was neither tried nor failed to save anything was skipped.
pub proof fn law_stages_tell_what_happened(
    shake: AutoShakeOutcomeView,
    before_tokens: int,
    after_tokens: int,
)
    ensures
        ({
            let stage = reduction::shake_stage_view(shake, before_tokens, after_tokens);
            &&& stage.reason == shake.skipped_reason
            &&& shake.attempted && after_tokens < before_tokens ==> stage.outcome == "applied"@
            &&& stage.outcome == "applied"@ ==> shake.attempted && after_tokens < before_tokens
            &&& shake.artifact_save_failures > 0 && after_tokens >= before_tokens ==> stage.outcome
                == "artifact_save_failed"@
            &&& shake.artifact_save_failures > 0 && !shake.attempted ==> stage.outcome
                == "artifact_save_failed"@
            &&& shake.artifact_save_failures == 0 && shake.attempted && after_tokens
                >= before_tokens ==> stage.outcome == "insufficient"@
            &&& shake.artifact_save_failures == 0 && !shake.attempted ==> stage.outcome
                == "skipped"@
        }),
{
    reveal_strlit("applied");
    reveal_strlit("artifact_save_failed");
    reveal_strlit("insufficient");
    reveal_strlit("skipped");
    assert("applied"@.len() == 7);
    assert("artifact_save_failed"@.len() == 20);
    assert("insufficient"@.len() == 12);
    assert("skipped"@[0] != "applied"@[0]);
}

/// A run is forced where a new context was asked for or the model has no room.
pub open spec fn must_reduce(run: ReductionRun, before: ContextWindowTokenStatus) -> bool {
    run.boundary.explicit_context_reset || run.boundary.forced_model_rollover
        || before.token_limit_reached
}

/// How a context is shaken where no earlier failure is known, under each setting
/// of a policy in force. `on` shakes from the threshold on and where it must, and
/// otherwise not at all; `inherit` then shakes only where automatic shakes are
/// enabled, and below the threshold leaves it to them; `off` never does.
pub proof fn law_shakes_follow_the_policy(
    run: ReductionRun,
    before: ContextWindowTokenStatus,
    auto_shake_enabled: bool,
)
    requires
        run.policy.enabled,
    ensures
        ({
            let action = reduction::shake_action(run, before, None, auto_shake_enabled);
            let due = before.active_context_tokens >= run.policy.threshold_tokens || must_reduce(
                run,
                before,
            );
            &&& run.policy.shake is On && due ==> action is Forced
            &&& run.policy.shake is On && !due ==> action == ShakeActionView::Skip(
                reduction::left_out("below_child_threshold"@),
            )
            &&& run.policy.shake is Inherit && !due ==> action is AutoShake
            &&& run.policy.shake is Inherit && due && auto_shake_enabled ==> action is Forced
            &&& run.policy.shake is Inherit && due && !auto_shake_enabled ==> action
                == ShakeActionView::Skip(reduction::left_out("auto_shake_disabled"@))
            &&& run.policy.shake is Off ==> action == ShakeActionView::Skip(
                reduction::left_out("disabled_by_policy"@),
            )
        }),
{
}

/// An earlier failure ends a reduction before its shake just where nothing
/// changed since: the policy is the same and in force, the context is still at
/// the threshold, it grew by less than the retry amount, and nothing forces the
/// reduction. Otherwise the context is shaken as if nothing had failed.
pub proof fn law_only_unchanged_failures_suppress(
    run: ReductionRun,
    before: ContextWindowTokenStatus,
    failed: SuppressedContextReduction,
    auto_shake_enabled: bool,
)
    ensures
        ({
            let action = reduction::shake_action(run, before, Some(failed), auto_shake_enabled);
            let unchanged = run.policy.enabled && failed.policy_revision == run.revision
                && before.active_context_tokens >= run.policy.threshold_tokens
                && before.active_context_tokens < failed.after_tokens + 4_000 && !must_reduce(
                run,
                before,
            );
            &&& unchanged ==> action is Finish
            &&& !unchanged ==> action == reduction::shake_action(
                run,
                before,
                None,
                auto_shake_enabled,
            )
        }),
{
}

/// A shake by force protects less and asks for less in its second pass than in
/// its first: half as many tokens, and the same share of the context.
pub proof fn law_second_passes_are_stricter(
    settings: AutoShakeSettings,
    tokens: i64,
    tokens_left: i64,
)
    requires
        settings.min_savings_tokens >= 0,
    ensures
        ({
            let first = reduction::first_pass(settings, tokens);
            let second = reduction::second_pass(settings, tokens_left);
            &&& first.protect_tokens == 16_000
            &&& second.protect_tokens == 4_000
            &&& first.min_savings_tokens == settings.min_savings_tokens
            &&& 2 * second.min_savings_tokens <= first.min_savings_tokens <= 2
                * second.min_savings_tokens + 1
            &&& first.min_elidable_percent == settings.min_elidable_percent
            &&& second.min_elidable_percent == settings.min_elidable_percent
            &&& first.active_context_tokens == tokens
            &&& second.active_context_tokens == tokens_left
            &&& first.trigger is Automatic
            &&& second.trigger is AutomaticEscalated
        }),
{
}

/// A compaction that failed ends the turn where it was interrupted, where the
/// model has no room, and where a new context was asked for. Otherwise the policy
/// decides. Either way the failure is recorded, with what went wrong.
pub proof fn law_failed_compactions_end_as_the_policy_says(
    run: ReductionRun,
    facts: ReductionFacts,
    after: ContextWindowTokenStatus,
    failure: CompactionFailureView,
)
    ensures
        ({
            let end = reduction::compaction_end(run, facts, after, Some(failure));
            let fatal = failure.interrupted || facts.after_shake.token_limit_reached
                || run.boundary.explicit_context_reset;
            &&& fatal ==> end.1 is CompactionError && end.0.len() == 2
            &&& !fatal && run.policy.on_failure is Stop ==> end.1 == OutcomeView::Stop(
                failure.message,
            )
            &&& !fatal && run.policy.on_failure is Continue ==> end.1 is NoAction
            &&& end.0[1] matches EffectView::RecordAttempt { attempt, suppression } && {
                &&& attempt.outcome == "failed"@
                &&& attempt.compact matches Some(stage) && stage.outcome == "failed"@
                    && stage.reason == Some(failure.message)
                &&& run.policy.on_failure is Continue ==> suppression == Some(
                    SuppressedContextReduction {
                        after_tokens: after.active_context_tokens,
                        policy_revision: run.revision,
                    },
                )
                &&& run.policy.on_failure is Stop ==> suppression is None
            }
        }),
{
}

/// A compaction that went through is judged by the size that it left: beyond the
/// model's limit, at the threshold of a policy in force, or small enough. Only
/// one that stays at the threshold can suppress the next.
pub proof fn law_compactions_are_judged_by_size(
    run: ReductionRun,
    facts: ReductionFacts,
    after: ContextWindowTokenStatus,
)
    ensures
        ({
            let end = reduction::compaction_end(run, facts, after, None);
            let full = run.policy.enabled && after.active_context_tokens
                >= run.policy.threshold_tokens;
            &&& after.token_limit_reached ==> end.1 is ContextWindowExceeded
            &&& !after.token_limit_reached && !full ==> end.1 is Compacted
            &&& !after.token_limit_reached && full && run.policy.on_failure is Stop ==> end.1 is Stop
            &&& !after.token_limit_reached && full && run.policy.on_failure is Continue
                ==> end.1 is NoAction
            &&& end.0[0] matches EffectView::RecordUsage { status, threshold_tokens } && status
                == after && threshold_tokens == run.policy.threshold_tokens
            &&& end.0[1] matches EffectView::RecordAttempt { attempt, suppression } && {
                &&& attempt.at == facts.at
                &&& attempt.outcome == (if after.token_limit_reached {
                    "model_limit_still_reached"@
                } else if full {
                    "threshold_still_reached"@
                } else {
                    "compacted"@
                })
                &&& attempt.compact matches Some(stage) && stage.reason is None && stage.outcome
                    == (if !after.token_limit_reached && full {
                    "applied_but_insufficient"@
                } else {
                    "applied"@
                })
                &&& suppression is Some == (!after.token_limit_reached && full
                    && run.policy.on_failure is Continue)
            }
        }),
{
}

/// Every compaction is recorded with its reason: a new context that was asked
/// for comes before the model's limit, and the limit before the threshold.
pub proof fn law_compactions_have_a_reason(
    run: ReductionRun,
    facts: ReductionFacts,
    after: ContextWindowTokenStatus,
    failure: Option<CompactionFailureView>,
)
    ensures
        ({
            let end = reduction::compaction_end(run, facts, after, failure);
            let limited = run.boundary.forced_model_rollover || facts.before.token_limit_reached;
            &&& end.0[1] matches EffectView::RecordAttempt { attempt, suppression } && {
                &&& run.boundary.explicit_context_reset ==> attempt.reason
                    == "explicit_context_reset"@
                &&& !run.boundary.explicit_context_reset && limited ==> attempt.reason
                    == "model_context_limit"@
                &&& !run.boundary.explicit_context_reset && !limited ==> attempt.reason
                    == "child_context_threshold"@
            }
        }),
{
}

} // verus!
