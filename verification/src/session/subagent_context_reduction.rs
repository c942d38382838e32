//! Keeping the context of a spawned agent below its threshold.
//!
//! A reduction runs between two requests to the model. Each function here takes
//! what was measured or done, and says what is to be recorded and done next:
//! measure, look for a suppressed retry, shake, measure, compact, measure.

use vstd::prelude::*;
use vstd::string::*;

use crate::agent::context_policy::ResolvedSubagentContextPolicy;
use crate::agent::types::ContextTokenBasis;
use crate::config::SubagentContextReductionOnFailure;
use crate::config::SubagentContextReductionShake;
use crate::items;
use crate::shake;
use crate::shake::auto::AutoShakeConfig;
use crate::shake::auto::AutoShakeSettings;
use crate::text;

verus! {

/// How many more tokens there have to be before a failed reduction is tried
/// again.
pub const CONTEXT_GROWTH_RETRY_TOKENS: i64 = 4_000;

/// When in a turn a reduction runs.
#[derive(Clone, Copy, Debug, PartialEq, Eq, Structural)]
pub enum CompactionPhase {
    PreTurn,
    MidTurn,
    PostTurn,
    /// Outside of a turn.
    Standalone,
}

/// What a reduction runs for.
#[derive(Clone, Copy, Debug, PartialEq, Eq, Structural)]
pub struct ReductionBoundary {
    pub phase: CompactionPhase,
    /// A new context was asked for.
    pub explicit_context_reset: bool,
    /// The model's limit was reached before.
    pub forced_model_rollover: bool,
}

/// How full the context is.
#[derive(Clone, Copy, Debug, PartialEq, Eq, Structural)]
pub struct ContextWindowTokenStatus {
    pub active_context_tokens: i64,
    pub active_context_token_basis: ContextTokenBasis,
    /// The limit of the model, or the one for compaction, is reached.
    pub token_limit_reached: bool,
    pub full_context_window_limit: Option<i64>,
    pub auto_compact_scope_limit: Option<i64>,
}

/// A failed reduction that is not tried again for now.
#[derive(Clone, Copy, Debug, PartialEq, Eq, Structural)]
pub struct SuppressedContextReduction {
    pub after_tokens: i64,
    pub policy_revision: u64,
}

/// What came of a shake.
#[derive(Debug, PartialEq, Eq)]
pub struct AutoShakeOutcome {
    pub attempted: bool,
    pub artifact_save_failures: usize,
    pub skipped_reason: Option<String>,
}

/// The value of an [`AutoShakeOutcome`].
pub struct AutoShakeOutcomeView {
    pub attempted: bool,
    pub artifact_save_failures: nat,
    pub skipped_reason: Option<Seq<char>>,
}

impl DeepView for AutoShakeOutcome {
    type V = AutoShakeOutcomeView;

    open spec fn deep_view(&self) -> AutoShakeOutcomeView {
        AutoShakeOutcomeView {
            attempted: self.attempted,
            artifact_save_failures: self.artifact_save_failures as nat,
            skipped_reason: self.skipped_reason.deep_view(),
        }
    }
}

/// A shake that was left out.
pub open spec fn left_out(reason: Seq<char>) -> AutoShakeOutcomeView {
    AutoShakeOutcomeView {
        attempted: false,
        artifact_save_failures: 0,
        skipped_reason: Some(reason),
    }
}

/// A shake that was left out.
fn skipped(reason: &str) -> (outcome: AutoShakeOutcome)
    ensures
        outcome.deep_view() == left_out(reason@),
{
    AutoShakeOutcome {
        attempted: false,
        artifact_save_failures: 0,
        skipped_reason: Some(reason.to_owned()),
    }
}

/// One part of a reduction, for the record.
#[derive(Debug, PartialEq, Eq)]
pub struct AgentContextReductionStage {
    pub outcome: String,
    pub reason: Option<String>,
}

/// The value of an [`AgentContextReductionStage`].
pub struct StageView {
    pub outcome: Seq<char>,
    pub reason: Option<Seq<char>>,
}

impl DeepView for AgentContextReductionStage {
    type V = StageView;

    open spec fn deep_view(&self) -> StageView {
        StageView { outcome: self.outcome@, reason: self.reason.deep_view() }
    }
}

/// A reduction, for the record.
#[derive(Debug, PartialEq, Eq)]
pub struct AgentContextReductionAttempt {
    /// Unix milliseconds.
    pub at: i64,
    pub reason: String,
    pub before_tokens: i64,
    pub after_tokens: i64,
    pub shake: Option<AgentContextReductionStage>,
    pub compact: Option<AgentContextReductionStage>,
    pub outcome: String,
}

/// The value of an [`AgentContextReductionAttempt`].
pub struct AttemptView {
    pub at: int,
    pub reason: Seq<char>,
    pub before_tokens: int,
    pub after_tokens: int,
    pub shake: Option<StageView>,
    pub compact: Option<StageView>,
    pub outcome: Seq<char>,
}

impl DeepView for AgentContextReductionAttempt {
    type V = AttemptView;

    open spec fn deep_view(&self) -> AttemptView {
        AttemptView {
            at: self.at as int,
            reason: self.reason@,
            before_tokens: self.before_tokens as int,
            after_tokens: self.after_tokens as int,
            shake: self.shake.deep_view(),
            compact: self.compact.deep_view(),
            outcome: self.outcome@,
        }
    }
}

/// What is to be recorded or told, in this order.
#[derive(Debug, PartialEq, Eq)]
pub enum ReductionEffect {
    /// The policy of this revision is in force.
    MarkPolicyApplied { revision: u64 },
    RecordUsage { status: ContextWindowTokenStatus, threshold_tokens: i64 },
    ClearSuppressed,
    ClearFailureEpisode,
    RecordAttempt {
        attempt: AgentContextReductionAttempt,
        suppression: Option<SuppressedContextReduction>,
    },
    /// Tell the parent, unless it was told for this revision.
    NotifyParentOnce { revision: u64, message: String },
}

/// The value of a [`ReductionEffect`].
pub enum EffectView {
    MarkPolicyApplied { revision: u64 },
    RecordUsage { status: ContextWindowTokenStatus, threshold_tokens: i64 },
    ClearSuppressed,
    ClearFailureEpisode,
    RecordAttempt { attempt: AttemptView, suppression: Option<SuppressedContextReduction> },
    NotifyParentOnce { notified_revision: u64, message: Seq<char> },
}

impl DeepView for ReductionEffect {
    type V = EffectView;

    open spec fn deep_view(&self) -> EffectView {
        match *self {
            ReductionEffect::MarkPolicyApplied { revision } => EffectView::MarkPolicyApplied {
                revision,
            },
            ReductionEffect::RecordUsage { status, threshold_tokens } => EffectView::RecordUsage {
                status,
                threshold_tokens,
            },
            ReductionEffect::ClearSuppressed => EffectView::ClearSuppressed,
            ReductionEffect::ClearFailureEpisode => EffectView::ClearFailureEpisode,
            ReductionEffect::RecordAttempt { attempt, suppression } => EffectView::RecordAttempt {
                attempt: attempt.deep_view(),
                suppression,
            },
            ReductionEffect::NotifyParentOnce { revision, message } =>
                EffectView::NotifyParentOnce { notified_revision: revision, message: message@ },
        }
    }
}

/// How a reduction ends.
#[derive(Debug, PartialEq, Eq)]
pub enum BoundaryOutcome {
    NoAction,
    Compacted,
    /// The agent stops, with this message.
    Stop(String),
    /// The turn fails with the error of the compaction.
    CompactionError,
    /// The turn fails: the model's limit is still reached.
    ContextWindowExceeded,
}

/// The value of a [`BoundaryOutcome`].
pub enum OutcomeView {
    NoAction,
    Compacted,
    Stop(Seq<char>),
    CompactionError,
    ContextWindowExceeded,
}

impl DeepView for BoundaryOutcome {
    type V = OutcomeView;

    open spec fn deep_view(&self) -> OutcomeView {
        match *self {
            BoundaryOutcome::NoAction => OutcomeView::NoAction,
            BoundaryOutcome::Compacted => OutcomeView::Compacted,
            BoundaryOutcome::Stop(message) => OutcomeView::Stop(message@),
            BoundaryOutcome::CompactionError => OutcomeView::CompactionError,
            BoundaryOutcome::ContextWindowExceeded => OutcomeView::ContextWindowExceeded,
        }
    }
}

/// A reduction: for which agent, and what for.
#[derive(Clone, Copy, Debug, PartialEq, Eq, Structural)]
pub struct ReductionRun {
    pub policy: ResolvedSubagentContextPolicy,
    pub revision: u64,
    pub boundary: ReductionBoundary,
}

/// The context has reached the agent's threshold.
pub open spec fn threshold_reached(run: ReductionRun, status: ContextWindowTokenStatus) -> bool {
    run.policy.enabled && status.active_context_tokens >= run.policy.threshold_tokens
}

/// The context is below the agent's threshold.
pub open spec fn below_threshold(run: ReductionRun, status: ContextWindowTokenStatus) -> bool {
    run.policy.enabled && status.active_context_tokens < run.policy.threshold_tokens
}

/// A reduction is needed whatever the threshold says.
pub open spec fn is_forced(run: ReductionRun, before: ContextWindowTokenStatus) -> bool {
    run.boundary.explicit_context_reset || run.boundary.forced_model_rollover
        || before.token_limit_reached
}

/// The settings for automatic shakes decide, as they do for any session.
pub open spec fn shakes_as_usual(run: ReductionRun, before: ContextWindowTokenStatus) -> bool {
    !run.policy.enabled || (run.policy.shake is Inherit && !threshold_reached(run, before)
        && !is_forced(run, before))
}

/// What a reduction is for.
pub open spec fn reduction_reason(run: ReductionRun, before: ContextWindowTokenStatus) -> Seq<
    char,
> {
    if run.boundary.explicit_context_reset {
        "explicit_context_reset"@
    } else if run.boundary.forced_model_rollover || before.token_limit_reached {
        "model_context_limit"@
    } else {
        "child_context_threshold"@
    }
}

/// What is recorded of a measurement. An agent that is back below its threshold
/// starts anew.
pub open spec fn measured_effects(run: ReductionRun, status: ContextWindowTokenStatus) -> Seq<
    EffectView,
> {
    let usage = seq![
        EffectView::RecordUsage { status, threshold_tokens: run.policy.threshold_tokens },
    ];
    if below_threshold(run, status) {
        usage + seq![EffectView::ClearSuppressed, EffectView::ClearFailureEpisode]
    } else {
        usage
    }
}

/// What is known of an earlier failure.
#[derive(Clone, Copy, Debug, PartialEq, Eq, Structural)]
pub enum SuppressionDecision {
    /// Not tried again yet.
    Suppress,
    /// Enough was added since.
    Growth,
    /// The context is back below the threshold.
    Recovered,
    /// Another policy is in force.
    PolicyChanged,
}

/// What is known of an earlier failure.
pub open spec fn suppression_state(
    suppression: SuppressedContextReduction,
    revision: u64,
    active_tokens: int,
    threshold_tokens: int,
) -> SuppressionDecision {
    if active_tokens < threshold_tokens {
        SuppressionDecision::Recovered
    } else if suppression.policy_revision != revision {
        SuppressionDecision::PolicyChanged
    } else if active_tokens - suppression.after_tokens >= CONTEXT_GROWTH_RETRY_TOKENS {
        SuppressionDecision::Growth
    } else {
        SuppressionDecision::Suppress
    }
}

/// What is known of an earlier failure.
pub fn suppression_decision(
    suppression: &SuppressedContextReduction,
    revision: u64,
    active_tokens: i64,
    threshold_tokens: i64,
) -> (decision: SuppressionDecision)
    ensures
        decision == suppression_state(
            *suppression,
            revision,
            active_tokens as int,
            threshold_tokens as int,
        ),
{
    if active_tokens < threshold_tokens {
        SuppressionDecision::Recovered
    } else if suppression.policy_revision != revision {
        SuppressionDecision::PolicyChanged
    } else if active_tokens as i128 - suppression.after_tokens as i128
        >= CONTEXT_GROWTH_RETRY_TOKENS as i128 {
        SuppressionDecision::Growth
    } else {
        SuppressionDecision::Suppress
    }
}

/// A compaction is needed after the shake.
pub open spec fn compaction_needed(
    explicit_context_reset: bool,
    model_token_limit_reached: bool,
    active_context_tokens: int,
    policy: ResolvedSubagentContextPolicy,
) -> bool {
    explicit_context_reset || model_token_limit_reached || (policy.enabled && active_context_tokens
        >= policy.threshold_tokens)
}

/// Whether a compaction is needed after the shake.
pub fn should_compact_after_shake(
    explicit_context_reset: bool,
    model_token_limit_reached: bool,
    active_context_tokens: i64,
    policy: &ResolvedSubagentContextPolicy,
) -> (needed: bool)
    ensures
        needed == compaction_needed(
            explicit_context_reset,
            model_token_limit_reached,
            active_context_tokens as int,
            *policy,
        ),
{
    explicit_context_reset || model_token_limit_reached || (policy.enabled && active_context_tokens
        >= policy.threshold_tokens)
}

/// What is to be done after the first measurement.
#[derive(Clone, Copy, Debug, PartialEq, Eq, Structural)]
pub enum MeasuredAction {
    /// Nothing: the reduction is over.
    Finish,
    /// Find out about an earlier failure, and go on with
    /// [`ReductionRun::plan_shake`].
    CheckSuppression,
}

/// How the context is shaken.
#[derive(Debug, PartialEq, Eq)]
pub enum ShakeAction {
    /// Not at all: the reduction is over.
    Finish,
    /// As the settings for automatic shakes say.
    AutoShake,
    /// By force, as [`forced_shake_pass`] says.
    Forced,
    /// Not at all, for the reason in the outcome. The reduction goes on.
    Skip(AutoShakeOutcome),
}

/// The value of a [`ShakeAction`].
pub enum ShakeActionView {
    Finish,
    AutoShake,
    Forced,
    Skip(AutoShakeOutcomeView),
}

impl DeepView for ShakeAction {
    type V = ShakeActionView;

    open spec fn deep_view(&self) -> ShakeActionView {
        match *self {
            ShakeAction::Finish => ShakeActionView::Finish,
            ShakeAction::AutoShake => ShakeActionView::AutoShake,
            ShakeAction::Forced => ShakeActionView::Forced,
            ShakeAction::Skip(outcome) => ShakeActionView::Skip(outcome.deep_view()),
        }
    }
}

/// What becomes of the record of an earlier failure.
pub open spec fn suppression_effects(decision: Option<SuppressionDecision>) -> Seq<EffectView> {
    match decision {
        Some(SuppressionDecision::Recovered) | Some(SuppressionDecision::PolicyChanged) => seq![
            EffectView::ClearSuppressed,
            EffectView::ClearFailureEpisode,
        ],
        Some(SuppressionDecision::Growth) => seq![EffectView::ClearSuppressed],
        _ => Seq::empty(),
    }
}

/// What is known of an earlier failure, if there was one.
pub open spec fn known_failure(
    run: ReductionRun,
    before: ContextWindowTokenStatus,
    suppressed: Option<SuppressedContextReduction>,
) -> Option<SuppressionDecision> {
    match suppressed {
        Some(suppression) => Some(
            suppression_state(
                suppression,
                run.revision,
                before.active_context_tokens as int,
                run.policy.threshold_tokens as int,
            ),
        ),
        None => None,
    }
}

/// How the context is shaken.
pub open spec fn shake_action(
    run: ReductionRun,
    before: ContextWindowTokenStatus,
    suppressed: Option<SuppressedContextReduction>,
    auto_shake_enabled: bool,
) -> ShakeActionView {
    let due = threshold_reached(run, before) || is_forced(run, before);
    if known_failure(run, before, suppressed) == Some(SuppressionDecision::Suppress)
        && threshold_reached(run, before) && !is_forced(run, before) {
        ShakeActionView::Finish
    } else if shakes_as_usual(run, before) {
        ShakeActionView::AutoShake
    } else if run.policy.shake is Off {
        ShakeActionView::Skip(left_out("disabled_by_policy"@))
    } else if !due {
        ShakeActionView::Skip(left_out("below_child_threshold"@))
    } else if run.policy.shake is On || auto_shake_enabled {
        ShakeActionView::Forced
    } else {
        ShakeActionView::Skip(left_out("auto_shake_disabled"@))
    }
}

/// What a shake did, for the record.
pub open spec fn shake_stage_view(
    shake: AutoShakeOutcomeView,
    before_tokens: int,
    after_tokens: int,
) -> StageView {
    StageView {
        outcome: if shake.attempted && after_tokens < before_tokens {
            "applied"@
        } else if shake.artifact_save_failures > 0 {
            "artifact_save_failed"@
        } else if shake.attempted {
            "insufficient"@
        } else {
            "skipped"@
        },
        reason: shake.skipped_reason,
    }
}

/// What a shake did, for the record.
pub fn shake_stage(shake: &AutoShakeOutcome, before_tokens: i64, after_tokens: i64) -> (stage:
    AgentContextReductionStage)
    ensures
        stage.deep_view() == shake_stage_view(
            shake.deep_view(),
            before_tokens as int,
            after_tokens as int,
        ),
{
    let outcome = if shake.attempted && after_tokens < before_tokens {
        "applied".to_owned()
    } else if shake.artifact_save_failures > 0 {
        "artifact_save_failed".to_owned()
    } else if shake.attempted {
        "insufficient".to_owned()
    } else {
        "skipped".to_owned()
    };
    AgentContextReductionStage { outcome, reason: items::clone_optional(&shake.skipped_reason) }
}

/// After a failure, an agent that goes on does not try again for now.
pub open spec fn suppression_after(
    policy: ResolvedSubagentContextPolicy,
    revision: u64,
    after_tokens: i64,
) -> Option<SuppressedContextReduction> {
    if policy.on_failure is Continue {
        Some(SuppressedContextReduction { after_tokens, policy_revision: revision })
    } else {
        None
    }
}

fn continue_suppression(
    policy: &ResolvedSubagentContextPolicy,
    revision: u64,
    after_tokens: i64,
) -> (suppression: Option<SuppressedContextReduction>)
    ensures
        suppression == suppression_after(*policy, revision, after_tokens),
{
    match policy.on_failure {
        SubagentContextReductionOnFailure::Continue => Some(
            SuppressedContextReduction { after_tokens, policy_revision: revision },
        ),
        SubagentContextReductionOnFailure::Stop => None,
    }
}

/// What the parent is told of an agent that goes on after a failure.
pub open spec fn continuing_text(active_tokens: int) -> Seq<char> {
    "Subagent context reduction did not reach its threshold at "@ + text::signed_decimal(
        active_tokens,
    ) + " active tokens; continuing. It will retry after "@ + text::signed_decimal(
        CONTEXT_GROWTH_RETRY_TOKENS as int,
    ) + " more active tokens or a policy change."@
}

/// What is told after a failure, and how the reduction ends.
pub open spec fn failure_end(
    run: ReductionRun,
    message: Seq<char>,
    active_tokens: int,
) -> (Seq<EffectView>, OutcomeView) {
    if run.policy.on_failure is Stop {
        (Seq::empty(), OutcomeView::Stop(message))
    } else {
        (
            seq![
                EffectView::NotifyParentOnce {
                    notified_revision: run.revision,
                    message: continuing_text(active_tokens),
                },
            ],
            OutcomeView::NoAction,
        )
    }
}

/// A compaction that failed.
#[derive(Debug, PartialEq, Eq)]
pub struct CompactionFailure {
    pub message: String,
    /// The turn was aborted or interrupted.
    pub interrupted: bool,
}

/// The value of a [`CompactionFailure`].
pub struct CompactionFailureView {
    pub message: Seq<char>,
    pub interrupted: bool,
}

impl DeepView for CompactionFailure {
    type V = CompactionFailureView;

    open spec fn deep_view(&self) -> CompactionFailureView {
        CompactionFailureView { message: self.message@, interrupted: self.interrupted }
    }
}

/// The message for a compaction that was not enough.
pub open spec fn insufficient_text(threshold_tokens: int) -> Seq<char> {
    "context reduction completed but the child remains above its "@ + text::signed_decimal(
        threshold_tokens,
    ) + " token threshold"@
}

/// What was measured and done before the end of a reduction.
pub struct ReductionFacts {
    pub before: ContextWindowTokenStatus,
    pub after_shake: ContextWindowTokenStatus,
    pub shake: AutoShakeOutcomeView,
    pub at: int,
}

/// The record of a reduction.
pub open spec fn attempt_of(
    reason: Seq<char>,
    facts: ReductionFacts,
    after_tokens: i64,
    compact: Option<StageView>,
    outcome: Seq<char>,
) -> AttemptView {
    AttemptView {
        at: facts.at,
        reason,
        before_tokens: facts.before.active_context_tokens as int,
        after_tokens: after_tokens as int,
        shake: Some(
            shake_stage_view(
                facts.shake,
                facts.before.active_context_tokens as int,
                facts.after_shake.active_context_tokens as int,
            ),
        ),
        compact,
        outcome,
    }
}

/// What is recorded after a shake.
pub open spec fn shaken_effects(run: ReductionRun, facts: ReductionFacts) -> Seq<EffectView> {
    let measured = measured_effects(run, facts.after_shake);
    let done = !compaction_needed(
        run.boundary.explicit_context_reset,
        facts.after_shake.token_limit_reached,
        facts.after_shake.active_context_tokens as int,
        run.policy,
    );
    if done && facts.shake.attempted {
        let reason = if !threshold_reached(run, facts.before) && !is_forced(run, facts.before) {
            "configured_auto_shake"@
        } else {
            reduction_reason(run, facts.before)
        };
        measured + seq![
            EffectView::RecordAttempt {
                attempt: attempt_of(
                    reason,
                    facts,
                    facts.after_shake.active_context_tokens,
                    None,
                    "shaken"@,
                ),
                suppression: None,
            },
        ]
    } else {
        measured
    }
}

/// What is recorded and told after a compaction, and how the reduction ends.
pub open spec fn compaction_end(
    run: ReductionRun,
    facts: ReductionFacts,
    after: ContextWindowTokenStatus,
    failure: Option<CompactionFailureView>,
) -> (Seq<EffectView>, OutcomeView) {
    let usage = seq![
        EffectView::RecordUsage {
            status: after,
            threshold_tokens: run.policy.threshold_tokens,
        },
    ];
    let reason = reduction_reason(run, facts.before);
    let tokens = after.active_context_tokens;
    let suppression = suppression_after(run.policy, run.revision, tokens);
    match failure {
        Some(failure) => {
            let recorded = usage + seq![
                EffectView::RecordAttempt {
                    attempt: attempt_of(
                        reason,
                        facts,
                        tokens,
                        Some(StageView { outcome: "failed"@, reason: Some(failure.message) }),
                        "failed"@,
                    ),
                    suppression,
                },
            ];
            if failure.interrupted || facts.after_shake.token_limit_reached
                || run.boundary.explicit_context_reset {
                (recorded, OutcomeView::CompactionError)
            } else {
                let end = failure_end(run, failure.message, tokens as int);
                (recorded + end.0, end.1)
            }
        },
        None => if after.token_limit_reached {
            (
                usage + seq![
                    EffectView::RecordAttempt {
                        attempt: attempt_of(
                            reason,
                            facts,
                            tokens,
                            Some(StageView { outcome: "applied"@, reason: None }),
                            "model_limit_still_reached"@,
                        ),
                        suppression: None,
                    },
                ],
                OutcomeView::ContextWindowExceeded,
            )
        } else if threshold_reached(run, after) {
            let recorded = usage + seq![
                EffectView::RecordAttempt {
                    attempt: attempt_of(
                        reason,
                        facts,
                        tokens,
                        Some(StageView { outcome: "applied_but_insufficient"@, reason: None }),
                        "threshold_still_reached"@,
                    ),
                    suppression,
                },
            ];
            let end = failure_end(
                run,
                insufficient_text(run.policy.threshold_tokens as int),
                tokens as int,
            );
            (recorded + end.0, end.1)
        } else {
            (
                usage + seq![
                    EffectView::RecordAttempt {
                        attempt: attempt_of(
                            reason,
                            facts,
                            tokens,
                            Some(StageView { outcome: "applied"@, reason: None }),
                            "compacted"@,
                        ),
                        suppression: None,
                    },
                ],
                OutcomeView::Compacted,
            )
        },
    }
}

/// Whether the initial context goes into a compacted conversation again.
#[derive(Clone, Copy, Debug, PartialEq, Eq, Structural)]
pub enum InitialContextInjection {
    DoNotInject,
    BeforeLastUserMessage,
}

/// Whether the initial context goes into a compacted conversation again, or
/// `None` where it would have to but is not known: the turn is then aborted.
pub fn initial_context_injection(phase: CompactionPhase, has_world_state: bool) -> (injection:
    Option<InitialContextInjection>)
    ensures
        injection == (if !(phase is MidTurn) {
            Some(InitialContextInjection::DoNotInject)
        } else if has_world_state {
            Some(InitialContextInjection::BeforeLastUserMessage)
        } else {
            None
        }),
{
    match phase {
        CompactionPhase::MidTurn => if has_world_state {
            Some(InitialContextInjection::BeforeLastUserMessage)
        } else {
            None
        },
        _ => Some(InitialContextInjection::DoNotInject),
    }
}

/// What caused a shake.
#[derive(Clone, Copy, Debug, PartialEq, Eq, Structural)]
pub enum ShakeTrigger {
    Manual,
    Automatic,
    AutomaticEscalated,
}

/// How one pass of a shake runs.
#[derive(Clone, Copy, Debug, PartialEq, Eq, Structural)]
pub struct AutoShakePassOptions {
    pub active_context_tokens: i64,
    pub protect_tokens: usize,
    pub min_elidable_percent: i64,
    pub min_savings_tokens: i64,
    pub trigger: ShakeTrigger,
}

/// Half of a number, rounded towards zero.
pub open spec fn half(n: int) -> int {
    if n >= 0 {
        n / 2
    } else {
        -((-n) / 2)
    }
}

fn halved(n: i64) -> (h: i64)
    ensures
        h == half(n as int),
{
    if n >= 0 {
        n / 2
    } else {
        let magnitude: i128 = -(n as i128);
        (-(magnitude / 2)) as i64
    }
}

/// The first pass of a forced shake.
pub open spec fn first_pass(settings: AutoShakeSettings, active_context_tokens: i64) ->
    AutoShakePassOptions {
    AutoShakePassOptions {
        active_context_tokens,
        protect_tokens: shake::AUTO_PROTECT_TOKENS,
        min_elidable_percent: settings.min_elidable_percent,
        min_savings_tokens: settings.min_savings_tokens,
        trigger: ShakeTrigger::Automatic,
    }
}

/// The second pass of a forced shake, which protects less and asks for less.
pub open spec fn second_pass(settings: AutoShakeSettings, active_context_tokens: i64) ->
    AutoShakePassOptions {
    AutoShakePassOptions {
        active_context_tokens,
        protect_tokens: shake::MANUAL_PROTECT_TOKENS,
        min_elidable_percent: settings.min_elidable_percent,
        min_savings_tokens: half(settings.min_savings_tokens as int) as i64,
        trigger: ShakeTrigger::AutomaticEscalated,
    }
}

/// How a forced shake begins. A thread that is not kept has nowhere to save
/// what a shake removes: it goes on to the compaction.
pub fn forced_shake_pass(
    settings: &AutoShakeSettings,
    ephemeral: bool,
    active_context_tokens: i64,
) -> (r: Result<AutoShakePassOptions, AutoShakeOutcome>)
    ensures
        match r {
            Ok(options) => !ephemeral && options == first_pass(*settings, active_context_tokens),
            Err(outcome) => ephemeral && outcome.deep_view() == left_out(
                "ephemeral_thread_requires_compaction"@,
            ),
        },
{
    if ephemeral {
        return Err(skipped("ephemeral_thread_requires_compaction"));
    }
    Ok(
        AutoShakePassOptions {
            active_context_tokens,
            protect_tokens: shake::AUTO_PROTECT_TOKENS,
            min_elidable_percent: settings.min_elidable_percent,
            min_savings_tokens: settings.min_savings_tokens,
            trigger: ShakeTrigger::Automatic,
        },
    )
}

/// The second pass of a forced shake, where the first was not enough.
pub fn escalated_shake_pass(
    settings: &AutoShakeSettings,
    policy: &ResolvedSubagentContextPolicy,
    after_first: &ContextWindowTokenStatus,
) -> (options: Option<AutoShakePassOptions>)
    ensures
        options == (if after_first.token_limit_reached || after_first.active_context_tokens
            >= policy.threshold_tokens {
            Some(second_pass(*settings, after_first.active_context_tokens))
        } else {
            None
        }),
{
    if after_first.token_limit_reached || after_first.active_context_tokens
        >= policy.threshold_tokens {
        Some(
            AutoShakePassOptions {
                active_context_tokens: after_first.active_context_tokens,
                protect_tokens: shake::MANUAL_PROTECT_TOKENS,
                min_elidable_percent: settings.min_elidable_percent,
                min_savings_tokens: halved(settings.min_savings_tokens),
                trigger: ShakeTrigger::AutomaticEscalated,
            },
        )
    } else {
        None
    }
}

/// Appends effects to others.
fn append_effects(effects: &mut Vec<ReductionEffect>, more: Vec<ReductionEffect>)
    ensures
        final(effects).deep_view() == old(effects).deep_view() + more.deep_view(),
{
    let ghost before = effects.deep_view();
    let ghost added = more.deep_view();
    let mut more = more;
    effects.append(&mut more);
    assert(effects.deep_view() =~= before + added);
}

impl ReductionRun {
    /// A reduction under a policy. An agent without one is left alone.
    pub fn begin(
        policy: Option<(ResolvedSubagentContextPolicy, u64)>,
        boundary: ReductionBoundary,
    ) -> (r: Option<(ReductionRun, ReductionEffect)>)
        ensures
            match (policy, r) {
                (Some(policy), Some((run, effect))) => run == (ReductionRun {
                    policy: policy.0,
                    revision: policy.1,
                    boundary,
                }) && effect == (ReductionEffect::MarkPolicyApplied { revision: policy.1 }),
                (None, None) => true,
                _ => false,
            },
    {
        match policy {
            Some((policy, revision)) => Some(
                (
                    ReductionRun { policy, revision, boundary },
                    ReductionEffect::MarkPolicyApplied { revision },
                ),
            ),
            None => None,
        }
    }

    fn is_threshold_reached(&self, status: &ContextWindowTokenStatus) -> (r: bool)
        ensures
            r == threshold_reached(*self, *status),
    {
        self.policy.enabled && status.active_context_tokens >= self.policy.threshold_tokens
    }

    fn is_reduction_forced(&self, before: &ContextWindowTokenStatus) -> (r: bool)
        ensures
            r == is_forced(*self, *before),
    {
        self.boundary.explicit_context_reset || self.boundary.forced_model_rollover
            || before.token_limit_reached
    }

    fn is_auto_shake_usual(&self, before: &ContextWindowTokenStatus) -> (r: bool)
        ensures
            r == shakes_as_usual(*self, *before),
    {
        let inherits = match self.policy.shake {
            SubagentContextReductionShake::Inherit => true,
            _ => false,
        };
        !self.policy.enabled || (inherits && !self.is_threshold_reached(before)
            && !self.is_reduction_forced(before))
    }

    fn reason(&self, before: &ContextWindowTokenStatus) -> (reason: String)
        ensures
            reason@ == reduction_reason(*self, *before),
    {
        if self.boundary.explicit_context_reset {
            "explicit_context_reset".to_owned()
        } else if self.boundary.forced_model_rollover || before.token_limit_reached {
            "model_context_limit".to_owned()
        } else {
            "child_context_threshold".to_owned()
        }
    }

    fn usage(&self, status: &ContextWindowTokenStatus) -> (effect: ReductionEffect)
        ensures
            effect.deep_view() == (EffectView::RecordUsage {
                status: *status,
                threshold_tokens: self.policy.threshold_tokens,
            }),
    {
        ReductionEffect::RecordUsage {
            status: *status,
            threshold_tokens: self.policy.threshold_tokens,
        }
    }

    fn record_measurement(&self, status: &ContextWindowTokenStatus) -> (effects: Vec<
        ReductionEffect,
    >)
        ensures
            effects.deep_view() == measured_effects(*self, *status),
    {
        let mut effects: Vec<ReductionEffect> = Vec::new();
        effects.push(self.usage(status));
        if self.policy.enabled && status.active_context_tokens < self.policy.threshold_tokens {
            effects.push(ReductionEffect::ClearSuppressed);
            effects.push(ReductionEffect::ClearFailureEpisode);
        }
        assert(effects.deep_view() =~= measured_effects(*self, *status));
        effects
    }

    /// Takes in the size of the context before the reduction.
    pub fn on_measured(&self, before: &ContextWindowTokenStatus) -> (r: (
        Vec<ReductionEffect>,
        MeasuredAction,
    ))
        ensures
            r.0.deep_view() == measured_effects(*self, *before),
            r.1 == (if threshold_reached(*self, *before) || is_forced(*self, *before)
                || shakes_as_usual(*self, *before) {
                MeasuredAction::CheckSuppression
            } else {
                MeasuredAction::Finish
            }),
    {
        let effects = self.record_measurement(before);
        let action = if !self.is_threshold_reached(before) && !self.is_reduction_forced(before)
            && !self.is_auto_shake_usual(before) {
            MeasuredAction::Finish
        } else {
            MeasuredAction::CheckSuppression
        };
        (effects, action)
    }

    /// Decides how the context is shaken. `suppressed` is an earlier failure
    /// that was not cleared.
    pub fn plan_shake(
        &self,
        before: &ContextWindowTokenStatus,
        suppressed: Option<SuppressedContextReduction>,
        auto_shake: &AutoShakeConfig,
        model_slug: &str,
    ) -> (r: (Vec<ReductionEffect>, ShakeAction))
        ensures
            r.0.deep_view() == suppression_effects(known_failure(*self, *before, suppressed)),
            r.1.deep_view() == shake_action(
                *self,
                *before,
                suppressed,
                auto_shake.settings_of(model_slug@).enabled,
            ),
    {
        let mut effects: Vec<ReductionEffect> = Vec::new();
        let mut suppression_active = false;
        if let Some(suppression) = suppressed {
            match suppression_decision(
                &suppression,
                self.revision,
                before.active_context_tokens,
                self.policy.threshold_tokens,
            ) {
                SuppressionDecision::Suppress => {
                    suppression_active = true;
                },
                SuppressionDecision::Growth => {
                    effects.push(ReductionEffect::ClearSuppressed);
                },
                _ => {
                    effects.push(ReductionEffect::ClearSuppressed);
                    effects.push(ReductionEffect::ClearFailureEpisode);
                },
            }
        }
        assert(effects.deep_view() =~= suppression_effects(
            known_failure(*self, *before, suppressed),
        ));
        let reached = self.is_threshold_reached(before);
        let forced = self.is_reduction_forced(before);
        if suppression_active && reached && !forced {
            return (effects, ShakeAction::Finish);
        }
        if self.is_auto_shake_usual(before) {
            return (effects, ShakeAction::AutoShake);
        }
        let action = match self.policy.shake {
            SubagentContextReductionShake::Off => ShakeAction::Skip(skipped("disabled_by_policy")),
            SubagentContextReductionShake::On => if reached || forced {
                ShakeAction::Forced
            } else {
                ShakeAction::Skip(skipped("below_child_threshold"))
            },
            SubagentContextReductionShake::Inherit => {
                let settings = auto_shake.settings_for_model(model_slug);
                if settings.enabled {
                    ShakeAction::Forced
                } else {
                    ShakeAction::Skip(skipped("auto_shake_disabled"))
                }
            },
        };
        (effects, action)
    }

    /// Takes in what a shake did, and the size of the context after it. The
    /// reduction is over unless a compaction is needed.
    pub fn on_shaken(
        &self,
        before: &ContextWindowTokenStatus,
        after_shake: &ContextWindowTokenStatus,
        shake: &AutoShakeOutcome,
        at: i64,
    ) -> (r: (Vec<ReductionEffect>, bool))
        ensures
            r.0.deep_view() == shaken_effects(
                *self,
                ReductionFacts {
                    before: *before,
                    after_shake: *after_shake,
                    shake: shake.deep_view(),
                    at: at as int,
                },
            ),
            r.1 == compaction_needed(
                self.boundary.explicit_context_reset,
                after_shake.token_limit_reached,
                after_shake.active_context_tokens as int,
                self.policy,
            ),
    {
        let mut effects = self.record_measurement(after_shake);
        let needed = should_compact_after_shake(
            self.boundary.explicit_context_reset,
            after_shake.token_limit_reached,
            after_shake.active_context_tokens,
            &self.policy,
        );
        if !needed && shake.attempted {
            let reason = if !self.is_threshold_reached(before) && !self.is_reduction_forced(
                before,
            ) {
                "configured_auto_shake".to_owned()
            } else {
                self.reason(before)
            };
            let ghost earlier = effects.deep_view();
            let attempt = AgentContextReductionAttempt {
                at,
                reason,
                before_tokens: before.active_context_tokens,
                after_tokens: after_shake.active_context_tokens,
                shake: Some(
                    shake_stage(
                        shake,
                        before.active_context_tokens,
                        after_shake.active_context_tokens,
                    ),
                ),
                compact: None,
                outcome: "shaken".to_owned(),
            };
            let effect = ReductionEffect::RecordAttempt { attempt, suppression: None };
            let ghost told = effect.deep_view();
            effects.push(effect);
            assert(effects.deep_view() =~= earlier.push(told));
        }
        (effects, needed)
    }

    /// What is told after a failure, and how the reduction ends.
    fn failure_outcome(&self, message: String, active_tokens: i64) -> (r: (
        Vec<ReductionEffect>,
        BoundaryOutcome,
    ))
        ensures
            (r.0.deep_view(), r.1.deep_view()) == failure_end(
                *self,
                message@,
                active_tokens as int,
            ),
    {
        let mut effects: Vec<ReductionEffect> = Vec::new();
        match self.policy.on_failure {
            SubagentContextReductionOnFailure::Stop => {
                assert(effects.deep_view() =~= Seq::empty());
                (effects, BoundaryOutcome::Stop(message))
            },
            SubagentContextReductionOnFailure::Continue => {
                let mut told =
                    "Subagent context reduction did not reach its threshold at ".to_owned();
                told.append(text::signed_decimal_text(active_tokens).as_str());
                told.append(" active tokens; continuing. It will retry after ");
                told.append(text::signed_decimal_text(CONTEXT_GROWTH_RETRY_TOKENS).as_str());
                told.append(" more active tokens or a policy change.");
                assert(told@ == continuing_text(active_tokens as int));
                effects.push(
                    ReductionEffect::NotifyParentOnce { revision: self.revision, message: told },
                );
                assert(effects.deep_view() =~= failure_end(
                    *self,
                    message@,
                    active_tokens as int,
                ).0);
                (effects, BoundaryOutcome::NoAction)
            },
        }
    }

    /// The record of a reduction with a compaction.
    fn compaction_attempt(
        &self,
        before: &ContextWindowTokenStatus,
        after_shake: &ContextWindowTokenStatus,
        shake: &AutoShakeOutcome,
        at: i64,
        after_tokens: i64,
        compact: AgentContextReductionStage,
        outcome: &str,
    ) -> (attempt: AgentContextReductionAttempt)
        ensures
            attempt.deep_view() == attempt_of(
                reduction_reason(*self, *before),
                ReductionFacts {
                    before: *before,
                    after_shake: *after_shake,
                    shake: shake.deep_view(),
                    at: at as int,
                },
                after_tokens,
                Some(compact.deep_view()),
                outcome@,
            ),
    {
        AgentContextReductionAttempt {
            at,
            reason: self.reason(before),
            before_tokens: before.active_context_tokens,
            after_tokens,
            shake: Some(
                shake_stage(
                    shake,
                    before.active_context_tokens,
                    after_shake.active_context_tokens,
                ),
            ),
            compact: Some(compact),
            outcome: outcome.to_owned(),
        }
    }

    /// Takes in what a compaction did, and the size of the context after it.
    pub fn on_compacted(
        &self,
        before: &ContextWindowTokenStatus,
        after_shake: &ContextWindowTokenStatus,
        shake: &AutoShakeOutcome,
        after_compact: &ContextWindowTokenStatus,
        failure: Option<CompactionFailure>,
        at: i64,
    ) -> (r: (Vec<ReductionEffect>, BoundaryOutcome))
        ensures
            (r.0.deep_view(), r.1.deep_view()) == compaction_end(
                *self,
                ReductionFacts {
                    before: *before,
                    after_shake: *after_shake,
                    shake: shake.deep_view(),
                    at: at as int,
                },
                *after_compact,
                failure.deep_view(),
            ),
    {
        let tokens = after_compact.active_context_tokens;
        let suppression = continue_suppression(&self.policy, self.revision, tokens);
        let mut effects: Vec<ReductionEffect> = Vec::new();
        effects.push(self.usage(after_compact));
        let ghost usage = effects.deep_view();
        assert(usage =~= seq![
            EffectView::RecordUsage {
                status: *after_compact,
                threshold_tokens: self.policy.threshold_tokens,
            },
        ]);
        match failure {
            Some(failure) => {
                let stage = AgentContextReductionStage {
                    outcome: "failed".to_owned(),
                    reason: Some(failure.message.clone()),
                };
                let attempt = self.compaction_attempt(
                    before,
                    after_shake,
                    shake,
                    at,
                    tokens,
                    stage,
                    "failed",
                );
                let effect = ReductionEffect::RecordAttempt { attempt, suppression };
                let ghost told = effect.deep_view();
                effects.push(effect);
                assert(effects.deep_view() =~= usage + seq![told]);
                if failure.interrupted || after_shake.token_limit_reached
                    || self.boundary.explicit_context_reset {
                    return (effects, BoundaryOutcome::CompactionError);
                }
                let (more, outcome) = self.failure_outcome(failure.message, tokens);
                append_effects(&mut effects, more);
                (effects, outcome)
            },
            None => {
                let insufficient = self.is_threshold_reached(after_compact);
                let stage = AgentContextReductionStage {
                    outcome: if !after_compact.token_limit_reached && insufficient {
                        "applied_but_insufficient".to_owned()
                    } else {
                        "applied".to_owned()
                    },
                    reason: None,
                };
                let name = if after_compact.token_limit_reached {
                    "model_limit_still_reached"
                } else if insufficient {
                    "threshold_still_reached"
                } else {
                    "compacted"
                };
                let attempt = self.compaction_attempt(
                    before,
                    after_shake,
                    shake,
                    at,
                    tokens,
                    stage,
                    name,
                );
                let kept = if !after_compact.token_limit_reached && insufficient {
                    suppression
                } else {
                    None
                };
                let effect = ReductionEffect::RecordAttempt { attempt, suppression: kept };
                let ghost told = effect.deep_view();
                effects.push(effect);
                assert(effects.deep_view() =~= usage + seq![told]);
                if after_compact.token_limit_reached {
                    return (effects, BoundaryOutcome::ContextWindowExceeded);
                }
                if insufficient {
                    let mut message =
                        "context reduction completed but the child remains above its ".to_owned();
                    message.append(
                        text::signed_decimal_text(self.policy.threshold_tokens).as_str(),
                    );
                    message.append(" token threshold");
                    assert(message@ == insufficient_text(self.policy.threshold_tokens as int));
                    let (more, outcome) = self.failure_outcome(message, tokens);
                    append_effects(&mut effects, more);
                    return (effects, outcome);
                }
                (effects, BoundaryOutcome::Compacted)
            },
        }
    }
}

} // verus!
