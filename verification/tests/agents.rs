use context_shake::agent::context_policy::for_child;
use context_shake::agent::context_policy::inherited_by_children;
use context_shake::agent::context_policy::reset_local;
use context_shake::agent::context_policy::resolve;
use context_shake::agent::context_policy::should_report_failure_episode;
use context_shake::agent::context_policy::update_local;
use context_shake::agent::context_policy::validate_overrides;
use context_shake::agent::context_policy::validate_state;
use context_shake::agent::context_policy::ContextReductionPolicyArgs;
use context_shake::agent::context_policy::PolicyProvenance;
use context_shake::agent::context_policy::ResolvedSubagentContextPolicy;
use context_shake::agent::context_policy::SubagentContextFailurePolicy;
use context_shake::agent::context_policy::SubagentContextReductionOverrides;
use context_shake::agent::context_policy::SubagentContextReductionPolicyState;
use context_shake::agent::context_policy::SubagentContextShakePolicy;
use context_shake::agent::target::check_arguments;
use context_shake::agent::target::check_request;
use context_shake::agent::target::check_target;
use context_shake::agent::target::lineage_error;
use context_shake::agent::target::resolve_target;
use context_shake::agent::target::AgentTarget;
use context_shake::agent::target::LineageStep;
use context_shake::agent::target::LineageWalk;
use context_shake::agent::target::SetAgentContextPolicyArgs;
use context_shake::agent::target::TargetError;
use context_shake::agent::target::TargetThread;
use context_shake::agent::types::AgentExecutionGuard;
use context_shake::agent::types::ContextReductionOutcome;
use context_shake::agent::types::ContextReductionRecord;
use context_shake::agent::types::ContextTokenBasis;
use context_shake::config::SubagentContextReductionConfig;
use context_shake::config::SubagentContextReductionOnFailure;
use context_shake::config::SubagentContextReductionShake;
use context_shake::session::context_reduction_telemetry::ContextReductionTelemetry;
use context_shake::session::mid_turn_reduction::MidTurnAction;
use context_shake::session::mid_turn_reduction::MidTurnReduction;
use context_shake::session::mid_turn_reduction::MidTurnRun;
use context_shake::session::mid_turn_reduction::RollOverTrigger;
use context_shake::session::subagent_context_reduction::escalated_shake_pass;
use context_shake::session::subagent_context_reduction::forced_shake_pass;
use context_shake::session::subagent_context_reduction::initial_context_injection;
use context_shake::session::subagent_context_reduction::should_compact_after_shake;
use context_shake::session::subagent_context_reduction::suppression_decision;
use context_shake::session::subagent_context_reduction::AutoShakeOutcome;
use context_shake::session::subagent_context_reduction::BoundaryOutcome;
use context_shake::session::subagent_context_reduction::CompactionFailure;
use context_shake::session::subagent_context_reduction::CompactionPhase;
use context_shake::session::subagent_context_reduction::ContextWindowTokenStatus;
use context_shake::session::subagent_context_reduction::InitialContextInjection;
use context_shake::session::subagent_context_reduction::MeasuredAction;
use context_shake::session::subagent_context_reduction::ReductionBoundary;
use context_shake::session::subagent_context_reduction::ReductionEffect;
use context_shake::session::subagent_context_reduction::ReductionRun;
use context_shake::session::subagent_context_reduction::ShakeAction;
use context_shake::session::subagent_context_reduction::ShakeTrigger;
use context_shake::session::subagent_context_reduction::SuppressedContextReduction;
use context_shake::session::subagent_context_reduction::SuppressionDecision;
use context_shake::session::thread_settings::install_subagent_context_reduction_policy;
use context_shake::session::thread_settings::prepare_update;
use context_shake::session::thread_settings::report_update;
use context_shake::session::thread_settings::update_subagent_context_reduction_policy;
use context_shake::session::thread_settings::ThreadSettingsError;
use context_shake::session::thread_settings::ThreadSettingsOverrides;
use context_shake::session::thread_settings::ThreadStorage;
use context_shake::session::thread_settings::UpdateReport;
use context_shake::session::turn::has_explicit_assignment_input;
use context_shake::session::turn::take_context_reset_request;
use context_shake::session::turn::TurnInput;
use context_shake::shake::auto::AutoShakeConfig;

#[test]
fn inherited_policy_and_child_only_override_stay_separate() {
    let mut parent = SubagentContextReductionPolicyState::default();
    update_local(
        &mut parent,
        SubagentContextReductionOverrides {
            threshold_tokens: Some(210_000),
            check_after_tools: Some(false),
            ..Default::default()
        },
        true,
    );

    let child = for_child(
        &parent,
        SubagentContextReductionOverrides {
            threshold_tokens: Some(180_000),
            ..Default::default()
        },
        false,
    );

    assert_eq!(child.inherited.threshold_tokens, Some(210_000));
    assert_eq!(child.inherited.check_after_tools, Some(false));
    assert_eq!(child.local.threshold_tokens, Some(180_000));
    assert_eq!(child.inheritable.threshold_tokens, None);
    assert_eq!(child.inheritable.check_after_tools, None);
    assert_eq!(child.desired_revision, 1);

    let descendant_defaults = inherited_by_children(&child);
    assert_eq!(descendant_defaults.threshold_tokens, Some(210_000));
    assert_eq!(descendant_defaults.check_after_tools, Some(false));
}

#[test]
fn local_non_inheritable_update_replaces_the_local_value_only() {
    let mut state = SubagentContextReductionPolicyState {
        inherited: SubagentContextReductionOverrides {
            threshold_tokens: Some(250_000),
            ..Default::default()
        },
        ..Default::default()
    };
    update_local(
        &mut state,
        SubagentContextReductionOverrides {
            threshold_tokens: Some(200_000),
            ..Default::default()
        },
        true,
    );
    update_local(
        &mut state,
        SubagentContextReductionOverrides {
            threshold_tokens: Some(180_000),
            ..Default::default()
        },
        false,
    );

    assert_eq!(state.local.threshold_tokens, Some(180_000));
    assert_eq!(state.inheritable.threshold_tokens, None);
    assert_eq!(state.inherited.threshold_tokens, Some(250_000));
    assert_eq!(
        inherited_by_children(&state).threshold_tokens,
        Some(250_000)
    );
    assert_eq!(state.desired_revision, 2);
}

#[test]
fn resetting_local_overrides_restores_inherited_values() {
    let mut state = SubagentContextReductionPolicyState {
        inherited: SubagentContextReductionOverrides {
            enabled: Some(false),
            ..Default::default()
        },
        ..Default::default()
    };
    update_local(
        &mut state,
        SubagentContextReductionOverrides {
            enabled: Some(true),
            ..Default::default()
        },
        true,
    );
    reset_local(&mut state);

    assert_eq!(state.local, SubagentContextReductionOverrides::default());
    assert_eq!(
        state.inheritable,
        SubagentContextReductionOverrides::default()
    );
    assert_eq!(state.inherited.enabled, Some(false));
    assert_eq!(state.desired_revision, 2);
}

#[test]
fn warning_episode_dedupes_by_policy_revision_not_turn_id() {
    assert!(should_report_failure_episode(None, 7));
    assert!(!should_report_failure_episode(Some(7), 7));
    assert!(should_report_failure_episode(Some(6), 7));
}

#[test]
fn runtime_overrides_reject_nonpositive_thresholds() {
    for threshold_tokens in [0, -1] {
        assert_eq!(
            validate_overrides(&SubagentContextReductionOverrides {
                threshold_tokens: Some(threshold_tokens),
                ..Default::default()
            }),
            Err("subagent context threshold_tokens must be positive".to_string())
        );
    }
}

fn defaults() -> SubagentContextReductionConfig {
    SubagentContextReductionConfig {
        enabled: true,
        threshold_tokens: 272_000,
        check_after_tools: true,
        shake: SubagentContextReductionShake::Inherit,
        on_failure: SubagentContextReductionOnFailure::Stop,
    }
}

#[test]
fn policies_are_resolved_field_by_field() {
    let mut parent = SubagentContextReductionPolicyState::default();
    update_local(
        &mut parent,
        ContextReductionPolicyArgs {
            enabled: None,
            threshold_tokens: Some(1_000),
            check_after_tools: None,
            shake: Some(SubagentContextShakePolicy::Off),
            on_failure: None,
        }
        .into_overrides(),
        true,
    );
    let child = for_child(
        &parent,
        SubagentContextReductionOverrides {
            on_failure: Some(SubagentContextFailurePolicy::Continue),
            ..Default::default()
        },
        true,
    );
    let policy = resolve(&child, &defaults());
    assert!(policy.enabled && policy.check_after_tools);
    assert_eq!(policy.enabled_from, PolicyProvenance::Config);
    assert_eq!(policy.threshold_tokens, 1_000);
    assert_eq!(policy.threshold_tokens_from, PolicyProvenance::Inherited);
    assert_eq!(policy.shake, SubagentContextReductionShake::Off);
    assert_eq!(policy.shake_from, PolicyProvenance::Inherited);
    assert_eq!(
        policy.on_failure,
        SubagentContextReductionOnFailure::Continue
    );
    assert_eq!(policy.on_failure_from, PolicyProvenance::Local);
    assert_eq!(policy.on_failure_from.as_str(), "local");
    assert_eq!(policy.shake_from.as_str(), "inherited");
    assert_eq!(policy.enabled_from.as_str(), "config");
    assert_eq!(validate_state(&child), Ok(()));
}

#[test]
fn revisions_stop_at_the_last_one() {
    let mut state = SubagentContextReductionPolicyState {
        desired_revision: u64::MAX,
        ..Default::default()
    };
    reset_local(&mut state);
    assert_eq!(state.desired_revision, u64::MAX);
}

fn policy(enabled: bool, threshold_tokens: i64) -> ResolvedSubagentContextPolicy {
    ResolvedSubagentContextPolicy {
        enabled,
        threshold_tokens,
        check_after_tools: true,
        shake: SubagentContextReductionShake::Inherit,
        on_failure: SubagentContextReductionOnFailure::Continue,
        enabled_from: PolicyProvenance::Config,
        threshold_tokens_from: PolicyProvenance::Config,
        check_after_tools_from: PolicyProvenance::Config,
        shake_from: PolicyProvenance::Config,
        on_failure_from: PolicyProvenance::Config,
    }
}

#[test]
fn continued_failure_retries_only_after_four_thousand_new_tokens() {
    let suppression = SuppressedContextReduction {
        after_tokens: 12_000,
        policy_revision: 4,
    };

    assert_eq!(
        suppression_decision(&suppression, 4, 15_999, 8_000),
        SuppressionDecision::Suppress
    );
    assert_eq!(
        suppression_decision(&suppression, 4, 16_000, 8_000),
        SuppressionDecision::Growth
    );
}

#[test]
fn recovery_and_policy_changes_rearm_the_failure_episode() {
    let suppression = SuppressedContextReduction {
        after_tokens: 12_000,
        policy_revision: 4,
    };

    assert_eq!(
        suppression_decision(&suppression, 4, 7_999, 8_000),
        SuppressionDecision::Recovered
    );
    assert_eq!(
        suppression_decision(&suppression, 5, 12_000, 8_000),
        SuppressionDecision::PolicyChanged
    );
}

#[test]
fn remeasured_model_limits_and_explicit_resets_remain_authoritative() {
    let enabled = policy(true, 272_000);
    let disabled = policy(false, 272_000);

    assert!(!should_compact_after_shake(false, false, 50_000, &enabled));
    assert!(should_compact_after_shake(false, true, 50_000, &enabled));
    assert!(should_compact_after_shake(true, false, 50_000, &enabled));
    assert!(!should_compact_after_shake(false, false, 300_000, &disabled));
}

fn status(active_context_tokens: i64, token_limit_reached: bool) -> ContextWindowTokenStatus {
    ContextWindowTokenStatus {
        active_context_tokens,
        active_context_token_basis: ContextTokenBasis::Usage,
        token_limit_reached,
        full_context_window_limit: Some(1_000_000),
        auto_compact_scope_limit: None,
    }
}

fn run(policy: ResolvedSubagentContextPolicy, explicit_context_reset: bool) -> ReductionRun {
    let boundary = ReductionBoundary {
        phase: CompactionPhase::MidTurn,
        explicit_context_reset,
        forced_model_rollover: false,
    };
    let (run, effect) = ReductionRun::begin(Some((policy, 3)), boundary).expect("a policy");
    assert_eq!(effect, ReductionEffect::MarkPolicyApplied { revision: 3 });
    run
}

fn shaken(attempted: bool) -> AutoShakeOutcome {
    AutoShakeOutcome {
        attempted,
        artifact_save_failures: 0,
        skipped_reason: None,
    }
}

fn usage(status: ContextWindowTokenStatus) -> ReductionEffect {
    ReductionEffect::RecordUsage {
        status,
        threshold_tokens: 8_000,
    }
}

#[test]
fn sessions_without_a_policy_are_left_alone() {
    let boundary = ReductionBoundary {
        phase: CompactionPhase::PreTurn,
        explicit_context_reset: true,
        forced_model_rollover: true,
    };
    assert!(ReductionRun::begin(None, boundary).is_none());
}

#[test]
fn small_contexts_forget_failures_and_shake_as_usual() {
    let small = status(7_999, false);
    let (effects, action) = run(policy(true, 8_000), false).on_measured(&small);
    assert_eq!(
        effects,
        vec![
            usage(small),
            ReductionEffect::ClearSuppressed,
            ReductionEffect::ClearFailureEpisode
        ]
    );
    assert_eq!(action, MeasuredAction::CheckSuppression);
    let (effects, action) = run(policy(true, 8_000), false).plan_shake(
        &small,
        None,
        &AutoShakeConfig::default(),
        "gpt-6-astra",
    );
    assert!(effects.is_empty());
    assert_eq!(action, ShakeAction::AutoShake);

    let mut on = policy(true, 8_000);
    on.shake = SubagentContextReductionShake::On;
    let (_, action) = run(on, false).on_measured(&small);
    assert_eq!(action, MeasuredAction::Finish);
}

#[test]
fn full_contexts_are_shaken_by_force() {
    let full = status(8_000, false);
    let config = AutoShakeConfig::default();
    let plan = |policy: ResolvedSubagentContextPolicy| {
        run(policy, false)
            .plan_shake(&full, None, &config, "gpt-6-astra")
            .1
    };
    assert_eq!(plan(policy(true, 8_000)), ShakeAction::Forced);
    let mut off = policy(true, 8_000);
    off.shake = SubagentContextReductionShake::Off;
    match plan(off) {
        ShakeAction::Skip(outcome) => assert_eq!(
            outcome.skipped_reason.as_deref(),
            Some("disabled_by_policy")
        ),
        other => panic!("expected a skip: {other:?}"),
    }
    let mut disabled = AutoShakeConfig::default();
    disabled.threshold = Some(context_shake::config::AutoShakeThresholdToml::Off);
    let (_, action) =
        run(policy(true, 8_000), false).plan_shake(&full, None, &disabled, "some-model");
    match action {
        ShakeAction::Skip(outcome) => assert_eq!(
            outcome.skipped_reason.as_deref(),
            Some("auto_shake_disabled")
        ),
        other => panic!("expected a skip: {other:?}"),
    }
}

#[test]
fn forced_shakes_have_two_passes() {
    let settings = AutoShakeConfig::default().settings_for_model("gpt-6-astra");
    let first = forced_shake_pass(&settings, false, 9_000).expect("a kept thread");
    assert_eq!(first.protect_tokens, 16_000);
    assert_eq!(first.min_savings_tokens, 4_000);
    assert_eq!(first.trigger, ShakeTrigger::Automatic);
    let limits = policy(true, 8_000);
    assert_eq!(
        escalated_shake_pass(&settings, &limits, &status(7_999, false)),
        None
    );
    let second =
        escalated_shake_pass(&settings, &limits, &status(8_000, false)).expect("not enough");
    assert_eq!(second.active_context_tokens, 8_000);
    assert_eq!(second.protect_tokens, 4_000);
    assert_eq!(second.min_savings_tokens, 2_000);
    assert_eq!(second.trigger, ShakeTrigger::AutomaticEscalated);
    assert!(escalated_shake_pass(&settings, &limits, &status(1, true)).is_some());
    match forced_shake_pass(&settings, true, 9_000) {
        Err(outcome) => assert_eq!(
            outcome.skipped_reason.as_deref(),
            Some("ephemeral_thread_requires_compaction")
        ),
        Ok(_) => panic!("nothing could be recovered"),
    }
}

#[test]
fn a_shake_that_is_enough_is_recorded() {
    let before = status(9_000, false);
    let after = status(5_000, false);
    let (effects, needed) =
        run(policy(true, 8_000), false).on_shaken(&before, &after, &shaken(true), 77);
    assert!(!needed);
    assert_eq!(effects.len(), 4);
    match &effects[3] {
        ReductionEffect::RecordAttempt {
            attempt,
            suppression,
        } => {
            assert_eq!(attempt.at, 77);
            assert_eq!(attempt.reason, "child_context_threshold");
            assert_eq!(attempt.before_tokens, 9_000);
            assert_eq!(attempt.after_tokens, 5_000);
            assert_eq!(attempt.outcome, "shaken");
            assert_eq!(attempt.shake.as_ref().unwrap().outcome, "applied");
            assert!(attempt.compact.is_none());
            assert_eq!(*suppression, None);
        }
        other => panic!("expected a record: {other:?}"),
    }
    let (effects, needed) =
        run(policy(true, 8_000), false).on_shaken(&before, &after, &shaken(false), 77);
    assert!(!needed);
    assert_eq!(effects.len(), 3);
}

#[test]
fn a_failed_reduction_is_told_once_and_waits() {
    let before = status(9_000, false);
    let after = status(8_500, false);
    let reduction = run(policy(true, 8_000), false);
    let (effects, outcome) =
        reduction.on_compacted(&before, &before, &shaken(true), &after, None, 1);
    assert_eq!(outcome, BoundaryOutcome::NoAction);
    assert_eq!(effects[0], usage(after));
    let suppression = match &effects[1] {
        ReductionEffect::RecordAttempt {
            attempt,
            suppression,
        } => {
            assert_eq!(attempt.outcome, "threshold_still_reached");
            assert_eq!(
                attempt.compact.as_ref().unwrap().outcome,
                "applied_but_insufficient"
            );
            assert_eq!(attempt.shake.as_ref().unwrap().outcome, "insufficient");
            *suppression
        }
        other => panic!("expected a record: {other:?}"),
    };
    assert_eq!(
        effects[2],
        ReductionEffect::NotifyParentOnce {
            revision: 3,
            message: "Subagent context reduction did not reach its threshold at 8500 active tokens; continuing. It will retry after 4000 more active tokens or a policy change.".to_string(),
        }
    );
    let config = AutoShakeConfig::default();
    let next = |tokens: i64| {
        reduction
            .plan_shake(&status(tokens, false), suppression, &config, "gpt-6-astra")
            .1
    };
    assert_eq!(next(8_500), ShakeAction::Finish);
    assert_eq!(next(12_499), ShakeAction::Finish);
    assert_eq!(next(12_500), ShakeAction::Forced);
}

#[test]
fn a_policy_that_stops_stops() {
    let mut stop = policy(true, 8_000);
    stop.on_failure = SubagentContextReductionOnFailure::Stop;
    let before = status(9_000, false);
    let (effects, outcome) = run(stop, false).on_compacted(
        &before,
        &before,
        &shaken(false),
        &status(8_500, false),
        None,
        1,
    );
    assert_eq!(
        outcome,
        BoundaryOutcome::Stop(
            "context reduction completed but the child remains above its 8000 token threshold"
                .to_string()
        )
    );
    assert_eq!(effects.len(), 2);
    let (_, outcome) = run(stop, false).on_compacted(
        &before,
        &before,
        &shaken(false),
        &before,
        Some(CompactionFailure {
            message: "no network".to_string(),
            interrupted: false,
        }),
        1,
    );
    assert_eq!(outcome, BoundaryOutcome::Stop("no network".to_string()));
}

#[test]
fn errors_end_the_turn() {
    let before = status(9_000, false);
    let failure = |interrupted: bool| {
        Some(CompactionFailure {
            message: "broken".to_string(),
            interrupted,
        })
    };
    let plain = run(policy(true, 8_000), false);
    let end = |run: &ReductionRun, after_shake: bool, failure| {
        run.on_compacted(
            &before,
            &status(9_000, after_shake),
            &shaken(false),
            &before,
            failure,
            1,
        )
        .1
    };
    assert_eq!(
        end(&plain, false, failure(true)),
        BoundaryOutcome::CompactionError
    );
    assert_eq!(
        end(&plain, true, failure(false)),
        BoundaryOutcome::CompactionError
    );
    assert_eq!(
        end(&run(policy(true, 8_000), true), false, failure(false)),
        BoundaryOutcome::CompactionError
    );
    let (_, outcome) = plain.on_compacted(
        &before,
        &before,
        &shaken(false),
        &status(1, true),
        None,
        1,
    );
    assert_eq!(outcome, BoundaryOutcome::ContextWindowExceeded);
    let (_, outcome) = plain.on_compacted(
        &before,
        &before,
        &shaken(false),
        &status(10, false),
        None,
        1,
    );
    assert_eq!(outcome, BoundaryOutcome::Compacted);
}

#[test]
fn context_is_injected_in_the_middle_of_a_turn() {
    assert_eq!(
        initial_context_injection(CompactionPhase::PreTurn, true),
        Some(InitialContextInjection::DoNotInject)
    );
    assert_eq!(
        initial_context_injection(CompactionPhase::MidTurn, true),
        Some(InitialContextInjection::BeforeLastUserMessage)
    );
    assert_eq!(initial_context_injection(CompactionPhase::MidTurn, false), None);
}

#[test]
fn roll_overs_depend_on_the_session() {
    let agent = MidTurnRun {
        subagent: true,
        trigger: RollOverTrigger::TokenLimitReached,
        tokens_before: 100,
    };
    assert_eq!(agent.begin(), MidTurnAction::Shake);
    assert_eq!(agent.on_shaken(&status(90, true), 5), MidTurnAction::Compact);
    assert_eq!(
        agent.on_shaken(&status(40, false), 5),
        MidTurnAction::Finish {
            record: ContextReductionRecord {
                at: 5,
                before_tokens: 100,
                after_tokens: Some(40),
                outcome: ContextReductionOutcome::Shaken,
            },
            reduction: MidTurnReduction::Shaken,
        }
    );
    let root = MidTurnRun {
        subagent: false,
        ..agent
    };
    assert_eq!(root.begin(), MidTurnAction::Compact);
    for (run, expected) in [
        (agent, MidTurnReduction::Insufficient),
        (root, MidTurnReduction::Compacted),
    ] {
        match run.on_compacted(&status(90, true), 5) {
            MidTurnAction::Finish { record, reduction } => {
                assert_eq!(record.outcome, ContextReductionOutcome::Insufficient);
                assert_eq!(reduction, expected);
            }
            other => panic!("expected an end: {other:?}"),
        }
    }
    let asked = MidTurnRun {
        trigger: RollOverTrigger::NewContextWindowRequested,
        ..agent
    };
    assert_eq!(asked.begin(), MidTurnAction::Compact);
}

#[test]
fn context_reset_request_is_retained_when_turn_has_no_follow_up() {
    let mut requested = true;
    assert!(!take_context_reset_request(&mut requested, false));
    assert!(take_context_reset_request(&mut requested, true));
    assert!(!take_context_reset_request(&mut requested, true));
}

#[test]
fn explicit_assignment_input_is_distinct_from_queue_only_wakeups() {
    let queue_only = TurnInput::InterAgentCommunication {
        message: "status update".to_string(),
        trigger_turn: false,
    };
    let followup = TurnInput::InterAgentCommunication {
        message: "new assignment".to_string(),
        trigger_turn: true,
    };
    let user_input = TurnInput::UserInput { content: Vec::new() };

    assert!(!has_explicit_assignment_input(&[queue_only]));
    assert!(has_explicit_assignment_input(&[followup]));
    assert!(has_explicit_assignment_input(&[user_input]));
}

#[test]
fn usage_tells_its_basis() {
    let mut telemetry = ContextReductionTelemetry::new();
    let usage = telemetry.context_usage(7, true, false);
    assert_eq!(usage.basis, ContextTokenBasis::Usage);
    assert_eq!(usage.basis.as_str(), "usage");
    assert_eq!(usage.last_reduction, None);
    for (info, estimated) in [(true, true), (false, false), (false, true)] {
        assert_eq!(
            telemetry.context_usage(7, info, estimated).basis,
            ContextTokenBasis::Estimate
        );
    }
    let record = ContextReductionRecord {
        at: 1,
        before_tokens: 2,
        after_tokens: None,
        outcome: ContextReductionOutcome::Compacted,
    };
    telemetry.record_context_reduction(record);
    assert_eq!(
        telemetry.context_usage(7, true, false).last_reduction,
        Some(record)
    );
    assert_eq!(record.outcome.as_str(), "compacted");
    assert_eq!(ContextReductionOutcome::Shaken.as_str(), "shaken");
    assert_eq!(ContextReductionOutcome::Insufficient.as_str(), "insufficient");
}

#[test]
fn only_descendants_are_reached() {
    let parents = |id: u128| if id > 1 { Some(id - 1) } else { None };
    let walk = |caller: u128, target: u128| {
        let mut walk = LineageWalk::new(caller, target);
        loop {
            let step = walk.on_parent(parents(walk.current));
            if step != LineageStep::Climb {
                return step;
            }
        }
    };
    assert_eq!(walk(1, 2), LineageStep::Descendant);
    assert_eq!(walk(1, 129), LineageStep::Descendant);
    assert_eq!(walk(1, 130), LineageStep::Invalid);
    assert_eq!(walk(5, 3), LineageStep::NotADescendant);
    assert_eq!(walk(3, 3), LineageStep::NotADescendant);
    assert_eq!(
        lineage_error(LineageStep::NotADescendant),
        Some(TargetError::InvalidRequest(
            "context policy target is not a descendant of the caller".to_string()
        ))
    );
    assert_eq!(
        lineage_error(LineageStep::Invalid),
        Some(TargetError::InvalidRequest(
            "context policy target lineage is invalid".to_string()
        ))
    );
    assert_eq!(lineage_error(LineageStep::Descendant), None);
}

fn refused(message: &str) -> Result<(), TargetError> {
    Err(TargetError::InvalidRequest(message.to_string()))
}

#[test]
fn requests_are_checked_in_order() {
    let none = SubagentContextReductionOverrides::default();
    let bad = SubagentContextReductionOverrides {
        threshold_tokens: Some(0),
        ..Default::default()
    };
    let some = SubagentContextReductionOverrides {
        enabled: Some(true),
        ..Default::default()
    };
    assert_eq!(check_request(1, 2, &none, true), Ok(()));
    assert_eq!(check_request(1, 2, &some, false), Ok(()));
    assert_eq!(
        check_request(1, 1, &bad, true),
        refused("set_agent_context_policy can only update a descendant")
    );
    assert_eq!(
        check_request(1, 2, &bad, true),
        refused("subagent context threshold_tokens must be positive")
    );
    assert_eq!(
        check_request(1, 2, &some, true),
        refused("reset cannot be combined with context_policy fields")
    );
    assert_eq!(
        check_target(TargetThread::NotLoaded),
        refused("target agent must be loaded; resume it before changing its context policy")
    );
    assert_eq!(
        check_target(TargetThread::Loaded { spawned: false }),
        refused("context policy can only be set on spawned subagents")
    );
    assert_eq!(check_target(TargetThread::Loaded { spawned: true }), Ok(()));
    assert_eq!(check_arguments(&none, true), Ok(()));
    assert_eq!(check_arguments(&some, false), Ok(()));
    for (patch, reset) in [(none, false), (some, true)] {
        assert_eq!(
            check_arguments(&patch, reset),
            Err(
                "provide context_policy fields for an update, or set reset=true without fields"
                    .to_string()
            )
        );
    }
}

#[test]
fn references_resolve_to_live_agents() {
    let agents = vec![("/root/a".to_string(), 7), ("/root/b".to_string(), 8)];
    let resolve = |reference: &String| {
        if reference.is_empty() {
            Err("empty path".to_string())
        } else {
            Ok(format!("/root/{reference}"))
        }
    };
    let find = |target: AgentTarget| resolve_target(&target, &resolve, &agents);
    assert_eq!(find(AgentTarget::Id(3)), Ok(3));
    assert_eq!(find(AgentTarget::Reference("b".to_string())), Ok(8));
    assert_eq!(
        find(AgentTarget::Reference("c".to_string())),
        Err(TargetError::UnsupportedOperation(
            "live agent path `/root/c` not found".to_string()
        ))
    );
    assert_eq!(
        find(AgentTarget::Reference(String::new())),
        Err(TargetError::UnsupportedOperation("empty path".to_string()))
    );
}

#[test]
fn policies_are_kept_where_threads_are() {
    let patch = SubagentContextReductionOverrides {
        enabled: Some(false),
        ..Default::default()
    };
    let kept = ThreadStorage {
        live: true,
        ephemeral: false,
    };
    let fleeting = ThreadStorage {
        live: false,
        ephemeral: true,
    };
    let lost = ThreadStorage {
        live: false,
        ephemeral: false,
    };
    let update = update_subagent_context_reduction_policy(None, patch, true, false, kept)
        .expect("a kept thread");
    let result = update.result(Some(9));
    assert_eq!(result.desired_revision, 1);
    assert_eq!(result.applied_revision, Some(9));
    assert!(result.persisted);
    assert_eq!(update.policy.inheritable.enabled, Some(false));
    let again = update_subagent_context_reduction_policy(
        Some(update.policy),
        SubagentContextReductionOverrides::default(),
        true,
        true,
        fleeting,
    )
    .expect("a fleeting thread");
    assert!(!again.result(None).persisted);
    assert_eq!(again.policy.desired_revision, 2);
    assert_eq!(again.policy.local, SubagentContextReductionOverrides::default());
    assert_eq!(
        update_subagent_context_reduction_policy(None, patch, true, false, lost),
        Err(ThreadSettingsError::Unsupported("persistent_thread_settings"))
    );
    let bad = SubagentContextReductionOverrides {
        threshold_tokens: Some(-1),
        ..Default::default()
    };
    assert_eq!(
        update_subagent_context_reduction_policy(None, bad, true, false, lost),
        Err(ThreadSettingsError::InvalidRequest(
            "subagent context threshold_tokens must be positive".to_string()
        ))
    );
    assert!(install_subagent_context_reduction_policy(update.policy, kept).is_ok());
    assert_eq!(
        install_subagent_context_reduction_policy(update.policy, lost),
        Err(ThreadSettingsError::Unsupported("persistent_thread_settings"))
    );
    assert_eq!(
        report_update(Err("no such model".to_string())),
        UpdateReport::BadRequest("invalid thread settings override: no such model".to_string())
    );
    assert_eq!(report_update(Ok(())), UpdateReport::ForgetStartedTurn);
}

#[test]
fn guards_hold_their_permit() {
    let permit = std::sync::Arc::new(());
    let guard = AgentExecutionGuard::new(permit.clone());
    assert_eq!(std::sync::Arc::strong_count(&permit), 2);
    drop(guard);
    assert_eq!(std::sync::Arc::strong_count(&permit), 1);
}

#[test]
fn tool_arguments_become_requests() {
    let args = |context_policy: Option<ContextReductionPolicyArgs>, inherit, reset| {
        SetAgentContextPolicyArgs {
            target: "worker".to_string(),
            context_policy,
            inherit_to_children: inherit,
            reset,
        }
        .into_request()
    };
    let fields = ContextReductionPolicyArgs {
        enabled: Some(true),
        threshold_tokens: None,
        check_after_tools: None,
        shake: None,
        on_failure: Some(SubagentContextFailurePolicy::Stop),
    };
    let update = args(Some(fields), None, false).expect("an update");
    assert_eq!(update.target, "worker");
    assert!(update.inherit_to_children && !update.reset);
    assert_eq!(update.patch.enabled, Some(true));
    assert_eq!(
        update.patch.on_failure,
        Some(SubagentContextFailurePolicy::Stop)
    );
    let reset = args(None, Some(false), true).expect("a reset");
    assert!(!reset.inherit_to_children && reset.reset);
    assert_eq!(reset.patch, SubagentContextReductionOverrides::default());
    for refused in [args(Some(fields), None, true), args(None, None, false)] {
        assert_eq!(
            refused,
            Err(
                "provide context_policy fields for an update, or set reset=true without fields"
                    .to_string()
            )
        );
    }
}

#[test]
fn overrides_are_moved_into_an_update() {
    let overrides = ThreadSettingsOverrides {
        environments: Some(vec!["local".to_string()]),
        runtime_workspace_roots: None,
        profile_workspace_roots: None,
        approval_policy: Some("never".to_string()),
        approvals_reviewer: None,
        sandbox_policy: None,
        permission_profile: None,
        active_permission_profile: None,
        windows_sandbox_level: None,
        model: Some("gpt-6-astra".to_string()),
        effort: Some(None),
        summary: Some("auto".to_string()),
        service_tier: None,
        collaboration_mode: None,
        personality: None,
        disabled_plugin_ids: Some(Vec::new()),
    };
    let update = prepare_update(overrides);
    assert_eq!(update.step_settings.model.as_deref(), Some("gpt-6-astra"));
    assert_eq!(update.step_settings.effort, Some(None));
    assert_eq!(
        update.step_settings.reasoning_summary.as_deref(),
        Some("auto")
    );
    assert_eq!(
        update.step_settings.approval_policy.as_deref(),
        Some("never")
    );
    assert_eq!(update.environments, Some(vec!["local".to_string()]));
    assert_eq!(update.disabled_plugin_ids, Some(Vec::new()));
    assert_eq!(update.subagent_context_reduction_policy, None);
}
