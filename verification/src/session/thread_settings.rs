//! Changing the settings of a thread, and keeping them.

use vstd::prelude::*;
use vstd::string::*;

use crate::agent::context_policy;
use crate::agent::context_policy::SubagentContextReductionOverrides;
use crate::agent::context_policy::SubagentContextReductionPolicyState;
use crate::agent::policy_laws::gives_nothing;
use crate::agent::policy_laws::overlaid;

verus! {

/// Why settings are refused.
#[derive(Debug, PartialEq, Eq)]
pub enum ThreadSettingsError {
    InvalidRequest(String),
    /// The thread cannot do this.
    Unsupported(&'static str),
}

/// Where a thread is kept.
#[derive(Clone, Copy, Debug, PartialEq, Eq, Structural)]
pub struct ThreadStorage {
    /// The thread is written to a store as it runs.
    pub live: bool,
    /// The thread is not meant to be kept.
    pub ephemeral: bool,
}

/// Settings can be made on a thread: it is written to a store, or it is not
/// meant to be kept.
pub open spec fn takes_settings(storage: ThreadStorage) -> bool {
    storage.live || storage.ephemeral
}

/// A policy to put in force. Where it is kept, it is stored first.
#[derive(Clone, Copy, Debug, PartialEq, Eq, Structural)]
pub struct PolicyUpdate {
    pub policy: SubagentContextReductionPolicyState,
    pub persist: bool,
}

/// A policy after a change.
pub open spec fn changed_policy(
    current: Option<SubagentContextReductionPolicyState>,
    patch: SubagentContextReductionOverrides,
    inherit_to_children: bool,
    reset: bool,
) -> SubagentContextReductionPolicyState {
    let base = match current {
        Some(state) => state,
        None => context_policy::empty_state(),
    };
    if reset {
        context_policy::reset(base)
    } else {
        context_policy::updated(base, patch, inherit_to_children)
    }
}

/// Plans a change of an agent's policy.
pub fn update_subagent_context_reduction_policy(
    current: Option<SubagentContextReductionPolicyState>,
    patch: SubagentContextReductionOverrides,
    inherit_to_children: bool,
    reset: bool,
    storage: ThreadStorage,
) -> (r: Result<PolicyUpdate, ThreadSettingsError>)
    ensures
        match r {
            Ok(update) => {
                &&& context_policy::valid_overrides(patch)
                &&& takes_settings(storage)
                &&& update.policy == changed_policy(current, patch, inherit_to_children, reset)
                &&& update.persist == storage.live
            },
            Err(ThreadSettingsError::InvalidRequest(message)) => {
                &&& !context_policy::valid_overrides(patch)
                &&& message@ == context_policy::threshold_message()
            },
            Err(ThreadSettingsError::Unsupported(operation)) => {
                &&& context_policy::valid_overrides(patch)
                &&& !takes_settings(storage)
                &&& operation@ == "persistent_thread_settings"@
            },
        },
{
    if let Err(message) = context_policy::validate_overrides(&patch) {
        return Err(ThreadSettingsError::InvalidRequest(message));
    }
    let mut policy = match current {
        Some(state) => state,
        None => SubagentContextReductionPolicyState::default(),
    };
    if reset {
        context_policy::reset_local(&mut policy);
    } else {
        context_policy::update_local(&mut policy, patch, inherit_to_children);
    }
    if !storage.live && !storage.ephemeral {
        return Err(ThreadSettingsError::Unsupported("persistent_thread_settings"));
    }
    Ok(PolicyUpdate { policy, persist: storage.live })
}

/// What is answered once a change is in force: the revision of the policy, the
/// revision that the agent last went by, and whether the policy is kept.
#[derive(Clone, Copy, Debug, PartialEq, Eq, Structural)]
pub struct SetAgentContextPolicyResult {
    pub desired_revision: u64,
    pub applied_revision: Option<u64>,
    pub persisted: bool,
}

impl PolicyUpdate {
    /// The answer to a change.
    pub fn result(&self, applied_revision: Option<u64>) -> (result: SetAgentContextPolicyResult)
        ensures
            result == (SetAgentContextPolicyResult {
                desired_revision: self.policy.desired_revision,
                applied_revision,
                persisted: self.persist,
            }),
    {
        SetAgentContextPolicyResult {
            desired_revision: self.policy.desired_revision,
            applied_revision,
            persisted: self.persist,
        }
    }
}

/// Plans the policy of a new child, before its first input.
pub fn install_subagent_context_reduction_policy(
    policy: SubagentContextReductionPolicyState,
    storage: ThreadStorage,
) -> (r: Result<PolicyUpdate, ThreadSettingsError>)
    ensures
        match r {
            Ok(update) => {
                &&& context_policy::valid_state(policy)
                &&& takes_settings(storage)
                &&& update == (PolicyUpdate { policy, persist: storage.live })
            },
            Err(ThreadSettingsError::InvalidRequest(message)) => {
                &&& !context_policy::valid_state(policy)
                &&& message@ == context_policy::threshold_message()
            },
            Err(ThreadSettingsError::Unsupported(operation)) => {
                &&& context_policy::valid_state(policy)
                &&& !takes_settings(storage)
                &&& operation@ == "persistent_thread_settings"@
            },
        },
{
    if let Err(message) = context_policy::validate_state(&policy) {
        return Err(ThreadSettingsError::InvalidRequest(message));
    }
    if !storage.live && !storage.ephemeral {
        return Err(ThreadSettingsError::Unsupported("persistent_thread_settings"));
    }
    Ok(PolicyUpdate { policy, persist: storage.live })
}

/// Settings of a thread that a request gives, each in the form in which the
/// request has it.
#[derive(Debug, PartialEq, Eq)]
pub struct ThreadSettingsOverrides {
    pub environments: Option<Vec<String>>,
    pub runtime_workspace_roots: Option<Vec<String>>,
    pub profile_workspace_roots: Option<Vec<String>>,
    pub approval_policy: Option<String>,
    pub approvals_reviewer: Option<String>,
    pub sandbox_policy: Option<String>,
    pub permission_profile: Option<String>,
    pub active_permission_profile: Option<String>,
    pub windows_sandbox_level: Option<String>,
    pub model: Option<String>,
    pub effort: Option<Option<String>>,
    pub summary: Option<String>,
    pub service_tier: Option<Option<String>>,
    pub collaboration_mode: Option<String>,
    pub personality: Option<String>,
    pub disabled_plugin_ids: Option<Vec<String>>,
}

/// Settings that hold from one step of a turn to the next.
#[derive(Debug, PartialEq, Eq)]
pub struct StepSettingsUpdate {
    pub model: Option<String>,
    pub effort: Option<Option<String>>,
    pub collaboration_mode: Option<String>,
    pub reasoning_summary: Option<String>,
    pub service_tier: Option<Option<String>>,
    pub personality: Option<String>,
    pub approval_policy: Option<String>,
    pub approvals_reviewer: Option<String>,
}

/// A change of a session's settings.
#[derive(Debug, PartialEq, Eq)]
pub struct SessionSettingsUpdate {
    pub step_settings: StepSettingsUpdate,
    pub environments: Option<Vec<String>>,
    pub runtime_workspace_roots: Option<Vec<String>>,
    pub profile_workspace_roots: Option<Vec<String>>,
    pub sandbox_policy: Option<String>,
    pub permission_profile: Option<String>,
    pub active_permission_profile: Option<String>,
    pub windows_sandbox_level: Option<String>,
    pub disabled_plugin_ids: Option<Vec<String>>,
    pub subagent_context_reduction_policy: Option<SubagentContextReductionPolicyState>,
}

/// The change that a request asks for. It leaves the policy for the context as
/// it is.
pub fn prepare_update(overrides: ThreadSettingsOverrides) -> (update: SessionSettingsUpdate)
    ensures
        update == (SessionSettingsUpdate {
            step_settings: StepSettingsUpdate {
                model: overrides.model,
                effort: overrides.effort,
                collaboration_mode: overrides.collaboration_mode,
                reasoning_summary: overrides.summary,
                service_tier: overrides.service_tier,
                personality: overrides.personality,
                approval_policy: overrides.approval_policy,
                approvals_reviewer: overrides.approvals_reviewer,
            },
            environments: overrides.environments,
            runtime_workspace_roots: overrides.runtime_workspace_roots,
            profile_workspace_roots: overrides.profile_workspace_roots,
            sandbox_policy: overrides.sandbox_policy,
            permission_profile: overrides.permission_profile,
            active_permission_profile: overrides.active_permission_profile,
            windows_sandbox_level: overrides.windows_sandbox_level,
            disabled_plugin_ids: overrides.disabled_plugin_ids,
            subagent_context_reduction_policy: None,
        }),
{
    SessionSettingsUpdate {
        step_settings: StepSettingsUpdate {
            model: overrides.model,
            effort: overrides.effort,
            collaboration_mode: overrides.collaboration_mode,
            reasoning_summary: overrides.summary,
            service_tier: overrides.service_tier,
            personality: overrides.personality,
            approval_policy: overrides.approval_policy,
            approvals_reviewer: overrides.approvals_reviewer,
        },
        environments: overrides.environments,
        runtime_workspace_roots: overrides.runtime_workspace_roots,
        profile_workspace_roots: overrides.profile_workspace_roots,
        sandbox_policy: overrides.sandbox_policy,
        permission_profile: overrides.permission_profile,
        active_permission_profile: overrides.active_permission_profile,
        windows_sandbox_level: overrides.windows_sandbox_level,
        disabled_plugin_ids: overrides.disabled_plugin_ids,
        subagent_context_reduction_policy: None,
    }
}

/// What follows a change of settings.
#[derive(Debug, PartialEq, Eq)]
pub enum UpdateReport {
    /// Tell the client that its request was bad.
    BadRequest(String),
    /// The change stands in for the continuation of the last turn.
    ForgetStartedTurn,
}

/// What follows a change of settings that was made, or refused with an error.
pub fn report_update(result: Result<(), String>) -> (report: UpdateReport)
    ensures
        match (result, report) {
            (Ok(_), UpdateReport::ForgetStartedTurn) => true,
            (Err(error), UpdateReport::BadRequest(message)) => message@
                == "invalid thread settings override: "@ + error@,
            _ => false,
        },
{
    match result {
        Ok(_) => UpdateReport::ForgetStartedTurn,
        Err(error) => {
            let mut message = "invalid thread settings override: ".to_owned();
            message.append(error.as_str());
            UpdateReport::BadRequest(message)
        },
    }
}

/// Only a thread that is neither stored nor meant to be dropped takes no
/// settings.
pub proof fn law_threads_that_take_settings(live: bool, ephemeral: bool)
    ensures
        takes_settings(ThreadStorage { live, ephemeral }) == !(!live && !ephemeral),
{
}

/// A change starts from the policy that is in force, and from none where there
/// is none. It keeps what was inherited; a reset takes back all that was set,
/// and any other change sets what it gives.
pub proof fn law_changes_of_a_policy(
    state: SubagentContextReductionPolicyState,
    patch: SubagentContextReductionOverrides,
    inherit_to_children: bool,
)
    ensures
        ({
            let after = changed_policy(Some(state), patch, inherit_to_children, true);
            &&& after.inherited == state.inherited
            &&& gives_nothing(after.local)
            &&& gives_nothing(after.inheritable)
            &&& state.desired_revision < u64::MAX ==> after.desired_revision
                == state.desired_revision + 1
        }),
        ({
            let after = changed_policy(Some(state), patch, inherit_to_children, false);
            &&& after.inherited == state.inherited
            &&& overlaid(state.local.enabled, patch.enabled, after.local.enabled)
            &&& overlaid(
                state.local.threshold_tokens,
                patch.threshold_tokens,
                after.local.threshold_tokens,
            )
            &&& overlaid(
                state.local.check_after_tools,
                patch.check_after_tools,
                after.local.check_after_tools,
            )
            &&& overlaid(state.local.shake, patch.shake, after.local.shake)
            &&& overlaid(state.local.on_failure, patch.on_failure, after.local.on_failure)
            &&& state.desired_revision < u64::MAX ==> after.desired_revision
                == state.desired_revision + 1
        }),
        changed_policy(Some(state), patch, true, false).inheritable.enabled == (
        if patch.enabled is Some {
            patch.enabled
        } else {
            state.inheritable.enabled
        }),
        changed_policy(Some(state), patch, false, false).inheritable.enabled == (
        if patch.enabled is Some {
            None
        } else {
            state.inheritable.enabled
        }),
        ({
            let after = changed_policy(None, patch, inherit_to_children, false);
            &&& gives_nothing(after.inherited)
            &&& after.local == patch
            &&& inherit_to_children ==> after.inheritable == patch
            &&& !inherit_to_children ==> gives_nothing(after.inheritable)
            &&& after.desired_revision == 1
        }),
        ({
            let after = changed_policy(None, patch, inherit_to_children, true);
            &&& gives_nothing(after.inherited)
            &&& gives_nothing(after.local)
            &&& gives_nothing(after.inheritable)
            &&& after.desired_revision == 1
        }),
{
}

} // verus!
