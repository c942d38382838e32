//! What the layers of a policy come to, setting by setting.

use vstd::prelude::*;
use vstd::string::*;

use crate::agent::context_policy::child_state;
use crate::agent::context_policy::empty_state;
use crate::agent::context_policy::handed_down;
use crate::agent::context_policy::no_overrides;
use crate::agent::context_policy::reset;
use crate::agent::context_policy::resolved;
use crate::agent::context_policy::threshold_message;
use crate::agent::context_policy::updated;
use crate::agent::context_policy::valid_overrides;
use crate::agent::context_policy::valid_state;
use crate::agent::context_policy::PolicyProvenance;
use crate::agent::context_policy::SubagentContextFailurePolicy;
use crate::agent::context_policy::SubagentContextReductionOverrides;
use crate::agent::context_policy::SubagentContextReductionPolicyState;
use crate::agent::context_policy::SubagentContextShakePolicy;
use crate::config::SubagentContextReductionConfig;
use crate::config::SubagentContextReductionOnFailure;
use crate::config::SubagentContextReductionShake;

verus! {

/// `value` is the agent's own setting, else the inherited one, else the
/// configured one, and `from` says which.
pub open spec fn comes_from<T>(
    own: Option<T>,
    given: Option<T>,
    configured: T,
    value: T,
    from: PolicyProvenance,
) -> bool {
    match from {
        PolicyProvenance::Local => own == Some(value),
        PolicyProvenance::Inherited => own is None && given == Some(value),
        PolicyProvenance::Config => own is None && given is None && value == configured,
    }
}

/// The two words for how an agent is shaken mean the same.
pub open spec fn same_shake(
    a: SubagentContextShakePolicy,
    b: SubagentContextReductionShake,
) -> bool {
    &&& a is Inherit == b is Inherit
    &&& a is On == b is On
    &&& a is Off == b is Off
}

/// The two words for what an agent does after a failure mean the same.
pub open spec fn same_failure(
    a: SubagentContextFailurePolicy,
    b: SubagentContextReductionOnFailure,
) -> bool {
    &&& a is Stop == b is Stop
    &&& a is Continue == b is Continue
}

/// Each setting of a policy is the agent's own, else the inherited one, else the
/// configured one, and the policy says which.
pub proof fn law_settings_come_from_the_nearest_layer(
    state: SubagentContextReductionPolicyState,
    config: SubagentContextReductionConfig,
)
    ensures
        ({
            let own = state.local;
            let given = state.inherited;
            let policy = resolved(state, config);
            &&& comes_from(
                own.enabled,
                given.enabled,
                config.enabled,
                policy.enabled,
                policy.enabled_from,
            )
            &&& comes_from(
                own.threshold_tokens,
                given.threshold_tokens,
                config.threshold_tokens,
                policy.threshold_tokens,
                policy.threshold_tokens_from,
            )
            &&& comes_from(
                own.check_after_tools,
                given.check_after_tools,
                config.check_after_tools,
                policy.check_after_tools,
                policy.check_after_tools_from,
            )
            &&& match policy.shake_from {
                PolicyProvenance::Local => own.shake matches Some(value) && same_shake(
                    value,
                    policy.shake,
                ),
                PolicyProvenance::Inherited => own.shake is None && (given.shake matches Some(value)
                    && same_shake(value, policy.shake)),
                PolicyProvenance::Config => own.shake is None && given.shake is None && policy.shake
                    == config.shake,
            }
            &&& match policy.on_failure_from {
                PolicyProvenance::Local => own.on_failure matches Some(value) && same_failure(
                    value,
                    policy.on_failure,
                ),
                PolicyProvenance::Inherited => own.on_failure is None && (
                given.on_failure matches Some(value) && same_failure(value, policy.on_failure)),
                PolicyProvenance::Config => own.on_failure is None && given.on_failure is None
                    && policy.on_failure == config.on_failure,
            }
        }),
{
}

/// `after` is `patch` where it says something, and `before` where not.
pub open spec fn overlaid<T>(before: Option<T>, patch: Option<T>, after: Option<T>) -> bool {
    after == match patch {
        Some(value) => Some(value),
        None => before,
    }
}

/// `after` is nothing where `patch` says something, and `before` where not.
pub open spec fn taken_back<T>(before: Option<T>, patch: Option<T>, after: Option<T>) -> bool {
    after == match patch {
        Some(_) => None,
        None => before,
    }
}

/// A change makes the settings that it gives, one by one, and leaves the others.
/// What children get of them follows, or is taken back. Nothing that was
/// inherited changes.
pub proof fn law_changes_touch_what_they_give(
    state: SubagentContextReductionPolicyState,
    patch: SubagentContextReductionOverrides,
)
    ensures
        ({
            let (a, b) = (state.local, updated(state, patch, true).local);
            &&& overlaid(a.enabled, patch.enabled, b.enabled)
            &&& overlaid(a.threshold_tokens, patch.threshold_tokens, b.threshold_tokens)
            &&& overlaid(a.check_after_tools, patch.check_after_tools, b.check_after_tools)
            &&& overlaid(a.shake, patch.shake, b.shake)
            &&& overlaid(a.on_failure, patch.on_failure, b.on_failure)
        }),
        updated(state, patch, false).local == updated(state, patch, true).local,
        ({
            let (a, b) = (state.inheritable, updated(state, patch, true).inheritable);
            &&& overlaid(a.enabled, patch.enabled, b.enabled)
            &&& overlaid(a.threshold_tokens, patch.threshold_tokens, b.threshold_tokens)
            &&& overlaid(a.check_after_tools, patch.check_after_tools, b.check_after_tools)
            &&& overlaid(a.shake, patch.shake, b.shake)
            &&& overlaid(a.on_failure, patch.on_failure, b.on_failure)
        }),
        ({
            let (a, b) = (state.inheritable, updated(state, patch, false).inheritable);
            &&& taken_back(a.enabled, patch.enabled, b.enabled)
            &&& taken_back(a.threshold_tokens, patch.threshold_tokens, b.threshold_tokens)
            &&& taken_back(a.check_after_tools, patch.check_after_tools, b.check_after_tools)
            &&& taken_back(a.shake, patch.shake, b.shake)
            &&& taken_back(a.on_failure, patch.on_failure, b.on_failure)
        }),
        updated(state, patch, true).inherited == state.inherited,
        updated(state, patch, false).inherited == state.inherited,
        updated(state, patch, false).desired_revision == updated(
            state,
            patch,
            true,
        ).desired_revision,
        state.desired_revision == u64::MAX ==> updated(state, patch, true).desired_revision
            == u64::MAX && reset(state).desired_revision == u64::MAX,
{
}

/// Nothing is given.
pub open spec fn gives_nothing(overrides: SubagentContextReductionOverrides) -> bool {
    &&& overrides.enabled is None
    &&& overrides.threshold_tokens is None
    &&& overrides.check_after_tools is None
    &&& overrides.shake is None
    &&& overrides.on_failure is None
}

/// A reset takes back what was set on the agent, and what children get of it.
pub proof fn law_resets_keep_only_what_was_inherited(state: SubagentContextReductionPolicyState)
    ensures
        gives_nothing(reset(state).local),
        gives_nothing(reset(state).inheritable),
        reset(state).inherited == state.inherited,
        gives_nothing(no_overrides()),
        gives_nothing(empty_state().local),
        gives_nothing(empty_state().inherited),
        gives_nothing(empty_state().inheritable),
        empty_state().desired_revision == 0,
{
}

/// A child inherits what its parent has for children, setting by setting: the
/// parent's own value before the one that the parent inherited. What it is
/// spawned with is its own, and goes to its children only if it is meant to.
pub proof fn law_children_start_with_what_they_are_given(
    parent: SubagentContextReductionPolicyState,
    patch: SubagentContextReductionOverrides,
)
    ensures
        ({
            let (a, b) = (parent.inherited, parent.inheritable);
            let c = child_state(parent, patch, true).inherited;
            &&& overlaid(a.enabled, b.enabled, c.enabled)
            &&& overlaid(a.threshold_tokens, b.threshold_tokens, c.threshold_tokens)
            &&& overlaid(a.check_after_tools, b.check_after_tools, c.check_after_tools)
            &&& overlaid(a.shake, b.shake, c.shake)
            &&& overlaid(a.on_failure, b.on_failure, c.on_failure)
            &&& c == handed_down(parent)
            &&& c == child_state(parent, patch, false).inherited
        }),
        child_state(parent, patch, true).local == patch,
        child_state(parent, patch, false).local == patch,
        child_state(parent, patch, true).inheritable == patch,
        gives_nothing(child_state(parent, patch, false).inheritable),
        child_state(parent, patch, true).desired_revision == 1,
        child_state(parent, patch, false).desired_revision == 1,
{
}

/// Only a threshold that is not positive is refused, in any layer.
pub proof fn law_thresholds_of_policies_are_positive(
    state: SubagentContextReductionPolicyState,
    overrides: SubagentContextReductionOverrides,
)
    ensures
        valid_overrides(overrides) == !(overrides.threshold_tokens matches Some(tokens) && tokens
            <= 0),
        valid_state(state) == !((state.inherited.threshold_tokens matches Some(tokens) && tokens
            <= 0) || (state.local.threshold_tokens matches Some(tokens) && tokens <= 0) || (
        state.inheritable.threshold_tokens matches Some(tokens) && tokens <= 0)),
        threshold_message() == "subagent context threshold_tokens must be positive"@,
{
}

} // verus!
