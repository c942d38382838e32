//! The policy for the context of an agent: how it is put together from the
//! configuration, from the agent's ancestors, and from the agent itself.

use vstd::prelude::*;

use crate::config::SubagentContextReductionConfig;
use crate::config::SubagentContextReductionOnFailure;
use crate::config::SubagentContextReductionShake;

verus! {

/// Where a setting of a policy comes from.
#[derive(Clone, Copy, Debug, PartialEq, Eq, Structural)]
pub enum PolicyProvenance {
    Config,
    Inherited,
    Local,
}

impl PolicyProvenance {
    /// The machine-readable name.
    pub fn as_str(self) -> (name: &'static str)
        ensures
            name@ == match self {
                PolicyProvenance::Config => "config"@,
                PolicyProvenance::Inherited => "inherited"@,
                PolicyProvenance::Local => "local"@,
            },
    {
        match self {
            PolicyProvenance::Config => "config",
            PolicyProvenance::Inherited => "inherited",
            PolicyProvenance::Local => "local",
        }
    }
}

/// How an agent is shaken, as its parent or a tool says it.
#[derive(Clone, Copy, Debug, PartialEq, Eq, Structural)]
pub enum SubagentContextShakePolicy {
    Inherit,
    On,
    Off,
}

/// What an agent does after a failure, as its parent or a tool says it.
#[derive(Clone, Copy, Debug, PartialEq, Eq, Structural)]
pub enum SubagentContextFailurePolicy {
    Stop,
    Continue,
}

/// Settings that may each be given or left open.
#[derive(Clone, Copy, Debug, PartialEq, Eq, Structural)]
pub struct SubagentContextReductionOverrides {
    pub enabled: Option<bool>,
    pub threshold_tokens: Option<i64>,
    pub check_after_tools: Option<bool>,
    pub shake: Option<SubagentContextShakePolicy>,
    pub on_failure: Option<SubagentContextFailurePolicy>,
}

/// No setting is given.
pub open spec fn no_overrides() -> SubagentContextReductionOverrides {
    SubagentContextReductionOverrides {
        enabled: None,
        threshold_tokens: None,
        check_after_tools: None,
        shake: None,
        on_failure: None,
    }
}

impl Default for SubagentContextReductionOverrides {
    fn default() -> (overrides: Self)
        ensures
            overrides == no_overrides(),
    {
        SubagentContextReductionOverrides {
            enabled: None,
            threshold_tokens: None,
            check_after_tools: None,
            shake: None,
            on_failure: None,
        }
    }
}

/// The layers of an agent's policy.
#[derive(Clone, Copy, Debug, PartialEq, Eq, Structural)]
pub struct SubagentContextReductionPolicyState {
    /// What the agent was given by its ancestors.
    pub inherited: SubagentContextReductionOverrides,
    /// What was set on the agent itself.
    pub local: SubagentContextReductionOverrides,
    /// The part of `local` that new children get.
    pub inheritable: SubagentContextReductionOverrides,
    /// Grows with every change.
    pub desired_revision: u64,
}

/// No layer says anything.
pub open spec fn empty_state() -> SubagentContextReductionPolicyState {
    SubagentContextReductionPolicyState {
        inherited: no_overrides(),
        local: no_overrides(),
        inheritable: no_overrides(),
        desired_revision: 0,
    }
}

impl Default for SubagentContextReductionPolicyState {
    fn default() -> (state: Self)
        ensures
            state == empty_state(),
    {
        SubagentContextReductionPolicyState {
            inherited: SubagentContextReductionOverrides::default(),
            local: SubagentContextReductionOverrides::default(),
            inheritable: SubagentContextReductionOverrides::default(),
            desired_revision: 0,
        }
    }
}

/// A policy with all its settings, and where each comes from.
#[derive(Clone, Copy, Debug, PartialEq, Eq, Structural)]
pub struct ResolvedSubagentContextPolicy {
    pub enabled: bool,
    pub threshold_tokens: i64,
    pub check_after_tools: bool,
    pub shake: SubagentContextReductionShake,
    pub on_failure: SubagentContextReductionOnFailure,
    pub enabled_from: PolicyProvenance,
    pub threshold_tokens_from: PolicyProvenance,
    pub check_after_tools_from: PolicyProvenance,
    pub shake_from: PolicyProvenance,
    pub on_failure_from: PolicyProvenance,
}

/// What the tools that spawn an agent or change its policy are given.
#[derive(Clone, Copy, Debug, PartialEq, Eq, Structural)]
pub struct ContextReductionPolicyArgs {
    pub enabled: Option<bool>,
    pub threshold_tokens: Option<i64>,
    pub check_after_tools: Option<bool>,
    pub shake: Option<SubagentContextShakePolicy>,
    pub on_failure: Option<SubagentContextFailurePolicy>,
}

impl ContextReductionPolicyArgs {
    /// The settings that the arguments give.
    pub fn into_overrides(self) -> (overrides: SubagentContextReductionOverrides)
        ensures
            overrides == (SubagentContextReductionOverrides {
                enabled: self.enabled,
                threshold_tokens: self.threshold_tokens,
                check_after_tools: self.check_after_tools,
                shake: self.shake,
                on_failure: self.on_failure,
            }),
    {
        SubagentContextReductionOverrides {
            enabled: self.enabled,
            threshold_tokens: self.threshold_tokens,
            check_after_tools: self.check_after_tools,
            shake: self.shake,
            on_failure: self.on_failure,
        }
    }
}

/// The first value that is given.
pub open spec fn first_given<T>(first: Option<T>, second: Option<T>) -> Option<T> {
    if first is Some {
        first
    } else {
        second
    }
}

/// `base` with each setting that `next` gives put in its place.
pub open spec fn merged(
    base: SubagentContextReductionOverrides,
    next: SubagentContextReductionOverrides,
) -> SubagentContextReductionOverrides {
    SubagentContextReductionOverrides {
        enabled: first_given(next.enabled, base.enabled),
        threshold_tokens: first_given(next.threshold_tokens, base.threshold_tokens),
        check_after_tools: first_given(next.check_after_tools, base.check_after_tools),
        shake: first_given(next.shake, base.shake),
        on_failure: first_given(next.on_failure, base.on_failure),
    }
}

/// `value`, unless `taken` gives one.
pub open spec fn unless_given<T>(taken: Option<T>, value: Option<T>) -> Option<T> {
    if taken is Some {
        None
    } else {
        value
    }
}

/// `base` without the settings that `patch` gives.
pub open spec fn without(
    base: SubagentContextReductionOverrides,
    patch: SubagentContextReductionOverrides,
) -> SubagentContextReductionOverrides {
    SubagentContextReductionOverrides {
        enabled: unless_given(patch.enabled, base.enabled),
        threshold_tokens: unless_given(patch.threshold_tokens, base.threshold_tokens),
        check_after_tools: unless_given(patch.check_after_tools, base.check_after_tools),
        shake: unless_given(patch.shake, base.shake),
        on_failure: unless_given(patch.on_failure, base.on_failure),
    }
}

fn merge_overrides(
    target: &mut SubagentContextReductionOverrides,
    next: SubagentContextReductionOverrides,
)
    ensures
        *final(target) == merged(*old(target), next),
{
    if next.enabled.is_some() {
        target.enabled = next.enabled;
    }
    if next.threshold_tokens.is_some() {
        target.threshold_tokens = next.threshold_tokens;
    }
    if next.check_after_tools.is_some() {
        target.check_after_tools = next.check_after_tools;
    }
    if next.shake.is_some() {
        target.shake = next.shake;
    }
    if next.on_failure.is_some() {
        target.on_failure = next.on_failure;
    }
}

fn clear_overridden_fields(
    target: &mut SubagentContextReductionOverrides,
    patch: &SubagentContextReductionOverrides,
)
    ensures
        *final(target) == without(*old(target), *patch),
{
    if patch.enabled.is_some() {
        target.enabled = None;
    }
    if patch.threshold_tokens.is_some() {
        target.threshold_tokens = None;
    }
    if patch.check_after_tools.is_some() {
        target.check_after_tools = None;
    }
    if patch.shake.is_some() {
        target.shake = None;
    }
    if patch.on_failure.is_some() {
        target.on_failure = None;
    }
}

/// What new children of an agent inherit.
pub open spec fn handed_down(state: SubagentContextReductionPolicyState) ->
    SubagentContextReductionOverrides {
    merged(state.inherited, state.inheritable)
}

/// What new children of an agent inherit.
pub fn inherited_by_children(state: &SubagentContextReductionPolicyState) -> (inherited:
    SubagentContextReductionOverrides)
    ensures
        inherited == handed_down(*state),
{
    let mut inherited = state.inherited;
    merge_overrides(&mut inherited, state.inheritable);
    inherited
}

/// The revision after a change.
pub open spec fn next_revision(revision: u64) -> u64 {
    if revision == u64::MAX {
        u64::MAX
    } else {
        (revision + 1) as u64
    }
}

/// A state after the settings `patch` were made on the agent. Unless they are
/// meant for new children too, children no longer get an earlier value of them.
pub open spec fn updated(
    state: SubagentContextReductionPolicyState,
    patch: SubagentContextReductionOverrides,
    inherit_to_children: bool,
) -> SubagentContextReductionPolicyState {
    SubagentContextReductionPolicyState {
        inherited: state.inherited,
        local: merged(state.local, patch),
        inheritable: if inherit_to_children {
            merged(state.inheritable, patch)
        } else {
            without(state.inheritable, patch)
        },
        desired_revision: next_revision(state.desired_revision),
    }
}

/// Makes settings on an agent.
pub fn update_local(
    state: &mut SubagentContextReductionPolicyState,
    patch: SubagentContextReductionOverrides,
    inherit_to_children: bool,
)
    ensures
        *final(state) == updated(*old(state), patch, inherit_to_children),
{
    merge_overrides(&mut state.local, patch);
    if inherit_to_children {
        merge_overrides(&mut state.inheritable, patch);
    } else {
        clear_overridden_fields(&mut state.inheritable, &patch);
    }
    state.desired_revision = state.desired_revision.saturating_add(1);
}

/// A state after what was set on the agent is taken back.
pub open spec fn reset(state: SubagentContextReductionPolicyState) ->
    SubagentContextReductionPolicyState {
    SubagentContextReductionPolicyState {
        inherited: state.inherited,
        local: no_overrides(),
        inheritable: no_overrides(),
        desired_revision: next_revision(state.desired_revision),
    }
}

/// Takes back what was set on an agent. What it inherited stays.
pub fn reset_local(state: &mut SubagentContextReductionPolicyState)
    ensures
        *final(state) == reset(*old(state)),
{
    state.local = SubagentContextReductionOverrides::default();
    state.inheritable = SubagentContextReductionOverrides::default();
    state.desired_revision = state.desired_revision.saturating_add(1);
}

/// The policy of a new child.
pub open spec fn child_state(
    parent: SubagentContextReductionPolicyState,
    patch: SubagentContextReductionOverrides,
    inherit_to_children: bool,
) -> SubagentContextReductionPolicyState {
    updated(
        SubagentContextReductionPolicyState { inherited: handed_down(parent), ..empty_state() },
        patch,
        inherit_to_children,
    )
}

/// The policy of a new child, from what it inherits and what it is spawned with.
pub fn for_child(
    parent: &SubagentContextReductionPolicyState,
    patch: SubagentContextReductionOverrides,
    inherit_to_children: bool,
) -> (child: SubagentContextReductionPolicyState)
    ensures
        child == child_state(*parent, patch, inherit_to_children),
{
    let mut child = SubagentContextReductionPolicyState::default();
    child.inherited = inherited_by_children(parent);
    update_local(&mut child, patch, inherit_to_children);
    child
}

/// The value of a setting: the agent's own, else the inherited one, else the
/// configured one.
pub open spec fn setting<T>(local: Option<T>, inherited: Option<T>, configured: T) -> T {
    match first_given(local, inherited) {
        Some(value) => value,
        None => configured,
    }
}

/// Where the value of a setting comes from.
pub open spec fn setting_from<T>(local: Option<T>, inherited: Option<T>) -> PolicyProvenance {
    if local is Some {
        PolicyProvenance::Local
    } else if inherited is Some {
        PolicyProvenance::Inherited
    } else {
        PolicyProvenance::Config
    }
}

/// How an agent is shaken, as the configuration says it.
pub open spec fn configured_shake(value: SubagentContextShakePolicy) ->
    SubagentContextReductionShake {
    match value {
        SubagentContextShakePolicy::Inherit => SubagentContextReductionShake::Inherit,
        SubagentContextShakePolicy::On => SubagentContextReductionShake::On,
        SubagentContextShakePolicy::Off => SubagentContextReductionShake::Off,
    }
}

/// What an agent does after a failure, as the configuration says it.
pub open spec fn configured_failure(value: SubagentContextFailurePolicy) ->
    SubagentContextReductionOnFailure {
    match value {
        SubagentContextFailurePolicy::Stop => SubagentContextReductionOnFailure::Stop,
        SubagentContextFailurePolicy::Continue => SubagentContextReductionOnFailure::Continue,
    }
}

/// A setting as the configuration says it, where it is given.
pub open spec fn shake_layer(value: Option<SubagentContextShakePolicy>) -> Option<
    SubagentContextReductionShake,
> {
    match value {
        Some(value) => Some(configured_shake(value)),
        None => None,
    }
}

/// A setting as the configuration says it, where it is given.
pub open spec fn failure_layer(value: Option<SubagentContextFailurePolicy>) -> Option<
    SubagentContextReductionOnFailure,
> {
    match value {
        Some(value) => Some(configured_failure(value)),
        None => None,
    }
}

/// The policy of an agent.
pub open spec fn resolved(
    state: SubagentContextReductionPolicyState,
    config: SubagentContextReductionConfig,
) -> ResolvedSubagentContextPolicy {
    let own = state.local;
    let given = state.inherited;
    ResolvedSubagentContextPolicy {
        enabled: setting(own.enabled, given.enabled, config.enabled),
        threshold_tokens: setting(
            own.threshold_tokens,
            given.threshold_tokens,
            config.threshold_tokens,
        ),
        check_after_tools: setting(
            own.check_after_tools,
            given.check_after_tools,
            config.check_after_tools,
        ),
        shake: setting(shake_layer(own.shake), shake_layer(given.shake), config.shake),
        on_failure: setting(
            failure_layer(own.on_failure),
            failure_layer(given.on_failure),
            config.on_failure,
        ),
        enabled_from: setting_from(own.enabled, given.enabled),
        threshold_tokens_from: setting_from(own.threshold_tokens, given.threshold_tokens),
        check_after_tools_from: setting_from(own.check_after_tools, given.check_after_tools),
        shake_from: setting_from(own.shake, given.shake),
        on_failure_from: setting_from(own.on_failure, given.on_failure),
    }
}

fn resolve_field<T: Copy>(local: Option<T>, inherited: Option<T>, configured: T) -> (r: (
    T,
    PolicyProvenance,
))
    ensures
        r.0 == setting(local, inherited, configured),
        r.1 == setting_from(local, inherited),
{
    if let Some(value) = local {
        (value, PolicyProvenance::Local)
    } else if let Some(value) = inherited {
        (value, PolicyProvenance::Inherited)
    } else {
        (configured, PolicyProvenance::Config)
    }
}

fn shake_from_protocol(value: Option<SubagentContextShakePolicy>) -> (shake: Option<
    SubagentContextReductionShake,
>)
    ensures
        shake == shake_layer(value),
{
    match value {
        Some(SubagentContextShakePolicy::Inherit) => Some(SubagentContextReductionShake::Inherit),
        Some(SubagentContextShakePolicy::On) => Some(SubagentContextReductionShake::On),
        Some(SubagentContextShakePolicy::Off) => Some(SubagentContextReductionShake::Off),
        None => None,
    }
}

fn failure_from_protocol(value: Option<SubagentContextFailurePolicy>) -> (on_failure: Option<
    SubagentContextReductionOnFailure,
>)
    ensures
        on_failure == failure_layer(value),
{
    match value {
        Some(SubagentContextFailurePolicy::Stop) => Some(SubagentContextReductionOnFailure::Stop),
        Some(SubagentContextFailurePolicy::Continue) => Some(
            SubagentContextReductionOnFailure::Continue,
        ),
        None => None,
    }
}

/// The policy of an agent, from the configuration, its ancestors and itself.
pub fn resolve(
    state: &SubagentContextReductionPolicyState,
    config: &SubagentContextReductionConfig,
) -> (policy: ResolvedSubagentContextPolicy)
    ensures
        policy == resolved(*state, *config),
{
    let (enabled, enabled_from) = resolve_field(
        state.local.enabled,
        state.inherited.enabled,
        config.enabled,
    );
    let (threshold_tokens, threshold_tokens_from) = resolve_field(
        state.local.threshold_tokens,
        state.inherited.threshold_tokens,
        config.threshold_tokens,
    );
    let (check_after_tools, check_after_tools_from) = resolve_field(
        state.local.check_after_tools,
        state.inherited.check_after_tools,
        config.check_after_tools,
    );
    let (shake, shake_from) = resolve_field(
        shake_from_protocol(state.local.shake),
        shake_from_protocol(state.inherited.shake),
        config.shake,
    );
    let (on_failure, on_failure_from) = resolve_field(
        failure_from_protocol(state.local.on_failure),
        failure_from_protocol(state.inherited.on_failure),
        config.on_failure,
    );
    ResolvedSubagentContextPolicy {
        enabled,
        threshold_tokens,
        check_after_tools,
        shake,
        on_failure,
        enabled_from,
        threshold_tokens_from,
        check_after_tools_from,
        shake_from,
        on_failure_from,
    }
}

/// The settings can be made: a threshold is positive.
pub open spec fn valid_overrides(overrides: SubagentContextReductionOverrides) -> bool {
    overrides.threshold_tokens matches Some(tokens) ==> tokens > 0
}

/// The message for a threshold that is not positive.
pub open spec fn threshold_message() -> Seq<char> {
    "subagent context threshold_tokens must be positive"@
}

/// Whether settings can be made.
pub fn validate_overrides(overrides: &SubagentContextReductionOverrides) -> (r: Result<(), String>)
    ensures
        match r {
            Ok(_) => valid_overrides(*overrides),
            Err(message) => !valid_overrides(*overrides) && message@ == threshold_message(),
        },
{
    match overrides.threshold_tokens {
        Some(tokens) if tokens <= 0 => Err(
            "subagent context threshold_tokens must be positive".to_owned(),
        ),
        _ => Ok(()),
    }
}

/// Every layer of a state can be made.
pub open spec fn valid_state(state: SubagentContextReductionPolicyState) -> bool {
    &&& valid_overrides(state.inherited)
    &&& valid_overrides(state.local)
    &&& valid_overrides(state.inheritable)
}

/// Whether a state can be installed.
pub fn validate_state(state: &SubagentContextReductionPolicyState) -> (r: Result<(), String>)
    ensures
        match r {
            Ok(_) => valid_state(*state),
            Err(message) => !valid_state(*state) && message@ == threshold_message(),
        },
{
    match validate_overrides(&state.inherited) {
        Err(message) => Err(message),
        Ok(_) => match validate_overrides(&state.local) {
            Err(message) => Err(message),
            Ok(_) => validate_overrides(&state.inheritable),
        },
    }
}

/// Whether a failure is to be reported: once for each revision of the policy.
pub fn should_report_failure_episode(reported_revision: Option<u64>, current_revision: u64) -> (r:
    bool)
    ensures
        r == (reported_revision != Some(current_revision)),
{
    match reported_revision {
        Some(revision) => revision != current_revision,
        None => true,
    }
}

/// Whether no setting is given.
pub fn overrides_are_empty(overrides: &SubagentContextReductionOverrides) -> (r: bool)
    ensures
        r == (*overrides == no_overrides()),
{
    overrides.enabled.is_none() && overrides.threshold_tokens.is_none()
        && overrides.check_after_tools.is_none() && overrides.shake.is_none()
        && overrides.on_failure.is_none()
}

/// What is set on an agent counts, whatever was said before and elsewhere.
pub proof fn law_local_settings_win(
    state: SubagentContextReductionPolicyState,
    patch: SubagentContextReductionOverrides,
    inherit_to_children: bool,
    config: SubagentContextReductionConfig,
)
    ensures
        ({
            let before = resolved(state, config);
            let after = resolved(updated(state, patch, inherit_to_children), config);
            &&& match patch.enabled {
                Some(value) => after.enabled == value && after.enabled_from
                    == PolicyProvenance::Local,
                None => after.enabled == before.enabled && after.enabled_from
                    == before.enabled_from,
            }
            &&& match patch.threshold_tokens {
                Some(value) => after.threshold_tokens == value && after.threshold_tokens_from
                    == PolicyProvenance::Local,
                None => after.threshold_tokens == before.threshold_tokens
                    && after.threshold_tokens_from == before.threshold_tokens_from,
            }
            &&& match patch.check_after_tools {
                Some(value) => after.check_after_tools == value && after.check_after_tools_from
                    == PolicyProvenance::Local,
                None => after.check_after_tools == before.check_after_tools
                    && after.check_after_tools_from == before.check_after_tools_from,
            }
            &&& match patch.shake {
                Some(value) => after.shake == configured_shake(value) && after.shake_from
                    == PolicyProvenance::Local,
                None => after.shake == before.shake && after.shake_from == before.shake_from,
            }
            &&& match patch.on_failure {
                Some(value) => after.on_failure == configured_failure(value)
                    && after.on_failure_from == PolicyProvenance::Local,
                None => after.on_failure == before.on_failure && after.on_failure_from
                    == before.on_failure_from,
            }
        }),
{
}

/// Taking back what was set on an agent leaves the policy that it had as it was
/// spawned without settings of its own, however often it was changed.
pub proof fn law_reset_restores_the_inherited_policy(
    state: SubagentContextReductionPolicyState,
    patch: SubagentContextReductionOverrides,
    inherit_to_children: bool,
    config: SubagentContextReductionConfig,
)
    ensures
        resolved(reset(state), config) == resolved(
            SubagentContextReductionPolicyState { inherited: state.inherited, ..empty_state() },
            config,
        ),
        reset(updated(state, patch, inherit_to_children)).inherited == state.inherited,
        handed_down(reset(state)) == state.inherited,
{
}

/// A setting for the agent alone reaches no child: for it, children get what
/// the agent itself inherited. Other settings are handed down as before.
pub proof fn law_own_settings_are_not_handed_down(
    state: SubagentContextReductionPolicyState,
    patch: SubagentContextReductionOverrides,
)
    ensures
        ({
            let before = handed_down(state);
            let after = handed_down(updated(state, patch, false));
            &&& after.enabled == (if patch.enabled is Some {
                state.inherited.enabled
            } else {
                before.enabled
            })
            &&& after.threshold_tokens == (if patch.threshold_tokens is Some {
                state.inherited.threshold_tokens
            } else {
                before.threshold_tokens
            })
            &&& after.check_after_tools == (if patch.check_after_tools is Some {
                state.inherited.check_after_tools
            } else {
                before.check_after_tools
            })
            &&& after.shake == (if patch.shake is Some {
                state.inherited.shake
            } else {
                before.shake
            })
            &&& after.on_failure == (if patch.on_failure is Some {
                state.inherited.on_failure
            } else {
                before.on_failure
            })
        }),
{
}

/// A setting that is meant for children reaches each new one, and changes
/// nothing else of what they get.
pub proof fn law_inheritable_settings_are_handed_down(
    state: SubagentContextReductionPolicyState,
    patch: SubagentContextReductionOverrides,
)
    ensures
        handed_down(updated(state, patch, true)) == merged(handed_down(state), patch),
        child_state(updated(state, patch, true), no_overrides(), true).inherited == merged(
            handed_down(state),
            patch,
        ),
{
}

/// A child that is spawned without settings has, and hands down, what its
/// parent hands down.
pub proof fn law_plain_children_pass_on_what_they_got(
    parent: SubagentContextReductionPolicyState,
    inherit_to_children: bool,
    config: SubagentContextReductionConfig,
)
    ensures
        ({
            let child = child_state(parent, no_overrides(), inherit_to_children);
            &&& handed_down(child) == handed_down(parent)
            &&& resolved(child, config) == resolved(
                SubagentContextReductionPolicyState {
                    inherited: handed_down(parent),
                    ..empty_state()
                },
                config,
            )
        }),
{
}

/// Settings that can be made keep a state that can be installed so, for the
/// agent and for its children; and the threshold of its policy is positive.
pub proof fn law_valid_states_stay_valid(
    state: SubagentContextReductionPolicyState,
    patch: SubagentContextReductionOverrides,
    inherit_to_children: bool,
    config: SubagentContextReductionConfig,
)
    requires
        valid_state(state),
        valid_overrides(patch),
    ensures
        valid_state(updated(state, patch, inherit_to_children)),
        valid_state(reset(state)),
        valid_state(child_state(state, patch, inherit_to_children)),
        config.threshold_tokens > 0 ==> resolved(state, config).threshold_tokens > 0,
{
}

/// Every change has a revision of its own, until the last one is reached.
pub proof fn law_changes_raise_the_revision(
    state: SubagentContextReductionPolicyState,
    patch: SubagentContextReductionOverrides,
    inherit_to_children: bool,
)
    requires
        state.desired_revision < u64::MAX,
    ensures
        updated(state, patch, inherit_to_children).desired_revision == state.desired_revision + 1,
        reset(state).desired_revision == state.desired_revision + 1,
{
}

} // verus!
