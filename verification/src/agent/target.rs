//! Which agent may change the context policy of which other.

use vstd::prelude::*;
use vstd::string::*;

use crate::agent::context_policy;
use crate::agent::context_policy::ContextReductionPolicyArgs;
use crate::agent::context_policy::SubagentContextReductionOverrides;
use crate::text;

verus! {

/// The identity of a thread.
pub type ThreadId = u128;

/// The agent that a request names.
#[derive(Debug, PartialEq, Eq)]
pub enum AgentTarget {
    Id(ThreadId),
    Reference(String),
}

/// Why a request is refused.
#[derive(Debug, PartialEq, Eq)]
pub enum TargetError {
    /// The request itself is wrong.
    InvalidRequest(String),
    /// There is no such agent.
    UnsupportedOperation(String),
}

/// A message about a path that no live agent has.
pub open spec fn path_not_found_text(path: Seq<char>) -> Seq<char> {
    "live agent path `"@ + path + "` not found"@
}

/// The position of the first agent with a path.
pub open spec fn position_of_path(agents: Seq<(String, ThreadId)>, path: Seq<char>, from: int) ->
    Option<int>
    decreases agents.len() - from,
{
    if from < 0 || from >= agents.len() {
        None
    } else if agents[from].0@ == path {
        Some(from)
    } else {
        position_of_path(agents, path, from + 1)
    }
}

/// The id of the first agent with a path.
fn find_path(agents: &Vec<(String, ThreadId)>, path: &str) -> (id: Option<ThreadId>)
    ensures
        match (id, position_of_path(agents@, path@, 0)) {
            (Some(id), Some(i)) => 0 <= i < agents@.len() && id == agents@[i].1,
            (None, None) => true,
            _ => false,
        },
{
    let mut i: usize = 0;
    while i < agents.len()
        invariant
            i <= agents@.len(),
            position_of_path(agents@, path@, 0) == position_of_path(agents@, path@, i as int),
        decreases agents@.len() - i,
    {
        if text::same_text(agents[i].0.as_str(), path) {
            return Some(agents[i].1);
        }
        i = i + 1;
    }
    None
}

/// The live agent with the path that a reference resolved to.
pub fn resolve_path_reference(
    resolved: Result<String, String>,
    agents: &Vec<(String, ThreadId)>,
) -> (target: Result<ThreadId, TargetError>)
    ensures
        match (resolved, target) {
            (Err(message), Err(TargetError::UnsupportedOperation(told))) => told@ == message@,
            (Ok(path), Ok(id)) => position_of_path(agents@, path@, 0) matches Some(i) && id
                == agents@[i].1,
            (Ok(path), Err(TargetError::UnsupportedOperation(told))) => position_of_path(
                agents@,
                path@,
                0,
            ) is None && told@ == path_not_found_text(path@),
            _ => false,
        },
{
    match resolved {
        Err(message) => Err(TargetError::UnsupportedOperation(message)),
        Ok(path) => match find_path(agents, path.as_str()) {
            Some(id) => Ok(id),
            None => {
                let mut message = "live agent path `".to_owned();
                message.append(path.as_str());
                message.append("` not found");
                Err(TargetError::UnsupportedOperation(message))
            },
        },
    }
}

/// The agent that a target names. A reference is resolved against the caller's
/// own path, and only where the caller itself is known.
pub open spec fn target_id(
    target: AgentTarget,
    resolved: Result<String, String>,
    agents: Seq<(String, ThreadId)>,
) -> Option<ThreadId> {
    match target {
        AgentTarget::Id(id) => Some(id),
        AgentTarget::Reference(_) => match resolved {
            Ok(path) => match position_of_path(agents, path@, 0) {
                Some(i) => Some(agents[i].1),
                None => None,
            },
            Err(_) => None,
        },
    }
}

/// The agent that a target names. `resolve` gives the path of a reference.
pub fn resolve_target<F: Fn(&String) -> Result<String, String>>(
    target: &AgentTarget,
    resolve: &F,
    agents: &Vec<(String, ThreadId)>,
) -> (r: Result<ThreadId, TargetError>)
    requires
        target matches AgentTarget::Reference(reference) ==> call_requires(*resolve, (&reference,)),
    ensures
        match *target {
            AgentTarget::Id(id) => r == Ok::<ThreadId, TargetError>(id),
            AgentTarget::Reference(reference) => exists|resolved: Result<String, String>| #[trigger]
                call_ensures(*resolve, (&reference,), resolved) && match r {
                    Ok(id) => target_id(*target, resolved, agents@) == Some(id),
                    Err(TargetError::UnsupportedOperation(told)) => target_id(
                        *target,
                        resolved,
                        agents@,
                    ) is None && told@ == match resolved {
                        Ok(path) => path_not_found_text(path@),
                        Err(message) => message@,
                    },
                    Err(_) => false,
                },
        },
{
    match target {
        AgentTarget::Id(id) => Ok(*id),
        AgentTarget::Reference(reference) => {
            let resolved = resolve(reference);
            let ghost path = resolved;
            let r = resolve_path_reference(resolved, agents);
            assert(call_ensures(*resolve, (reference,), path));
            r
        },
    }
}

/// Why a change of policy is refused before the target is looked at.
pub open spec fn request_fault(
    caller: ThreadId,
    target: ThreadId,
    patch: SubagentContextReductionOverrides,
    reset: bool,
) -> Option<Seq<char>> {
    if target == caller {
        Some("set_agent_context_policy can only update a descendant"@)
    } else if !context_policy::valid_overrides(patch) {
        Some(context_policy::threshold_message())
    } else if reset && patch != context_policy::no_overrides() {
        Some("reset cannot be combined with context_policy fields"@)
    } else {
        None
    }
}

/// Whether a change of policy can be asked for.
pub fn check_request(
    caller: ThreadId,
    target: ThreadId,
    patch: &SubagentContextReductionOverrides,
    reset: bool,
) -> (r: Result<(), TargetError>)
    ensures
        match r {
            Ok(_) => request_fault(caller, target, *patch, reset) is None,
            Err(TargetError::InvalidRequest(message)) => request_fault(
                caller,
                target,
                *patch,
                reset,
            ) == Some(message@),
            _ => false,
        },
{
    if target == caller {
        return Err(
            TargetError::InvalidRequest(
                "set_agent_context_policy can only update a descendant".to_owned(),
            ),
        );
    }
    if let Err(message) = context_policy::validate_overrides(patch) {
        return Err(TargetError::InvalidRequest(message));
    }
    if reset && !context_policy::overrides_are_empty(patch) {
        return Err(
            TargetError::InvalidRequest(
                "reset cannot be combined with context_policy fields".to_owned(),
            ),
        );
    }
    Ok(())
}

/// The arguments of the tool that changes a policy say one thing: a reset, or
/// settings.
pub open spec fn arguments_are_clear(
    patch: SubagentContextReductionOverrides,
    reset: bool,
) -> bool {
    reset == (patch == context_policy::no_overrides())
}

/// Whether the arguments of the tool say one thing.
pub fn check_arguments(patch: &SubagentContextReductionOverrides, reset: bool) -> (r: Result<
    (),
    String,
>)
    ensures
        match r {
            Ok(_) => arguments_are_clear(*patch, reset),
            Err(message) => !arguments_are_clear(*patch, reset) && message@
                == "provide context_policy fields for an update, or set reset=true without fields"@,
        },
{
    if reset == context_policy::overrides_are_empty(patch) {
        Ok(())
    } else {
        Err(
            "provide context_policy fields for an update, or set reset=true without fields".to_owned(),
        )
    }
}

/// The arguments of the tool that changes a policy, as the model gives them.
#[derive(Debug, PartialEq, Eq)]
pub struct SetAgentContextPolicyArgs {
    pub target: String,
    pub context_policy: Option<ContextReductionPolicyArgs>,
    pub inherit_to_children: Option<bool>,
    pub reset: bool,
}

/// What the tool is asked to do.
#[derive(Debug, PartialEq, Eq)]
pub struct PolicyRequest {
    pub target: String,
    pub patch: SubagentContextReductionOverrides,
    pub inherit_to_children: bool,
    pub reset: bool,
}

/// The settings that the arguments of the tool give.
pub open spec fn patch_of(
    args: Option<ContextReductionPolicyArgs>,
) -> SubagentContextReductionOverrides {
    match args {
        Some(args) => SubagentContextReductionOverrides {
            enabled: args.enabled,
            threshold_tokens: args.threshold_tokens,
            check_after_tools: args.check_after_tools,
            shake: args.shake,
            on_failure: args.on_failure,
        },
        None => context_policy::no_overrides(),
    }
}

impl SetAgentContextPolicyArgs {
    /// What the tool is asked to do. Children inherit a change unless the
    /// arguments say otherwise.
    pub fn into_request(self) -> (request: Result<PolicyRequest, String>)
        ensures
            match request {
                Ok(request) => {
                    &&& arguments_are_clear(patch_of(self.context_policy), self.reset)
                    &&& request.target == self.target
                    &&& request.patch == patch_of(self.context_policy)
                    &&& request.inherit_to_children == (match self.inherit_to_children {
                        Some(inherit) => inherit,
                        None => true,
                    })
                    &&& request.reset == self.reset
                },
                Err(message) => {
                    &&& !arguments_are_clear(patch_of(self.context_policy), self.reset)
                    &&& message@
                        == "provide context_policy fields for an update, or set reset=true without fields"@
                },
            },
    {
        let patch = match self.context_policy {
            Some(args) => args.into_overrides(),
            None => SubagentContextReductionOverrides::default(),
        };
        if let Err(message) = check_arguments(&patch, self.reset) {
            return Err(message);
        }
        let inherit_to_children = match self.inherit_to_children {
            Some(inherit) => inherit,
            None => true,
        };
        Ok(PolicyRequest { target: self.target, patch, inherit_to_children, reset: self.reset })
    }
}

/// What the target is, once it was looked up.
#[derive(Clone, Copy, Debug, PartialEq, Eq, Structural)]
pub enum TargetThread {
    /// The thread is not loaded.
    NotLoaded,
    /// The thread is loaded. It was spawned by another thread or not.
    Loaded { spawned: bool },
}

/// The message for a target that is not loaded.
pub fn not_loaded_error() -> (error: TargetError)
    ensures
        error matches TargetError::InvalidRequest(message) && message@
            == "target agent must be loaded; resume it before changing its context policy"@,
{
    TargetError::InvalidRequest(
        "target agent must be loaded; resume it before changing its context policy".to_owned(),
    )
}

/// Whether the target, which is a descendant of the caller, has a policy of its
/// own: only a spawned agent has.
pub fn check_target(target: TargetThread) -> (r: Result<(), TargetError>)
    ensures
        match r {
            Ok(_) => target == (TargetThread::Loaded { spawned: true }),
            Err(TargetError::InvalidRequest(message)) => message@ == match target {
                TargetThread::NotLoaded =>
                    "target agent must be loaded; resume it before changing its context policy"@,
                TargetThread::Loaded { .. } =>
                    "context policy can only be set on spawned subagents"@,
            } && target != (TargetThread::Loaded { spawned: true }),
            _ => false,
        },
{
    match target {
        TargetThread::NotLoaded => Err(not_loaded_error()),
        TargetThread::Loaded { spawned } => if spawned {
            Ok(())
        } else {
            Err(
                TargetError::InvalidRequest(
                    "context policy can only be set on spawned subagents".to_owned(),
                ),
            )
        },
    }
}

/// How many generations up from the target the caller is looked for.
pub const MAX_LINEAGE: u32 = 128;

/// Where the search for the caller among the target's ancestors stands.
#[derive(Clone, Copy, Debug, PartialEq, Eq, Structural)]
pub struct LineageWalk {
    pub caller: ThreadId,
    /// The thread whose parent is asked for.
    pub current: ThreadId,
    /// The generations that were climbed.
    pub climbed: u32,
}

/// What to do next.
#[derive(Clone, Copy, Debug, PartialEq, Eq, Structural)]
pub enum LineageStep {
    /// The caller is an ancestor of the target.
    Descendant,
    /// Look for the parent of the thread that the walk has come to.
    Climb,
    /// The top was reached: the caller is no ancestor of the target.
    NotADescendant,
    /// The line is too long to be one.
    Invalid,
}

/// The walk after the parent of its thread was found, and what to do next.
pub open spec fn climb(walk: LineageWalk, parent: Option<ThreadId>) -> (LineageWalk, LineageStep) {
    match parent {
        None => (walk, LineageStep::NotADescendant),
        Some(parent) => if parent == walk.caller {
            (walk, LineageStep::Descendant)
        } else if walk.climbed + 1 >= MAX_LINEAGE {
            (walk, LineageStep::Invalid)
        } else {
            (
                LineageWalk {
                    current: parent,
                    climbed: (walk.climbed + 1) as u32,
                    caller: walk.caller,
                },
                LineageStep::Climb,
            )
        },
    }
}

impl LineageWalk {
    /// A walk up from the target.
    pub fn new(caller: ThreadId, target: ThreadId) -> (walk: Self)
        ensures
            walk == (LineageWalk { caller, current: target, climbed: 0 }),
    {
        LineageWalk { caller, current: target, climbed: 0 }
    }

    /// Takes in the parent of the thread that the walk has come to. A thread
    /// without one is at the top.
    pub fn on_parent(&mut self, parent: Option<ThreadId>) -> (step: LineageStep)
        ensures
            (*final(self), step) == climb(*old(self), parent),
    {
        match parent {
            None => LineageStep::NotADescendant,
            Some(parent) => {
                if parent == self.caller {
                    LineageStep::Descendant
                } else if self.climbed >= MAX_LINEAGE - 1 {
                    LineageStep::Invalid
                } else {
                    self.current = parent;
                    self.climbed = self.climbed + 1;
                    LineageStep::Climb
                }
            },
        }
    }
}

/// The message for a walk that did not find the caller.
pub fn lineage_error(step: LineageStep) -> (error: Option<TargetError>)
    ensures
        match error {
            Some(TargetError::InvalidRequest(message)) => match step {
                LineageStep::NotADescendant => message@
                    == "context policy target is not a descendant of the caller"@,
                LineageStep::Invalid => message@ == "context policy target lineage is invalid"@,
                _ => false,
            },
            Some(_) => false,
            None => step is Descendant || step is Climb,
        },
{
    match step {
        LineageStep::NotADescendant => Some(
            TargetError::InvalidRequest(
                "context policy target is not a descendant of the caller".to_owned(),
            ),
        ),
        LineageStep::Invalid => Some(
            TargetError::InvalidRequest("context policy target lineage is invalid".to_owned()),
        ),
        _ => None,
    }
}

/// Ancestor `n` of a thread, where `parents` says who its parents are.
pub open spec fn ancestor(
    parents: spec_fn(ThreadId) -> Option<ThreadId>,
    thread: ThreadId,
    n: nat,
) -> Option<ThreadId>
    decreases n,
{
    if n == 0 {
        Some(thread)
    } else {
        match ancestor(parents, thread, (n - 1) as nat) {
            Some(below) => parents(below),
            None => None,
        }
    }
}

/// The end of a walk.
pub open spec fn walk_end(
    parents: spec_fn(ThreadId) -> Option<ThreadId>,
    walk: LineageWalk,
) -> LineageStep
    decreases MAX_LINEAGE - walk.climbed,
{
    let (next, step) = climb(walk, parents(walk.current));
    if step is Climb {
        walk_end(parents, next)
    } else {
        step
    }
}

/// The caller is one of the ancestors that are looked at, from `from` on.
pub open spec fn is_ancestor_from(
    parents: spec_fn(ThreadId) -> Option<ThreadId>,
    caller: ThreadId,
    target: ThreadId,
    from: nat,
) -> bool {
    exists|n: nat|
        from <= n <= MAX_LINEAGE && #[trigger] ancestor(parents, target, n) == Some(caller)
}

proof fn lemma_walk_end(
    parents: spec_fn(ThreadId) -> Option<ThreadId>,
    target: ThreadId,
    walk: LineageWalk,
)
    requires
        walk.climbed < MAX_LINEAGE,
        ancestor(parents, target, walk.climbed as nat) == Some(walk.current),
    ensures
        walk_end(parents, walk) is Descendant == is_ancestor_from(
            parents,
            walk.caller,
            target,
            (walk.climbed + 1) as nat,
        ),
    decreases MAX_LINEAGE - walk.climbed,
{
    let up = (walk.climbed + 1) as nat;
    assert(ancestor(parents, target, up) == parents(walk.current));
    let (next, step) = climb(walk, parents(walk.current));
    match parents(walk.current) {
        None => {
            assert forall|n: nat| up <= n implies #[trigger] ancestor(parents, target, n)
                is None by {
                lemma_no_ancestor(parents, target, up, n);
            }
        },
        Some(parent) => {
            if parent == walk.caller {
                assert(ancestor(parents, target, up) == Some(walk.caller));
            } else if step is Climb {
                lemma_walk_end(parents, target, next);
                let later = (next.climbed + 1) as nat;
                if is_ancestor_from(parents, walk.caller, target, up) {
                    let n = choose|n: nat|
                        up <= n <= MAX_LINEAGE && #[trigger] ancestor(parents, target, n) == Some(
                            walk.caller,
                        );
                    assert(n != up);
                    assert(later <= n);
                }
            }
        },
    }
}

proof fn lemma_no_ancestor(
    parents: spec_fn(ThreadId) -> Option<ThreadId>,
    target: ThreadId,
    top: nat,
    n: nat,
)
    requires
        ancestor(parents, target, top) is None,
        top <= n,
    ensures
        ancestor(parents, target, n) is None,
    decreases n - top,
{
    if top < n {
        lemma_no_ancestor(parents, target, top, (n - 1) as nat);
    }
}

/// A walk finds the caller exactly where it is an ancestor of the target within
/// the limit. So no agent changes the policy of one that does not come from it.
pub proof fn law_only_descendants_are_changed(
    parents: spec_fn(ThreadId) -> Option<ThreadId>,
    caller: ThreadId,
    target: ThreadId,
)
    ensures
        walk_end(parents, (LineageWalk { caller, current: target, climbed: 0 })) is Descendant
            == is_ancestor_from(parents, caller, target, 1),
{
    lemma_walk_end(parents, target, LineageWalk { caller, current: target, climbed: 0 });
}

} // verus!
