//! Who may change whose policy, and why not.

use vstd::prelude::*;
use vstd::string::*;

use crate::agent::context_policy::ContextReductionPolicyArgs;
use crate::agent::context_policy::SubagentContextReductionOverrides;
use crate::agent::policy_laws::gives_nothing;
use crate::agent::target::arguments_are_clear;
use crate::agent::target::climb;
use crate::agent::target::patch_of;
use crate::agent::target::path_not_found_text;
use crate::agent::target::position_of_path;
use crate::agent::target::request_fault;
use crate::agent::target::target_id;
use crate::agent::target::walk_end;
use crate::agent::target::AgentTarget;
use crate::agent::target::LineageWalk;
use crate::agent::target::ThreadId;

verus! {

proof fn lemma_position_of_path(
    agents: Seq<(String, ThreadId)>,
    path: Seq<char>,
    from: int,
    i: int,
)
    requires
        0 <= from <= i <= agents.len(),
        forall|j: int| from <= j < i ==> (#[trigger] agents[j]).0@ != path,
        i < agents.len() ==> agents[i].0@ == path,
    ensures
        position_of_path(agents, path, from) == (if i < agents.len() {
            Some(i)
        } else {
            None
        }),
    decreases i - from,
{
    if from < i {
        assert(agents[from].0@ != path);
        lemma_position_of_path(agents, path, from + 1, i);
    }
}

/// A path leads to the first agent that has it, and to none where no agent has
/// it. An id leads to itself.
pub proof fn law_paths_lead_to_agents(
    agents: Seq<(String, ThreadId)>,
    reference: String,
    path: String,
    problem: String,
    id: ThreadId,
    i: int,
)
    requires
        0 <= i <= agents.len(),
        forall|j: int| 0 <= j < i ==> (#[trigger] agents[j]).0@ != path@,
        i < agents.len() ==> agents[i].0@ == path@,
    ensures
        target_id(AgentTarget::Reference(reference), Ok(path), agents) == (if i < agents.len() {
            Some(agents[i].1)
        } else {
            None
        }),
        position_of_path(agents, path@, 0) == (if i < agents.len() {
            Some(i)
        } else {
            None
        }),
        target_id(AgentTarget::Reference(reference), Err(problem), agents) is None,
        target_id(AgentTarget::Id(id), Ok(path), agents) == Some(id),
        target_id(AgentTarget::Id(id), Err(problem), agents) == Some(id),
        path_not_found_text(path@) == "live agent path `"@ + path@ + "` not found"@,
{
    lemma_position_of_path(agents, path@, 0, i);
}

/// No agent changes its own policy, no threshold is set that is not positive,
/// and a reset comes without settings. Any other request can be made.
pub proof fn law_faults_of_requests(
    caller: ThreadId,
    target: ThreadId,
    patch: SubagentContextReductionOverrides,
    reset: bool,
)
    ensures
        ({
            let own = caller == target;
            let low = patch.threshold_tokens matches Some(tokens) && tokens <= 0;
            let mixed = reset && !gives_nothing(patch);
            match request_fault(caller, target, patch, reset) {
                None => !own && !low && !mixed,
                Some(message) => {
                    ||| own && message == "set_agent_context_policy can only update a descendant"@
                    ||| !own && low && message
                        == "subagent context threshold_tokens must be positive"@
                    ||| !own && !low && mixed && message
                        == "reset cannot be combined with context_policy fields"@
                },
            }
        }),
{
}

/// A call of the tool either resets or gives settings, and the settings are
/// those of its arguments.
pub proof fn law_arguments_reset_or_set(args: Option<ContextReductionPolicyArgs>, reset: bool)
    ensures
        ({
            let patch = patch_of(args);
            &&& arguments_are_clear(patch, reset) == if reset {
                gives_nothing(patch)
            } else {
                !gives_nothing(patch)
            }
            &&& match args {
                Some(args) => {
                    &&& patch.enabled == args.enabled
                    &&& patch.threshold_tokens == args.threshold_tokens
                    &&& patch.check_after_tools == args.check_after_tools
                    &&& patch.shake == args.shake
                    &&& patch.on_failure == args.on_failure
                },
                None => gives_nothing(patch),
            }
        }),
{
}

/// Each thread of a line is the child of the next.
pub open spec fn is_line(
    parents: spec_fn(ThreadId) -> Option<ThreadId>,
    line: Seq<ThreadId>,
) -> bool {
    forall|i: int|
        0 <= i && i + 1 < line.len() ==> parents(#[trigger] line[i]) == Some(line[i + 1])
}

proof fn lemma_walk_along(
    parents: spec_fn(ThreadId) -> Option<ThreadId>,
    line: Seq<ThreadId>,
    caller: ThreadId,
    i: int,
)
    requires
        is_line(parents, line),
        0 <= i < line.len() <= 128,
        forall|j: int| i < j < line.len() ==> #[trigger] line[j] != caller,
    ensures
        walk_end(parents, (LineageWalk { caller, current: line[i], climbed: i as u32 }))
            == walk_end(
            parents,
            (LineageWalk { caller, current: line.last(), climbed: (line.len() - 1) as u32 }),
        ),
    decreases line.len() - i,
{
    if i + 1 < line.len() {
        assert(parents(line[i]) == Some(line[i + 1]));
        lemma_walk_along(parents, line, caller, i + 1);
    }
}

/// The search climbs from child to parent, for a hundred and twenty-eight
/// generations: the caller that stands at the end of the line is found, a line
/// that ends without it shows that there is none, and a longer one is refused.
pub proof fn law_search_climbs_the_line(
    parents: spec_fn(ThreadId) -> Option<ThreadId>,
    line: Seq<ThreadId>,
    caller: ThreadId,
)
    requires
        is_line(parents, line),
        0 < line.len() <= 128,
        forall|j: int| 0 < j < line.len() ==> #[trigger] line[j] != caller,
    ensures
        ({
            let end = walk_end(parents, (LineageWalk { caller, current: line[0], climbed: 0 }));
            match parents(line.last()) {
                None => end is NotADescendant,
                Some(parent) => {
                    &&& parent == caller ==> end is Descendant
                    &&& parent != caller && line.len() == 128 ==> end is Invalid
                },
            }
        }),
{
    lemma_walk_along(parents, line, caller, 0);
}

/// A step of the search ends it, or goes on with the parent.
pub proof fn law_steps_of_the_search(walk: LineageWalk, parent: Option<ThreadId>)
    requires
        walk.climbed < 128,
    ensures
        ({
            let (next, step) = climb(walk, parent);
            &&& next.caller == walk.caller
            &&& match parent {
                None => step is NotADescendant,
                Some(parent) => {
                    &&& parent == walk.caller ==> step is Descendant
                    &&& parent != walk.caller && walk.climbed == 127 ==> step is Invalid
                    &&& parent != walk.caller && walk.climbed < 127 ==> step is Climb
                        && next.current == parent && next.climbed == walk.climbed + 1
                },
            }
        }),
{
}

} // verus!
