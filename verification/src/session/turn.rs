//! What a turn is given, and whether it starts over with a new context.

use vstd::prelude::*;

verus! {

/// Something that a turn is given.
#[derive(Debug, PartialEq, Eq)]
pub enum TurnInput {
    /// What the user wrote.
    UserInput { content: Vec<String> },
    /// A message of another agent.
    InterAgentCommunication { message: String, trigger_turn: bool },
}

/// The input gives the agent work to do.
pub open spec fn is_assignment(input: TurnInput) -> bool {
    match input {
        TurnInput::UserInput { .. } => true,
        TurnInput::InterAgentCommunication { trigger_turn, .. } => trigger_turn,
    }
}

/// Whether the agent is given work to do: by the user, or by an agent whose
/// message starts a turn. A message that is only queued gives none.
pub fn has_explicit_assignment_input(inputs: &[TurnInput]) -> (r: bool)
    ensures
        r == exists|i: int| 0 <= i < inputs@.len() && is_assignment(#[trigger] inputs@[i]),
{
    let mut i: usize = 0;
    while i < inputs.len()
        invariant
            i <= inputs@.len(),
            forall|k: int| 0 <= k < i ==> !is_assignment(#[trigger] inputs@[k]),
        decreases inputs@.len() - i,
    {
        let assigned = match &inputs[i] {
            TurnInput::UserInput { .. } => true,
            TurnInput::InterAgentCommunication { trigger_turn, .. } => *trigger_turn,
        };
        if assigned {
            assert(is_assignment(inputs@[i as int]));
            return true;
        }
        i = i + 1;
    }
    false
}

/// Takes the request for a new context, where there is one. A turn that does not
/// go on leaves it for the next.
pub fn take_context_reset_request(requested: &mut bool, needs_follow_up: bool) -> (taken: bool)
    ensures
        taken == (needs_follow_up && *old(requested)),
        *final(requested) == (*old(requested) && !needs_follow_up),
{
    if needs_follow_up && *requested {
        *requested = false;
        true
    } else {
        false
    }
}

/// The user always gives work, and another agent where its message is to start
/// a turn.
pub proof fn law_who_gives_work(content: Vec<String>, message: String, trigger_turn: bool)
    ensures
        is_assignment(TurnInput::UserInput { content }),
        is_assignment(TurnInput::InterAgentCommunication { message, trigger_turn }) == trigger_turn,
{
}

} // verus!
