//! The agent's own permission prompts.
use vstd::prelude::*;

verus! {

/// How long the user has to answer the Bluetooth sheet, in milliseconds.
pub const BLUETOOTH_PROMPT_TIMEOUT: u64 = 180_000;

/// Pause between two looks at the answer, in milliseconds.
pub const BLUETOOTH_POLL: u64 = 200;

/// What an authorization number means: granted, or refused by the user or by a
/// policy, or not decided yet.
pub open spec fn decided(authorization: isize) -> Option<bool> {
    if authorization == 3 {
        Some(true)
    } else if authorization == 1 || authorization == 2 {
        Some(false)
    } else {
        None
    }
}

/// What an authorization number means. An answer that is already there is not
/// asked for again.
pub fn bluetooth_decision(authorization: isize) -> (granted: Option<bool>)
    ensures
        granted == decided(authorization),
{
    if authorization == 3 {
        Some(true)
    } else if authorization == 1 || authorization == 2 {
        Some(false)
    } else {
        None
    }
}

/// What the agent does while the sheet is up.
#[derive(Clone, Copy, Debug, PartialEq, Eq, Structural)]
pub enum PromptStep {
    /// The answer is in, or taken for a refusal.
    Answer(bool),
    /// Look again after [`BLUETOOTH_POLL`].
    Wait,
}

/// What a look at the answer calls for. Without one by the deadline, the sheet
/// counts as refused.
pub fn poll_bluetooth(authorization: isize, now: u64, deadline: u64) -> (step: PromptStep)
    ensures
        step == (match decided(authorization) {
            Some(granted) => PromptStep::Answer(granted),
            None => if now >= deadline {
                PromptStep::Answer(false)
            } else {
                PromptStep::Wait
            },
        }),
{
    match bluetooth_decision(authorization) {
        Some(granted) => PromptStep::Answer(granted),
        None => if now >= deadline {
            PromptStep::Answer(false)
        } else {
            PromptStep::Wait
        },
    }
}

/// Of the system's four answers, three decide: allowed always, and denied or restricted.
/// Anything else leaves the question open.
pub proof fn three_answers_decide(authorization: isize)
    ensures
        decided(3) == Some(true),
        decided(2) == Some(false),
        decided(1) == Some(false),
        authorization < 1 || authorization > 3 ==> decided(authorization) is None,
        BLUETOOTH_PROMPT_TIMEOUT == 180_000,
        BLUETOOTH_POLL == 200,
{
}

} // verus!
