//! The Input Monitoring permission and the process that holds it.
use vstd::prelude::*;

verus! {

/// What this process can do with the Input Monitoring grant, decided once when
/// the agent arms and consulted on every later change.
///
/// A process gets its answer when it starts, so a grant made afterwards reaches
/// the next launch rather than the running one.
#[derive(Clone, Copy, Debug, PartialEq, Eq, Structural)]
pub enum Access {
    /// The agent may open HID devices in this process.
    Granted,
    /// This process cannot open HID devices. A grant that arrives later is worth
    /// nothing here until the agent restarts into it.
    NeedsSuccessor,
}

/// Whether a grant the watcher just observed has to end this process. A revoke
/// never does: its successor would come straight back to the consent dialog.
pub fn needs_successor(access: Access, granted_now: bool) -> (restart: bool)
    ensures
        restart == (granted_now && access == Access::NeedsSuccessor),
{
    granted_now && matches!(access, Access::NeedsSuccessor)
}

/// What the agent does about Input Monitoring before it starts its inventory.
#[derive(Clone, Copy, Debug, PartialEq, Eq, Structural)]
pub enum Request {
    /// The permission is there.
    Proceed,
    /// The user is to be asked.
    Ask,
}

/// Whether the user has to be asked.
pub fn request(has_access: bool) -> (request: Request)
    ensures
        request == (if has_access {
            Request::Proceed
        } else {
            Request::Ask
        }),
{
    if has_access {
        Request::Proceed
    } else {
        Request::Ask
    }
}

/// The user's answer to the consent dialog: whether the permission is granted,
/// and whether the agent has to relaunch into it. The dialog may have failed.
pub fn answered(answer: Option<bool>) -> (granted_and_relaunch: (bool, bool))
    ensures
        granted_and_relaunch == (answer == Some(true), answer == Some(true)),
{
    match answer {
        Some(true) => (true, true),
        _ => (false, false),
    }
}

} // verus!
