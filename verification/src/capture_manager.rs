//! The loop that every capture manager runs: reconcile, wait, react.
use vstd::prelude::*;

use crate::shutdown::ManagerCompletion;

verus! {

/// Which of the things a manager waits for are there.
#[derive(Clone, Copy, Debug, PartialEq, Eq, Structural)]
pub struct Ready {
    /// The process asks the manager to stop.
    pub shutdown: bool,
    /// A session task reported something.
    pub event: bool,
    /// What is to be kept armed was published, or its source closed.
    pub published: bool,
    /// Requests for exclusive access changed, or their source closed.
    pub requests: bool,
    /// The device-I/O gate moved, or closed for good.
    pub device_io: bool,
    /// The channel registry changed, or closed.
    pub registry: bool,
    /// The deadline passed.
    pub deadline: bool,
}

/// What the manager takes up next.
#[derive(Clone, Copy, Debug, PartialEq, Eq, Structural)]
pub enum Source {
    Shutdown,
    Event,
    Published,
    Requests,
    DeviceIo,
    Registry,
    Deadline,
}

/// The first thing that is ready, in the order in which they are looked at. A
/// change of the registry matters only while a restore is owed.
pub open spec fn first_ready(ready: Ready, has_pending_restores: bool) -> Option<Source> {
    if ready.shutdown {
        Some(Source::Shutdown)
    } else if ready.event {
        Some(Source::Event)
    } else if ready.published {
        Some(Source::Published)
    } else if ready.requests {
        Some(Source::Requests)
    } else if ready.device_io {
        Some(Source::DeviceIo)
    } else if ready.registry && has_pending_restores {
        Some(Source::Registry)
    } else if ready.deadline {
        Some(Source::Deadline)
    } else {
        None
    }
}

/// What the manager takes up next.
pub fn select(ready: Ready, has_pending_restores: bool) -> (source: Option<Source>)
    ensures
        source == first_ready(ready, has_pending_restores),
{
    if ready.shutdown {
        Some(Source::Shutdown)
    } else if ready.event {
        Some(Source::Event)
    } else if ready.published {
        Some(Source::Published)
    } else if ready.requests {
        Some(Source::Requests)
    } else if ready.device_io {
        Some(Source::DeviceIo)
    } else if ready.registry && has_pending_restores {
        Some(Source::Registry)
    } else if ready.deadline {
        Some(Source::Deadline)
    } else {
        None
    }
}

/// One thing that ended the manager's wait.
#[derive(Clone, Copy, Debug, PartialEq, Eq, Structural)]
pub enum ManagerEvent {
    Shutdown,
    /// A session's report was applied. Whether it calls for a reconcile.
    Session { reconcile: bool },
    /// A publication, or that its source closed.
    Published { open: bool },
    Requests { open: bool },
    /// The activity gate's new position, `None` where it closed for good.
    DeviceIo { allowed: Option<bool> },
    Registry { open: bool },
    Deadline,
}

/// What the manager does about it.
#[derive(Clone, Copy, Debug, PartialEq, Eq, Structural)]
pub enum ManagerStep {
    /// Go round the loop.
    Continue,
    /// Make every owed restore due now, then go round the loop.
    ExpediteRestores,
    /// Drain every session and owed restore, then return gracefully.
    Drain,
    /// Return: a source that should outlive the manager closed.
    Abandon,
}

/// The loop's own state: whether to reconcile before the next wait.
#[derive(Clone, Copy, Debug, PartialEq, Eq, Structural)]
pub struct CaptureLoop {
    pub reconcile: bool,
}

impl CaptureLoop {
    /// A manager that starts reconciles first.
    pub fn new() -> (run: CaptureLoop)
        ensures
            run.reconcile,
    {
        CaptureLoop { reconcile: true }
    }

    /// Whether to reconcile now. A reconcile that falls into a closed device-I/O
    /// gate is dropped: the activity gate's opening asks for another.
    pub fn take_reconcile(&mut self, io_allowed: bool) -> (now: bool)
        ensures
            now == (old(self).reconcile && io_allowed),
            !final(self).reconcile,
    {
        let wanted: bool = self.reconcile;
        self.reconcile = false;
        wanted && io_allowed
    }

    /// Whether to go round the loop instead of waiting, because recovery work is
    /// already due.
    pub fn is_overdue(&mut self, deadline: Option<u64>, now: u64) -> (overdue: bool)
        ensures
            overdue == (deadline matches Some(at) && at <= now),
            final(self).reconcile == (old(self).reconcile || overdue),
    {
        let overdue: bool = match deadline {
            Some(at) => at <= now,
            None => false,
        };
        if overdue {
            self.reconcile = true;
        }
        overdue
    }

    /// What an event comes to.
    pub open spec fn step_for(event: ManagerEvent, io_allowed: bool) -> ManagerStep {
        match event {
            ManagerEvent::Shutdown => ManagerStep::Drain,
            ManagerEvent::Published { open: false } => ManagerStep::Abandon,
            ManagerEvent::Requests { open: false } => ManagerStep::Abandon,
            ManagerEvent::Registry { open: false } => ManagerStep::Abandon,
            ManagerEvent::DeviceIo { allowed: None } => ManagerStep::Abandon,
            ManagerEvent::Registry { open: true } => if io_allowed {
                ManagerStep::ExpediteRestores
            } else {
                ManagerStep::Continue
            },
            _ => ManagerStep::Continue,
        }
    }

    /// Whether an event asks for a reconcile.
    pub open spec fn asks(event: ManagerEvent, io_allowed: bool) -> bool {
        match event {
            ManagerEvent::Session { reconcile } => reconcile,
            ManagerEvent::Published { open } => open,
            ManagerEvent::Requests { open } => open,
            ManagerEvent::DeviceIo { allowed } => allowed == Some(true),
            ManagerEvent::Registry { open } => open && io_allowed,
            ManagerEvent::Deadline => true,
            ManagerEvent::Shutdown => false,
        }
    }

    /// React to one event.
    pub fn react(&mut self, event: ManagerEvent, io_allowed: bool) -> (step: ManagerStep)
        ensures
            step == CaptureLoop::step_for(event, io_allowed),
            final(self).reconcile == (old(self).reconcile || CaptureLoop::asks(event, io_allowed)),
    {
        match event {
            ManagerEvent::Shutdown => ManagerStep::Drain,
            ManagerEvent::Session { reconcile } => {
                self.reconcile = self.reconcile || reconcile;
                ManagerStep::Continue
            },
            ManagerEvent::Published { open } => {
                if !open {
                    return ManagerStep::Abandon;
                }
                self.reconcile = true;
                ManagerStep::Continue
            },
            ManagerEvent::Requests { open } => {
                if !open {
                    return ManagerStep::Abandon;
                }
                self.reconcile = true;
                ManagerStep::Continue
            },
            ManagerEvent::DeviceIo { allowed } => match allowed {
                Some(true) => {
                    self.reconcile = true;
                    ManagerStep::Continue
                },
                Some(false) => ManagerStep::Continue,
                None => ManagerStep::Abandon,
            },
            ManagerEvent::Registry { open } => {
                if !open {
                    return ManagerStep::Abandon;
                }
                if io_allowed {
                    self.reconcile = true;
                    ManagerStep::ExpediteRestores
                } else {
                    ManagerStep::Continue
                }
            },
            ManagerEvent::Deadline => {
                self.reconcile = true;
                ManagerStep::Continue
            },
        }
    }
}

/// How a manager that took the step completes, if it does.
pub fn completion_of(step: ManagerStep) -> (completion: Option<ManagerCompletion>)
    ensures
        completion == (match step {
            ManagerStep::Drain => Some(ManagerCompletion::Graceful),
            ManagerStep::Abandon => Some(ManagerCompletion::Unexpected),
            _ => None,
        }),
{
    match step {
        ManagerStep::Drain => Some(ManagerCompletion::Graceful),
        ManagerStep::Abandon => Some(ManagerCompletion::Unexpected),
        _ => None,
    }
}

// ── Laws ────────────────────────────────────────────────────────────────────

/// Only the process's own request makes a manager stop gracefully, and only a
/// closed source makes it give up.
pub proof fn only_shutdown_is_graceful(event: ManagerEvent, io_allowed: bool)
    ensures
        CaptureLoop::step_for(event, io_allowed) == ManagerStep::Drain <==> event
            == ManagerEvent::Shutdown,
        CaptureLoop::step_for(event, io_allowed) == ManagerStep::Abandon <==> (event matches ManagerEvent::Published {
            open,
        } && !open) || (event matches ManagerEvent::Requests { open } && !open) || (
        event matches ManagerEvent::Registry { open } && !open) || (
        event matches ManagerEvent::DeviceIo { allowed } && allowed is None),
{
}

/// A stop request is never starved: it is taken up whatever else is ready.
pub proof fn shutdown_comes_first(ready: Ready, has_pending_restores: bool)
    requires
        ready.shutdown,
    ensures
        first_ready(ready, has_pending_restores) == Some(Source::Shutdown),
{
}

/// A session's report is taken up before a publication, so that input accepted
/// under a plan is dispatched before the plan is replaced.
pub proof fn reports_precede_publications(ready: Ready, has_pending_restores: bool)
    requires
        ready.event,
        !ready.shutdown,
    ensures
        first_ready(ready, has_pending_restores) == Some(Source::Event),
{
}

/// Nothing that closes the device-I/O gate starts hardware work.
pub proof fn a_closing_gate_starts_nothing(io_allowed: bool)
    ensures
        !CaptureLoop::asks(ManagerEvent::DeviceIo { allowed: Some(false) }, io_allowed),
        CaptureLoop::step_for(ManagerEvent::DeviceIo { allowed: Some(false) }, io_allowed)
            == ManagerStep::Continue,
{
}

/// Everything that is ready is taken up in its turn: each source that nothing before it
/// in the order hides, and the wait goes on exactly where nothing is ready. The registry
/// counts as ready only while a restore is owed.
pub proof fn nothing_ready_is_lost(ready: Ready, has_pending_restores: bool)
    ensures
        ({
            let first = first_ready(ready, has_pending_restores);
            let earlier = ready.shutdown || ready.event;
            let registry = ready.registry && has_pending_restores;
            &&& first == Some(Source::Published) <==> !earlier && ready.published
            &&& first == Some(Source::Requests) <==> !earlier && !ready.published
                && ready.requests
            &&& first == Some(Source::DeviceIo) <==> !earlier && !ready.published
                && !ready.requests && ready.device_io
            &&& first == Some(Source::Registry) <==> !earlier && !ready.published
                && !ready.requests && !ready.device_io && registry
            &&& first == Some(Source::Deadline) <==> !earlier && !ready.published
                && !ready.requests && !ready.device_io && !registry && ready.deadline
            &&& first is None <==> !earlier && !ready.published && !ready.requests
                && !ready.device_io && !registry && !ready.deadline
        }),
{
}

/// What asks for a reconcile: a publication, a change of requests, the activity gate's
/// opening, a deadline, a session that says so, and, while device I/O is on, a change of
/// the registry, which also makes owed restores due.
pub proof fn changes_ask_for_a_reconcile(io_allowed: bool, reconcile: bool)
    ensures
        CaptureLoop::asks(ManagerEvent::Published { open: true }, io_allowed),
        CaptureLoop::asks(ManagerEvent::Requests { open: true }, io_allowed),
        CaptureLoop::asks(ManagerEvent::DeviceIo { allowed: Some(true) }, io_allowed),
        CaptureLoop::asks(ManagerEvent::Deadline, io_allowed),
        CaptureLoop::asks(ManagerEvent::Session { reconcile }, io_allowed) == reconcile,
        CaptureLoop::asks(ManagerEvent::Registry { open: true }, io_allowed) == io_allowed,
        CaptureLoop::step_for(ManagerEvent::Registry { open: true }, true)
            == ManagerStep::ExpediteRestores,
        CaptureLoop::step_for(ManagerEvent::Registry { open: true }, false)
            == ManagerStep::Continue,
        !CaptureLoop::asks(ManagerEvent::Shutdown, io_allowed),
        !CaptureLoop::asks(ManagerEvent::Published { open: false }, io_allowed),
        !CaptureLoop::asks(ManagerEvent::Requests { open: false }, io_allowed),
        !CaptureLoop::asks(ManagerEvent::Registry { open: false }, io_allowed),
        !CaptureLoop::asks(ManagerEvent::DeviceIo { allowed: None }, io_allowed),
{
}

} // verus!
