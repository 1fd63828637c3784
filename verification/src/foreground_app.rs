//! Changes of the foreground application.
use vstd::prelude::*;

use crate::value::Value;

verus! {

/// The frontmost application.
#[derive(Debug)]
pub struct ForegroundApp {
    pub id: String,
    pub name: Option<String>,
}

impl ForegroundApp {
    /// An application of which only the identifier is known.
    pub fn unnamed(id: String) -> (app: ForegroundApp)
        ensures
            app == (ForegroundApp { id, name: None }),
    {
        ForegroundApp { id, name: None }
    }
}

impl Value for ForegroundApp {
    type Model = (Seq<char>, Option<Seq<char>>);

    open spec fn model(&self) -> (Seq<char>, Option<Seq<char>>) {
        (self.id@, self.name.model())
    }

    fn same(&self, other: &ForegroundApp) -> (same: bool) {
        self.id == other.id && self.name.same(&other.name)
    }

    fn copied(&self) -> (copy: ForegroundApp) {
        ForegroundApp { id: self.id.clone(), name: self.name.copied() }
    }
}

/// The last value that was published, kept only to drop repeats. `None` before
/// the first one.
#[derive(Debug)]
pub struct ForegroundChanges {
    pub published: Option<Option<ForegroundApp>>,
}

impl Default for ForegroundChanges {
    fn default() -> (changes: ForegroundChanges)
        ensures
            changes.published is None,
    {
        ForegroundChanges { published: None }
    }
}

impl ForegroundChanges {
    /// Note the current application. Whether it is to be published comes back:
    /// the first one is, and after it every change.
    pub fn observe(&mut self, current: &Option<ForegroundApp>) -> (publish: bool)
        ensures
            publish == (old(self).published.model() != Some(current.model())),
            final(self).published.model() == Some(current.model()),
    {
        if let Some(last) = &self.published {
            if last.same(current) {
                return false;
            }
        }
        self.published = Some(current.copied());
        true
    }
}

/// How long the macOS watcher waits for a notification before it reads the
/// foreground application itself, in milliseconds.
pub const MACOS_RECONCILE_PERIOD: u64 = 30_000;

/// What ended a wait for activation notifications.
#[derive(Debug)]
pub enum WatchEvent {
    /// A notification arrived, and behind it those that were already queued.
    Activated { first: Option<ForegroundApp>, queued: Vec<Option<ForegroundApp>> },
    /// The wait ran out. Whether the consumer is gone.
    TimedOut { consumer_gone: bool },
    /// The observer stopped.
    Disconnected,
}

/// The payload that a burst of notifications comes to: the latest. Those before it
/// were never a stable foreground.
pub open spec fn latest(
    first: Option<ForegroundApp>,
    queued: Seq<Option<ForegroundApp>>,
) -> Option<ForegroundApp> {
    if queued.len() == 0 {
        first
    } else {
        queued.last()
    }
}

/// What the watcher does next.
#[derive(Debug)]
pub enum WatchStep {
    /// Hand the value to the consumer, then wait again.
    Publish(Option<ForegroundApp>),
    /// Read the foreground application and take it for the latest.
    Read,
    /// Wait again.
    Wait,
    /// End the watcher.
    Stop,
}

/// The macOS watcher: what was published, and when it next reads by itself.
#[derive(Debug)]
pub struct ForegroundWatch {
    pub changes: ForegroundChanges,
    pub next_reconcile: u64,
}

impl ForegroundWatch {
    /// How long to wait for a notification.
    pub fn timeout(&self, now: u64) -> (timeout: u64)
        ensures
            timeout == (if now <= self.next_reconcile {
                self.next_reconcile - now
            } else {
                0
            }),
    {
        self.next_reconcile.saturating_sub(now)
    }

    /// Take a value read or notified at `now`: a change is published, and the
    /// next read is a whole period away.
    pub fn publish(&mut self, current: Option<ForegroundApp>, now: u64) -> (step: WatchStep)
        requires
            now + MACOS_RECONCILE_PERIOD <= u64::MAX,
        ensures
            step == (if old(self).changes.published.model() == Some(current.model()) {
                WatchStep::Wait
            } else {
                WatchStep::Publish(current)
            }),
            final(self).changes.published.model() == Some(current.model()),
            final(self).next_reconcile == now + MACOS_RECONCILE_PERIOD,
    {
        let publish: bool = self.changes.observe(&current);
        self.next_reconcile = now + MACOS_RECONCILE_PERIOD;
        if publish {
            WatchStep::Publish(current)
        } else {
            WatchStep::Wait
        }
    }

    /// Decide what the end of a wait calls for.
    pub fn step(&mut self, event: WatchEvent, now: u64) -> (step: WatchStep)
        requires
            now + MACOS_RECONCILE_PERIOD <= u64::MAX,
        ensures
            event is Disconnected ==> step is Stop && *final(self) == *old(self),
            event matches WatchEvent::TimedOut { consumer_gone } ==> *final(self) == *old(self)
                && step == (if consumer_gone {
                WatchStep::Stop
            } else if now >= old(self).next_reconcile {
                WatchStep::Read
            } else {
                WatchStep::Wait
            }),
            event matches WatchEvent::Activated { first, queued } ==> ({
                let current = latest(first, queued@);
                &&& final(self).next_reconcile == now + MACOS_RECONCILE_PERIOD
                &&& final(self).changes.published.model() == Some(current.model())
                &&& step == (if old(self).changes.published.model() == Some(current.model()) {
                    WatchStep::Wait
                } else {
                    WatchStep::Publish(current)
                })
            }),
    {
        match event {
            WatchEvent::Activated { first, queued } => {
                let mut queued: Vec<Option<ForegroundApp>> = queued;
                match queued.pop() {
                    Some(current) => self.publish(current, now),
                    None => self.publish(first, now),
                }
            },
            WatchEvent::TimedOut { consumer_gone } => {
                if consumer_gone {
                    WatchStep::Stop
                } else if now >= self.next_reconcile {
                    WatchStep::Read
                } else {
                    WatchStep::Wait
                }
            },
            WatchEvent::Disconnected => WatchStep::Stop,
        }
    }
}

// ── Laws ────────────────────────────────────────────────────────────────────

/// A burst of notifications comes to its last one, whatever came before.
pub proof fn the_last_notification_counts(
    first: Option<ForegroundApp>,
    queued: Seq<Option<ForegroundApp>>,
    last: Option<ForegroundApp>,
)
    ensures
        latest(first, Seq::empty()) == first,
        latest(first, queued.push(last)) == last,
        MACOS_RECONCILE_PERIOD == 30_000,
{
}

/// Two applications are the same exactly where both their identifiers and their names
/// are: a name that becomes known is a change.
pub proof fn names_and_identifiers_tell_apps_apart(a: ForegroundApp, b: ForegroundApp)
    ensures
        a.model() == b.model() <==> a.id@ == b.id@ && (a.name is Some <==> b.name is Some) && (
        a.name is Some ==> a.name->0@ == b.name->0@),
{
}

} // verus!
