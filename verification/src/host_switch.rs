//! Linked host switching: which sessions run for which links.
use vstd::prelude::*;

use crate::route::{DeviceRoute, RouteModel};
use crate::value::Value;

verus! {

/// One resolved link.
#[derive(Debug)]
pub struct HostSwitchLink {
    /// Keyboard whose host switch keys initiate the transition.
    pub keyboard: DeviceRoute,
    /// Pointing devices that follow the keyboard.
    pub targets: Vec<DeviceRoute>,
}

impl Value for HostSwitchLink {
    type Model = (RouteModel, Seq<RouteModel>);

    open spec fn model(&self) -> (RouteModel, Seq<RouteModel>) {
        (self.keyboard.model(), self.targets.model())
    }

    fn same(&self, other: &HostSwitchLink) -> (same: bool) {
        self.keyboard.same(&other.keyboard) && self.targets.same(&other.targets)
    }

    fn copied(&self) -> (copy: HostSwitchLink) {
        HostSwitchLink { keyboard: self.keyboard.copied(), targets: self.targets.copied() }
    }
}

/// The session manager's state.
#[derive(Debug)]
pub struct HostSwitchManager {
    /// The links that the running sessions were started for.
    pub current: Vec<HostSwitchLink>,
    /// Sessions started since the last stop.
    pub running: usize,
    /// Which start the running sessions belong to.
    pub generation: u64,
}

impl HostSwitchManager {
    pub fn new() -> (manager: HostSwitchManager)
        ensures
            manager.current.model() == Seq::<(RouteModel, Seq<RouteModel>)>::empty(),
            manager.running == 0,
            manager.generation == 0,
    {
        let manager: HostSwitchManager = HostSwitchManager {
            current: Vec::new(),
            running: 0,
            generation: 0,
        };
        assert(manager.current.model() =~= Seq::<(RouteModel, Seq<RouteModel>)>::empty());
        manager
    }

    /// What is wanted: nothing while a request for exclusive access waits.
    pub open spec fn wanted(links: Seq<(RouteModel, Seq<RouteModel>)>, exclusive: bool) -> Seq<
        (RouteModel, Seq<RouteModel>),
    > {
        if exclusive {
            Seq::empty()
        } else {
            links
        }
    }

    /// Compare the published links with those that sessions run for. Where they
    /// differ, all sessions are to be stopped and the returned links started, in
    /// order, each reported by [`Self::started`] or [`Self::refused`].
    pub fn tick(&mut self, links: &Vec<HostSwitchLink>, exclusive: bool) -> (restart: Option<
        Vec<HostSwitchLink>,
    >)
        ensures
            ({
                let wanted = HostSwitchManager::wanted(links.model(), exclusive);
                if wanted == old(self).current.model() {
                    restart is None && *final(self) == *old(self)
                } else {
                    &&& restart is Some
                    &&& restart->0.model() == wanted
                    &&& final(self).current.model() == wanted
                    &&& final(self).running == 0
                    &&& final(self).generation == (if old(self).generation == u64::MAX {
                        0
                    } else {
                        old(self).generation + 1
                    })
                }
            }),
    {
        let wanted: Vec<HostSwitchLink> = if exclusive { Vec::new() } else { links.copied() };
        assert(exclusive ==> wanted.model() =~= Seq::empty());
        if wanted.same(&self.current) {
            return None;
        }
        self.current = wanted.copied();
        self.running = 0;
        self.generation = self.generation.wrapping_add(1);
        Some(wanted)
    }

    /// A session got its receiver lease and runs.
    pub fn started(&mut self)
        requires
            old(self).running < usize::MAX,
        ensures
            final(self).running == old(self).running + 1,
            final(self).current == old(self).current,
            final(self).generation == old(self).generation,
    {
        self.running = self.running + 1;
    }

    /// A session got no receiver lease. None of the remaining links is tried, and
    /// the next tick starts them all again.
    pub fn refused(&mut self)
        ensures
            final(self).current.model() == Seq::<(RouteModel, Seq<RouteModel>)>::empty(),
            final(self).running == old(self).running,
            final(self).generation == old(self).generation,
    {
        self.current = Vec::new();
        assert(self.current.model() =~= Seq::<(RouteModel, Seq<RouteModel>)>::empty());
    }

    /// A session of a generation ended. Where it is of the present one, all its
    /// sessions are to be stopped, and the next tick starts them again; the end
    /// of an earlier one says nothing.
    pub fn done(&mut self, generation: u64) -> (stop_all: bool)
        ensures
            stop_all == (generation == old(self).generation && old(self).running > 0),
            stop_all ==> final(self).running == 0 && final(self).current.model() == Seq::<
                (RouteModel, Seq<RouteModel>),
            >::empty() && final(self).generation == old(self).generation,
            !stop_all ==> *final(self) == *old(self),
    {
        if generation == self.generation && self.running > 0 {
            self.running = 0;
            self.refused();
            true
        } else {
            false
        }
    }
}

// ── Laws ────────────────────────────────────────────────────────────────────

/// While a request for exclusive access waits no link is served, and otherwise every
/// published one is, in order.
pub proof fn exclusive_access_serves_no_link(links: Seq<(RouteModel, Seq<RouteModel>)>)
    ensures
        HostSwitchManager::wanted(links, true).len() == 0,
        HostSwitchManager::wanted(links, false) == links,
{
}

} // verus!
