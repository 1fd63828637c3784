//! Native battery projection and durable, once-per-discharge notifications.
use vstd::prelude::*;

use crate::device::{BatteryFreshness, BatteryInfo, BatteryStatus, Severity};
use crate::keys::KeySet;
use crate::text::{decimal, push_decimal};

verus! {

/// A missed recovery scan must not leave an old reading looking current
/// forever. In milliseconds.
pub const MAX_READING_AGE: u64 = 90_000;

/// What the user wants to see and hear of one device's battery.
#[derive(Clone, Copy, Debug, PartialEq, Eq, Structural)]
pub struct BatteryPreferences {
    pub show_in_menu: bool,
    pub warn_low: bool,
}

impl Default for BatteryPreferences {
    fn default() -> (preferences: BatteryPreferences)
        ensures
            preferences == (BatteryPreferences { show_in_menu: true, warn_low: true }),
    {
        BatteryPreferences { show_in_menu: true, warn_low: true }
    }
}

/// One device as an inventory pass saw it.
#[derive(Debug)]
pub struct Observation {
    pub key: String,
    /// The device's own, lasting identity, where it has one.
    pub history_key: Option<String>,
    /// The identity of an anonymous device, which lasts as long as its pairing.
    pub session_key: String,
    pub online: bool,
    pub name: String,
    pub battery: Option<BatteryInfo>,
    pub preferences: BatteryPreferences,
}

impl Observation {
    /// The identity under which the device's episodes are remembered.
    pub open spec fn id(self) -> Seq<char> {
        match self.history_key {
            Some(key) => key@,
            None => self.session_key@,
        }
    }

    /// The reading, while readings are current.
    pub open spec fn reading(self, current: bool) -> Option<BatteryInfo> {
        if current {
            self.battery
        } else {
            None
        }
    }

    /// Whether the reading ends a low-battery episode.
    pub open spec fn rearms(self, current: bool) -> bool {
        self.online && (self.reading(current) matches Some(battery) && battery.rearms())
    }

    pub open spec fn percentage(self, current: bool) -> Option<u8> {
        match self.reading(current) {
            Some(battery) => battery.usable(),
            None => None,
        }
    }

    pub open spec fn severity(self, current: bool) -> Severity {
        match self.reading(current) {
            Some(battery) => battery.urgency(),
            None => Severity::Normal,
        }
    }

    pub open spec fn charging(self, current: bool) -> bool {
        self.reading(current) matches Some(battery) && battery.freshness
            != BatteryFreshness::Cached && battery.charging()
    }
}

/// A native device row. Percent, charging and severity are already validated.
#[derive(Debug)]
pub struct DeviceBattery {
    pub key: String,
    pub name: String,
    pub percentage: Option<u8>,
    pub charging: bool,
    pub severity: Severity,
}

/// The localised words of a battery row.
#[derive(Debug)]
pub struct BatteryWords {
    pub unknown: String,
    pub charging: String,
    pub low: String,
    pub critical: String,
}

impl DeviceBattery {
    /// The word for the row's state, empty where it calls for none.
    pub open spec fn status_word(self, words: BatteryWords) -> Seq<char> {
        if self.charging {
            words.charging@
        } else {
            match self.severity {
                Severity::Normal => Seq::empty(),
                Severity::Low => words.low@,
                Severity::Critical => words.critical@,
            }
        }
    }

    /// The word for the row's charge.
    pub open spec fn value_word(self, words: BatteryWords) -> Seq<char> {
        match self.percentage {
            Some(value) => decimal(value as nat) + "%"@,
            None => words.unknown@,
        }
    }

    /// Full semantic label, kept even where the row draws a compact badge.
    pub fn accessible_label(&self, words: &BatteryWords) -> (label: String)
        ensures
            label@ == self.name@ + ": "@ + self.value_word(*words) + (if self.status_word(
                *words,
            ).len() == 0 {
                Seq::empty()
            } else {
                ", "@ + self.status_word(*words)
            }),
    {
        let mut label: String = self.name.clone();
        label.append(": ");
        match self.percentage {
            Some(value) => {
                let mut text: String = String::new();
                push_decimal(&mut text, value as u64);
                assert(text@ =~= decimal(value as nat));
                text.append("%");
                label.append(text.as_str());
            },
            None => label.append(words.unknown.as_str()),
        }
        let status: String = if self.charging {
            words.charging.clone()
        } else {
            match self.severity {
                Severity::Normal => String::new(),
                Severity::Low => words.low.clone(),
                Severity::Critical => words.critical.clone(),
            }
        };
        let ghost so_far = label@;
        if !status.as_str().is_empty() {
            label.append(", ");
            label.append(status.as_str());
            assert(label@ =~= so_far + (", "@ + status@));
        } else {
            assert(label@ =~= so_far + Seq::empty());
        }
        label
    }
}

/// The selected menu rows, and the worst state among all warning-enabled devices.
#[derive(Debug)]
pub struct Snapshot {
    pub devices: Vec<DeviceBattery>,
    pub severity: Severity,
}

/// Whether two rows show the same.
pub open spec fn same_row(a: DeviceBattery, b: DeviceBattery) -> bool {
    &&& a.key@ == b.key@
    &&& a.name@ == b.name@
    &&& a.percentage == b.percentage
    &&& a.charging == b.charging
    &&& a.severity == b.severity
}

/// Whether two snapshots show the same.
pub open spec fn same_snapshot(a: Snapshot, b: Snapshot) -> bool {
    &&& a.severity == b.severity
    &&& a.devices@.len() == b.devices@.len()
    &&& forall|i: int|
        0 <= i < a.devices@.len() ==> same_row(#[trigger] a.devices@[i], b.devices@[i])
}

impl Snapshot {
    pub fn empty() -> (snapshot: Snapshot)
        ensures
            snapshot.devices@ == Seq::<DeviceBattery>::empty(),
            snapshot.severity == Severity::Normal,
    {
        Snapshot { devices: Vec::new(), severity: Severity::Normal }
    }

    /// Whether two snapshots show the same.
    pub fn same(&self, other: &Snapshot) -> (same: bool)
        ensures
            same == same_snapshot(*self, *other),
    {
        if self.severity != other.severity || self.devices.len() != other.devices.len() {
            return false;
        }
        let mut i: usize = 0;
        while i < self.devices.len()
            invariant
                i <= self.devices.len() == other.devices.len(),
                forall|j: int|
                    0 <= j < i ==> same_row(#[trigger] self.devices@[j], other.devices@[j]),
            decreases self.devices.len() - i,
        {
            let a: &DeviceBattery = &self.devices[i];
            let b: &DeviceBattery = &other.devices[i];
            let same: bool = a.key == b.key && a.name == b.name && a.percentage == b.percentage
                && a.charging == b.charging && a.severity == b.severity;
            if !same {
                assert(!same_row(self.devices@[i as int], other.devices@[i as int]));
                return false;
            }
            i = i + 1;
        }
        true
    }
}

/// An accepted transition into a low-battery episode.
#[derive(Debug)]
pub struct Alert {
    pub name: String,
    pub percentage: u8,
}

/// What is remembered of the devices of one kind of identity: lasting ones, or
/// those of the running session.
#[derive(Debug)]
pub struct History {
    /// Devices warned of in their present episode.
    pub warned: KeySet,
    /// Devices known to have a battery.
    pub battery_devices: KeySet,
}

/// What a [`History`] holds.
pub struct Memory {
    pub warned: Set<Seq<char>>,
    pub known: Set<Seq<char>>,
}

impl View for History {
    type V = Memory;

    open spec fn view(&self) -> Memory {
        Memory { warned: self.warned@, known: self.battery_devices@ }
    }
}

impl History {
    /// Whether no key is held twice.
    pub open spec fn wf(self) -> bool {
        self.warned.wf() && self.battery_devices.wf()
    }

    pub fn empty() -> (history: History)
        ensures
            history@ == (Memory { warned: Set::empty(), known: Set::empty() }),
            history.wf(),
    {
        History { warned: KeySet::new(), battery_devices: KeySet::new() }
    }

    /// Whether two histories hold the same.
    pub fn same(&self, other: &History) -> (same: bool)
        ensures
            same == (self@ == other@),
    {
        self.warned.same(&other.warned) && self.battery_devices.same(&other.battery_devices)
    }

    pub fn copy(&self) -> (copy: History)
        ensures
            copy@ == self@,
            self.wf() ==> copy.wf(),
    {
        History { warned: self.warned.copy(), battery_devices: self.battery_devices.copy() }
    }
}

// ── One observation ─────────────────────────────────────────────────────────

impl Memory {
    /// The devices known to have a battery once the observation is in.
    pub open spec fn known_after(self, observation: Observation) -> Set<Seq<char>> {
        if observation.battery is Some {
            self.known.insert(observation.id())
        } else {
            self.known
        }
    }

    /// Whether the observation takes part: the device is online, and reported a
    /// battery now or before.
    pub open spec fn counts(self, observation: Observation) -> bool {
        observation.online && self.known_after(observation).contains(observation.id())
    }

    /// The warned devices, without this one where its reading ends an episode.
    pub open spec fn rearmed(self, observation: Observation, current: bool) -> Set<Seq<char>> {
        if observation.rearms(current) {
            self.warned.remove(observation.id())
        } else {
            self.warned
        }
    }

    /// Whether the observation belongs to a low-battery episode that the user
    /// wants to hear of.
    pub open spec fn alarming(self, observation: Observation, current: bool) -> bool {
        &&& self.counts(observation)
        &&& observation.preferences.warn_low
        &&& observation.severity(current) != Severity::Normal
    }

    /// The alert that the observation raises: the first of its episode does.
    pub open spec fn alert(self, observation: Observation, current: bool) -> Option<Alert> {
        if self.alarming(observation, current) && !self.rearmed(observation, current).contains(
            observation.id(),
        ) {
            Some(
                Alert {
                    name: observation.name,
                    percentage: observation.battery->0.percentage,
                },
            )
        } else {
            None
        }
    }

    /// The row that the observation adds to the menu.
    pub open spec fn row(self, observation: Observation, current: bool) -> Option<DeviceBattery> {
        if self.counts(observation) && observation.preferences.show_in_menu {
            Some(
                DeviceBattery {
                    key: observation.key,
                    name: observation.name,
                    percentage: observation.percentage(current),
                    charging: observation.charging(current),
                    severity: observation.severity(current),
                },
            )
        } else {
            None
        }
    }

    /// What is remembered once the observation is in.
    pub open spec fn step(self, observation: Observation, current: bool) -> Memory {
        if !self.counts(observation) {
            self
        } else {
            Memory {
                known: self.known_after(observation),
                warned: if self.alarming(observation, current) {
                    self.rearmed(observation, current).insert(observation.id())
                } else {
                    self.rearmed(observation, current)
                },
            }
        }
    }
}

/// Where a pass over the observations stands.
pub struct Pass {
    pub history: Memory,
    pub session: Memory,
    pub severity: Severity,
    pub alerts: Seq<Alert>,
    pub devices: Seq<DeviceBattery>,
}

impl Pass {
    /// What is remembered of devices of the observation's kind of identity.
    pub open spec fn memory(self, observation: Observation) -> Memory {
        if observation.history_key is Some {
            self.history
        } else {
            self.session
        }
    }

    /// The pass once the observation is in.
    pub open spec fn step(self, observation: Observation, current: bool) -> Pass {
        let memory = self.memory(observation);
        let after = memory.step(observation, current);
        Pass {
            history: if observation.history_key is Some { after } else { self.history },
            session: if observation.history_key is Some { self.session } else { after },
            severity: if memory.alarming(observation, current) {
                self.severity.worse(observation.severity(current))
            } else {
                self.severity
            },
            alerts: match memory.alert(observation, current) {
                Some(alert) => self.alerts.push(alert),
                None => self.alerts,
            },
            devices: match memory.row(observation, current) {
                Some(row) => self.devices.push(row),
                None => self.devices,
            },
        }
    }

    /// The pass once all the observations are in.
    pub open spec fn over(self, observations: Seq<Observation>, current: bool) -> Pass
        decreases observations.len(),
    {
        if observations.len() == 0 {
            self
        } else {
            self.over(observations.drop_last(), current).step(observations.last(), current)
        }
    }
}

/// Fold one observation into the history of its kind of identity.
fn fold(
    history: &mut History,
    id: &String,
    observation: &Observation,
    current: bool,
    next: &mut Snapshot,
    alerts: &mut Vec<Alert>,
)
    requires
        id@ == observation.id(),
    ensures
        final(history)@ == old(history)@.step(*observation, current),
        old(history).wf() ==> final(history).wf(),
        final(next).severity == (if old(history)@.alarming(*observation, current) {
            old(next).severity.worse(observation.severity(current))
        } else {
            old(next).severity
        }),
        final(next).devices@ == (match old(history)@.row(*observation, current) {
            Some(row) => old(next).devices@.push(row),
            None => old(next).devices@,
        }),
        final(alerts)@ == (match old(history)@.alert(*observation, current) {
            Some(alert) => old(alerts)@.push(alert),
            None => old(alerts)@,
        }),
{
    if !observation.online {
        return;
    }
    if observation.battery.is_some() {
        let _ = history.battery_devices.insert(id);
    }
    if !history.battery_devices.contains(id) {
        return;
    }
    let reading: Option<BatteryInfo> = if current { observation.battery } else { None };
    let percentage: Option<u8> = match &reading {
        Some(battery) => battery.usable_percentage(),
        None => None,
    };
    let severity: Severity = match &reading {
        Some(battery) => battery.severity(),
        None => Severity::Normal,
    };
    let charging: bool = match &reading {
        Some(battery) => battery.freshness != BatteryFreshness::Cached && battery.is_charging(),
        None => false,
    };
    let rearms: bool = match &reading {
        Some(battery) => battery.rearms_warning(),
        None => false,
    };
    if rearms {
        let _ = history.warned.remove(id);
    }
    if observation.preferences.warn_low {
        next.severity = next.severity.max_with(severity);
        if severity != Severity::Normal {
            if let Some(percentage) = percentage {
                if history.warned.insert(id) {
                    alerts.push(Alert { name: observation.name.clone(), percentage });
                }
            }
        }
    }
    if observation.preferences.show_in_menu {
        next.devices.push(
            DeviceBattery {
                key: observation.key.clone(),
                name: observation.name.clone(),
                percentage,
                charging,
                severity,
            },
        );
    }
}

// ── The owner ───────────────────────────────────────────────────────────────

/// The owner of everything the battery surfaces show and remember.
#[derive(Debug)]
pub struct State {
    pub history: History,
    /// The history as it was last saved.
    pub persisted_history: History,
    /// Episodes of devices without a lasting identity.
    pub session: History,
    pub observations: Vec<Observation>,
    /// When the observations were taken, in milliseconds.
    pub observed_at: Option<u64>,
    pub snapshot: Snapshot,
}

/// What a reconciliation asks for.
#[derive(Debug)]
pub struct Reconciled {
    /// The snapshot shows something else than before.
    pub changed: bool,
    /// The history differs from the saved one and is to be saved, before any of
    /// the alerts goes out.
    pub save: bool,
    pub alerts: Vec<Alert>,
}

/// Whether readings taken at `observed_at` are current.
pub open spec fn is_current(observed_at: Option<u64>, now: u64) -> bool {
    observed_at matches Some(observed) && now - observed <= MAX_READING_AGE
}

/// The session keys of the devices without a lasting identity.
pub open spec fn anonymous_keys(observations: Seq<Observation>) -> Set<Seq<char>> {
    Set::new(
        |key: Seq<char>|
            exists|i: int|
                0 <= i < observations.len() && (#[trigger] observations[i]).history_key is None
                    && observations[i].session_key@ == key,
    )
}

/// Where a reconciliation begins: the episodes of anonymous pairings that are
/// gone are forgotten.
pub open spec fn opening(state: State) -> Pass {
    let present = anonymous_keys(state.observations@);
    Pass {
        history: state.history@,
        session: Memory {
            warned: state.session@.warned.intersect(present),
            known: state.session@.known.intersect(present),
        },
        severity: Severity::Normal,
        alerts: Seq::empty(),
        devices: Seq::empty(),
    }
}

/// Where a reconciliation ends.
pub open spec fn closing(state: State, now: u64) -> Pass {
    opening(state).over(state.observations@, is_current(state.observed_at, now))
}

/// Whether `after` and `out` are what reconciling `before` gives.
pub open spec fn reconciled(before: State, now: u64, after: State, out: Reconciled) -> bool {
    let pass = closing(before, now);
    &&& after.history@ == pass.history
    &&& after.session@ == pass.session
    &&& after.snapshot.severity == pass.severity
    &&& after.snapshot.devices@ == pass.devices
    &&& after.observations == before.observations
    &&& after.observed_at == before.observed_at
    &&& after.persisted_history == before.persisted_history
    &&& out.alerts@ == pass.alerts
    &&& out.save == (pass.history != before.persisted_history@)
    &&& out.changed == !same_snapshot(after.snapshot, before.snapshot)
    &&& before.wf() ==> after.wf()
}

fn present_keys(observations: &Vec<Observation>) -> (present: KeySet)
    ensures
        present@ == anonymous_keys(observations@),
{
    let mut present: KeySet = KeySet::new();
    let mut i: usize = 0;
    assert(present@ =~= anonymous_keys(observations@.take(0)));
    while i < observations.len()
        invariant
            i <= observations.len(),
            present@ == anonymous_keys(observations@.take(i as int)),
        decreases observations.len() - i,
    {
        let ghost before = present@;
        let ghost shorter = observations@.take(i as int);
        let ghost longer = observations@.take(i + 1);
        if observations[i].history_key.is_none() {
            let _ = present.insert(&observations[i].session_key);
        }
        proof {
            let last = observations@[i as int];
            assert forall|key: Seq<char>| present@.contains(key) implies anonymous_keys(
                longer,
            ).contains(key) by {
                if before.contains(key) {
                    let j = choose|j: int|
                        0 <= j < shorter.len() && (#[trigger] shorter[j]).history_key is None
                            && shorter[j].session_key@ == key;
                    assert(longer[j] == shorter[j]);
                } else {
                    assert(longer[i as int] == last);
                }
            }
            assert forall|key: Seq<char>| anonymous_keys(longer).contains(
                key,
            ) implies present@.contains(key) by {
                let j = choose|j: int|
                    0 <= j < longer.len() && (#[trigger] longer[j]).history_key is None
                        && longer[j].session_key@ == key;
                if j < i {
                    assert(shorter[j] == longer[j]);
                    assert(before.contains(key));
                }
            }
            assert(present@ =~= anonymous_keys(longer));
        }
        i = i + 1;
    }
    assert(observations@.take(i as int) =~= observations@);
    present
}

impl State {
    /// Whether no key is held twice.
    pub open spec fn wf(self) -> bool {
        self.history.wf() && self.persisted_history.wf() && self.session.wf()
    }

    /// The state of a starting process, from what an earlier one saved.
    pub fn new(saved: Option<History>) -> (state: State)
        ensures
            state.history@ == (match saved {
                Some(history) => history@,
                None => Memory { warned: Set::empty(), known: Set::empty() },
            }),
            state.persisted_history@ == state.history@,
            state.session@ == (Memory { warned: Set::empty(), known: Set::empty() }),
            state.observations@.len() == 0,
            state.observed_at is None,
            state.snapshot.devices@.len() == 0,
            state.snapshot.severity == Severity::Normal,
            (saved is Some ==> saved->0.wf()) ==> state.wf(),
    {
        let history: History = match saved {
            Some(history) => history,
            None => History::empty(),
        };
        State {
            persisted_history: history.copy(),
            history,
            session: History::empty(),
            observations: Vec::new(),
            observed_at: None,
            snapshot: Snapshot::empty(),
        }
    }

    /// Derive the presentation and the alerts from the latest observations.
    ///
    /// An unpaired slot may next hold another device, so an anonymous pairing
    /// that is gone is forgotten. A sleeping paired device stays in the
    /// observations and keeps its episode.
    pub fn reconcile(&mut self, now: u64) -> (out: Reconciled)
        ensures
            reconciled(*old(self), now, *final(self), out),
    {
        let present: KeySet = present_keys(&self.observations);
        self.session.warned.retain_in(&present);
        self.session.battery_devices.retain_in(&present);
        let current: bool = match self.observed_at {
            Some(observed) => now.saturating_sub(observed) <= MAX_READING_AGE,
            None => false,
        };
        let mut next: Snapshot = Snapshot::empty();
        let mut alerts: Vec<Alert> = Vec::new();
        let ghost start = opening(*old(self));
        let mut i: usize = 0;
        assert(self.observations@.take(0) =~= Seq::<Observation>::empty());
        while i < self.observations.len()
            invariant
                i <= self.observations.len(),
                self.observations == old(self).observations,
                self.observed_at == old(self).observed_at,
                self.persisted_history == old(self).persisted_history,
                self.snapshot == old(self).snapshot,
                old(self).wf() ==> self.wf(),
                ({
                    let pass = start.over(self.observations@.take(i as int), current);
                    &&& self.history@ == pass.history
                    &&& self.session@ == pass.session
                    &&& next.severity == pass.severity
                    &&& next.devices@ == pass.devices
                    &&& alerts@ == pass.alerts
                }),
            decreases self.observations.len() - i,
        {
            proof {
                let all = self.observations@;
                assert(all.take(i + 1).drop_last() =~= all.take(i as int));
                assert(all.take(i + 1).last() == all[i as int]);
            }
            let observation: &Observation = &self.observations[i];
            match &observation.history_key {
                Some(key) => fold(
                    &mut self.history,
                    key,
                    observation,
                    current,
                    &mut next,
                    &mut alerts,
                ),
                None => fold(
                    &mut self.session,
                    &observation.session_key,
                    observation,
                    current,
                    &mut next,
                    &mut alerts,
                ),
            }
            i = i + 1;
        }
        assert(self.observations@.take(i as int) =~= self.observations@);
        let save: bool = !self.history.same(&self.persisted_history);
        let changed: bool = !next.same(&self.snapshot);
        self.snapshot = next;
        Reconciled { changed, save, alerts }
    }

    /// Note that the history was saved as it is.
    pub fn saved(&mut self)
        ensures
            final(self).persisted_history@ == old(self).history@,
            final(self).history == old(self).history,
            final(self).session == old(self).session,
            final(self).observations == old(self).observations,
            final(self).observed_at == old(self).observed_at,
            final(self).snapshot == old(self).snapshot,
            old(self).wf() ==> final(self).wf(),
    {
        self.persisted_history = self.history.copy();
    }

    /// A completed inventory pass supplies new observations and makes their
    /// readings current.
    pub fn refresh_inventory(&mut self, observations: Vec<Observation>, now: u64) -> (out:
        Reconciled)
        ensures
            reconciled(
                (State { observations, observed_at: Some(now), ..*old(self) }),
                now,
                *final(self),
                out,
            ),
    {
        self.observations = observations;
        self.observed_at = Some(now);
        self.reconcile(now)
    }

    /// Preferences change at once, without making an old measurement fresh again.
    pub fn refresh_preferences(&mut self, observations: Vec<Observation>, now: u64) -> (out:
        Reconciled)
        ensures
            reconciled((State { observations, ..*old(self) }), now, *final(self), out),
    {
        self.observations = observations;
        self.reconcile(now)
    }

    /// Sleep, resume or an unavailable inventory makes readings stale until the
    /// next probe.
    pub fn invalidate(&mut self, now: u64) -> (out: Reconciled)
        ensures
            reconciled((State { observed_at: None, ..*old(self) }), now, *final(self), out),
    {
        self.observed_at = None;
        self.reconcile(now)
    }

    /// Time passed. Readings whose age ran out stop counting, which also covers
    /// an inventory watcher that stopped after earlier success.
    pub fn expire(&mut self, now: u64) -> (out: Reconciled)
        ensures
            reconciled(*old(self), now, *final(self), out),
    {
        self.reconcile(now)
    }
}

// ── Laws ────────────────────────────────────────────────────────────────────

/// Whether an observation is of a device: one with a lasting identity, or one that
/// is known by its pairing only.
pub open spec fn is_of(observation: Observation, lasting: bool, id: Seq<char>) -> bool {
    (observation.history_key is Some) == lasting && observation.id() == id
}

/// How many of the alerts of a pass are for one device.
pub open spec fn alerts_for(
    start: Pass,
    observations: Seq<Observation>,
    current: bool,
    lasting: bool,
    id: Seq<char>,
) -> nat
    decreases observations.len(),
{
    if observations.len() == 0 {
        0
    } else {
        let before = observations.drop_last();
        let last = observations.last();
        let earlier = alerts_for(start, before, current, lasting, id);
        if is_of(last, lasting, id) && start.over(before, current).memory(last).alert(last, current)
            is Some {
            earlier + 1
        } else {
            earlier
        }
    }
}

/// How many alerts are for one device in a series of reconciliations, each of a
/// state at a time.
pub open spec fn alerts_over(
    states: Seq<State>,
    times: Seq<u64>,
    lasting: bool,
    id: Seq<char>,
) -> nat
    decreases states.len(),
{
    if states.len() == 0 {
        0
    } else {
        let last = states.len() - 1;
        alerts_over(states.drop_last(), times, lasting, id) + alerts_for(
            opening(states[last]),
            states[last].observations@,
            is_current(states[last].observed_at, times[last]),
            lasting,
            id,
        )
    }
}

/// Whether a pass remembers to have warned of a device.
pub open spec fn has_warned(pass: Pass, lasting: bool, id: Seq<char>) -> bool {
    if lasting {
        pass.history.warned.contains(id)
    } else {
        pass.session.warned.contains(id)
    }
}

/// Whether a state remembers to have warned of a device.
pub open spec fn state_has_warned(state: State, lasting: bool, id: Seq<char>) -> bool {
    if lasting {
        state.history@.warned.contains(id)
    } else {
        state.session@.warned.contains(id)
    }
}

/// Whether a reconciliation finds nothing that ends a device's low-battery episode:
/// no current reading of it is above [`crate::device::REARM_PERCENT`], and a device
/// that is known by its pairing only is still paired.
pub open spec fn discharges(state: State, now: u64, lasting: bool, id: Seq<char>) -> bool {
    &&& forall|i: int|
        0 <= i < state.observations@.len() && is_of(
            #[trigger] state.observations@[i],
            lasting,
            id,
        ) ==> !state.observations@[i].rearms(is_current(state.observed_at, now))
    &&& lasting || anonymous_keys(state.observations@).contains(id)
}

/// Whether a reconciliation starts from what an earlier one, at a time, remembered of
/// devices of one kind of identity. That is so of the same process, and, of lasting
/// identities, of another process that read what was saved.
pub open spec fn follows(earlier: State, time: u64, later: State, lasting: bool) -> bool {
    if lasting {
        later.history@ == closing(earlier, time).history
    } else {
        later.session@ == closing(earlier, time).session
    }
}

proof fn lemma_one_pass(
    start: Pass,
    observations: Seq<Observation>,
    current: bool,
    lasting: bool,
    id: Seq<char>,
)
    requires
        forall|i: int|
            0 <= i < observations.len() && is_of(#[trigger] observations[i], lasting, id)
                ==> !observations[i].rearms(current),
    ensures
        ({
            let count = alerts_for(start, observations, current, lasting, id);
            let end = start.over(observations, current);
            &&& count <= 1
            &&& has_warned(start, lasting, id) ==> count == 0 && has_warned(end, lasting, id)
            &&& count > 0 ==> has_warned(end, lasting, id)
        }),
    decreases observations.len(),
{
    if observations.len() > 0 {
        let before = observations.drop_last();
        assert forall|i: int|
            0 <= i < before.len() && is_of(#[trigger] before[i], lasting, id) implies !before[i].rearms(
            current,
        ) by {
            assert(before[i] == observations[i]);
        }
        lemma_one_pass(start, before, current, lasting, id);
        assert(observations.last() == observations[observations.len() - 1]);
    }
}

/// One discharge raises at most one alert: among any other devices, through any
/// series of reconciliations, with disconnects, charging spells, stale readings and
/// restarts between them, a device is not warned of again until a reading above
/// [`crate::device::REARM_PERCENT`] ends the episode.
pub proof fn one_alert_per_discharge(
    states: Seq<State>,
    times: Seq<u64>,
    lasting: bool,
    id: Seq<char>,
)
    requires
        times.len() == states.len(),
        forall|k: int| 0 <= k < states.len() ==> discharges(#[trigger] states[k], times[k], lasting, id),
        forall|k: int|
            0 <= k < states.len() - 1 ==> follows(
                #[trigger] states[k],
                times[k],
                states[k + 1],
                lasting,
            ),
    ensures
        alerts_over(states, times, lasting, id) <= 1,
        states.len() > 0 && state_has_warned(states[0], lasting, id) ==> alerts_over(
            states,
            times,
            lasting,
            id,
        ) == 0,
        states.len() > 0 && (alerts_over(states, times, lasting, id) > 0 || state_has_warned(
            states[0],
            lasting,
            id,
        )) ==> has_warned(
            closing(states[states.len() - 1], times[states.len() - 1]),
            lasting,
            id,
        ),
    decreases states.len(),
{
    if states.len() > 0 {
        let last = states.len() - 1;
        let before = states.drop_last();
        let short = times.drop_last();
        assert forall|k: int| 0 <= k < before.len() implies discharges(
            #[trigger] before[k],
            short[k],
            lasting,
            id,
        ) by {
            assert(discharges(states[k], times[k], lasting, id));
        }
        assert forall|k: int| 0 <= k < before.len() - 1 implies follows(
            #[trigger] before[k],
            short[k],
            before[k + 1],
            lasting,
        ) by {
            assert(follows(states[k], times[k], states[k + 1], lasting));
        }
        one_alert_per_discharge(before, short, lasting, id);
        lemma_alerts_over_prefix(before, times, short, lasting, id);
        let state = states[last];
        assert(discharges(state, times[last], lasting, id));
        lemma_one_pass(
            opening(state),
            state.observations@,
            is_current(state.observed_at, times[last]),
            lasting,
            id,
        );
        if last > 0 {
            assert(follows(states[last - 1], times[last - 1], states[last - 1 + 1], lasting));
            assert(before[before.len() - 1] == states[last - 1]);
            assert(short[before.len() - 1] == times[last - 1]);
            assert(before[0] == states[0]);
        }
    }
}

proof fn lemma_alerts_over_prefix(
    states: Seq<State>,
    times: Seq<u64>,
    others: Seq<u64>,
    lasting: bool,
    id: Seq<char>,
)
    requires
        states.len() <= times.len(),
        states.len() <= others.len(),
        forall|k: int| 0 <= k < states.len() ==> times[k] == others[k],
    ensures
        alerts_over(states, times, lasting, id) == alerts_over(states, others, lasting, id),
    decreases states.len(),
{
    if states.len() > 0 {
        lemma_alerts_over_prefix(states.drop_last(), times, others, lasting, id);
    }
}

/// Without current readings nothing is warned of, nothing colours the brand mark,
/// and no row shows a percentage, a charge or a severity.
pub proof fn stale_readings_never_warn(start: Pass, observations: Seq<Observation>)
    ensures
        start.over(observations, false).alerts == start.alerts,
        start.over(observations, false).severity == start.severity,
        start.over(observations, false).devices.len() >= start.devices.len(),
        forall|i: int|
            start.devices.len() <= i < start.over(observations, false).devices.len() ==> {
                let row = #[trigger] start.over(observations, false).devices[i];
                row.percentage is None && !row.charging && row.severity == Severity::Normal
            },
        start.over(observations, false).history.warned == start.history.warned,
        start.over(observations, false).session.warned == start.session.warned,
    decreases observations.len(),
{
    if observations.len() > 0 {
        stale_readings_never_warn(start, observations.drop_last());
    }
}

/// Anonymous devices leave no trace in the lasting history.
pub proof fn anonymous_devices_leave_no_history(
    start: Pass,
    observations: Seq<Observation>,
    current: bool,
)
    requires
        forall|i: int| 0 <= i < observations.len() ==> (#[trigger] observations[i]).history_key is None,
    ensures
        start.over(observations, current).history == start.history,
    decreases observations.len(),
{
    if observations.len() > 0 {
        let before = observations.drop_last();
        assert forall|i: int| 0 <= i < before.len() implies (
        #[trigger] before[i]).history_key is None by {
            assert(before[i] == observations[i]);
        }
        anonymous_devices_leave_no_history(start, before, current);
    }
}

/// After every reconciliation a device that is no longer observed anonymously is
/// not remembered in the session.
pub proof fn gone_pairings_are_forgotten(
    start: Pass,
    observations: Seq<Observation>,
    current: bool,
    present: Set<Seq<char>>,
)
    requires
        start.session.warned.subset_of(present),
        start.session.known.subset_of(present),
        forall|i: int|
            0 <= i < observations.len() && (#[trigger] observations[i]).history_key is None
                ==> present.contains(observations[i].session_key@),
    ensures
        start.over(observations, current).session.warned.subset_of(present),
        start.over(observations, current).session.known.subset_of(present),
    decreases observations.len(),
{
    if observations.len() > 0 {
        let before = observations.drop_last();
        assert forall|i: int|
            0 <= i < before.len() && (#[trigger] before[i]).history_key is None implies present.contains(
            before[i].session_key@,
        ) by {
            assert(before[i] == observations[i]);
        }
        gone_pairings_are_forgotten(start, before, current, present);
        assert(observations.last() == observations[observations.len() - 1]);
    }
}

/// Whether a low-battery warning is due for an observation, by what the device reports: a
/// fresh, current reading of at most twenty percent, while it is online, does not charge
/// and is not full.
pub open spec fn runs_low(observation: Observation, current: bool) -> bool {
    &&& current
    &&& observation.online
    &&& observation.battery matches Some(battery) && battery.percentage <= 20
        && battery.freshness == BatteryFreshness::Current && battery.status
        != BatteryStatus::Charging && battery.status != BatteryStatus::ChargingSlow
        && battery.status != BatteryStatus::Full
}

/// A device that runs low is warned of exactly where its user wants warnings and its
/// present episode was not warned of yet. The alert names the device and its charge, the
/// episode is remembered, and nothing else raises an alert.
pub proof fn low_devices_are_warned_of_once(
    pass: Pass,
    observation: Observation,
    current: bool,
)
    ensures
        ({
            let id = match observation.history_key {
                Some(key) => key@,
                None => observation.session_key@,
            };
            let before = if observation.history_key is Some {
                pass.history.warned
            } else {
                pass.session.warned
            };
            let next = pass.step(observation, current);
            let after = if observation.history_key is Some {
                next.history.warned
            } else {
                next.session.warned
            };
            let due = runs_low(observation, current) && observation.preferences.warn_low;
            &&& due && !before.contains(id) ==> {
                &&& next.alerts == pass.alerts.push(
                    Alert {
                        name: observation.name,
                        percentage: observation.battery->0.percentage,
                    },
                )
                &&& after == before.insert(id)
            }
            &&& due && before.contains(id) ==> next.alerts == pass.alerts && after == before
            &&& !due ==> next.alerts == pass.alerts && after.subset_of(before)
        }),
{
    let id = observation.id();
    let before = pass.memory(observation);
    let next = pass.step(observation, current);
    if runs_low(observation, current) && observation.preferences.warn_low {
        assert(before.known_after(observation).contains(id));
        assert(observation.severity(current) != Severity::Normal);
        if before.warned.contains(id) {
            assert(before.warned.insert(id) =~= before.warned);
        }
    }
}

/// A fresh, current reading above twenty-five percent of an online device ends its
/// episode, so that the next discharge is warned of again; any other observation keeps
/// what was warned of.
pub proof fn recharged_devices_rearm(memory: Memory, observation: Observation, current: bool)
    ensures
        ({
            let id = observation.id();
            let after = memory.step(observation, current).warned;
            let ends = current && observation.online && (observation.battery matches Some(battery)
                && battery.freshness == BatteryFreshness::Current && battery.percentage > 25);
            &&& ends ==> !after.contains(id)
            &&& !ends && memory.warned.contains(id) ==> after.contains(id)
            &&& forall|other: Seq<char>|
                other != id ==> after.contains(other) == #[trigger] memory.warned.contains(other)
        }),
{
}

/// The menu has a row for every online device that reports a battery, now or before, and
/// whose user wants one. The row shows a charge only while the reading is fresh and
/// current.
pub proof fn rows_show_what_is_current(pass: Pass, observation: Observation, current: bool)
    ensures
        ({
            let known = if observation.history_key is Some {
                pass.history.known
            } else {
                pass.session.known
            };
            let next = pass.step(observation, current);
            let counts = observation.online && (observation.battery is Some || known.contains(
                observation.id(),
            ));
            let fresh = current && (observation.battery matches Some(battery) && battery.freshness
                == BatteryFreshness::Current);
            &&& counts && observation.preferences.show_in_menu ==> {
                let row = next.devices.last();
                &&& next.devices.len() == pass.devices.len() + 1
                &&& next.devices.drop_last() =~= pass.devices
                &&& row.key == observation.key
                &&& row.name == observation.name
                &&& fresh ==> row.percentage == Some(observation.battery->0.percentage)
                &&& !fresh ==> row.percentage is None && !row.charging && row.severity
                    == Severity::Normal
                &&& fresh ==> row.charging == (observation.battery->0.status
                    == BatteryStatus::Charging || observation.battery->0.status
                    == BatteryStatus::ChargingSlow)
                &&& row.severity != Severity::Normal <==> runs_low(observation, current)
                &&& row.severity == Severity::Critical <==> runs_low(observation, current)
                    && observation.battery->0.percentage <= 10
            }
            &&& !(counts && observation.preferences.show_in_menu) ==> next.devices == pass.devices
        }),
{
}

/// The brand mark takes the worst severity of the devices whose users want warnings, and
/// no other device colours it.
pub proof fn the_brand_mark_shows_the_worst(pass: Pass, observation: Observation, current: bool)
    ensures
        ({
            let next = pass.step(observation, current).severity;
            let due = runs_low(observation, current) && observation.preferences.warn_low;
            &&& !due ==> next == pass.severity
            &&& due && observation.battery->0.percentage <= 10 ==> next == Severity::Critical
            &&& due && observation.battery->0.percentage > 10 ==> next == (if pass.severity
                == Severity::Critical {
                Severity::Critical
            } else {
                Severity::Low
            })
        }),
{
}

/// Readings are current for ninety seconds after the inventory pass that took them, that
/// instant included, and never before there was one.
pub proof fn readings_last_ninety_seconds(observed: u64, now: u64)
    ensures
        is_current(Some(observed), now) <==> now - observed <= 90_000,
        !is_current(None, now),
{
}

/// A reconciliation starts from the lasting history as it is, forgets of the session
/// exactly the pairings that are gone, and starts with no alert, no row and no severity.
pub proof fn reconciliations_start_afresh(state: State, id: Seq<char>, at: int)
    requires
        0 <= at < state.observations@.len(),
    ensures
        opening(state).history == state.history@,
        opening(state).alerts.len() == 0,
        opening(state).devices.len() == 0,
        opening(state).severity == Severity::Normal,
        state.observations@[at].history_key is None && state.observations@[at].session_key@ == id
            ==> {
            &&& opening(state).session.warned.contains(id) == state.session@.warned.contains(id)
            &&& opening(state).session.known.contains(id) == state.session@.known.contains(id)
        },
        (forall|i: int|
            0 <= i < state.observations@.len() && (#[trigger] state.observations@[i]).history_key is None
                ==> state.observations@[i].session_key@ != id) ==> {
            &&& !opening(state).session.warned.contains(id)
            &&& !opening(state).session.known.contains(id)
        },
{
}

/// A row's words: its charge in percent or the word for an unknown one, and the word for
/// its state, charging before low and critical.
pub proof fn rows_read_as_their_state(row: DeviceBattery, words: BatteryWords)
    ensures
        row.percentage is None ==> row.value_word(words) == words.unknown@,
        row.percentage matches Some(value) ==> row.value_word(words) == decimal(value as nat).push(
            '%',
        ),
        row.charging ==> row.status_word(words) == words.charging@,
        !row.charging && row.severity == Severity::Critical ==> row.status_word(words)
            == words.critical@,
        !row.charging && row.severity == Severity::Low ==> row.status_word(words) == words.low@,
        !row.charging && row.severity == Severity::Normal ==> row.status_word(words).len() == 0,
{
    reveal_strlit("%");
    if let Some(value) = row.percentage {
        assert(row.value_word(words) =~= decimal(value as nat).push('%'));
    }
}

/// Two snapshots show the same exactly where their severities and all their rows do, in
/// order.
pub proof fn snapshots_show_their_rows(a: Snapshot, b: Snapshot, at: int)
    requires
        0 <= at < a.devices@.len(),
        same_snapshot(a, b),
    ensures
        a.severity == b.severity,
        a.devices@.len() == b.devices@.len(),
        a.devices@[at].key@ == b.devices@[at].key@,
        a.devices@[at].name@ == b.devices@[at].name@,
        a.devices@[at].percentage == b.devices@[at].percentage,
        a.devices@[at].charging == b.devices@[at].charging,
        a.devices@[at].severity == b.devices@[at].severity,
{
    assert(same_row(a.devices@[at], b.devices@[at]));
}

/// A snapshot shows the same as itself.
pub proof fn a_snapshot_shows_the_same_as_itself(a: Snapshot)
    ensures
        same_snapshot(a, a),
{
}

/// What a reconciliation leaves and reports is its pass: the memory, the rows, the
/// severity and the alerts of it, in order. It is saved exactly where the lasting history
/// is not the saved one, and it neither takes nor drops an observation.
pub proof fn reconciliations_report_their_pass(
    before: State,
    now: u64,
    after: State,
    out: Reconciled,
)
    requires
        reconciled(before, now, after, out),
    ensures
        ({
            let current = before.observed_at matches Some(at) && now - at <= 90_000;
            let pass = opening(before).over(before.observations@, current);
            &&& after.history@ == pass.history
            &&& after.session@ == pass.session
            &&& after.snapshot.devices@ == pass.devices
            &&& after.snapshot.severity == pass.severity
            &&& out.alerts@ == pass.alerts
            &&& out.save <==> after.history@ != before.persisted_history@
            &&& out.changed <==> !same_snapshot(after.snapshot, before.snapshot)
            &&& after.observations@ == before.observations@
            &&& after.observed_at == before.observed_at
            &&& after.persisted_history@ == before.persisted_history@
        }),
{
}

/// A pass takes every observation in, in order.
pub proof fn passes_take_every_observation(
    pass: Pass,
    before: Seq<Observation>,
    observation: Observation,
    current: bool,
)
    ensures
        pass.over(Seq::empty(), current) == pass,
        pass.over(before.push(observation), current) == pass.over(before, current).step(
            observation,
            current,
        ),
{
    assert(before.push(observation).drop_last() =~= before);
}

/// A device is remembered under its lasting identity where it has one, and else under that
/// of its pairing, apart from the others.
pub proof fn devices_are_remembered_by_identity(
    pass: Pass,
    observation: Observation,
    current: bool,
)
    ensures
        observation.history_key matches Some(key) ==> observation.id() == key@ && pass.step(
            observation,
            current,
        ).session == pass.session,
        observation.history_key is None ==> observation.id() == observation.session_key@
            && pass.step(observation, current).history == pass.history,
        observation.online && observation.battery is Some ==> {
            let next = pass.step(observation, current);
            if observation.history_key is Some {
                next.history.known.contains(observation.id())
            } else {
                next.session.known.contains(observation.id())
            }
        },
{
}

} // verus!
