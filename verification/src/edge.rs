//! The edge-zone state machine behind Flow: classify the cursor into a zone of
//! its display, debounce, and stay spent until the cursor leaves, so that one
//! push cannot fire twice. Lengths are in thousandths of a display point, times
//! in milliseconds.
use vstd::prelude::*;

use crate::value::Value;

verus! {

/// How deep a corner reaches along both axes. Deeper than an edge, so that a
/// diagonal push lands in the corner.
pub const CORNER_DEPTH: i64 = 3_000;

/// How deep an edge reaches.
pub const EDGE_DEPTH: i64 = 1_000;

/// Side of a display on which another computer stands.
#[derive(Clone, Copy, Debug, PartialEq, Eq, Structural)]
pub enum FlowSide {
    Left,
    Right,
    Top,
    Bottom,
}

/// Which host stands on which side.
#[derive(Clone, Copy, Debug, PartialEq, Eq, Structural)]
pub struct FlowPlacements {
    pub left: Option<u8>,
    pub right: Option<u8>,
    pub top: Option<u8>,
    pub bottom: Option<u8>,
}

impl Default for FlowPlacements {
    fn default() -> (placements: FlowPlacements)
        ensures
            placements == (FlowPlacements { left: None, right: None, top: None, bottom: None }),
    {
        FlowPlacements { left: None, right: None, top: None, bottom: None }
    }
}

impl FlowPlacements {
    pub open spec fn at(self, side: FlowSide) -> Option<u8> {
        match side {
            FlowSide::Left => self.left,
            FlowSide::Right => self.right,
            FlowSide::Top => self.top,
            FlowSide::Bottom => self.bottom,
        }
    }

    /// Put a host on a side, or none.
    pub fn set(&mut self, side: FlowSide, host: Option<u8>)
        ensures
            final(self).at(side) == host,
            forall|other: FlowSide| other != side ==> #[trigger] final(self).at(other) == old(
                self,
            ).at(other),
    {
        match side {
            FlowSide::Left => self.left = host,
            FlowSide::Right => self.right = host,
            FlowSide::Top => self.top = host,
            FlowSide::Bottom => self.bottom = host,
        }
    }
}

/// An edge or a corner of a display.
#[derive(Clone, Copy, Debug, PartialEq, Eq, Structural)]
pub enum EdgeZone {
    Left,
    Right,
    Top,
    Bottom,
    TopLeft,
    TopRight,
    BottomLeft,
    BottomRight,
}

/// One zone and the host that it switches to.
#[derive(Clone, Copy, Debug, PartialEq, Eq, Structural)]
pub struct ZoneTrigger {
    pub zone: EdgeZone,
    /// Zero-based host slot to switch to.
    pub host: u8,
}

impl Value for ZoneTrigger {
    type Model = ZoneTrigger;

    open spec fn model(&self) -> ZoneTrigger {
        *self
    }

    fn same(&self, other: &ZoneTrigger) -> (same: bool) {
        *self == *other
    }

    fn copied(&self) -> (copy: ZoneTrigger) {
        *self
    }
}

/// The host of the first trigger for a zone.
pub open spec fn host_for(triggers: Seq<ZoneTrigger>, zone: EdgeZone) -> Option<u8>
    decreases triggers.len(),
{
    if triggers.len() == 0 {
        None
    } else if triggers[0].zone == zone {
        Some(triggers[0].host)
    } else {
        host_for(triggers.skip(1), zone)
    }
}

/// The triggers with one more, unless its zone has one already.
pub open spec fn with_zone(triggers: Seq<ZoneTrigger>, zone: EdgeZone, host: u8) -> Seq<ZoneTrigger> {
    if host_for(triggers, zone) is Some {
        triggers
    } else {
        triggers.push(ZoneTrigger { zone, host })
    }
}

/// The zones of a side: its edge, then its two corners.
pub open spec fn zones_of(side: FlowSide) -> (EdgeZone, EdgeZone, EdgeZone) {
    match side {
        FlowSide::Left => (EdgeZone::Left, EdgeZone::TopLeft, EdgeZone::BottomLeft),
        FlowSide::Right => (EdgeZone::Right, EdgeZone::TopRight, EdgeZone::BottomRight),
        FlowSide::Top => (EdgeZone::Top, EdgeZone::TopLeft, EdgeZone::TopRight),
        FlowSide::Bottom => (EdgeZone::Bottom, EdgeZone::BottomLeft, EdgeZone::BottomRight),
    }
}

/// The triggers with those of a side, where a host stands there.
pub open spec fn with_side(triggers: Seq<ZoneTrigger>, side: FlowSide, host: Option<u8>) -> Seq<
    ZoneTrigger,
> {
    match host {
        Some(host) => {
            let (edge, first, second) = zones_of(side);
            with_zone(with_zone(with_zone(triggers, edge, host), first, host), second, host)
        },
        None => triggers,
    }
}

/// The triggers of all the sides: left, right, top, bottom.
pub open spec fn expanded(placements: FlowPlacements) -> Seq<ZoneTrigger> {
    with_side(
        with_side(
            with_side(
                with_side(Seq::empty(), FlowSide::Left, placements.left),
                FlowSide::Right,
                placements.right,
            ),
            FlowSide::Top,
            placements.top,
        ),
        FlowSide::Bottom,
        placements.bottom,
    )
}

proof fn lemma_host_for_push(triggers: Seq<ZoneTrigger>, trigger: ZoneTrigger, zone: EdgeZone)
    ensures
        host_for(triggers.push(trigger), zone) == (match host_for(triggers, zone) {
            Some(host) => Some(host),
            None => if trigger.zone == zone {
                Some(trigger.host)
            } else {
                None
            },
        }),
    decreases triggers.len(),
{
    let longer = triggers.push(trigger);
    if triggers.len() > 0 {
        assert(longer[0] == triggers[0]);
        assert(longer.skip(1) =~= triggers.skip(1).push(trigger));
        lemma_host_for_push(triggers.skip(1), trigger, zone);
    } else {
        assert(longer[0] == trigger);
        assert(longer.skip(1) =~= triggers);
    }
}

/// The host that a zone switches to, if any.
pub fn find_host(triggers: &[ZoneTrigger], zone: EdgeZone) -> (host: Option<u8>)
    ensures
        host == host_for(triggers@, zone),
{
    let mut i: usize = 0;
    assert(triggers@.skip(0) =~= triggers@);
    while i < triggers.len()
        invariant
            i <= triggers@.len(),
            host_for(triggers@, zone) == host_for(triggers@.skip(i as int), zone),
        decreases triggers@.len() - i,
    {
        assert(triggers@.skip(i as int)[0] == triggers@[i as int]);
        if triggers[i].zone == zone {
            return Some(triggers[i].host);
        }
        assert(triggers@.skip(i as int).skip(1) =~= triggers@.skip(i + 1));
        i = i + 1;
    }
    None
}

fn add_zone(triggers: &mut Vec<ZoneTrigger>, zone: EdgeZone, host: u8)
    ensures
        final(triggers)@ == with_zone(old(triggers)@, zone, host),
{
    if find_host(triggers.as_slice(), zone).is_none() {
        triggers.push(ZoneTrigger { zone, host });
    }
}

fn add_side(triggers: &mut Vec<ZoneTrigger>, side: FlowSide, host: Option<u8>)
    ensures
        final(triggers)@ == with_side(old(triggers)@, side, host),
{
    if let Some(host) = host {
        let (edge, first, second) = match side {
            FlowSide::Left => (EdgeZone::Left, EdgeZone::TopLeft, EdgeZone::BottomLeft),
            FlowSide::Right => (EdgeZone::Right, EdgeZone::TopRight, EdgeZone::BottomRight),
            FlowSide::Top => (EdgeZone::Top, EdgeZone::TopLeft, EdgeZone::TopRight),
            FlowSide::Bottom => (EdgeZone::Bottom, EdgeZone::BottomLeft, EdgeZone::BottomRight),
        };
        add_zone(triggers, edge, host);
        add_zone(triggers, first, host);
        add_zone(triggers, second, host);
    }
}

/// Expand side placements into zone triggers: a side covers its edge and both
/// adjacent corners, and a corner that two sides share belongs to the earlier.
pub fn triggers_for(placements: &FlowPlacements) -> (triggers: Vec<ZoneTrigger>)
    ensures
        triggers@ == expanded(*placements),
{
    let mut triggers: Vec<ZoneTrigger> = Vec::new();
    add_side(&mut triggers, FlowSide::Left, placements.left);
    add_side(&mut triggers, FlowSide::Right, placements.right);
    add_side(&mut triggers, FlowSide::Top, placements.top);
    add_side(&mut triggers, FlowSide::Bottom, placements.bottom);
    triggers
}

proof fn lemma_with_zone(triggers: Seq<ZoneTrigger>, zone: EdgeZone, host: u8)
    ensures
        forall|other: EdgeZone| #[trigger]
            host_for(with_zone(triggers, zone, host), other) == (match host_for(triggers, other) {
                Some(host) => Some(host),
                None => if other == zone {
                    Some(host)
                } else {
                    None
                },
            }),
{
    assert forall|other: EdgeZone| #[trigger] host_for(with_zone(triggers, zone, host), other) == (
    match host_for(triggers, other) {
        Some(host) => Some(host),
        None => if other == zone {
            Some(host)
        } else {
            None
        },
    }) by {
        lemma_host_for_push(triggers, ZoneTrigger { zone, host }, other);
    }
}

/// The host of a side, or the one of another side where it has none.
pub open spec fn first_of(a: Option<u8>, b: Option<u8>) -> Option<u8> {
    if a is Some {
        a
    } else {
        b
    }
}

/// The zone's host: an edge has its own side's, a corner that of the earlier of
/// its two sides (left, right, top, bottom) on which a host stands.
pub open spec fn zone_host(placements: FlowPlacements, zone: EdgeZone) -> Option<u8> {
    match zone {
        EdgeZone::Left => placements.left,
        EdgeZone::Right => placements.right,
        EdgeZone::Top => placements.top,
        EdgeZone::Bottom => placements.bottom,
        EdgeZone::TopLeft => first_of(placements.left, placements.top),
        EdgeZone::TopRight => first_of(placements.right, placements.top),
        EdgeZone::BottomLeft => first_of(placements.left, placements.bottom),
        EdgeZone::BottomRight => first_of(placements.right, placements.bottom),
    }
}

proof fn lemma_with_side(triggers: Seq<ZoneTrigger>, side: FlowSide, host: Option<u8>)
    ensures
        forall|zone: EdgeZone| #[trigger]
            host_for(with_side(triggers, side, host), zone) == first_of(
                host_for(triggers, zone),
                if zone == zones_of(side).0 || zone == zones_of(side).1 || zone == zones_of(side).2 {
                    host
                } else {
                    None
                },
            ),
{
    if host is Some {
        let (edge, first, second) = zones_of(side);
        let one = with_zone(triggers, edge, host->0);
        let two = with_zone(one, first, host->0);
        lemma_with_zone(triggers, edge, host->0);
        lemma_with_zone(one, first, host->0);
        lemma_with_zone(two, second, host->0);
        assert forall|zone: EdgeZone| #[trigger] host_for(with_side(triggers, side, host), zone)
            == first_of(
            host_for(triggers, zone),
            if zone == zones_of(side).0 || zone == zones_of(side).1 || zone == zones_of(side).2 {
                host
            } else {
                None
            },
        ) by {
            assert(host_for(one, zone) is Some || host_for(one, zone) is None);
            assert(host_for(two, zone) is Some || host_for(two, zone) is None);
        }
    }
}

/// Every zone switches to the host that its sides call for, and to no other.
pub proof fn zones_follow_their_sides(placements: FlowPlacements, zone: EdgeZone)
    ensures
        host_for(expanded(placements), zone) == zone_host(placements, zone),
{
    let none = Seq::<ZoneTrigger>::empty();
    let left = with_side(none, FlowSide::Left, placements.left);
    let right = with_side(left, FlowSide::Right, placements.right);
    let top = with_side(right, FlowSide::Top, placements.top);
    lemma_with_side(none, FlowSide::Left, placements.left);
    lemma_with_side(left, FlowSide::Right, placements.right);
    lemma_with_side(right, FlowSide::Top, placements.top);
    lemma_with_side(top, FlowSide::Bottom, placements.bottom);
    assert(host_for(none, zone) is None);
    assert(host_for(left, zone) is Some || host_for(left, zone) is None);
    assert(host_for(right, zone) is Some || host_for(right, zone) is None);
    assert(host_for(top, zone) is Some || host_for(top, zone) is None);
}

// ── Geometry ────────────────────────────────────────────────────────────────

/// Where the cursor is.
#[derive(Clone, Copy, Debug, PartialEq, Eq, Structural)]
pub struct CursorPosition {
    pub x: i64,
    pub y: i64,
}

/// One display.
#[derive(Debug)]
pub struct DisplayBounds {
    pub id: u64,
    pub x: i64,
    pub y: i64,
    pub width: i64,
    pub height: i64,
}

impl DisplayBounds {
    /// Whether a point lies on the display.
    pub open spec fn holds(self, point: CursorPosition) -> bool {
        &&& self.x <= point.x < self.x + self.width
        &&& self.y <= point.y < self.y + self.height
    }

    fn contains(&self, point: CursorPosition) -> (holds: bool)
        ensures
            holds == self.holds(point),
    {
        let x: i128 = (point.x as i128) - (self.x as i128);
        let y: i128 = (point.y as i128) - (self.y as i128);
        0 <= x && x < self.width as i128 && 0 <= y && y < self.height as i128
    }
}

/// The zone of a point on a display of the given size. A point in a corner is in
/// no edge; of two edges, top and bottom come first.
pub open spec fn zone_at(x: int, y: int, width: int, height: int) -> Option<EdgeZone> {
    let left = x < CORNER_DEPTH;
    let right = x >= width - CORNER_DEPTH;
    let top = y < CORNER_DEPTH;
    let bottom = y >= height - CORNER_DEPTH;
    if left && top {
        Some(EdgeZone::TopLeft)
    } else if right && top {
        Some(EdgeZone::TopRight)
    } else if left && bottom {
        Some(EdgeZone::BottomLeft)
    } else if right && bottom {
        Some(EdgeZone::BottomRight)
    } else if y < EDGE_DEPTH {
        Some(EdgeZone::Top)
    } else if y >= height - EDGE_DEPTH {
        Some(EdgeZone::Bottom)
    } else if x < EDGE_DEPTH {
        Some(EdgeZone::Left)
    } else if x >= width - EDGE_DEPTH {
        Some(EdgeZone::Right)
    } else {
        None
    }
}

fn classify_wide(x: i128, y: i128, width: i128, height: i128) -> (zone: Option<EdgeZone>)
    requires
        -0x1_0000_0000_0000_0000 <= width <= 0x1_0000_0000_0000_0000,
        -0x1_0000_0000_0000_0000 <= height <= 0x1_0000_0000_0000_0000,
    ensures
        zone == zone_at(x as int, y as int, width as int, height as int),
{
    let left: bool = x < CORNER_DEPTH as i128;
    let right: bool = x >= width - CORNER_DEPTH as i128;
    let top: bool = y < CORNER_DEPTH as i128;
    let bottom: bool = y >= height - CORNER_DEPTH as i128;
    match (left, right, top, bottom) {
        (true, _, true, _) => Some(EdgeZone::TopLeft),
        (_, true, true, _) => Some(EdgeZone::TopRight),
        (true, _, _, true) => Some(EdgeZone::BottomLeft),
        (_, true, _, true) => Some(EdgeZone::BottomRight),
        _ => {
            if y < EDGE_DEPTH as i128 {
                Some(EdgeZone::Top)
            } else if y >= height - EDGE_DEPTH as i128 {
                Some(EdgeZone::Bottom)
            } else if x < EDGE_DEPTH as i128 {
                Some(EdgeZone::Left)
            } else if x >= width - EDGE_DEPTH as i128 {
                Some(EdgeZone::Right)
            } else {
                None
            }
        },
    }
}

/// Classify a display-local point into a zone. Corners win over their edges.
pub fn classify(x: i64, y: i64, width: i64, height: i64) -> (zone: Option<EdgeZone>)
    ensures
        zone == zone_at(x as int, y as int, width as int, height as int),
{
    classify_wide(x as i128, y as i128, width as i128, height as i128)
}

/// A bound zone that the cursor occupies.
#[derive(Clone, Copy, Debug, PartialEq, Eq, Structural)]
pub struct OccupiedZone {
    pub display: u64,
    pub zone: EdgeZone,
    pub host: u8,
}

/// Where the first display that holds the point stands in the list.
pub open spec fn display_at(displays: Seq<DisplayBounds>, point: CursorPosition) -> Option<
    DisplayBounds,
>
    decreases displays.len(),
{
    if displays.len() == 0 {
        None
    } else if displays[0].holds(point) {
        Some(displays[0])
    } else {
        display_at(displays.skip(1), point)
    }
}

/// The bound zone that a point is in: the display under it, the zone there, and
/// the zone's first trigger.
pub open spec fn occupied(
    point: CursorPosition,
    displays: Seq<DisplayBounds>,
    triggers: Seq<ZoneTrigger>,
) -> Option<OccupiedZone> {
    match display_at(displays, point) {
        None => None,
        Some(display) => match zone_at(
            point.x - display.x,
            point.y - display.y,
            display.width as int,
            display.height as int,
        ) {
            None => None,
            Some(zone) => match host_for(triggers, zone) {
                None => None,
                Some(host) => Some(OccupiedZone { display: display.id, zone, host }),
            },
        },
    }
}

/// The bound zone that a point is in, if any.
pub fn bound_zone_at(
    point: CursorPosition,
    displays: &[DisplayBounds],
    triggers: &[ZoneTrigger],
) -> (zone: Option<OccupiedZone>)
    ensures
        zone == occupied(point, displays@, triggers@),
{
    let mut i: usize = 0;
    assert(displays@.skip(0) =~= displays@);
    while i < displays.len()
        invariant
            i <= displays@.len(),
            display_at(displays@, point) == display_at(displays@.skip(i as int), point),
        decreases displays@.len() - i,
    {
        assert(displays@.skip(i as int)[0] == displays@[i as int]);
        let display: &DisplayBounds = &displays[i];
        if display.contains(point) {
            let x: i128 = (point.x as i128) - (display.x as i128);
            let y: i128 = (point.y as i128) - (display.y as i128);
            return match classify_wide(x, y, display.width as i128, display.height as i128) {
                None => None,
                Some(zone) => match find_host(triggers, zone) {
                    None => None,
                    Some(host) => Some(OccupiedZone { display: display.id, zone, host }),
                },
            };
        }
        assert(displays@.skip(i as int).skip(1) =~= displays@.skip(i + 1));
        i = i + 1;
    }
    None
}

// ── The machine ─────────────────────────────────────────────────────────────

/// What one observation concluded.
#[derive(Clone, Copy, Debug, PartialEq, Eq, Structural)]
pub enum EdgeObservation {
    /// Not inside any bound zone, or inside one that cannot fire.
    Idle,
    /// Inside a bound zone that can still fire.
    Pending {
        /// The host the imminent fire would switch to.
        host: u8,
    },
    /// Dwell and cooldown are over: switch.
    Fire {
        /// Zero-based host slot to switch to.
        host: u8,
    },
}

/// Dwell, cooldown and re-arm state from one observation to the next.
#[derive(Clone, Copy, Debug)]
pub struct EdgeStateMachine {
    /// The bound zone the cursor was in, and when it entered.
    pub current: Option<(OccupiedZone, u64)>,
    /// Set by a fire, cleared only when the cursor leaves every bound zone.
    pub spent: bool,
    pub last_fire: Option<u64>,
}

impl Default for EdgeStateMachine {
    fn default() -> (machine: EdgeStateMachine)
        ensures
            machine == (EdgeStateMachine { current: None, spent: false, last_fire: None }),
    {
        EdgeStateMachine { current: None, spent: false, last_fire: None }
    }
}

/// Time from one instant to another, none where it lies ahead.
pub open spec fn elapsed(now: u64, since: u64) -> int {
    if now >= since {
        now - since
    } else {
        0
    }
}

impl EdgeStateMachine {
    /// When the cursor entered the zone it is in now.
    pub open spec fn entered(self, zone: OccupiedZone, now: u64) -> u64 {
        match self.current {
            Some((own, at)) if own == zone => at,
            _ => now,
        }
    }

    /// Whether the dwell or the cooldown still runs.
    pub open spec fn waits(self, zone: OccupiedZone, dwell: u64, cooldown: u64, now: u64) -> bool {
        ||| elapsed(now, self.entered(zone, now)) < dwell
        ||| self.last_fire matches Some(at) && elapsed(now, at) < cooldown
    }

    /// What an observation concludes.
    pub open spec fn concludes(
        self,
        zone: Option<OccupiedZone>,
        dwell: u64,
        cooldown: u64,
        now: u64,
    ) -> EdgeObservation {
        match zone {
            None => EdgeObservation::Idle,
            Some(zone) => if self.spent {
                EdgeObservation::Idle
            } else if self.waits(zone, dwell, cooldown, now) {
                EdgeObservation::Pending { host: zone.host }
            } else {
                EdgeObservation::Fire { host: zone.host }
            },
        }
    }

    /// The machine after an observation.
    pub open spec fn observed(
        self,
        zone: Option<OccupiedZone>,
        dwell: u64,
        cooldown: u64,
        now: u64,
    ) -> EdgeStateMachine {
        match zone {
            None => EdgeStateMachine { current: None, spent: false, ..self },
            Some(zone) => {
                let fires = self.concludes(Some(zone), dwell, cooldown, now) is Fire;
                EdgeStateMachine {
                    current: Some((zone, self.entered(zone, now))),
                    spent: self.spent || fires,
                    last_fire: if fires {
                        Some(now)
                    } else {
                        self.last_fire
                    },
                }
            },
        }
    }

    /// Feed one cursor sample.
    ///
    /// A sample that only the cooldown blocks stays pending and fires once the
    /// cooldown is over; after a fire the machine stays spent until the cursor
    /// leaves every bound zone.
    pub fn observe(
        &mut self,
        point: CursorPosition,
        displays: &[DisplayBounds],
        triggers: &[ZoneTrigger],
        dwell: u64,
        cooldown: u64,
        now: u64,
    ) -> (observation: EdgeObservation)
        ensures
            ({
                let zone = occupied(point, displays@, triggers@);
                &&& observation == old(self).concludes(zone, dwell, cooldown, now)
                &&& *final(self) == old(self).observed(zone, dwell, cooldown, now)
            }),
    {
        let zone: OccupiedZone = match bound_zone_at(point, displays, triggers) {
            Some(zone) => zone,
            None => {
                self.current = None;
                self.spent = false;
                return EdgeObservation::Idle;
            },
        };
        let entered_at: u64 = match self.current {
            Some((own, at)) => if own == zone {
                at
            } else {
                now
            },
            None => now,
        };
        self.current = Some((zone, entered_at));
        if self.spent {
            return EdgeObservation::Idle;
        }
        let cooling: bool = match self.last_fire {
            Some(at) => now.saturating_sub(at) < cooldown,
            None => false,
        };
        if now.saturating_sub(entered_at) < dwell || cooling {
            return EdgeObservation::Pending { host: zone.host };
        }
        self.spent = true;
        self.last_fire = Some(now);
        EdgeObservation::Fire { host: zone.host }
    }
}

// ── Laws ────────────────────────────────────────────────────────────────────

/// One sample: the zone the cursor is in, and the time.
pub type Sample = (Option<OccupiedZone>, u64);

/// The machine after a series of samples.
pub open spec fn after_samples(
    machine: EdgeStateMachine,
    samples: Seq<Sample>,
    dwell: u64,
    cooldown: u64,
) -> EdgeStateMachine
    decreases samples.len(),
{
    if samples.len() == 0 {
        machine
    } else {
        after_samples(machine, samples.drop_last(), dwell, cooldown).observed(
            samples.last().0,
            dwell,
            cooldown,
            samples.last().1,
        )
    }
}

/// One push fires at most once: after a fire, as long as the cursor stays in
/// bound zones, however it moves between them and however long, every sample is
/// idle.
pub proof fn one_push_fires_once(
    machine: EdgeStateMachine,
    zone: OccupiedZone,
    at: u64,
    later: Seq<Sample>,
    last: OccupiedZone,
    now: u64,
    dwell: u64,
    cooldown: u64,
)
    requires
        machine.concludes(Some(zone), dwell, cooldown, at) is Fire,
        forall|i: int| 0 <= i < later.len() ==> (#[trigger] later[i]).0 is Some,
    ensures
        after_samples(
            machine.observed(Some(zone), dwell, cooldown, at),
            later,
            dwell,
            cooldown,
        ).concludes(Some(last), dwell, cooldown, now) == EdgeObservation::Idle,
{
    lemma_stays_spent(machine.observed(Some(zone), dwell, cooldown, at), later, dwell, cooldown);
}

proof fn lemma_stays_spent(
    machine: EdgeStateMachine,
    samples: Seq<Sample>,
    dwell: u64,
    cooldown: u64,
)
    requires
        machine.spent,
        forall|i: int| 0 <= i < samples.len() ==> (#[trigger] samples[i]).0 is Some,
    ensures
        after_samples(machine, samples, dwell, cooldown).spent,
    decreases samples.len(),
{
    if samples.len() > 0 {
        let before = samples.drop_last();
        assert forall|i: int| 0 <= i < before.len() implies (#[trigger] before[i]).0 is Some by {
            assert(before[i] == samples[i]);
        }
        lemma_stays_spent(machine, before, dwell, cooldown);
        assert(samples[samples.len() - 1].0 is Some);
    }
}

/// Leaving every bound zone re-arms: the next entry can fire, once dwell and
/// cooldown are over.
pub proof fn leaving_rearms(
    machine: EdgeStateMachine,
    zone: OccupiedZone,
    dwell: u64,
    cooldown: u64,
    left: u64,
    now: u64,
)
    ensures
        !machine.observed(None, dwell, cooldown, left).spent,
        machine.observed(None, dwell, cooldown, left).concludes(
            Some(zone),
            dwell,
            cooldown,
            now,
        ) != EdgeObservation::Idle,
{
}

/// Another zone, or the same zone of another display, starts its dwell afresh.
pub proof fn a_new_zone_restarts_the_dwell(
    machine: EdgeStateMachine,
    zone: OccupiedZone,
    dwell: u64,
    cooldown: u64,
    now: u64,
)
    requires
        machine.current matches Some((own, _)) ==> own != zone,
        dwell > 0,
    ensures
        !(machine.concludes(Some(zone), dwell, cooldown, now) is Fire),
        machine.observed(Some(zone), dwell, cooldown, now).current == Some((zone, now)),
{
}

/// The zones of a display that is at least six points wide and high. A point within
/// three points of two adjacent sides is in their corner. Any other point within one
/// point of a side is in that side's edge. Every point that is left is in no zone.
pub proof fn zones_line_the_display(x: int, y: int, width: int, height: int)
    requires
        0 <= x < width,
        0 <= y < height,
        width >= 6_000,
        height >= 6_000,
    ensures
        zone_at(x, y, width, height) == Some(EdgeZone::TopLeft) <==> x < 3_000 && y < 3_000,
        zone_at(x, y, width, height) == Some(EdgeZone::TopRight) <==> width - x <= 3_000 && y
            < 3_000,
        zone_at(x, y, width, height) == Some(EdgeZone::BottomLeft) <==> x < 3_000 && height - y
            <= 3_000,
        zone_at(x, y, width, height) == Some(EdgeZone::BottomRight) <==> width - x <= 3_000
            && height - y <= 3_000,
        zone_at(x, y, width, height) == Some(EdgeZone::Left) <==> x < 1_000 && 3_000 <= y < height
            - 3_000,
        zone_at(x, y, width, height) == Some(EdgeZone::Right) <==> width - x <= 1_000 && 3_000 <= y
            < height - 3_000,
        zone_at(x, y, width, height) == Some(EdgeZone::Top) <==> y < 1_000 && 3_000 <= x < width
            - 3_000,
        zone_at(x, y, width, height) == Some(EdgeZone::Bottom) <==> height - y <= 1_000 && 3_000
            <= x < width - 3_000,
        zone_at(x, y, width, height) is None <==> {
            &&& 1_000 <= x < width - 1_000
            &&& 1_000 <= y < height - 1_000
            &&& 3_000 <= x < width - 3_000 || 3_000 <= y < height - 3_000
        },
{
}

/// The zones of a display of any size: a corner wins over both its edges, and where a
/// narrow display makes corners overlap, the top ones win over the bottom ones and the
/// left ones over the right ones.
pub proof fn corners_win_over_edges(x: int, y: int, width: int, height: int)
    ensures
        x < 3_000 && y < 3_000 ==> zone_at(x, y, width, height) == Some(EdgeZone::TopLeft),
        x >= 3_000 && x >= width - 3_000 && y < 3_000 ==> zone_at(x, y, width, height) == Some(
            EdgeZone::TopRight,
        ),
        x < 3_000 && y >= 3_000 && y >= height - 3_000 ==> zone_at(x, y, width, height) == Some(
            EdgeZone::BottomLeft,
        ),
        x >= 3_000 && x >= width - 3_000 && y >= 3_000 && y >= height - 3_000 ==> zone_at(
            x,
            y,
            width,
            height,
        ) == Some(EdgeZone::BottomRight),
        x < 1_000 && 3_000 <= y < height - 3_000 ==> zone_at(x, y, width, height) == Some(
            EdgeZone::Left,
        ),
        x >= 1_000 && x >= width - 1_000 && 3_000 <= y < height - 3_000 ==> zone_at(
            x,
            y,
            width,
            height,
        ) == Some(EdgeZone::Right),
        y < 1_000 && 3_000 <= x < width - 3_000 ==> zone_at(x, y, width, height) == Some(
            EdgeZone::Top,
        ),
        y >= 1_000 && y >= height - 1_000 && 3_000 <= x < width - 3_000 ==> zone_at(
            x,
            y,
            width,
            height,
        ) == Some(EdgeZone::Bottom),
{
}

/// The zone across the display's vertical axis: left and right change places.
pub open spec fn across(zone: EdgeZone) -> EdgeZone {
    match zone {
        EdgeZone::Left => EdgeZone::Right,
        EdgeZone::Right => EdgeZone::Left,
        EdgeZone::TopLeft => EdgeZone::TopRight,
        EdgeZone::TopRight => EdgeZone::TopLeft,
        EdgeZone::BottomLeft => EdgeZone::BottomRight,
        EdgeZone::BottomRight => EdgeZone::BottomLeft,
        EdgeZone::Top => EdgeZone::Top,
        EdgeZone::Bottom => EdgeZone::Bottom,
    }
}

/// The zone across the diagonal from the top left to the bottom right: left changes
/// places with top, and right with bottom.
pub open spec fn transposed(zone: EdgeZone) -> EdgeZone {
    match zone {
        EdgeZone::Left => EdgeZone::Top,
        EdgeZone::Top => EdgeZone::Left,
        EdgeZone::Right => EdgeZone::Bottom,
        EdgeZone::Bottom => EdgeZone::Right,
        EdgeZone::TopRight => EdgeZone::BottomLeft,
        EdgeZone::BottomLeft => EdgeZone::TopRight,
        EdgeZone::TopLeft => EdgeZone::TopLeft,
        EdgeZone::BottomRight => EdgeZone::BottomRight,
    }
}

/// A mirrored display has mirrored zones, and a display turned over its diagonal has its
/// zones turned over.
pub proof fn zones_mirror_with_the_display(x: int, y: int, width: int, height: int)
    requires
        width >= 6_000,
        height >= 6_000,
    ensures
        zone_at(width - 1 - x, y, width, height) == (match zone_at(x, y, width, height) {
            Some(zone) => Some(across(zone)),
            None => None,
        }),
        zone_at(y, x, height, width) == (match zone_at(x, y, width, height) {
            Some(zone) => Some(transposed(zone)),
            None => None,
        }),
        zone_at(x, height - 1 - y, width, height) == (match zone_at(x, y, width, height) {
            Some(zone) => Some(transposed(across(transposed(zone)))),
            None => None,
        }),
{
}

/// A push against a side on which a host stands switches to that host: with nothing to
/// wait for at once, otherwise after a pending spell. Where no host stands on the side,
/// a push against it does nothing.
pub proof fn a_push_switches_to_the_host_of_its_side(
    machine: EdgeStateMachine,
    display: DisplayBounds,
    point: CursorPosition,
    placements: FlowPlacements,
    side: FlowSide,
    dwell: u64,
    cooldown: u64,
    now: u64,
)
    requires
        !machine.spent,
        machine.last_fire is None,
        display.width >= 6_000,
        display.height >= 6_000,
        display.x <= point.x < display.x + display.width,
        display.y <= point.y < display.y + display.height,
        match side {
            FlowSide::Left => point.x < display.x + 1_000 && display.y + 3_000 <= point.y
                < display.y + display.height - 3_000,
            FlowSide::Right => point.x >= display.x + display.width - 1_000 && display.y + 3_000
                <= point.y < display.y + display.height - 3_000,
            FlowSide::Top => point.y < display.y + 1_000 && display.x + 3_000 <= point.x
                < display.x + display.width - 3_000,
            FlowSide::Bottom => point.y >= display.y + display.height - 1_000 && display.x + 3_000
                <= point.x < display.x + display.width - 3_000,
        },
    ensures
        ({
            let zone = occupied(point, seq![display], expanded(placements));
            let host = match side {
                FlowSide::Left => placements.left,
                FlowSide::Right => placements.right,
                FlowSide::Top => placements.top,
                FlowSide::Bottom => placements.bottom,
            };
            match host {
                None => machine.concludes(zone, dwell, cooldown, now) == EdgeObservation::Idle,
                Some(host) => {
                    &&& dwell == 0 ==> machine.concludes(zone, dwell, cooldown, now)
                        == (EdgeObservation::Fire { host })
                    &&& dwell > 0 && machine.current is None ==> machine.concludes(
                        zone,
                        dwell,
                        cooldown,
                        now,
                    ) == (EdgeObservation::Pending { host })
                    &&& forall|later: u64|
                        dwell > 0 && machine.current is None && later >= now + dwell
                            ==> #[trigger] machine.observed(zone, dwell, cooldown, now).concludes(
                            zone,
                            dwell,
                            cooldown,
                            later,
                        ) == (EdgeObservation::Fire { host })
                    &&& forall|later: u64|
                        dwell > 0 && machine.current is None && now <= later < now + dwell
                            ==> #[trigger] machine.observed(zone, dwell, cooldown, now).concludes(
                            zone,
                            dwell,
                            cooldown,
                            later,
                        ) == (EdgeObservation::Pending { host })
                },
            }
        }),
{
    let displays = seq![display];
    assert(displays[0] == display);
    assert(display.holds(point));
    assert(display_at(displays, point) == Some(display));
    let (x, y) = (point.x - display.x, point.y - display.y);
    corners_win_over_edges(x, y, display.width as int, display.height as int);
    let zone = zone_at(x, y, display.width as int, display.height as int)->0;
    zones_follow_their_sides(placements, zone);
}

/// A push into a corner switches to the host of one of its two sides: where a host
/// stands on both, to the one on the left or the right.
pub proof fn corners_switch_to_their_sides(placements: FlowPlacements)
    ensures
        host_for(expanded(placements), EdgeZone::TopLeft) == (if placements.left is Some {
            placements.left
        } else {
            placements.top
        }),
        host_for(expanded(placements), EdgeZone::BottomLeft) == (if placements.left is Some {
            placements.left
        } else {
            placements.bottom
        }),
        host_for(expanded(placements), EdgeZone::TopRight) == (if placements.right is Some {
            placements.right
        } else {
            placements.top
        }),
        host_for(expanded(placements), EdgeZone::BottomRight) == (if placements.right is Some {
            placements.right
        } else {
            placements.bottom
        }),
{
    zones_follow_their_sides(placements, EdgeZone::TopLeft);
    zones_follow_their_sides(placements, EdgeZone::BottomLeft);
    zones_follow_their_sides(placements, EdgeZone::TopRight);
    zones_follow_their_sides(placements, EdgeZone::BottomRight);
}

/// A zone switches to the host of its first trigger, and to none where it has no
/// trigger.
pub proof fn the_first_trigger_of_a_zone_decides(
    triggers: Seq<ZoneTrigger>,
    zone: EdgeZone,
    at: int,
)
    ensures
        0 <= at < triggers.len() && triggers[at].zone == zone && (forall|i: int|
            0 <= i < at ==> (#[trigger] triggers[i]).zone != zone) ==> host_for(triggers, zone)
            == Some(triggers[at].host),
        (forall|i: int| 0 <= i < triggers.len() ==> (#[trigger] triggers[i]).zone != zone)
            ==> host_for(triggers, zone) is None,
    decreases triggers.len(),
{
    if triggers.len() > 0 {
        let rest = triggers.skip(1);
        the_first_trigger_of_a_zone_decides(rest, zone, at - 1);
        assert(forall|i: int| 0 <= i < rest.len() ==> #[trigger] rest[i] == triggers[i + 1]);
    }
}

/// A point is on the first display that holds it, and on none that does not.
pub proof fn a_point_is_on_the_display_under_it(
    displays: Seq<DisplayBounds>,
    point: CursorPosition,
    at: int,
)
    ensures
        0 <= at < displays.len() && displays[at].holds(point) && (forall|i: int|
            0 <= i < at ==> !(#[trigger] displays[i]).holds(point)) ==> display_at(displays, point)
            == Some(displays[at]),
        (forall|i: int| 0 <= i < displays.len() ==> !(#[trigger] displays[i]).holds(point))
            ==> display_at(displays, point) is None,
    decreases displays.len(),
{
    if displays.len() > 0 {
        let rest = displays.skip(1);
        a_point_is_on_the_display_under_it(rest, point, at - 1);
        assert(forall|i: int| 0 <= i < rest.len() ==> #[trigger] rest[i] == displays[i + 1]);
    }
}

/// Displays that stand side by side share no point: a display's own points run from its
/// corner up to, not onto, the next display's.
pub proof fn adjoining_displays_share_no_point(a: DisplayBounds, b: DisplayBounds, point: CursorPosition)
    requires
        b.x == a.x + a.width || b.y == a.y + a.height,
    ensures
        !(a.holds(point) && b.holds(point)),
        a.holds(CursorPosition { x: a.x, y: a.y }) <==> a.width > 0 && a.height > 0,
{
}

/// After a fire, the next push waits for the cooldown, counted from the fire, and then
/// switches: the dwell alone is not enough, and once both are over nothing else is asked.
pub proof fn fires_keep_their_cooldown(
    machine: EdgeStateMachine,
    zone: OccupiedZone,
    dwell: u64,
    cooldown: u64,
    at: u64,
    left: u64,
    entered: u64,
    now: u64,
)
    requires
        machine.concludes(Some(zone), dwell, cooldown, at) is Fire,
        at <= left <= entered <= now,
    ensures
        ({
            let away = machine.observed(Some(zone), dwell, cooldown, at).observed(
                None,
                dwell,
                cooldown,
                left,
            );
            let back = away.observed(Some(zone), dwell, cooldown, entered);
            &&& away.concludes(Some(zone), dwell, cooldown, entered) is Pending ==> {
                &&& now - at >= cooldown && now - entered >= dwell ==> back.concludes(
                    Some(zone),
                    dwell,
                    cooldown,
                    now,
                ) == (EdgeObservation::Fire { host: zone.host })
                &&& now - at < cooldown || now - entered < dwell ==> back.concludes(
                    Some(zone),
                    dwell,
                    cooldown,
                    now,
                ) == (EdgeObservation::Pending { host: zone.host })
            }
            &&& away.concludes(Some(zone), dwell, cooldown, entered) is Fire <==> dwell == 0
                && entered - at >= cooldown
        }),
{
}

/// Time since an instant is the difference, and none to one that lies ahead.
pub proof fn time_runs_forward(now: u64, at: u64)
    ensures
        now >= at ==> elapsed(now, at) == now - at,
        now < at ==> elapsed(now, at) == 0,
{
}

/// The dwell counts from the entry into the zone and goes on as long as the cursor stays
/// in it.
pub proof fn the_dwell_counts_from_the_entry(
    machine: EdgeStateMachine,
    zone: OccupiedZone,
    other: OccupiedZone,
    dwell: u64,
    cooldown: u64,
    entered: u64,
    now: u64,
)
    requires
        machine.current == Some((zone, entered)),
    ensures
        machine.observed(Some(zone), dwell, cooldown, now).current == Some((zone, entered)),
        other != zone ==> machine.observed(Some(other), dwell, cooldown, now).current == Some(
            (other, now),
        ),
        machine.observed(None, dwell, cooldown, now).current is None,
        !machine.spent && machine.last_fire is None && entered <= now ==> (machine.concludes(
            Some(zone),
            dwell,
            cooldown,
            now,
        ) == (EdgeObservation::Fire { host: zone.host }) <==> now - entered >= dwell),
{
}

/// A point in a bound zone occupies it: the zone of the display that the point is on, with
/// the host of the zone's first trigger. A point on no display, in no zone or in a zone
/// without a trigger occupies none.
pub proof fn points_occupy_the_zone_under_them(
    point: CursorPosition,
    displays: Seq<DisplayBounds>,
    triggers: Seq<ZoneTrigger>,
    display: DisplayBounds,
    zone: EdgeZone,
    host: u8,
)
    ensures
        display_at(displays, point) is None ==> occupied(point, displays, triggers) is None,
        display_at(displays, point) == Some(display) ==> {
            let local = zone_at(
                point.x - display.x,
                point.y - display.y,
                display.width as int,
                display.height as int,
            );
            &&& local is None ==> occupied(point, displays, triggers) is None
            &&& local == Some(zone) && host_for(triggers, zone) is None ==> occupied(
                point,
                displays,
                triggers,
            ) is None
            &&& local == Some(zone) && host_for(triggers, zone) == Some(host) ==> occupied(
                point,
                displays,
                triggers,
            ) == Some(OccupiedZone { display: display.id, zone, host })
        },
{
}

/// Each side's host is told apart from the others'.
pub proof fn placements_are_kept_by_side(placements: FlowPlacements)
    ensures
        placements.at(FlowSide::Left) == placements.left,
        placements.at(FlowSide::Right) == placements.right,
        placements.at(FlowSide::Top) == placements.top,
        placements.at(FlowSide::Bottom) == placements.bottom,
{
}

} // verus!
