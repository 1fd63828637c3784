//! The host-activity levels behind the device-I/O gate.
//!
//! Every input to the activity gate is a level, never an edge: nothing has to pair, and a
//! missed event is corrected by the next.
use vstd::prelude::*;

verus! {

/// The CPU runs: clear in every sleep state.
pub const CAPABILITY_CPU: u32 = 0x1;

/// Graphic output to displays is supported.
pub const CAPABILITY_VIDEO: u32 = 0x2;

pub const CAPABILITY_AUDIO: u32 = 0x4;

pub const CAPABILITY_NETWORK: u32 = 0x8;

pub const CAPABILITY_DISK: u32 = 0x10;

/// The capabilities whose changes are worth hearing of.
pub const SLEEP_WAKE_INTEREST: u32 = 0x1f;

/// The system power states that matter to hardware access.
#[derive(Clone, Copy, Debug, PartialEq, Eq, Structural)]
pub enum PowerState {
    /// The CPU is off: sleep or hibernation.
    Sleep,
    /// The CPU runs with graphics down: a wake that the user cannot see.
    DarkWake,
    /// Graphics are up: a wake that the user can see.
    FullWake,
}

impl PowerState {
    pub open spec fn of(capabilities: u32) -> PowerState {
        if capabilities & CAPABILITY_CPU == 0 {
            PowerState::Sleep
        } else if capabilities & CAPABILITY_VIDEO == 0 {
            PowerState::DarkWake
        } else {
            PowerState::FullWake
        }
    }

    /// Classify a capability set. A clear CPU bit is a sleep state and makes the
    /// other bits meaningless; with it set, the video bit tells a dark wake from
    /// a full one.
    pub fn from_capabilities(capabilities: u32) -> (state: PowerState)
        ensures
            state == PowerState::of(capabilities),
    {
        if capabilities & CAPABILITY_CPU == 0 {
            PowerState::Sleep
        } else if capabilities & CAPABILITY_VIDEO == 0 {
            PowerState::DarkWake
        } else {
            PowerState::FullWake
        }
    }
}

/// The interest covers every capability that the classification looks at.
pub proof fn interest_covers_the_classification()
    ensures
        SLEEP_WAKE_INTEREST & CAPABILITY_CPU != 0,
        SLEEP_WAKE_INTEREST & CAPABILITY_VIDEO != 0,
        SLEEP_WAKE_INTEREST == CAPABILITY_CPU | CAPABILITY_DISK | CAPABILITY_NETWORK
            | CAPABILITY_VIDEO | CAPABILITY_AUDIO,
{
    assert(0x1fu32 & 0x1u32 != 0u32) by (bit_vector);
    assert(0x1fu32 & 0x2u32 != 0u32) by (bit_vector);
    assert(0x1fu32 == 0x1u32 | 0x10u32 | 0x8u32 | 0x2u32 | 0x4u32) by (bit_vector);
}

/// Everything the activity gate decides from.
#[derive(Clone, Copy, Debug, PartialEq, Eq, Structural)]
pub struct Levels {
    pub power: PowerState,
    /// This login session owns the console.
    pub on_console: bool,
    /// The launch hold, released once both levels above have been read.
    pub starting: bool,
}

impl Levels {
    pub open spec fn open(self) -> bool {
        !self.starting && self.power == PowerState::FullWake && self.on_console
    }

    pub fn allows_io(self) -> (allowed: bool)
        ensures
            allowed == self.open(),
    {
        !self.starting && self.power == PowerState::FullWake && self.on_console
    }
}

/// What a change of the levels did to the activity gate.
#[derive(Clone, Copy, Debug, PartialEq, Eq, Structural)]
pub enum GateChange {
    /// Device I/O resumed.
    Resumed,
    /// Device I/O paused.
    Paused,
    /// A level changed, and device I/O stays paused.
    StaysPaused,
    /// Nothing changed.
    Unchanged,
}

/// The one transition authority for the device-I/O gate.
#[derive(Debug)]
pub struct ActivityGate {
    /// Whether the published signal lets device I/O through.
    pub signal: bool,
    pub levels: Levels,
}

impl ActivityGate {
    /// The signal never drifts from the levels.
    pub open spec fn wf(self) -> bool {
        self.signal == self.levels.open()
    }

    /// What moving to other levels does.
    pub open spec fn change(self, levels: Levels) -> GateChange {
        if levels.open() {
            if self.signal {
                GateChange::Unchanged
            } else {
                GateChange::Resumed
            }
        } else if self.signal {
            GateChange::Paused
        } else if self.levels != levels {
            GateChange::StaysPaused
        } else {
            GateChange::Unchanged
        }
    }

    /// A closed gate, held closed until [`Self::finish_startup`].
    pub fn new() -> (gate: ActivityGate)
        ensures
            gate.wf(),
            !gate.signal,
            gate.levels == (Levels {
                power: PowerState::Sleep,
                on_console: false,
                starting: true,
            }),
    {
        ActivityGate {
            signal: false,
            levels: Levels { power: PowerState::Sleep, on_console: false, starting: true },
        }
    }

    /// Whether device I/O may happen.
    pub fn allows_io(&self) -> (allowed: bool)
        ensures
            allowed == self.signal,
    {
        self.signal
    }

    fn update(&mut self, after: Levels) -> (change: GateChange)
        ensures
            final(self).wf(),
            final(self).levels == after,
            change == old(self).change(after),
    {
        let before: Levels = self.levels;
        self.levels = after;
        if after.allows_io() {
            let moved: bool = !self.signal;
            self.signal = true;
            if moved {
                GateChange::Resumed
            } else {
                GateChange::Unchanged
            }
        } else {
            let moved: bool = self.signal;
            self.signal = false;
            if moved {
                GateChange::Paused
            } else if before != after {
                GateChange::StaysPaused
            } else {
                GateChange::Unchanged
            }
        }
    }

    pub fn set_power(&mut self, power: PowerState) -> (change: GateChange)
        ensures
            final(self).wf(),
            final(self).levels == (Levels { power, ..old(self).levels }),
            change == old(self).change((Levels { power, ..old(self).levels })),
    {
        let levels: Levels = Levels {
            power,
            on_console: self.levels.on_console,
            starting: self.levels.starting,
        };
        self.update(levels)
    }

    pub fn set_on_console(&mut self, on_console: bool) -> (change: GateChange)
        ensures
            final(self).wf(),
            final(self).levels == (Levels { on_console, ..old(self).levels }),
            change == old(self).change((Levels { on_console, ..old(self).levels })),
    {
        let levels: Levels = Levels {
            power: self.levels.power,
            on_console,
            starting: self.levels.starting,
        };
        self.update(levels)
    }

    /// Release the launch hold. What the activity gate does next follows from the levels
    /// alone.
    pub fn finish_startup(&mut self) -> (change: GateChange)
        ensures
            final(self).wf(),
            final(self).levels == (Levels { starting: false, ..old(self).levels }),
            change == old(self).change((Levels { starting: false, ..old(self).levels })),
    {
        let levels: Levels = Levels {
            power: self.levels.power,
            on_console: self.levels.on_console,
            starting: false,
        };
        self.update(levels)
    }

    /// Seed the power level with the capabilities that a subscription read, or,
    /// where there is no subscription, with a full wake that never ends: a
    /// machine without one gets hardware that follows the console alone, not an
    /// agent that can never touch it. Whether there is a subscription comes back.
    pub fn connect(&mut self, opened: Result<u32, i32>) -> (connected: bool)
        ensures
            final(self).wf(),
            connected == (opened is Ok),
            final(self).levels == (Levels {
                power: match opened {
                    Ok(capabilities) => PowerState::of(capabilities),
                    Err(_) => PowerState::FullWake,
                },
                ..old(self).levels
            }),
    {
        match opened {
            Ok(capabilities) => {
                let _ = self.set_power(PowerState::from_capabilities(capabilities));
                true
            },
            Err(_) => {
                let _ = self.set_power(PowerState::FullWake);
                false
            },
        }
    }

    /// Take a power transition in. The console is read again with it: it can move
    /// while the machine is dark.
    pub fn on_event(&mut self, capabilities: u32, on_console: bool)
        ensures
            final(self).wf(),
            final(self).levels == (Levels {
                power: PowerState::of(capabilities),
                on_console,
                ..old(self).levels
            }),
    {
        let _ = self.set_power(PowerState::from_capabilities(capabilities));
        let _ = self.set_on_console(on_console);
    }
}

/// Whether this login session owns the console. `None` where there is no session
/// dictionary, or no such entry: not a state to resume into either.
pub fn session_is_on_console(entry: Option<bool>) -> (on_console: bool)
    ensures
        on_console == (entry == Some(true)),
{
    match entry {
        Some(on_console) => on_console,
        None => false,
    }
}

/// The order in which levels land cannot matter: the activity gate ends up the same.
pub proof fn order_of_levels_does_not_matter(levels: Levels, power: PowerState, on_console: bool)
    ensures
        ({
            let first = Levels { power, ..levels };
            let other = Levels { on_console, ..levels };
            (Levels { on_console, ..first }) == (Levels { power, ..other })
        }),
{
}

/// Only a full wake, on this session's console, after the launch hold, opens the
/// gate.
pub proof fn only_a_full_wake_opens(levels: Levels)
    ensures
        levels.open() <==> levels.power == PowerState::FullWake && levels.on_console
            && !levels.starting,
{
}

/// A machine is in full wake exactly where it runs and has its graphics up, in a dark wake
/// where it runs without them, and asleep where it does not run, whatever else it says.
pub proof fn capabilities_tell_the_power_state(capabilities: u32)
    ensures
        PowerState::of(capabilities) == PowerState::FullWake <==> capabilities & 1 != 0
            && capabilities & 2 != 0,
        PowerState::of(capabilities) == PowerState::DarkWake <==> capabilities & 1 != 0
            && capabilities & 2 == 0,
        PowerState::of(capabilities) == PowerState::Sleep <==> capabilities & 1 == 0,
{
}

/// A change of the levels resumes device I/O exactly where the signal was off and the
/// levels are now those of a full wake on this session's console after the launch hold;
/// it pauses exactly where the signal was on and they are not.
pub proof fn changes_move_the_signal(gate: ActivityGate, levels: Levels)
    ensures
        ({
            let awake = levels.power == PowerState::FullWake && levels.on_console
                && !levels.starting;
            &&& gate.change(levels) == GateChange::Resumed <==> awake && !gate.signal
            &&& gate.change(levels) == GateChange::Paused <==> !awake && gate.signal
            &&& gate.change(levels) == GateChange::StaysPaused <==> !awake && !gate.signal
                && gate.levels != levels
            &&& gate.change(levels) == GateChange::Unchanged <==> (awake && gate.signal) || (!awake
                && !gate.signal && gate.levels == levels)
        }),
{
}

/// A sound gate lets device I/O through exactly in a full wake, on this session's console,
/// after the launch hold.
pub proof fn a_sound_gate_follows_its_levels(gate: ActivityGate)
    requires
        gate.wf(),
    ensures
        gate.signal <==> gate.levels.power == PowerState::FullWake && gate.levels.on_console
            && !gate.levels.starting,
{
}

} // verus!
