//! The agent's lifecycle: booted, armed, running, replaced, ended.
use vstd::prelude::*;

use crate::device::DeviceInventory;
use crate::input_monitoring::{Access, needs_successor};
use crate::inventory::InventoryEvent;

verus! {

/// How long a dormant agent waits for a client before it leaves, in milliseconds.
pub const DORMANT_DEADLINE: u64 = 60_000;

/// How long a terminal exit waits for the watchers, in milliseconds.
pub const STOP_TIMEOUT: u64 = 3_000;

// ── The dormancy gate ───────────────────────────────────────────────────────

/// What a connected client says it is.
#[derive(Clone, Copy, Debug, PartialEq, Eq, Structural)]
pub enum ClientKind {
    Gui,
    Cli,
    Overlay,
}

/// What a dormant agent hears.
#[derive(Clone, Copy, Debug, PartialEq, Eq, Structural)]
pub enum GateEvent {
    /// A client declared itself.
    Demand(ClientKind),
    /// The deadline passed.
    Deadline,
    /// A signal asks the process to stop.
    Signal,
    /// The app was removed.
    Uninstalled,
}

/// What the startup gate decides.
#[derive(Clone, Copy, Debug, PartialEq, Eq, Structural)]
pub enum GateStep {
    Arm,
    /// Serve, and stay dormant.
    Stay,
    /// Leave with a clean exit, which nobody respawns.
    Leave,
}

/// Whether a start arms at once. With the preference off, a start with no client
/// in sight is a login start that the user opted out of.
pub fn arms_at_once(launch_at_login: bool, gated: bool) -> (arms: bool)
    ensures
        arms == (launch_at_login || !gated),
{
    launch_at_login || !gated
}

/// What a dormant agent does about an event. Only a GUI is demand: the others are
/// served without waking anything.
pub open spec fn gate_step(event: GateEvent) -> GateStep {
    match event {
        GateEvent::Demand(ClientKind::Gui) => GateStep::Arm,
        GateEvent::Demand(_) => GateStep::Stay,
        _ => GateStep::Leave,
    }
}

/// What a dormant agent does about an event.
pub fn gate(event: GateEvent) -> (step: GateStep)
    ensures
        step == gate_step(event),
{
    match event {
        GateEvent::Demand(kind) => match kind {
            ClientKind::Gui => GateStep::Arm,
            _ => GateStep::Stay,
        },
        GateEvent::Deadline => GateStep::Leave,
        GateEvent::Signal => GateStep::Leave,
        GateEvent::Uninstalled => GateStep::Leave,
    }
}

/// How long the startup gate still waits. The deadline is absolute: a client that is
/// served without arming buys no more time.
pub fn gate_wait(started: u64, now: u64) -> (wait: u64)
    ensures
        wait == (if now < started {
            DORMANT_DEADLINE as int
        } else if now - started >= DORMANT_DEADLINE {
            0
        } else {
            DORMANT_DEADLINE - (now - started)
        }),
{
    DORMANT_DEADLINE.saturating_sub(now.saturating_sub(started))
}

/// The first event that settles a dormant start.
pub open spec fn gate_verdict(events: Seq<GateEvent>) -> Option<GateStep>
    decreases events.len(),
{
    if events.len() == 0 {
        None
    } else if gate_step(events[0]) == GateStep::Stay {
        gate_verdict(events.skip(1))
    } else {
        Some(gate_step(events[0]))
    }
}

/// A dormant agent arms only for a GUI: where none declares itself, no series of
/// events arms it.
pub proof fn only_a_gui_arms(events: Seq<GateEvent>)
    requires
        forall|i: int|
            0 <= i < events.len() ==> events[i] != GateEvent::Demand(ClientKind::Gui),
    ensures
        gate_verdict(events) != Some(GateStep::Arm),
    decreases events.len(),
{
    if events.len() > 0 {
        let rest = events.skip(1);
        assert forall|i: int| 0 <= i < rest.len() implies rest[i] != GateEvent::Demand(
            ClientKind::Gui,
        ) by {
            assert(rest[i] == events[i + 1]);
        }
        only_a_gui_arms(rest);
    }
}

// ── The input hook ──────────────────────────────────────────────────────────

/// What a change of the Accessibility grant does to the input hook.
#[derive(Clone, Copy, Debug, PartialEq, Eq, Structural)]
pub enum HookStep {
    /// Stop the hook, then cancel what it had under way.
    Stop,
    /// Install the hook.
    Start,
    /// The hook stays as it is.
    Keep,
    /// The hook is switched off by configuration.
    Disabled,
}

/// What a change of the Accessibility grant calls for. A revoke stops the hook
/// and cancels its presses, whether or not one is installed.
pub open spec fn hook_step(granted: bool, installed: bool, capture_mouse_events: bool) -> HookStep {
    if !granted {
        HookStep::Stop
    } else if installed {
        HookStep::Keep
    } else if capture_mouse_events {
        HookStep::Start
    } else {
        HookStep::Disabled
    }
}

/// What a change of the Accessibility grant calls for.
pub fn apply_accessibility(granted: bool, installed: bool, capture_mouse_events: bool) -> (step:
    HookStep)
    ensures
        step == hook_step(granted, installed, capture_mouse_events),
{
    if !granted {
        HookStep::Stop
    } else if installed {
        HookStep::Keep
    } else if capture_mouse_events {
        HookStep::Start
    } else {
        HookStep::Disabled
    }
}

/// Whether a hook is installed after a step, of which starting may fail.
pub open spec fn installed_after(step: HookStep, started: bool) -> bool {
    match step {
        HookStep::Stop => false,
        HookStep::Start => started,
        HookStep::Keep => true,
        HookStep::Disabled => false,
    }
}

/// The hook state to publish after a step: one publication for every path.
pub fn hook_installed(step: HookStep, started: bool) -> (installed: bool)
    ensures
        installed == installed_after(step, started),
{
    match step {
        HookStep::Stop => false,
        HookStep::Start => started,
        HookStep::Keep => true,
        HookStep::Disabled => false,
    }
}

/// A hook runs only with the grant and only where capture is switched on, given
/// that a hook that is installed was put there under the same rule.
pub proof fn hooks_need_the_grant_and_the_switch(
    granted: bool,
    installed: bool,
    capture_mouse_events: bool,
    started: bool,
)
    requires
        installed ==> capture_mouse_events,
    ensures
        installed_after(hook_step(granted, installed, capture_mouse_events), started) ==> granted
            && capture_mouse_events,
{
}

/// Whether to prompt for Accessibility. With the hook switched off the agent
/// needs none.
pub fn prompts_accessibility(capture_mouse_events: bool, has_accessibility: bool) -> (prompt: bool)
    ensures
        prompt == (capture_mouse_events && !has_accessibility),
{
    capture_mouse_events && !has_accessibility
}

// ── Arming ──────────────────────────────────────────────────────────────────

/// What an agent does once it is armed, before it listens to its watchers. Nothing
/// that a user could notice happens before.
#[derive(Clone, Copy, Debug, PartialEq, Eq, Structural)]
pub enum ArmStep {
    /// Let the tray show.
    ReleaseTray,
    /// Start the overlay helper.
    StartOverlay,
    PromptAccessibility,
    /// Ask for Input Monitoring, and wait for the answer.
    RequestInputMonitoring,
    /// Open devices for capture.
    StartHidppWatchers,
    /// Start to watch the inventory, the camera, the foreground application and
    /// the permissions.
    StartStateWatchers,
}

/// What the system says when an agent is armed.
#[derive(Clone, Copy, Debug, PartialEq, Eq, Structural)]
pub struct ArmContext {
    /// The tray waits in this process, and devices need a permission.
    pub macos: bool,
    pub capture_mouse_events: bool,
    pub has_accessibility: bool,
    pub has_input_monitoring: bool,
}

/// One step, or none.
pub open spec fn step_if(wanted: bool, step: ArmStep) -> Seq<ArmStep> {
    if wanted {
        seq![step]
    } else {
        Seq::empty()
    }
}

/// The steps of arming.
pub open spec fn arm_steps(context: ArmContext) -> Seq<ArmStep> {
    step_if(context.macos, ArmStep::ReleaseTray) + seq![ArmStep::StartOverlay] + step_if(
        context.capture_mouse_events && !context.has_accessibility,
        ArmStep::PromptAccessibility,
    ) + step_if(
        context.macos && !context.has_input_monitoring,
        ArmStep::RequestInputMonitoring,
    ) + seq![ArmStep::StartHidppWatchers, ArmStep::StartStateWatchers]
}

/// The steps of arming, in order.
pub fn arm(context: ArmContext) -> (steps: Vec<ArmStep>)
    ensures
        steps@ == arm_steps(context),
{
    let mut steps: Vec<ArmStep> = Vec::new();
    if context.macos {
        steps.push(ArmStep::ReleaseTray);
    }
    steps.push(ArmStep::StartOverlay);
    if prompts_accessibility(context.capture_mouse_events, context.has_accessibility) {
        steps.push(ArmStep::PromptAccessibility);
    }
    if context.macos && !context.has_input_monitoring {
        steps.push(ArmStep::RequestInputMonitoring);
    }
    steps.push(ArmStep::StartHidppWatchers);
    steps.push(ArmStep::StartStateWatchers);
    assert(steps@ =~= arm_steps(context));
    steps
}

/// No device is opened, and no inventory read, before the consent dialog is
/// answered, so that nothing can cache the access from before the grant.
pub proof fn consent_precedes_devices(context: ArmContext, asked: int, opened: int)
    requires
        0 <= asked < arm_steps(context).len(),
        0 <= opened < arm_steps(context).len(),
        arm_steps(context)[asked] == ArmStep::RequestInputMonitoring,
        arm_steps(context)[opened] == ArmStep::StartHidppWatchers || arm_steps(context)[opened]
            == ArmStep::StartStateWatchers,
    ensures
        asked < opened,
{
    let steps = arm_steps(context);
    assert(steps.len() <= 6);
    assert(steps[steps.len() - 1] == ArmStep::StartStateWatchers);
    assert(steps[steps.len() - 2] == ArmStep::StartHidppWatchers);
    let before = steps.take(steps.len() - 2);
    if opened < steps.len() - 2 {
        assert(before[opened] == steps[opened]);
        assert(before =~= step_if(context.macos, ArmStep::ReleaseTray) + seq![
            ArmStep::StartOverlay,
        ] + step_if(
            context.capture_mouse_events && !context.has_accessibility,
            ArmStep::PromptAccessibility,
        ) + step_if(
            context.macos && !context.has_input_monitoring,
            ArmStep::RequestInputMonitoring,
        ));
    }
}

// ── The run loop ────────────────────────────────────────────────────────────

/// What an armed agent hears. `None` means that the source closed.
#[derive(Debug)]
pub enum AgentEvent {
    Inventory(Option<InventoryEvent>),
    Camera(Option<bool>),
    /// The foreground application changed; whether that changed the profile.
    Foreground { profile_changed: bool },
    /// A trigger of the Actions Ring; whether a ring was showing and is dismissed
    /// by it, and whether there is a session to show.
    ActionRing { dismissed: bool, session: bool },
    Accessibility(bool),
    InputMonitoring(bool),
    Signal,
    Uninstalled,
}

/// What the agent does about it.
#[derive(Debug)]
pub enum AgentAction {
    /// Nothing.
    Wait,
    /// Take a snapshot in, after having the volatile settings applied again where
    /// the machine woke up since the last one.
    RefreshInventory { reapply: bool, inventories: Vec<DeviceInventory> },
    MarkInventoryUnavailable,
    /// Have the next snapshot apply the volatile settings again.
    ReapplyOnNextRefresh,
    SetCameraActive(bool),
    /// Cancel presses whose bindings came from the previous profile.
    CancelButtons,
    /// Arm the haptic engine, then show the ring.
    BeginActionRing,
    Hook(HookStep),
    PublishInputMonitoring { granted: bool, restart: bool },
    /// Release the hook and end the process.
    ShutDown,
}

/// The armed agent's own state.
#[derive(Clone, Copy, Debug, PartialEq, Eq, Structural)]
pub struct AgentLoop {
    /// The inventory watcher is alive.
    pub inventory_open: bool,
    pub camera_open: bool,
    pub hook_installed: bool,
    pub capture_mouse_events: bool,
    pub access: Access,
    /// The system said that it woke up, and no snapshot has come since.
    pub resume_pending: bool,
}

impl AgentLoop {
    /// The state after an event.
    pub open spec fn after(self, event: AgentEvent) -> AgentLoop {
        match event {
            AgentEvent::Inventory(None) => AgentLoop { inventory_open: false, ..self },
            AgentEvent::Inventory(Some(InventoryEvent::Snapshot(_))) => AgentLoop {
                resume_pending: false,
                ..self
            },
            AgentEvent::Camera(None) => AgentLoop { camera_open: false, ..self },
            _ => self,
        }
    }

    /// What an event calls for.
    pub open spec fn action(self, event: AgentEvent) -> AgentAction {
        match event {
            AgentEvent::Inventory(None) => AgentAction::MarkInventoryUnavailable,
            AgentEvent::Inventory(Some(InventoryEvent::Snapshot(inventories))) => {
                AgentAction::RefreshInventory { reapply: self.resume_pending, inventories }
            },
            AgentEvent::Inventory(Some(InventoryEvent::Unavailable)) => {
                AgentAction::MarkInventoryUnavailable
            },
            AgentEvent::Inventory(Some(InventoryEvent::SystemWake)) => {
                AgentAction::ReapplyOnNextRefresh
            },
            AgentEvent::Camera(None) => AgentAction::Wait,
            AgentEvent::Camera(Some(active)) => AgentAction::SetCameraActive(active),
            AgentEvent::Foreground { profile_changed } => if profile_changed {
                AgentAction::CancelButtons
            } else {
                AgentAction::Wait
            },
            AgentEvent::ActionRing { dismissed, session } => if !dismissed && session {
                AgentAction::BeginActionRing
            } else {
                AgentAction::Wait
            },
            AgentEvent::Accessibility(granted) => AgentAction::Hook(
                hook_step(granted, self.hook_installed, self.capture_mouse_events),
            ),
            AgentEvent::InputMonitoring(granted) => AgentAction::PublishInputMonitoring {
                granted,
                restart: granted && self.access == Access::NeedsSuccessor,
            },
            AgentEvent::Signal => AgentAction::ShutDown,
            AgentEvent::Uninstalled => AgentAction::ShutDown,
        }
    }

    /// Decide what one event calls for. A watcher that died is not listened to
    /// again; without an inventory watcher the GUI must not scan for ever. A
    /// resume that the system announced is spent by the next snapshot, which is
    /// the point that can replay the settings.
    pub fn run(&mut self, event: AgentEvent) -> (action: AgentAction)
        ensures
            *final(self) == old(self).after(event),
            action == old(self).action(event),
    {
        match event {
            AgentEvent::Inventory(event) => match event {
                Some(event) => match event {
                    InventoryEvent::Snapshot(inventories) => {
                        let reapply: bool = self.resume_pending;
                        self.resume_pending = false;
                        AgentAction::RefreshInventory { reapply, inventories }
                    },
                    InventoryEvent::Unavailable => AgentAction::MarkInventoryUnavailable,
                    InventoryEvent::SystemWake => AgentAction::ReapplyOnNextRefresh,
                },
                None => {
                    self.inventory_open = false;
                    AgentAction::MarkInventoryUnavailable
                },
            },
            AgentEvent::Camera(event) => match event {
                Some(active) => AgentAction::SetCameraActive(active),
                None => {
                    self.camera_open = false;
                    AgentAction::Wait
                },
            },
            AgentEvent::Foreground { profile_changed } => if profile_changed {
                AgentAction::CancelButtons
            } else {
                AgentAction::Wait
            },
            AgentEvent::ActionRing { dismissed, session } => if !dismissed && session {
                AgentAction::BeginActionRing
            } else {
                AgentAction::Wait
            },
            AgentEvent::Accessibility(granted) => AgentAction::Hook(
                apply_accessibility(granted, self.hook_installed, self.capture_mouse_events),
            ),
            AgentEvent::InputMonitoring(granted) => AgentAction::PublishInputMonitoring {
                granted,
                restart: needs_successor(self.access, granted),
            },
            AgentEvent::Signal => AgentAction::ShutDown,
            AgentEvent::Uninstalled => AgentAction::ShutDown,
        }
    }

    /// Note that the hook is installed or not.
    pub fn hook_changed(&mut self, installed: bool)
        ensures
            *final(self) == (AgentLoop { hook_installed: installed, ..*old(self) }),
    {
        self.hook_installed = installed;
    }

    /// Note that the system announced a resume.
    pub fn resumed(&mut self)
        ensures
            *final(self) == (AgentLoop { resume_pending: true, ..*old(self) }),
    {
        self.resume_pending = true;
    }
}

/// Every way out releases the hook: a signal and an uninstall end in the same
/// step.
pub proof fn every_exit_uses_the_same_door(agent: AgentLoop, event: AgentEvent)
    ensures
        agent.action(event) is ShutDown <==> event is Signal || event is Uninstalled,
{
}

/// A resume is replayed once: the snapshot that spends it leaves none pending.
pub proof fn a_resume_is_replayed_once(
    agent: AgentLoop,
    first: Vec<DeviceInventory>,
    second: Vec<DeviceInventory>,
)
    ensures
        agent.after(
            AgentEvent::Inventory(Some(InventoryEvent::Snapshot(first))),
        ).action(AgentEvent::Inventory(Some(InventoryEvent::Snapshot(second))))
            == (AgentAction::RefreshInventory { reapply: false, inventories: second }),
{
}

// ── Replacement and exit ────────────────────────────────────────────────────

/// The watcher fleet during process replacement and terminal exit.
#[derive(Debug)]
pub enum WatcherFleet {
    Inactive,
    Running,
    /// The fleet drains, to be replaced by the binary at a path.
    Replacing { path: String },
}

/// What a request to replace the process comes to.
#[derive(Clone, Copy, Debug, PartialEq, Eq, Structural)]
pub enum ReplacementStep {
    /// Start to drain the fleet.
    Drain,
    /// Tell the binary watcher to look again later.
    RetryLater,
}

impl WatcherFleet {
    /// The path to which the process is being replaced.
    pub open spec fn replacing(self) -> Option<Seq<char>> {
        match self {
            WatcherFleet::Replacing { path } => Some(path@),
            _ => None,
        }
    }

    /// Begin to drain a running fleet. A drain that is under way is never
    /// discarded for a request that overlaps it.
    pub fn begin_replacement(&mut self, path: &str) -> (step: ReplacementStep)
        ensures
            *old(self) is Running ==> step == ReplacementStep::Drain && final(self).replacing()
                == Some(path@),
            !(*old(self) is Running) ==> step == ReplacementStep::RetryLater && *final(self) == *old(
                self,
            ),
    {
        match self {
            WatcherFleet::Running => {
                *self = WatcherFleet::Replacing { path: path.to_owned() };
                ReplacementStep::Drain
            },
            _ => ReplacementStep::RetryLater,
        }
    }

    /// Take the end of a drain in: the path that the process was to become, and
    /// whether the fleet stopped. `None` where no drain is under way.
    pub fn replacement_ready(&mut self, stopped: bool) -> (ready: Option<(String, bool)>)
        ensures
            match old(self).replacing() {
                Some(path) => {
                    &&& *final(self) is Inactive
                    &&& ready matches Some((target, whole)) && target@ == path && whole == stopped
                },
                None => ready is None && *final(self) == *old(self),
            },
    {
        let target: String = match self {
            WatcherFleet::Replacing { path } => path.clone(),
            _ => {
                return None;
            },
        };
        *self = WatcherFleet::Inactive;
        Some((target, stopped))
    }

    /// How long a terminal exit waits for the fleet: for a drain that is under
    /// way as for a new one, up to [`STOP_TIMEOUT`], and not at all for none.
    pub fn stop_for_exit(&self) -> (wait: Option<u64>)
        ensures
            wait == (match *self {
                WatcherFleet::Inactive => None,
                _ => Some(STOP_TIMEOUT),
            }),
    {
        match self {
            WatcherFleet::Inactive => None,
            WatcherFleet::Running => Some(STOP_TIMEOUT),
            WatcherFleet::Replacing { .. } => Some(STOP_TIMEOUT),
        }
    }
}

/// How a tray's Quit ends the process.
#[derive(Clone, Copy, Debug, PartialEq, Eq, Structural)]
pub enum TrayQuit {
    /// The core took the request: wait for it to end the process, however long
    /// restoring the firmware takes.
    WaitForCore,
    /// There is no core to ask: exit here.
    ExitDirectly,
}

/// Decide how a tray's Quit ends the process.
pub fn request_tray_quit(core_listening: bool, request_sent: bool) -> (quit: TrayQuit)
    ensures
        quit == (if core_listening && request_sent {
            TrayQuit::WaitForCore
        } else {
            TrayQuit::ExitDirectly
        }),
{
    if core_listening && request_sent {
        TrayQuit::WaitForCore
    } else {
        TrayQuit::ExitDirectly
    }
}

// ── Laws ────────────────────────────────────────────────────────────────────

/// What settles a dormant start: a GUI arms it, the command line and the overlay are
/// served without settling anything, and everything else makes it leave.
pub proof fn dormancy_ends_by_demand_or_leave(event: GateEvent)
    ensures
        gate_step(event) == GateStep::Arm <==> event == GateEvent::Demand(ClientKind::Gui),
        gate_step(event) == GateStep::Stay <==> event == GateEvent::Demand(ClientKind::Cli)
            || event == GateEvent::Demand(ClientKind::Overlay),
        gate_step(GateEvent::Demand(ClientKind::Gui)) == GateStep::Arm,
        gate_step(GateEvent::Demand(ClientKind::Cli)) == GateStep::Stay,
        gate_step(GateEvent::Demand(ClientKind::Overlay)) == GateStep::Stay,
        gate_step(GateEvent::Deadline) == GateStep::Leave,
        gate_step(GateEvent::Signal) == GateStep::Leave,
        gate_step(GateEvent::Uninstalled) == GateStep::Leave,
        DORMANT_DEADLINE == 60_000,
        STOP_TIMEOUT == 3_000,
{
}

/// The first event that settles a dormant start settles it for good: later ones change
/// nothing, and as long as only served clients come it stays open.
pub proof fn the_first_settling_event_counts(served: Seq<GateEvent>, event: GateEvent, later: Seq<GateEvent>)
    requires
        forall|i: int|
            0 <= i < served.len() ==> #[trigger] served[i] == GateEvent::Demand(ClientKind::Cli)
                || served[i] == GateEvent::Demand(ClientKind::Overlay),
    ensures
        gate_verdict(served) is None,
        event == GateEvent::Demand(ClientKind::Gui) ==> gate_verdict(served + seq![event] + later)
            == Some(GateStep::Arm),
        !(event is Demand) ==> gate_verdict(served + seq![event] + later) == Some(GateStep::Leave),
    decreases served.len(),
{
    let all = served + seq![event] + later;
    if served.len() > 0 {
        let rest = served.skip(1);
        assert(served[0] == all[0]);
        assert(forall|i: int| 0 <= i < rest.len() ==> #[trigger] rest[i] == served[i + 1]);
        the_first_settling_event_counts(rest, event, later);
        assert(all.skip(1) =~= rest + seq![event] + later);
    } else {
        assert(all[0] == event);
    }
}

/// A grant installs the hook where capture is on and none is installed, leaves an
/// installed one alone, and installs none where capture is off. A revoke always stops it.
pub proof fn the_hook_follows_the_grant(installed: bool, capture: bool, started: bool)
    ensures
        hook_step(false, installed, capture) == HookStep::Stop,
        hook_step(true, true, capture) == HookStep::Keep,
        hook_step(true, false, true) == HookStep::Start,
        hook_step(true, false, false) == HookStep::Disabled,
        !installed_after(HookStep::Stop, started),
        installed_after(HookStep::Keep, started),
        installed_after(HookStep::Start, true),
        !installed_after(HookStep::Start, false),
        !installed_after(HookStep::Disabled, started),
{
}

/// What arming does: it always starts the overlay and the watchers, devices before state;
/// it lets the tray show and asks for Input Monitoring only where the system has them, the
/// latter only without the permission; and it prompts for Accessibility exactly where the
/// hook needs it and it is not there.
pub proof fn arming_does_what_the_system_needs(context: ArmContext)
    ensures
        ({
            let steps = arm_steps(context);
            let prompts = context.capture_mouse_events && !context.has_accessibility;
            let asks = context.macos && !context.has_input_monitoring;
            &&& steps.contains(ArmStep::ReleaseTray) <==> context.macos
            &&& steps.contains(ArmStep::StartOverlay)
            &&& steps.contains(ArmStep::PromptAccessibility) <==> prompts
            &&& steps.contains(ArmStep::RequestInputMonitoring) <==> asks
            &&& steps.len() >= 3
            &&& steps[steps.len() - 2] == ArmStep::StartHidppWatchers
            &&& steps[steps.len() - 1] == ArmStep::StartStateWatchers
            &&& context.macos ==> steps[0] == ArmStep::ReleaseTray
            &&& !context.macos ==> steps[0] == ArmStep::StartOverlay
        }),
{
    let steps = arm_steps(context);
    let tray: int = if context.macos {
        1
    } else {
        0
    };
    let prompt: int = if context.capture_mouse_events && !context.has_accessibility {
        1
    } else {
        0
    };
    assert(steps[tray] == ArmStep::StartOverlay);
    if context.macos {
        assert(steps[0] == ArmStep::ReleaseTray);
    }
    if prompt == 1 {
        assert(steps[tray + 1] == ArmStep::PromptAccessibility);
    }
    if context.macos && !context.has_input_monitoring {
        assert(steps[tray + 1 + prompt] == ArmStep::RequestInputMonitoring);
    }
}

/// What an armed agent does about what it hears: each event has its one answer.
pub proof fn events_have_their_answers(
    agent: AgentLoop,
    inventories: Vec<DeviceInventory>,
    flag: bool,
)
    ensures
        agent.action(AgentEvent::Inventory(None)) is MarkInventoryUnavailable,
        agent.action(AgentEvent::Inventory(Some(InventoryEvent::Unavailable)))
            is MarkInventoryUnavailable,
        agent.action(AgentEvent::Inventory(Some(InventoryEvent::SystemWake)))
            is ReapplyOnNextRefresh,
        agent.action(AgentEvent::Inventory(Some(InventoryEvent::Snapshot(inventories)))) == (
        AgentAction::RefreshInventory { reapply: agent.resume_pending, inventories }),
        agent.action(AgentEvent::Camera(Some(flag))) == AgentAction::SetCameraActive(flag),
        agent.action(AgentEvent::Camera(None)) is Wait,
        agent.action(AgentEvent::Foreground { profile_changed: true }) is CancelButtons,
        agent.action(AgentEvent::Foreground { profile_changed: false }) is Wait,
        agent.action(AgentEvent::ActionRing { dismissed: false, session: true })
            is BeginActionRing,
        agent.action(AgentEvent::ActionRing { dismissed: true, session: flag }) is Wait,
        agent.action(AgentEvent::ActionRing { dismissed: flag, session: false }) is Wait,
        agent.action(AgentEvent::Accessibility(false)) == AgentAction::Hook(HookStep::Stop),
        agent.hook_installed ==> agent.action(AgentEvent::Accessibility(true))
            == AgentAction::Hook(HookStep::Keep),
        !agent.hook_installed && agent.capture_mouse_events ==> agent.action(
            AgentEvent::Accessibility(true),
        ) == AgentAction::Hook(HookStep::Start),
        agent.action(AgentEvent::InputMonitoring(false)) == (AgentAction::PublishInputMonitoring {
            granted: false,
            restart: false,
        }),
        agent.action(AgentEvent::InputMonitoring(true)) == (AgentAction::PublishInputMonitoring {
            granted: true,
            restart: agent.access == Access::NeedsSuccessor,
        }),
{
}

/// What an armed agent keeps: a source that closed is not listened to again, a snapshot
/// spends a resume, and nothing else moves its state.
pub proof fn only_closings_and_snapshots_move_the_agent(
    agent: AgentLoop,
    event: AgentEvent,
    inventories: Vec<DeviceInventory>,
)
    ensures
        agent.after(AgentEvent::Inventory(None)) == (AgentLoop { inventory_open: false, ..agent }),
        agent.after(AgentEvent::Camera(None)) == (AgentLoop { camera_open: false, ..agent }),
        agent.after(AgentEvent::Inventory(Some(InventoryEvent::Snapshot(inventories)))) == (
        AgentLoop { resume_pending: false, ..agent }),
        !(event is Inventory) && !(event is Camera) ==> agent.after(event) == agent,
        agent.after(event).inventory_open == agent.inventory_open || event
            == AgentEvent::Inventory(None),
        agent.after(event).camera_open == agent.camera_open || event == AgentEvent::Camera(None),
        agent.after(event).hook_installed == agent.hook_installed,
        agent.after(event).access == agent.access,
        agent.after(event).resume_pending == agent.resume_pending || (event
            matches AgentEvent::Inventory(Some(told)) && told is Snapshot),
{
}

/// A fleet that drains knows what it is replaced by, and no other fleet is being replaced.
pub proof fn draining_fleets_know_their_successor(path: String)
    ensures
        (WatcherFleet::Replacing { path }).replacing() == Some(path@),
        WatcherFleet::Running.replacing() is None,
        WatcherFleet::Inactive.replacing() is None,
{
}

} // verus!
