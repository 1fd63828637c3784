//! The key-capture manager of a bound keyboard.
use vstd::prelude::*;

use crate::binding::{Binding, ButtonId};
use crate::capture_session::{CaptureSession, CompletionAction, ReconcileAction, SessionModel};
use crate::dispatch::CapturedInput;
use crate::retry::{earlier, earlier_of};
use crate::route::{DeviceRoute, HidppSessionId, RouteModel};
use crate::value::{Assoc, Value};

verus! {

/// The profile that the G keys follow.
#[derive(Clone, Copy, Debug, PartialEq, Eq, Structural)]
pub enum GKeyProfile {
    M1,
    M2,
    M3,
}

impl Value for GKeyProfile {
    type Model = GKeyProfile;

    open spec fn model(&self) -> GKeyProfile {
        *self
    }

    fn same(&self, other: &GKeyProfile) -> (same: bool) {
        *self == *other
    }

    fn copied(&self) -> (copy: GKeyProfile) {
        *self
    }
}

/// What the M keys and the MR key are for.
#[derive(Clone, Copy, Debug, PartialEq, Eq, Structural)]
pub enum GamingKeyMode {
    /// The M keys select the profile of the G keys.
    Profiles,
    /// G, M and MR keys are nine buttons of their own.
    NineButtons,
}

/// Keys, each once.
pub type KeyNames = Assoc<ButtonId, u16>;

/// Everything needed to capture one keyboard.
#[derive(Debug)]
pub struct KeyboardSpec {
    /// Configuration namespace of the keyboard.
    pub config_key: String,
    pub route: DeviceRoute,
    /// Control id and button of exactly the bound keys.
    pub wanted: Assoc<u16, ButtonId>,
    /// G keys, with their positions.
    pub wanted_g_keys: KeyNames,
    /// M and MR keys, with their positions.
    pub wanted_aux_keys: KeyNames,
    pub bindings: Assoc<ButtonId, Binding>,
    pub g_key_profiles: Assoc<GKeyProfile, Assoc<ButtonId, Binding>>,
    pub gaming_key_mode: GamingKeyMode,
    pub gaming_button_bindings: Assoc<ButtonId, Binding>,
}

/// The identity of a keyboard capture. Bindings are not part of it: they may
/// change without another hardware session.
#[derive(Debug)]
pub struct KeyboardTarget {
    pub route: DeviceRoute,
    pub wanted: Assoc<u16, ButtonId>,
    pub wanted_g_keys: KeyNames,
    pub wanted_aux_keys: KeyNames,
}

/// What a [`KeyboardTarget`] holds.
pub struct KeyboardTargetModel {
    pub route: RouteModel,
    pub wanted: Map<u16, ButtonId>,
    pub wanted_g_keys: Map<ButtonId, u16>,
    pub wanted_aux_keys: Map<ButtonId, u16>,
}

impl Value for KeyboardTarget {
    type Model = KeyboardTargetModel;

    open spec fn model(&self) -> KeyboardTargetModel {
        KeyboardTargetModel {
            route: self.route.model(),
            wanted: self.wanted@,
            wanted_g_keys: self.wanted_g_keys@,
            wanted_aux_keys: self.wanted_aux_keys@,
        }
    }

    fn same(&self, other: &KeyboardTarget) -> (same: bool) {
        self.route.same(&other.route) && self.wanted.same(&other.wanted) && self.wanted_g_keys.same(
            &other.wanted_g_keys,
        ) && self.wanted_aux_keys.same(&other.wanted_aux_keys)
    }

    fn copied(&self) -> (copy: KeyboardTarget) {
        KeyboardTarget {
            route: self.route.copied(),
            wanted: self.wanted.copied(),
            wanted_g_keys: self.wanted_g_keys.copied(),
            wanted_aux_keys: self.wanted_aux_keys.copied(),
        }
    }
}

/// What the keys of one keyboard do.
#[derive(Debug)]
pub struct KeyboardDispatchPlan {
    pub config_key: String,
    pub bindings: Assoc<ButtonId, Binding>,
    pub g_key_profiles: Assoc<GKeyProfile, Assoc<ButtonId, Binding>>,
    pub gaming_key_mode: GamingKeyMode,
    pub gaming_button_bindings: Assoc<ButtonId, Binding>,
}

/// What a [`KeyboardDispatchPlan`] holds.
pub struct KeyboardPlanModel {
    pub config_key: Seq<char>,
    pub bindings: Map<ButtonId, Binding>,
    pub g_key_profiles: Map<GKeyProfile, Map<ButtonId, Binding>>,
    pub gaming_key_mode: GamingKeyMode,
    pub gaming_button_bindings: Map<ButtonId, Binding>,
}

impl Value for KeyboardDispatchPlan {
    type Model = KeyboardPlanModel;

    open spec fn model(&self) -> KeyboardPlanModel {
        KeyboardPlanModel {
            config_key: self.config_key@,
            bindings: self.bindings@,
            g_key_profiles: self.g_key_profiles@,
            gaming_key_mode: self.gaming_key_mode,
            gaming_button_bindings: self.gaming_button_bindings@,
        }
    }

    fn same(&self, other: &KeyboardDispatchPlan) -> (same: bool) {
        self.config_key == other.config_key && self.bindings.same(&other.bindings)
            && self.g_key_profiles.same(&other.g_key_profiles) && self.gaming_key_mode
            == other.gaming_key_mode && self.gaming_button_bindings.same(
            &other.gaming_button_bindings,
        )
    }

    fn copied(&self) -> (copy: KeyboardDispatchPlan) {
        KeyboardDispatchPlan {
            config_key: self.config_key.clone(),
            bindings: self.bindings.copied(),
            g_key_profiles: self.g_key_profiles.copied(),
            gaming_key_mode: self.gaming_key_mode,
            gaming_button_bindings: self.gaming_button_bindings.copied(),
        }
    }
}

/// The target of a published keyboard.
pub open spec fn target_of(spec: KeyboardSpec) -> KeyboardTargetModel {
    KeyboardTargetModel {
        route: spec.route.model(),
        wanted: spec.wanted@,
        wanted_g_keys: spec.wanted_g_keys@,
        wanted_aux_keys: spec.wanted_aux_keys@,
    }
}

/// The dispatch plan of a published keyboard.
pub open spec fn dispatch_of(spec: KeyboardSpec) -> KeyboardPlanModel {
    KeyboardPlanModel {
        config_key: spec.config_key@,
        bindings: spec.bindings@,
        g_key_profiles: spec.g_key_profiles@,
        gaming_key_mode: spec.gaming_key_mode,
        gaming_button_bindings: spec.gaming_button_bindings@,
    }
}

impl KeyboardTarget {
    pub fn for_spec(spec: &KeyboardSpec) -> (target: KeyboardTarget)
        ensures
            target.model() == target_of(*spec),
    {
        KeyboardTarget {
            route: spec.route.copied(),
            wanted: spec.wanted.copied(),
            wanted_g_keys: spec.wanted_g_keys.copied(),
            wanted_aux_keys: spec.wanted_aux_keys.copied(),
        }
    }
}

/// A tracked keyboard capture session.
pub type RunningKeyboardSession = CaptureSession<KeyboardTarget, KeyboardDispatchPlan>;

/// What a [`RunningKeyboardSession`] holds.
pub type KeyboardSession = SessionModel<KeyboardTargetModel, KeyboardPlanModel>;

/// The target and the plan that are wanted, as models.
pub type WantedKeyboard = Option<(KeyboardTargetModel, KeyboardPlanModel)>;

/// What is wanted of a published keyboard: nothing while the receiver is wanted
/// for exclusive access.
pub open spec fn wanted_of(requested: bool, spec: Option<&KeyboardSpec>) -> WantedKeyboard {
    match spec {
        Some(spec) if !requested => Some((target_of(*spec), dispatch_of(*spec))),
        _ => None,
    }
}

/// The models of a wanted target and plan.
pub open spec fn pair_model(wanted: Option<(KeyboardTarget, KeyboardDispatchPlan)>) -> WantedKeyboard {
    match wanted {
        Some((target, plan)) => Some((target.model(), plan.model())),
        None => None,
    }
}

/// The keyboard capture that should run now.
pub fn wanted_session(requested: bool, spec: Option<&KeyboardSpec>) -> (wanted: Option<
    (KeyboardTarget, KeyboardDispatchPlan),
>)
    ensures
        pair_model(wanted) == wanted_of(requested, spec),
{
    if requested {
        return None;
    }
    match spec {
        Some(spec) => Some(
            (
                KeyboardTarget::for_spec(spec),
                KeyboardDispatchPlan {
                    config_key: spec.config_key.clone(),
                    bindings: spec.bindings.copied(),
                    g_key_profiles: spec.g_key_profiles.copied(),
                    gaming_key_mode: spec.gaming_key_mode,
                    gaming_button_bindings: spec.gaming_button_bindings.copied(),
                },
            ),
        ),
        None => None,
    }
}

/// When recovery work can next make progress. Never while the receiver is wanted
/// elsewhere or device I/O is off.
pub fn next_deadline(
    requested: bool,
    device_io_allowed: bool,
    restore_at: Option<u64>,
    restart_at: Option<u64>,
) -> (deadline: Option<u64>)
    ensures
        deadline == (if requested || !device_io_allowed {
            None
        } else {
            earlier(restore_at, restart_at)
        }),
{
    if requested || !device_io_allowed {
        return None;
    }
    earlier_of(restore_at, restart_at)
}

// ── Bindings ────────────────────────────────────────────────────────────────

/// Whether the key is one of the G keys.
pub open spec fn is_g_key(button: ButtonId) -> bool {
    matches!(button, ButtonId::KeyG1 | ButtonId::KeyG2 | ButtonId::KeyG3 | ButtonId::KeyG4
        | ButtonId::KeyG5)
}

/// The profile that an M key names.
pub open spec fn m_key(button: ButtonId) -> Option<GKeyProfile> {
    match button {
        ButtonId::KeyM1 => Some(GKeyProfile::M1),
        ButtonId::KeyM2 => Some(GKeyProfile::M2),
        ButtonId::KeyM3 => Some(GKeyProfile::M3),
        _ => None,
    }
}

/// The profile that pressing a key selects.
pub open spec fn selects(button: ButtonId, plan: KeyboardPlanModel) -> Option<GKeyProfile> {
    match plan.gaming_key_mode {
        GamingKeyMode::Profiles => m_key(button),
        GamingKeyMode::NineButtons => None,
    }
}

/// The profile that pressing a key selects. The M keys do, unless they are
/// buttons of their own.
pub fn profile_selected_by(button: ButtonId, plan: &KeyboardDispatchPlan) -> (profile: Option<
    GKeyProfile,
>)
    ensures
        profile == selects(button, plan.model()),
{
    match plan.gaming_key_mode {
        GamingKeyMode::Profiles => match button {
            ButtonId::KeyM1 => Some(GKeyProfile::M1),
            ButtonId::KeyM2 => Some(GKeyProfile::M2),
            ButtonId::KeyM3 => Some(GKeyProfile::M3),
            _ => None,
        },
        GamingKeyMode::NineButtons => None,
    }
}

/// What a map binds to a key.
pub open spec fn bound_in(map: Map<ButtonId, Binding>, button: ButtonId) -> Option<Binding> {
    if map.dom().contains(button) {
        Some(map[button])
    } else {
        None
    }
}

/// What a key does while a profile is active. As nine buttons, the G, M and MR
/// keys have one map of their own; otherwise the G keys follow the profile.
pub open spec fn key_binding(plan: KeyboardPlanModel, profile: GKeyProfile, button: ButtonId) -> Option<
    Binding,
> {
    let nine = plan.gaming_key_mode == GamingKeyMode::NineButtons;
    if nine && (is_g_key(button) || m_key(button) is Some || button == ButtonId::KeyMr) {
        bound_in(plan.gaming_button_bindings, button)
    } else if is_g_key(button) {
        if plan.g_key_profiles.dom().contains(profile) {
            bound_in(plan.g_key_profiles[profile], button)
        } else {
            None
        }
    } else {
        bound_in(plan.bindings, button)
    }
}

fn find_in(map: &Assoc<ButtonId, Binding>, button: ButtonId) -> (binding: Option<Binding>)
    ensures
        binding == bound_in(map@, button),
{
    match map.get(&button) {
        Some(binding) => Some(*binding),
        None => None,
    }
}

/// What a key does while a profile is active.
pub fn binding_for_button(plan: &KeyboardDispatchPlan, profile: GKeyProfile, button: ButtonId) -> (binding:
    Option<Binding>)
    ensures
        binding == key_binding(plan.model(), profile, button),
{
    let g_key: bool = matches!(button, ButtonId::KeyG1 | ButtonId::KeyG2 | ButtonId::KeyG3
        | ButtonId::KeyG4 | ButtonId::KeyG5);
    let gaming: bool = g_key || matches!(button, ButtonId::KeyM1 | ButtonId::KeyM2
        | ButtonId::KeyM3 | ButtonId::KeyMr);
    if plan.gaming_key_mode == GamingKeyMode::NineButtons && gaming {
        return find_in(&plan.gaming_button_bindings, button);
    }
    if g_key {
        return match plan.g_key_profiles.get(&profile) {
            Some(map) => find_in(map, button),
            None => None,
        };
    }
    find_in(&plan.bindings, button)
}

/// What a key's input asks of the outputs.
#[derive(Clone, Copy, Debug, PartialEq, Eq, Structural)]
pub enum KeyboardOutput {
    Nothing,
    /// The G keys follow another profile from now on.
    SelectProfile(GKeyProfile),
    ButtonDown { button: ButtonId, binding: Option<Binding> },
    ButtonUp { button: ButtonId },
    ButtonPulse { button: ButtonId, binding: Option<Binding> },
}

/// What an input of a keyboard comes to.
pub open spec fn key_output(input: CapturedInput, plan: KeyboardPlanModel, profile: GKeyProfile) -> KeyboardOutput {
    match input {
        CapturedInput::ButtonDown(button) => match selects(button, plan) {
            Some(selected) => KeyboardOutput::SelectProfile(selected),
            None => KeyboardOutput::ButtonDown {
                button,
                binding: key_binding(plan, profile, button),
            },
        },
        CapturedInput::ButtonUp(button) => KeyboardOutput::ButtonUp { button },
        CapturedInput::ButtonPulse(button) => KeyboardOutput::ButtonPulse {
            button,
            binding: key_binding(plan, profile, button),
        },
        _ => KeyboardOutput::Nothing,
    }
}

/// Route one accepted input of a keyboard. Keyboards have no gestures and no
/// wheel.
pub fn dispatch_input(input: CapturedInput, plan: &KeyboardDispatchPlan, profile: GKeyProfile) -> (output:
    KeyboardOutput)
    ensures
        output == key_output(input, plan.model(), profile),
{
    match input {
        CapturedInput::ButtonDown(button) => match profile_selected_by(button, plan) {
            Some(selected) => KeyboardOutput::SelectProfile(selected),
            None => KeyboardOutput::ButtonDown {
                button,
                binding: binding_for_button(plan, profile, button),
            },
        },
        CapturedInput::ButtonUp(button) => KeyboardOutput::ButtonUp { button },
        CapturedInput::ButtonPulse(button) => KeyboardOutput::ButtonPulse {
            button,
            binding: binding_for_button(plan, profile, button),
        },
        _ => KeyboardOutput::Nothing,
    }
}

// ── Sessions ────────────────────────────────────────────────────────────────

/// A session brought in line with what is wanted.
pub open spec fn refreshed(session: KeyboardSession, wanted: WantedKeyboard) -> KeyboardSession {
    let next = session.reconciled(wanted);
    if session.action(wanted) == ReconcileAction::DispatchChanged {
        SessionModel { id: (next.dispatch.config_key, next.id.1), ..next }
    } else {
        next
    }
}

/// Bring a session in line with what is wanted. Where that changed anything, the
/// id under which its presses were dispatched so far comes back: they are to be
/// cancelled.
pub fn reconcile_session(
    running: &mut RunningKeyboardSession,
    wanted: &Option<(KeyboardTarget, KeyboardDispatchPlan)>,
) -> (cancel: Option<HidppSessionId>)
    ensures
        final(running).model() == refreshed(old(running).model(), pair_model(*wanted)),
        cancel is Some <==> old(running).model().action(pair_model(*wanted))
            != ReconcileAction::Unchanged,
        cancel is Some ==> cancel->0.model() == old(running).model().id,
{
    let before: HidppSessionId = running.id.copied();
    let pair: Option<(&KeyboardTarget, &KeyboardDispatchPlan)> = match wanted {
        Some((target, plan)) => Some((target, plan)),
        None => None,
    };
    let action: ReconcileAction = running.reconcile(pair);
    if action == ReconcileAction::DispatchChanged {
        let config_key: String = running.dispatch.config_key.clone();
        running.rekey(config_key.as_str());
    }
    if action != ReconcileAction::Unchanged {
        Some(before)
    } else {
        None
    }
}

/// What the manager does at a tick.
#[derive(Debug)]
pub enum KeyboardTick {
    /// Nothing more.
    Wait,
    /// Cancel the presses of a session whose plan changed.
    Cancel(HidppSessionId),
    /// Get a receiver lease and retry the restore with this number.
    Restore(u64),
    /// Get a receiver lease and arm what is wanted.
    Arm,
}

/// The keyboard manager: the session it tracks, or the restore it owes.
#[derive(Debug)]
pub struct KeyboardManager {
    pub current: Option<RunningKeyboardSession>,
    /// The number of the restore that the last session left.
    pub pending_restore: Option<u64>,
}

impl KeyboardManager {
    pub fn new() -> (manager: KeyboardManager)
        ensures
            manager.current is None,
            manager.pending_restore is None,
    {
        KeyboardManager { current: None, pending_restore: None }
    }

    /// The tracked session's model.
    pub open spec fn session(self) -> Option<KeyboardSession> {
        match self.current {
            Some(session) => Some(session.model()),
            None => None,
        }
    }

    /// Take an input in. The session first adopts what is wanted now; whether the
    /// input is its own, and what is to be cancelled, come back. An input that is
    /// not its own is stale: what its session had under way is to be cancelled too.
    pub fn input(
        &mut self,
        from: &HidppSessionId,
        wanted: &Option<(KeyboardTarget, KeyboardDispatchPlan)>,
    ) -> (verdict: (bool, Option<HidppSessionId>))
        ensures
            final(self).pending_restore == old(self).pending_restore,
            match old(self).session() {
                Some(session) => {
                    &&& final(self).session() == Some(refreshed(session, pair_model(*wanted)))
                    &&& verdict.0 == (session.id.1 == from.epoch)
                    &&& verdict.1 is Some <==> session.action(pair_model(*wanted))
                        != ReconcileAction::Unchanged
                    &&& verdict.1 is Some ==> verdict.1->0.model() == session.id
                },
                None => final(self).session() is None && !verdict.0 && verdict.1 is None,
            },
    {
        match self.current.take() {
            Some(mut running) => {
                let cancel: Option<HidppSessionId> = reconcile_session(&mut running, wanted);
                let own: bool = running.owns(from);
                self.current = Some(running);
                (own, cancel)
            },
            None => (false, None),
        }
    }

    /// Take the end of a session in. The id under which its presses were
    /// dispatched comes back, and whether nobody asked it to end; `None` for a
    /// session that is not the tracked one.
    pub fn done(&mut self, from: &HidppSessionId, pending_restore: Option<u64>) -> (ended: Option<
        (HidppSessionId, bool),
    >)
        ensures
            match old(self).session() {
                Some(session) if session.id.1 == from.epoch => {
                    &&& ended is Some
                    &&& (ended->0).0.model() == session.id
                    &&& (ended->0).1 == session.active
                    &&& final(self).session() is None
                    &&& final(self).pending_restore == pending_restore
                },
                _ => ended is None && *final(self) == *old(self),
            },
    {
        let ended: Option<(HidppSessionId, bool)> = match &self.current {
            Some(running) => match running.completion(from) {
                CompletionAction::Remove { unexpected } => Some((running.id.copied(), unexpected)),
                CompletionAction::Ignore => None,
            },
            None => None,
        };
        if ended.is_some() {
            self.current = None;
            self.pending_restore = pending_restore;
        }
        ended
    }

    /// Decide what a tick calls for. A session that runs is brought in line with
    /// what is wanted. Otherwise an owed restore comes before any successor, even
    /// where nothing is wanted any more.
    pub fn manage(&mut self, wanted: &Option<(KeyboardTarget, KeyboardDispatchPlan)>) -> (tick:
        KeyboardTick)
        ensures
            final(self).pending_restore == old(self).pending_restore,
            match old(self).session() {
                Some(session) => {
                    &&& final(self).session() == Some(refreshed(session, pair_model(*wanted)))
                    &&& if session.action(pair_model(*wanted)) == ReconcileAction::Unchanged {
                        tick is Wait
                    } else {
                        tick is Cancel && tick->Cancel_0.model() == session.id
                    }
                },
                None => {
                    &&& final(self).session() is None
                    &&& tick == (if old(self).pending_restore is Some {
                        KeyboardTick::Restore(old(self).pending_restore->0)
                    } else if wanted is Some {
                        KeyboardTick::Arm
                    } else {
                        KeyboardTick::Wait
                    })
                },
            },
    {
        if let Some(mut running) = self.current.take() {
            let cancel: Option<HidppSessionId> = reconcile_session(&mut running, wanted);
            self.current = Some(running);
            return match cancel {
                Some(id) => KeyboardTick::Cancel(id),
                None => KeyboardTick::Wait,
            };
        }
        match self.pending_restore {
            Some(token) => KeyboardTick::Restore(token),
            None => if wanted.is_some() {
                KeyboardTick::Arm
            } else {
                KeyboardTick::Wait
            },
        }
    }

    /// Note how the restore went: done, or still pending under a number. Whether
    /// to go on and arm what is wanted, under the same lease, comes back: between
    /// a restore and its successor nobody else gets the receiver.
    pub fn restored(&mut self, pending: Option<u64>, wanted: bool) -> (arm: bool)
        ensures
            arm == (pending is None && wanted),
            final(self).pending_restore == pending,
            final(self).current == old(self).current,
    {
        self.pending_restore = pending;
        pending.is_none() && wanted
    }

    /// Track the session that was armed under an epoch. Its id comes back.
    pub fn armed(&mut self, target: KeyboardTarget, plan: KeyboardDispatchPlan, epoch: u64) -> (id:
        HidppSessionId)
        ensures
            id.model() == (plan.config_key@, epoch),
            final(self).pending_restore == old(self).pending_restore,
            final(self).session() == Some(
                SessionModel {
                    id: (plan.config_key@, epoch),
                    target: target.model(),
                    dispatch: plan.model(),
                    active: true,
                },
            ),
    {
        let id: HidppSessionId = HidppSessionId::with_epoch(plan.config_key.as_str(), epoch);
        self.current = Some(CaptureSession::active(id.copied(), target, plan));
        id
    }
}

// ── Laws ────────────────────────────────────────────────────────────────────

/// In the profile mode an M key never carries a binding of its own: it selects.
pub proof fn m_keys_select_profiles(
    button: ButtonId,
    plan: KeyboardPlanModel,
    profile: GKeyProfile,
)
    requires
        plan.gaming_key_mode == GamingKeyMode::Profiles,
        m_key(button) is Some,
    ensures
        key_output(CapturedInput::ButtonDown(button), plan, profile)
            == KeyboardOutput::SelectProfile(m_key(button)->0),
{
}

/// As nine buttons, no key depends on the active profile.
pub proof fn nine_buttons_ignore_the_profile(
    button: ButtonId,
    plan: KeyboardPlanModel,
    a: GKeyProfile,
    b: GKeyProfile,
)
    requires
        plan.gaming_key_mode == GamingKeyMode::NineButtons,
    ensures
        key_binding(plan, a, button) == key_binding(plan, b, button),
        selects(button, plan) is None,
{
}

/// The profile matters to the G keys only.
pub proof fn only_g_keys_follow_the_profile(
    button: ButtonId,
    plan: KeyboardPlanModel,
    a: GKeyProfile,
    b: GKeyProfile,
)
    requires
        !is_g_key(button),
    ensures
        key_binding(plan, a, button) == key_binding(plan, b, button),
{
}

/// What the plan's maps hold for a key that selects no profile is what its press and its
/// pulse carry. As one of nine buttons, a G, M or MR key has the binding in the nine
/// buttons' own map. In the profile mode a G key has the binding in the active profile's
/// map. Every other key has the binding in the plain map. A key that its map does not
/// hold carries none.
pub proof fn keys_carry_the_binding_in_force(
    button: ButtonId,
    plan: KeyboardPlanModel,
    profile: GKeyProfile,
)
    ensures
        ({
            let g_key = button == ButtonId::KeyG1 || button == ButtonId::KeyG2 || button
                == ButtonId::KeyG3 || button == ButtonId::KeyG4 || button == ButtonId::KeyG5;
            let m_key = button == ButtonId::KeyM1 || button == ButtonId::KeyM2 || button
                == ButtonId::KeyM3;
            let nine = plan.gaming_key_mode == GamingKeyMode::NineButtons;
            let down = key_output(CapturedInput::ButtonDown(button), plan, profile);
            let pulse = key_output(CapturedInput::ButtonPulse(button), plan, profile);
            let map = if nine && (g_key || m_key || button == ButtonId::KeyMr) {
                plan.gaming_button_bindings
            } else if g_key {
                if plan.g_key_profiles.dom().contains(profile) {
                    plan.g_key_profiles[profile]
                } else {
                    Map::empty()
                }
            } else {
                plan.bindings
            };
            &&& nine || !m_key ==> {
                &&& map.dom().contains(button) ==> down == (KeyboardOutput::ButtonDown {
                    button,
                    binding: Some(map[button]),
                })
                &&& !map.dom().contains(button) ==> down == (KeyboardOutput::ButtonDown {
                    button,
                    binding: None,
                })
            }
            &&& map.dom().contains(button) ==> pulse == (KeyboardOutput::ButtonPulse {
                button,
                binding: Some(map[button]),
            })
            &&& !map.dom().contains(button) ==> pulse == (KeyboardOutput::ButtonPulse {
                button,
                binding: None,
            })
        }),
{
}

/// A bound key that selects no profile never comes out as an unbound press: in each of
/// the three maps that can hold it.
pub proof fn bound_keys_press_their_binding(
    button: ButtonId,
    binding: Binding,
    plan: KeyboardPlanModel,
    profile: GKeyProfile,
)
    requires
        plan.gaming_key_mode == GamingKeyMode::NineButtons || (button != ButtonId::KeyM1 && button
            != ButtonId::KeyM2 && button != ButtonId::KeyM3),
        plan.bindings.dom().contains(button) && plan.bindings[button] == binding,
        plan.gaming_button_bindings.dom().contains(button) && plan.gaming_button_bindings[button]
            == binding,
        plan.g_key_profiles.dom().contains(profile),
        plan.g_key_profiles[profile].dom().contains(button)
            && plan.g_key_profiles[profile][button] == binding,
    ensures
        key_output(CapturedInput::ButtonDown(button), plan, profile) == (
        KeyboardOutput::ButtonDown { button, binding: Some(binding) }),
        key_output(CapturedInput::ButtonPulse(button), plan, profile) == (
        KeyboardOutput::ButtonPulse { button, binding: Some(binding) }),
{
}

/// Each M key selects the profile of its own number in the profile mode, and no other
/// key selects one in any mode.
pub proof fn each_m_key_selects_its_own_profile(plan: KeyboardPlanModel, profile: GKeyProfile, button: ButtonId)
    ensures
        plan.gaming_key_mode == GamingKeyMode::Profiles ==> {
            &&& key_output(CapturedInput::ButtonDown(ButtonId::KeyM1), plan, profile)
                == KeyboardOutput::SelectProfile(GKeyProfile::M1)
            &&& key_output(CapturedInput::ButtonDown(ButtonId::KeyM2), plan, profile)
                == KeyboardOutput::SelectProfile(GKeyProfile::M2)
            &&& key_output(CapturedInput::ButtonDown(ButtonId::KeyM3), plan, profile)
                == KeyboardOutput::SelectProfile(GKeyProfile::M3)
        },
        key_output(CapturedInput::ButtonDown(button), plan, profile) is SelectProfile ==> {
            &&& plan.gaming_key_mode == GamingKeyMode::Profiles
            &&& button == ButtonId::KeyM1 || button == ButtonId::KeyM2 || button == ButtonId::KeyM3
        },
{
}

/// Every release comes out as that key's release, and gestures and wheels come to
/// nothing.
pub proof fn every_press_has_its_release(
    input: CapturedInput,
    button: ButtonId,
    plan: KeyboardPlanModel,
    profile: GKeyProfile,
)
    ensures
        key_output(CapturedInput::ButtonUp(button), plan, profile) == (KeyboardOutput::ButtonUp {
            button,
        }),
        key_output(input, plan, profile) == KeyboardOutput::Nothing <==> (input is Gesture
            || input is GestureMotion || input is Scroll || input is ThumbwheelDirection),
{
}

/// While the receiver is wanted elsewhere, and while no keyboard is published, no capture
/// is wanted. Otherwise what is wanted is the published keyboard: its route and its
/// controls to capture, and its maps to dispatch by.
pub proof fn the_published_keyboard_is_wanted(requested: bool, spec: KeyboardSpec)
    ensures
        wanted_of(true, Some(&spec)) is None,
        wanted_of(requested, None) is None,
        wanted_of(false, Some(&spec)) matches Some((target, plan)) && {
            &&& target.route == spec.route.model()
            &&& target.wanted == spec.wanted@
            &&& target.wanted_g_keys == spec.wanted_g_keys@
            &&& target.wanted_aux_keys == spec.wanted_aux_keys@
            &&& plan.config_key == spec.config_key@
            &&& plan.bindings == spec.bindings@
            &&& plan.g_key_profiles == spec.g_key_profiles@
            &&& plan.gaming_key_mode == spec.gaming_key_mode
            &&& plan.gaming_button_bindings == spec.gaming_button_bindings@
        },
{
}

/// A change of bindings alone keeps the hardware session: it goes on under its epoch,
/// with the new plan and the new plan's device key. Another target retires it, with its
/// plan as it was.
pub proof fn rebinding_keeps_the_session(
    session: KeyboardSession,
    target: KeyboardTargetModel,
    plan: KeyboardPlanModel,
)
    requires
        session.active,
    ensures
        target == session.target && plan != session.dispatch ==> {
            let next = refreshed(session, Some((target, plan)));
            next.active && next.dispatch == plan && next.target == target && next.id == (
                plan.config_key,
                session.id.1,
            )
        },
        target == session.target && plan == session.dispatch ==> refreshed(
            session,
            Some((target, plan)),
        ) == session,
        target != session.target ==> {
            let next = refreshed(session, Some((target, plan)));
            !next.active && next.dispatch == session.dispatch && next.target == session.target
                && next.id == session.id
        },
        ({
            let next = refreshed(session, None);
            !next.active && next.dispatch == session.dispatch && next.target == session.target
                && next.id == session.id
        }),
{
}

/// A wanted capture is seen by its target and its plan.
pub proof fn wanted_captures_are_seen_whole(target: KeyboardTarget, plan: KeyboardDispatchPlan)
    ensures
        pair_model(Some((target, plan))) matches Some((seen, by)) && {
            &&& seen.route == target.route.model()
            &&& seen.wanted == target.wanted@
            &&& seen.wanted_g_keys == target.wanted_g_keys@
            &&& seen.wanted_aux_keys == target.wanted_aux_keys@
            &&& by.config_key == plan.config_key@
            &&& by.bindings == plan.bindings@
            &&& by.g_key_profiles == plan.g_key_profiles@
            &&& by.gaming_key_mode == plan.gaming_key_mode
            &&& by.gaming_button_bindings == plan.gaming_button_bindings@
        },
        pair_model(None) is None,
{
}

} // verus!
