//! Buttons, the actions bound to them, and the settings that scale them.
use vstd::prelude::*;

use crate::value::Value;

verus! {

/// A physical control, or one direction of a gesture, that can carry a binding.
#[derive(Clone, Copy, Debug, PartialEq, Eq, Structural)]
pub enum ButtonId {
    MiddleClick,
    Back,
    Forward,
    DpiToggle,
    GestureButton,
    ThumbwheelScrollUp,
    ThumbwheelScrollDown,
    KeySearch,
    KeyG1,
    KeyG2,
    KeyG3,
    KeyG4,
    KeyG5,
    KeyM1,
    KeyM2,
    KeyM3,
    KeyMr,
    TouchpadThreeFingerSwipeLeft,
    TouchpadThreeFingerSwipeRight,
    TouchpadThreeFingerSwipeUp,
    TouchpadThreeFingerSwipeDown,
    TouchpadFourFingerSwipeLeft,
    TouchpadFourFingerSwipeRight,
    TouchpadFourFingerSwipeUp,
    TouchpadFourFingerSwipeDown,
    TouchpadTwoFingerPinchIn,
    TouchpadTwoFingerPinchOut,
    TouchpadFourFingerPinchIn,
    TouchpadFourFingerPinchOut,
    /// Any other control, by its number.
    Other(u16),
}

impl Value for ButtonId {
    type Model = ButtonId;

    open spec fn model(&self) -> ButtonId {
        *self
    }

    fn same(&self, other: &ButtonId) -> (same: bool) {
        *self == *other
    }

    fn copied(&self) -> (copy: ButtonId) {
        *self
    }
}

/// The direction in which a gesture was resolved.
#[derive(Clone, Copy, Debug, PartialEq, Eq, Structural)]
pub enum GestureDirection {
    Left,
    Right,
    Up,
    Down,
    Click,
}

impl Value for GestureDirection {
    type Model = GestureDirection;

    open spec fn model(&self) -> GestureDirection {
        *self
    }

    fn same(&self, other: &GestureDirection) -> (same: bool) {
        *self == *other
    }

    fn copied(&self) -> (copy: GestureDirection) {
        *self
    }
}

/// What a control does.
#[derive(Clone, Copy, Debug, PartialEq, Eq, Structural)]
pub enum Action {
    Nothing,
    ScrollUp,
    ScrollDown,
    HorizontalScrollRight,
    HorizontalScrollLeft,
    VolumeUp,
    VolumeDown,
    NextTab,
    Copy,
    Paste,
    MissionControl,
    AppExpose,
    ShowDesktop,
    LaunchpadShow,
    NextDesktop,
    PreviousDesktop,
    ZoomIn,
    ZoomOut,
    /// Pan while the control is held.
    Pan,
    /// Zoom while the control is held.
    Zoom,
    /// Any other action, by its number.
    Other(u32),
}

impl Value for Action {
    type Model = Action;

    open spec fn model(&self) -> Action {
        *self
    }

    fn same(&self, other: &Action) -> (same: bool) {
        *self == *other
    }

    fn copied(&self) -> (copy: Action) {
        *self
    }
}

/// What is bound to a control: one action, or one for a click and another one
/// for holding it past a threshold.
#[derive(Clone, Copy, Debug, PartialEq, Eq, Structural)]
pub enum Binding {
    Single(Action),
    Threshold { click: Action, hold: Action },
}

impl Binding {
    pub open spec fn on_click(self) -> Action {
        match self {
            Binding::Single(action) => action,
            Binding::Threshold { click, .. } => click,
        }
    }

    /// The action of a plain click.
    pub fn click_action(&self) -> (action: Action)
        ensures
            action == self.on_click(),
    {
        match self {
            Binding::Single(action) => *action,
            Binding::Threshold { click, .. } => *click,
        }
    }
}

impl Value for Binding {
    type Model = Binding;

    open spec fn model(&self) -> Binding {
        *self
    }

    fn same(&self, other: &Binding) -> (same: bool) {
        *self == *other
    }

    fn copied(&self) -> (copy: Binding) {
        *self
    }
}

/// The action of a thumb-wheel direction that the user left unbound.
pub open spec fn wheel_default(button: ButtonId) -> Action {
    match button {
        ButtonId::ThumbwheelScrollUp => Action::HorizontalScrollRight,
        ButtonId::ThumbwheelScrollDown => Action::HorizontalScrollLeft,
        _ => Action::Nothing,
    }
}

/// The action of a control that the user left unbound: the thumb wheel scrolls,
/// the others do nothing.
pub fn default_binding(button: ButtonId) -> (action: Action)
    ensures
        action == wheel_default(button),
{
    match button {
        ButtonId::ThumbwheelScrollUp => Action::HorizontalScrollRight,
        ButtonId::ThumbwheelScrollDown => Action::HorizontalScrollLeft,
        _ => Action::Nothing,
    }
}

/// How far the thumb wheel turns for one discrete action, and how much it
/// scrolls, in percent of the native amount.
#[derive(Clone, Copy, Debug, PartialEq, Eq, Structural)]
pub struct ThumbwheelSensitivity {
    pub percent: u16,
    /// Increments for one discrete action.
    pub threshold: i32,
}

impl ThumbwheelSensitivity {
    /// Whether an action takes at least one increment.
    pub open spec fn wf(self) -> bool {
        self.threshold >= 1
    }

    pub fn action_threshold(&self) -> (threshold: i32)
        ensures
            threshold == self.threshold,
    {
        self.threshold
    }
}

impl Default for ThumbwheelSensitivity {
    fn default() -> (sensitivity: ThumbwheelSensitivity)
        ensures
            sensitivity == (ThumbwheelSensitivity { percent: 100, threshold: 12 }),
            sensitivity.wf(),
    {
        ThumbwheelSensitivity { percent: 100, threshold: 12 }
    }
}

impl Value for ThumbwheelSensitivity {
    type Model = ThumbwheelSensitivity;

    open spec fn model(&self) -> ThumbwheelSensitivity {
        *self
    }

    fn same(&self, other: &ThumbwheelSensitivity) -> (same: bool) {
        *self == *other
    }

    fn copied(&self) -> (copy: ThumbwheelSensitivity) {
        *self
    }
}

// ── Laws ────────────────────────────────────────────────────────────────────

/// A click performs a single binding's one action, and of a binding with a threshold the
/// action of the click, never that of the hold.
pub proof fn clicks_perform_the_click_action(action: Action, hold: Action)
    ensures
        Binding::Single(action).on_click() == action,
        (Binding::Threshold { click: action, hold }).on_click() == action,
{
}

/// An unbound thumb wheel scrolls sideways, right as it is turned up and left as it is
/// turned down; every other control that is left unbound does nothing.
pub proof fn only_the_wheel_has_defaults(button: ButtonId)
    ensures
        wheel_default(ButtonId::ThumbwheelScrollUp) == Action::HorizontalScrollRight,
        wheel_default(ButtonId::ThumbwheelScrollDown) == Action::HorizontalScrollLeft,
        button != ButtonId::ThumbwheelScrollUp && button != ButtonId::ThumbwheelScrollDown
            ==> wheel_default(button) == Action::Nothing,
{
}

} // verus!
