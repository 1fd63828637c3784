//! What is captured from a device, and what its inputs do.
use vstd::prelude::*;

use crate::binding::{Action, Binding, ButtonId, GestureDirection, ThumbwheelSensitivity};
use crate::route::{DeviceRoute, PhysicalDeviceKey, RouteModel};
use crate::value::{Assoc, Value};

verus! {

/// What the firmware is asked to divert.
#[derive(Debug)]
pub struct CaptureSpec {
    /// Controls whose motion is diverted too, with the buttons they stand for.
    pub divert_gesture_buttons: Vec<(u16, ButtonId)>,
    /// Controls of which only the edges are diverted.
    pub divert_buttons: Vec<(u16, ButtonId)>,
    pub divert_thumbwheel: bool,
}

/// What a [`CaptureSpec`] holds.
pub struct SpecModel {
    pub divert_gesture_buttons: Seq<(u16, ButtonId)>,
    pub divert_buttons: Seq<(u16, ButtonId)>,
    pub divert_thumbwheel: bool,
}

impl Value for CaptureSpec {
    type Model = SpecModel;

    open spec fn model(&self) -> SpecModel {
        SpecModel {
            divert_gesture_buttons: self.divert_gesture_buttons.model(),
            divert_buttons: self.divert_buttons.model(),
            divert_thumbwheel: self.divert_thumbwheel,
        }
    }

    fn same(&self, other: &CaptureSpec) -> (same: bool) {
        self.divert_gesture_buttons.same(&other.divert_gesture_buttons) && self.divert_buttons.same(
            &other.divert_buttons,
        ) && self.divert_thumbwheel == other.divert_thumbwheel
    }

    fn copied(&self) -> (copy: CaptureSpec) {
        CaptureSpec {
            divert_gesture_buttons: self.divert_gesture_buttons.copied(),
            divert_buttons: self.divert_buttons.copied(),
            divert_thumbwheel: self.divert_thumbwheel,
        }
    }
}

/// The identity of a capture: a session with another one is another session.
#[derive(Debug)]
pub struct CaptureTarget {
    pub physical_key: PhysicalDeviceKey,
    pub route: DeviceRoute,
    pub spec: CaptureSpec,
    /// Moves when the hardware has to be armed anew.
    pub rearm_generation: u64,
}

/// What a [`CaptureTarget`] holds.
pub struct TargetModel {
    pub physical_key: Seq<char>,
    pub route: RouteModel,
    pub spec: SpecModel,
    pub rearm_generation: u64,
}

impl Value for CaptureTarget {
    type Model = TargetModel;

    open spec fn model(&self) -> TargetModel {
        TargetModel {
            physical_key: self.physical_key.model(),
            route: self.route.model(),
            spec: self.spec.model(),
            rearm_generation: self.rearm_generation,
        }
    }

    fn same(&self, other: &CaptureTarget) -> (same: bool) {
        self.physical_key.same(&other.physical_key) && self.route.same(&other.route)
            && self.spec.same(&other.spec) && self.rearm_generation == other.rearm_generation
    }

    fn copied(&self) -> (copy: CaptureTarget) {
        CaptureTarget {
            physical_key: self.physical_key.copied(),
            route: self.route.copied(),
            spec: self.spec.copied(),
            rearm_generation: self.rearm_generation,
        }
    }
}

/// What the inputs of one device do.
#[derive(Debug)]
pub struct DispatchPlan {
    /// Configuration namespace of the device.
    pub config_key: String,
    pub bindings: Assoc<ButtonId, Binding>,
    /// Controls with a click and swipe map of their own.
    pub gesture_bindings: Assoc<ButtonId, Assoc<GestureDirection, Action>>,
    /// Side buttons with such a map.
    pub side_gesture_bindings: Assoc<ButtonId, Assoc<GestureDirection, Action>>,
    pub thumbwheel_sensitivity: ThumbwheelSensitivity,
    /// Controls that pan or zoom while they are held.
    pub hold_bindings: Assoc<ButtonId, Action>,
    /// Counts per inch of the sensor, where known.
    pub sensor_dpi: Option<u16>,
    /// Percent of the default zoom rate.
    pub zoom_sensitivity: u16,
    pub invert_pan: bool,
}

/// What a [`DispatchPlan`] holds.
pub struct DispatchModel {
    pub config_key: Seq<char>,
    pub bindings: Map<ButtonId, Binding>,
    pub gesture_bindings: Map<ButtonId, Map<GestureDirection, Action>>,
    pub side_gesture_bindings: Map<ButtonId, Map<GestureDirection, Action>>,
    pub thumbwheel_sensitivity: ThumbwheelSensitivity,
    pub hold_bindings: Map<ButtonId, Action>,
    pub sensor_dpi: Option<u16>,
    pub zoom_sensitivity: u16,
    pub invert_pan: bool,
}

impl Value for DispatchPlan {
    type Model = DispatchModel;

    open spec fn model(&self) -> DispatchModel {
        DispatchModel {
            config_key: self.config_key@,
            bindings: self.bindings@,
            gesture_bindings: self.gesture_bindings@,
            side_gesture_bindings: self.side_gesture_bindings@,
            thumbwheel_sensitivity: self.thumbwheel_sensitivity,
            hold_bindings: self.hold_bindings@,
            sensor_dpi: self.sensor_dpi,
            zoom_sensitivity: self.zoom_sensitivity,
            invert_pan: self.invert_pan,
        }
    }

    fn same(&self, other: &DispatchPlan) -> (same: bool) {
        self.config_key == other.config_key && self.bindings.same(&other.bindings)
            && self.gesture_bindings.same(&other.gesture_bindings)
            && self.side_gesture_bindings.same(&other.side_gesture_bindings)
            && self.thumbwheel_sensitivity == other.thumbwheel_sensitivity
            && self.hold_bindings.same(&other.hold_bindings) && self.sensor_dpi.same(
            &other.sensor_dpi,
        ) && self.zoom_sensitivity == other.zoom_sensitivity && self.invert_pan == other.invert_pan
    }

    fn copied(&self) -> (copy: DispatchPlan) {
        DispatchPlan {
            config_key: self.config_key.clone(),
            bindings: self.bindings.copied(),
            gesture_bindings: self.gesture_bindings.copied(),
            side_gesture_bindings: self.side_gesture_bindings.copied(),
            thumbwheel_sensitivity: self.thumbwheel_sensitivity,
            hold_bindings: self.hold_bindings.copied(),
            sensor_dpi: self.sensor_dpi,
            zoom_sensitivity: self.zoom_sensitivity,
            invert_pan: self.invert_pan,
        }
    }
}

impl DispatchPlan {
    /// A plan without any binding.
    pub fn unbound(config_key: &str) -> (plan: DispatchPlan)
        ensures
            plan.model() == (DispatchModel {
                config_key: config_key@,
                bindings: Map::empty(),
                gesture_bindings: Map::empty(),
                side_gesture_bindings: Map::empty(),
                thumbwheel_sensitivity: ThumbwheelSensitivity { percent: 100, threshold: 12 },
                hold_bindings: Map::empty(),
                sensor_dpi: None,
                zoom_sensitivity: 100,
                invert_pan: false,
            }),
    {
        DispatchPlan {
            config_key: config_key.to_owned(),
            bindings: Assoc::new(),
            gesture_bindings: Assoc::new(),
            side_gesture_bindings: Assoc::new(),
            thumbwheel_sensitivity: ThumbwheelSensitivity { percent: 100, threshold: 12 },
            hold_bindings: Assoc::new(),
            sensor_dpi: None,
            zoom_sensitivity: 100,
            invert_pan: false,
        }
    }
}

/// What is published for one device.
#[derive(Debug)]
pub struct DeviceCapturePlan {
    pub target: CaptureTarget,
    pub dispatch: DispatchPlan,
}

impl Value for DeviceCapturePlan {
    type Model = (TargetModel, DispatchModel);

    open spec fn model(&self) -> (TargetModel, DispatchModel) {
        (self.target.model(), self.dispatch.model())
    }

    fn same(&self, other: &DeviceCapturePlan) -> (same: bool) {
        self.target.same(&other.target) && self.dispatch.same(&other.dispatch)
    }

    fn copied(&self) -> (copy: DeviceCapturePlan) {
        DeviceCapturePlan { target: self.target.copied(), dispatch: self.dispatch.copied() }
    }
}

/// The first plan for a physical device.
pub open spec fn plan_for(plans: Seq<DeviceCapturePlan>, key: Seq<char>) -> Option<
    (TargetModel, DispatchModel),
>
    decreases plans.len(),
{
    if plans.len() == 0 {
        None
    } else if plans[0].target.physical_key.model() == key {
        Some(plans[0].model())
    } else {
        plan_for(plans.skip(1), key)
    }
}

/// Where the first plan for a physical device stands.
pub fn find_plan(plans: &Vec<DeviceCapturePlan>, key: &PhysicalDeviceKey) -> (at: Option<usize>)
    ensures
        at is None ==> plan_for(plans@, key.model()) is None,
        at is Some ==> at->0 < plans@.len() && plan_for(plans@, key.model()) == Some(
            plans@[at->0 as int].model(),
        ),
{
    let mut i: usize = 0;
    assert(plans@.skip(0) =~= plans@);
    while i < plans.len()
        invariant
            i <= plans.len(),
            plan_for(plans@, key.model()) == plan_for(plans@.skip(i as int), key.model()),
        decreases plans.len() - i,
    {
        assert(plans@.skip(i as int)[0] == plans@[i as int]);
        if plans[i].target.physical_key.same(key) {
            return Some(i);
        }
        assert(plans@.skip(i as int).skip(1) =~= plans@.skip(i + 1));
        i = i + 1;
    }
    None
}

// ── Laws ────────────────────────────────────────────────────────────────────

/// A device has the plan that stands first under its key, and none where no plan is
/// under it.
pub proof fn a_device_has_its_first_plan(plans: Seq<DeviceCapturePlan>, key: Seq<char>, at: int)
    ensures
        0 <= at < plans.len() && plans[at].target.physical_key.model() == key && (forall|i: int|
            0 <= i < at ==> (#[trigger] plans[i]).target.physical_key.model() != key) ==> plan_for(
            plans,
            key,
        ) == Some((plans[at].target.model(), plans[at].dispatch.model())),
        (forall|i: int|
            0 <= i < plans.len() ==> (#[trigger] plans[i]).target.physical_key.model() != key)
            ==> plan_for(plans, key) is None,
    decreases plans.len(),
{
    if plans.len() > 0 {
        let rest = plans.skip(1);
        a_device_has_its_first_plan(rest, key, at - 1);
        assert(forall|i: int| 0 <= i < rest.len() ==> #[trigger] rest[i] == plans[i + 1]);
    }
}

} // verus!
