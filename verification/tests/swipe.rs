use openlogi_agent::binding::{Action, ButtonId};
use openlogi_agent::swipe::{
    commit_side, frame_centroid, pair_sibling, swipe_consumer, ActiveSwipe, GestureAxis,
    GestureMotion, GesturePhase, Side, SpreadBank, SwipeEnd, SwipeOutput, SwipeStreamPlan,
    TouchContact, TouchFrame, HORIZONTAL_PAD_TRAVEL,
};
use openlogi_agent::value::Assoc;

fn frame(contacts: &[(u8, i32, i32)], spread_nm: i64) -> TouchFrame {
    TouchFrame {
        contacts: contacts
            .iter()
            .map(|&(id, x_um, y_um)| TouchContact { id, x_um, y_um })
            .collect(),
        spread_nm,
    }
}

fn desktops() -> Assoc<ButtonId, Action> {
    let mut bindings = Assoc::new();
    bindings.insert(
        ButtonId::TouchpadThreeFingerSwipeLeft,
        Action::PreviousDesktop,
    );
    bindings.insert(ButtonId::TouchpadThreeFingerSwipeRight, Action::NextDesktop);
    bindings
}

fn desktop_plan() -> SwipeStreamPlan {
    SwipeStreamPlan::for_trigger(ButtonId::TouchpadThreeFingerSwipeRight, &desktops())
        .expect("both sides stream on one animation")
}

#[test]
fn actions_have_animations_and_sides() {
    assert_eq!(
        swipe_consumer(&Action::NextDesktop),
        Some((GestureMotion::Horizontal, 1))
    );
    assert_eq!(
        swipe_consumer(&Action::LaunchpadShow),
        Some((GestureMotion::Pinch, -1))
    );
    assert_eq!(swipe_consumer(&Action::Copy), None);
    assert_eq!(commit_side(1), Side::Positive);
    assert_eq!(commit_side(-1), Side::Negative);
    assert_eq!(Side::Positive.opposite(), Side::Negative);
    assert_eq!(
        pair_sibling(ButtonId::TouchpadThreeFingerSwipeRight),
        Some((
            ButtonId::TouchpadThreeFingerSwipeLeft,
            GestureAxis::Horizontal,
            Side::Positive
        ))
    );
    assert_eq!(pair_sibling(ButtonId::Back), None);
}

#[test]
fn a_pair_streams_only_on_one_animation() {
    let plan = desktop_plan();
    assert_eq!(plan.motion, GestureMotion::Horizontal);
    assert!(!plan.flipped);
    assert_eq!(plan.unit(), HORIZONTAL_PAD_TRAVEL);

    let mut mirrored = Assoc::new();
    mirrored.insert(ButtonId::TouchpadThreeFingerSwipeLeft, Action::NextDesktop);
    let plan = SwipeStreamPlan::for_trigger(ButtonId::TouchpadThreeFingerSwipeLeft, &mirrored)
        .expect("a single bound side streams");
    assert!(plan.flipped);

    let mut mixed = desktops();
    mixed.insert(ButtonId::TouchpadThreeFingerSwipeLeft, Action::Copy);
    assert!(
        SwipeStreamPlan::for_trigger(ButtonId::TouchpadThreeFingerSwipeRight, &mixed).is_none()
    );
    let unbound = Assoc::new();
    assert!(
        SwipeStreamPlan::for_trigger(ButtonId::TouchpadThreeFingerSwipeRight, &unbound).is_none()
    );
}

#[test]
fn the_centroid_is_the_mean_position() {
    let contacts = frame(&[(1, 0, 10), (2, 100, 20), (3, 200, 30)], 0).contacts;
    assert_eq!(frame_centroid(&contacts), (100, 20));
}

#[test]
fn travel_becomes_progress_and_release_commits() {
    let start = frame(&[(1, 0, 0), (2, 100, 0)], 0);
    let (mut swipe, opened) = ActiveSwipe::new(
        &start,
        desktop_plan(),
        ButtonId::TouchpadThreeFingerSwipeRight,
        0,
    );
    assert_eq!(opened, None);
    assert_eq!(
        swipe.advance(&frame(&[(1, 10, 0), (2, 110, 0)], 0)),
        Some(SwipeOutput::Begin {
            motion: GestureMotion::Horizontal,
            progress: 10_000
        })
    );
    assert_eq!(
        swipe.advance(&frame(&[(1, 4, 0), (2, 104, 0)], 0)),
        Some(SwipeOutput::Advance {
            motion: GestureMotion::Horizontal,
            delta: -6_000
        }),
        "reversing retracts progress"
    );
    assert_eq!(
        swipe.advance(&frame(&[(1, 90, 0), (3, 190, 0)], 0)),
        None,
        "other fingers only move the anchor"
    );
    let (output, binding) = swipe.release();
    assert_eq!(
        output,
        SwipeOutput::Finish {
            motion: GestureMotion::Horizontal,
            end: SwipeEnd::AtRelease
        }
    );
    assert_eq!(binding, None, "the animation itself commits");
}

#[test]
fn an_unbound_side_holds_progress_at_zero() {
    let mut right_only = Assoc::new();
    right_only.insert(ButtonId::TouchpadThreeFingerSwipeRight, Action::NextDesktop);
    let plan =
        SwipeStreamPlan::for_trigger(ButtonId::TouchpadThreeFingerSwipeRight, &right_only).unwrap();
    let (mut swipe, _) = ActiveSwipe::new(
        &frame(&[(1, 0, 0)], 0),
        plan,
        ButtonId::TouchpadThreeFingerSwipeRight,
        0,
    );
    assert_eq!(swipe.advance(&frame(&[(1, -50, 0)], 0)), None);
    assert_eq!(swipe.progress, 0);
    let (output, binding) = swipe.release();
    assert_eq!(output, SwipeOutput::Idle);
    assert_eq!(
        binding,
        Some((
            ButtonId::TouchpadThreeFingerSwipeRight,
            Action::NextDesktop
        )),
        "a stream that never opened fires its binding"
    );
}

#[test]
fn termination_cancels_an_open_animation() {
    let (mut swipe, _) = ActiveSwipe::new(
        &frame(&[(1, 0, 0)], 0),
        desktop_plan(),
        ButtonId::TouchpadThreeFingerSwipeRight,
        0,
    );
    swipe.advance(&frame(&[(1, 10, 0)], 0));
    assert_eq!(
        swipe.terminate(),
        SwipeOutput::Finish {
            motion: GestureMotion::Horizontal,
            end: SwipeEnd::Cancelled
        }
    );
    assert_eq!(SwipeEnd::Cancelled.as_gesture_phase(), GesturePhase::Cancel);
    assert_eq!(SwipeEnd::AtRelease.as_gesture_phase(), GesturePhase::End);
}

#[test]
fn a_stroke_banks_its_spread_for_the_stream() {
    let mut bank = SpreadBank::default();
    bank.fold(&frame(&[(1, 0, 0), (2, 0, 0)], 100));
    bank.fold(&frame(&[(1, 0, 0), (2, 0, 0)], 350));
    assert_eq!(bank.banked_nm, 250);
    bank.fold(&frame(&[(1, 0, 0), (3, 0, 0)], 9_000));
    assert_eq!(bank.banked_nm, 250, "a finger that lands fakes no travel");
    assert_eq!(bank.take(), 250);
    assert_eq!(bank.take(), 0);
    bank.fold(&frame(&[(1, 0, 0)], 7));
    bank.reset();
    assert!(bank.anchor.is_none());
}
