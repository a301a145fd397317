//! Tests for the mouse-drag tracking.

use bunny::orbit::{
    ElementState, Event, MouseButton, MouseTracker, DRAG_SENSITIVITY_DENOM,
    DRAG_SENSITIVITY_NUMER,
};

#[test]
fn idle_tracker_reports_no_drag() {
    let t = MouseTracker::new();
    assert_eq!(t.drag_amount(), (0, 0));
}

#[test]
fn drag_reflects_the_last_two_positions() {
    // Press, then move to (10, 10) and (15, 12): the delta is (5, 2) scaled
    // by the sensitivity, not the delta since the press.
    let mut t = MouseTracker::new();
    t.record_event(&Event::MouseInput(ElementState::Pressed, MouseButton::Left));
    t.record_event(&Event::MouseMoved(10, 10));
    t.record_event(&Event::MouseMoved(15, 12));
    let (dx, dy) = t.drag_amount();
    assert_eq!((dx, dy), (5 * DRAG_SENSITIVITY_NUMER, 2 * DRAG_SENSITIVITY_NUMER));
    // On the renderer's scale that is 0.05 and 0.02.
    assert_eq!(dx as f32 / DRAG_SENSITIVITY_DENOM as f32, 0.05f32);
    assert_eq!(dy as f32 / DRAG_SENSITIVITY_DENOM as f32, 0.02f32);
}

#[test]
fn first_move_of_a_drag_is_the_origin() {
    let mut t = MouseTracker::new();
    t.record_event(&Event::MouseInput(ElementState::Pressed, MouseButton::Left));
    t.record_event(&Event::MouseMoved(10, 10));
    assert_eq!(t.drag_amount(), (0, 0));
}

#[test]
fn idle_moves_do_not_seed_a_drag() {
    // Moves before the press are ignored: a press with no move after it
    // reads as no drag at all.
    let mut t = MouseTracker::new();
    t.record_event(&Event::MouseMoved(10, 10));
    t.record_event(&Event::MouseMoved(15, 12));
    assert_eq!(t.drag_amount(), (0, 0));
    t.record_event(&Event::MouseInput(ElementState::Pressed, MouseButton::Left));
    assert_eq!(t.drag_amount(), (0, 0));
}

#[test]
fn release_freezes_the_drag() {
    let mut t = MouseTracker::new();
    t.record_event(&Event::MouseInput(ElementState::Pressed, MouseButton::Left));
    t.record_event(&Event::MouseMoved(10, 10));
    t.record_event(&Event::MouseInput(ElementState::Released, MouseButton::Left));
    assert_eq!(t.drag_amount(), (0, 0));
}

#[test]
fn release_resets_the_pointer_pair() {
    // A new press after a finished drag must not read the old drag's
    // positions.
    let mut t = MouseTracker::new();
    t.record_event(&Event::MouseInput(ElementState::Pressed, MouseButton::Left));
    t.record_event(&Event::MouseMoved(10, 10));
    t.record_event(&Event::MouseMoved(15, 12));
    t.record_event(&Event::MouseInput(ElementState::Released, MouseButton::Left));
    t.record_event(&Event::MouseInput(ElementState::Pressed, MouseButton::Left));
    assert_eq!(t.drag_amount(), (0, 0));
}

#[test]
fn other_buttons_and_events_are_ignored() {
    let mut t = MouseTracker::new();
    t.record_event(&Event::MouseInput(ElementState::Pressed, MouseButton::Right));
    t.record_event(&Event::MouseInput(ElementState::Pressed, MouseButton::Middle));
    t.record_event(&Event::Closed);
    assert_eq!(t.drag_amount(), (0, 0));
    t.record_event(&Event::MouseInput(ElementState::Pressed, MouseButton::Left));
    t.record_event(&Event::MouseMoved(1, 1));
    t.record_event(&Event::MouseMoved(8, -6));
    t.record_event(&Event::MouseInput(ElementState::Released, MouseButton::Right));
    assert_eq!(t.drag_amount(), (7, -7));
}

#[test]
fn sensitivity_is_one_hundredth() {
    assert_eq!(DRAG_SENSITIVITY_NUMER, 1);
    assert_eq!(DRAG_SENSITIVITY_DENOM, 100);
}
