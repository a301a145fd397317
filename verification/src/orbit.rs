//! Pointer-event tracking for the orbiting camera.
//!
//! A `MouseTracker` folds a stream of pointer events into the state the frame
//! loop reads once per frame. Tracking is scoped to a drag: pointer moves are
//! recorded only while the primary button is held, the first move of a drag
//! establishes the drag origin (so it reads as a delta of zero), and
//! releasing the button resets the pointer pair. While the button is held,
//! `drag_amount` reports the delta between the two most recent positions of
//! the drag, scaled by the drag sensitivity; while idle it reports zero. The
//! caller composes that delta into its accumulated rotation once per rendered
//! frame.

use vstd::prelude::*;

verus! {

/// A mouse button, as reported by the windowing layer.
#[derive(Clone, Copy, Debug, PartialEq, Eq, Structural)]
pub enum MouseButton {
    Left,
    Right,
    Middle,
}

/// Whether a button went down or up.
#[derive(Clone, Copy, Debug, PartialEq, Eq, Structural)]
pub enum ElementState {
    Pressed,
    Released,
}

/// The events the tracker cares about, as plain values. The platform layer
/// translates its own event type into this one and may drop anything else.
#[derive(Clone, Copy, Debug, PartialEq, Eq, Structural)]
pub enum Event {
    /// The pointer moved to this position, in pixels.
    MouseMoved(i32, i32),
    /// A button changed state.
    MouseInput(ElementState, MouseButton),
    /// The window was closed; the tracker ignores it.
    Closed,
}

/// Drag sensitivity, as the exact rational `NUMER / DENOM` of units per pixel
/// (the design default of one hundredth of a unit per pixel). `drag_amount`
/// returns multiples of `NUMER`; consumers divide by `DENOM` when they need
/// the value on their own numeric scale.
pub const DRAG_SENSITIVITY_NUMER: i64 = 1;

/// See `DRAG_SENSITIVITY_NUMER`.
pub const DRAG_SENSITIVITY_DENOM: i64 = 100;

/// Pointer-tracking state, transient to the current drag: the previous and
/// current pointer position, whether the primary button is held, and whether
/// a move has been recorded since the button went down.
#[derive(Clone, Copy, Debug, PartialEq, Eq)]
pub struct MouseTracker {
    pub previous_position: (i32, i32),
    pub current_position: (i32, i32),
    pub is_mouse_down: bool,
    pub has_moved: bool,
}

/// How one event changes the tracker. A move while idle is ignored; the
/// first move of a drag sets both positions (that move is the drag origin);
/// a later move shifts `current_position` into `previous_position` and
/// records the new position. The primary button going down starts a drag;
/// going up ends it and resets the pointer pair. Everything else is ignored.
pub open spec fn spec_record_event(t: MouseTracker, e: Event) -> MouseTracker {
    match e {
        Event::MouseMoved(x, y) => if !t.is_mouse_down {
            t
        } else if t.has_moved {
            MouseTracker { previous_position: t.current_position, current_position: (x, y), ..t }
        } else {
            MouseTracker {
                previous_position: (x, y),
                current_position: (x, y),
                has_moved: true,
                ..t
            }
        },
        Event::MouseInput(ElementState::Pressed, MouseButton::Left) => (MouseTracker {
            is_mouse_down: true,
            ..t
        }),
        Event::MouseInput(ElementState::Released, MouseButton::Left) => (MouseTracker {
            previous_position: (0i32, 0i32),
            current_position: (0i32, 0i32),
            is_mouse_down: false,
            has_moved: false,
        }),
        _ => t,
    }
}

/// The scaled drag delta: zero while idle, else the difference between the
/// two most recent pointer positions of the drag times
/// `DRAG_SENSITIVITY_NUMER` (the result is in units of
/// `1 / DRAG_SENSITIVITY_DENOM`).
pub open spec fn spec_drag_amount(t: MouseTracker) -> (i64, i64) {
    if t.is_mouse_down {
        (
            ((t.current_position.0 - t.previous_position.0) * DRAG_SENSITIVITY_NUMER) as i64,
            ((t.current_position.1 - t.previous_position.1) * DRAG_SENSITIVITY_NUMER) as i64,
        )
    } else {
        (0i64, 0i64)
    }
}

impl MouseTracker {
    /// A fresh tracker: both positions at the origin, button up, no move
    /// recorded.
    pub fn new() -> (t: MouseTracker)
        ensures
            t == (MouseTracker {
                previous_position: (0i32, 0i32),
                current_position: (0i32, 0i32),
                is_mouse_down: false,
                has_moved: false,
            }),
    {
        MouseTracker {
            previous_position: (0, 0),
            current_position: (0, 0),
            is_mouse_down: false,
            has_moved: false,
        }
    }

    /// Folds one event into the state; see `spec_record_event`.
    pub fn record_event(&mut self, event: &Event)
        ensures
            *final(self) == spec_record_event(*old(self), *event),
    {
        match *event {
            Event::MouseMoved(x, y) => {
                if self.is_mouse_down {
                    if self.has_moved {
                        self.previous_position = self.current_position;
                        self.current_position = (x, y);
                    } else {
                        self.previous_position = (x, y);
                        self.current_position = (x, y);
                        self.has_moved = true;
                    }
                }
            },
            Event::MouseInput(ElementState::Pressed, MouseButton::Left) => {
                self.is_mouse_down = true;
            },
            Event::MouseInput(ElementState::Released, MouseButton::Left) => {
                self.previous_position = (0, 0);
                self.current_position = (0, 0);
                self.is_mouse_down = false;
                self.has_moved = false;
            },
            _ => {},
        }
    }

    /// The scaled drag delta for this frame; see `spec_drag_amount`. A pure
    /// read: `(0, 0)` unless the primary button is held.
    pub fn drag_amount(&self) -> (r: (i64, i64))
        ensures
            r == spec_drag_amount(*self),
    {
        if self.is_mouse_down {
            let dx: i64 = (self.current_position.0 as i64 - self.previous_position.0 as i64)
                * DRAG_SENSITIVITY_NUMER;
            let dy: i64 = (self.current_position.1 as i64 - self.previous_position.1 as i64)
                * DRAG_SENSITIVITY_NUMER;
            (dx, dy)
        } else {
            (0i64, 0i64)
        }
    }
}

} // verus!
