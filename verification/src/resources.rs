//! The shared per-frame state: pointer, drag region, gesture flag, and the
//! button signals that drive them.

use vstd::prelude::*;
use crate::math::{Vec2, Vec3};

verus! {

/// Where the pointer is, in world space (on the ground plane) and in window
/// space. Both fields are always written together.
#[derive(Clone, Copy, Debug, PartialEq, Eq, Structural)]
pub struct MouseCoords {
    pub global: Vec3,
    pub local: Vec2,
}

/// The two corners of a box-selection gesture, in world and window space.
/// The start corner is fixed on press; the end corner follows the pointer
/// while the button is held; all four fields are zero between gestures.
#[derive(Clone, Copy, Debug, PartialEq, Eq, Structural)]
pub struct BoxSelect {
    pub global_start: Vec3,
    pub global_end: Vec3,
    pub local_start: Vec2,
    pub local_end: Vec2,
}

/// Gesture-scoped command state. `drag_select` is false at the start of a
/// gesture, latches to true once the drag grows past the threshold, and is
/// cleared on release.
#[derive(Clone, Copy, Debug, PartialEq, Eq, Structural)]
pub struct GameCommands {
    pub drag_select: bool,
}

/// One mouse button's signals for the current frame.
#[derive(Clone, Copy, Debug, PartialEq, Eq, Structural)]
pub struct ButtonInput {
    /// The button went down this frame.
    pub just_pressed: bool,
    /// The button is down.
    pub pressed: bool,
    /// The button went up this frame.
    pub just_released: bool,
}

impl MouseCoords {
    pub open spec fn origin() -> MouseCoords {
        MouseCoords { global: Vec3::zero(), local: Vec2::zero() }
    }
}

impl Default for MouseCoords {
    fn default() -> (m: MouseCoords)
        ensures
            m == MouseCoords::origin(),
    {
        MouseCoords { global: Vec3::new(0, 0, 0), local: Vec2::new(0, 0) }
    }
}

impl BoxSelect {
    /// The region between gestures: every corner at zero.
    pub open spec fn empty() -> BoxSelect {
        BoxSelect {
            global_start: Vec3::zero(),
            global_end: Vec3::zero(),
            local_start: Vec2::zero(),
            local_end: Vec2::zero(),
        }
    }

    /// Resets all four corners to zero.
    pub fn empty_global(&mut self)
        ensures
            *final(self) == BoxSelect::empty(),
    {
        self.global_start = Vec3::new(0, 0, 0);
        self.global_end = Vec3::new(0, 0, 0);
        self.local_start = Vec2::new(0, 0);
        self.local_end = Vec2::new(0, 0);
    }
}

impl Default for BoxSelect {
    fn default() -> (b: BoxSelect)
        ensures
            b == BoxSelect::empty(),
    {
        BoxSelect {
            global_start: Vec3::new(0, 0, 0),
            global_end: Vec3::new(0, 0, 0),
            local_start: Vec2::new(0, 0),
            local_end: Vec2::new(0, 0),
        }
    }
}

impl Default for GameCommands {
    fn default() -> (g: GameCommands)
        ensures
            !g.drag_select,
    {
        GameCommands { drag_select: false }
    }
}

impl ButtonInput {
    /// No signal: the button is up and nothing changed this frame.
    pub open spec fn idle() -> ButtonInput {
        ButtonInput { just_pressed: false, pressed: false, just_released: false }
    }

    /// A button that went down this frame is either still down or went up
    /// again within the frame.
    pub open spec fn well_formed(self) -> bool {
        self.just_pressed ==> self.pressed || self.just_released
    }
}

impl Default for ButtonInput {
    fn default() -> (b: ButtonInput)
        ensures
            b == ButtonInput::idle(),
    {
        ButtonInput { just_pressed: false, pressed: false, just_released: false }
    }
}

} // verus!
