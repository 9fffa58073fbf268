//! What the camera keys ask of the camera in one frame.

use vstd::prelude::*;

verus! {

/// Speed of the camera, in world units per second.
pub const CAMERA_SPEED: i32 = 40;

/// The keys that fly the camera.
#[derive(Clone, Copy, Debug, PartialEq, Eq)]
pub struct CameraKeys {
    /// W: forward, along the camera's negative local Z.
    pub forward: bool,
    /// A: left, along the camera's negative local X.
    pub left: bool,
    /// S: back, along the camera's local Z.
    pub back: bool,
    /// D: right, along the camera's local X.
    pub right: bool,
    /// R: up the world Z axis.
    pub rise: bool,
    /// F: down the world Z axis.
    pub fall: bool,
}

/// One frame's movement, as multiples of `CAMERA_SPEED` times the frame's
/// duration, and whether the camera must turn back to the origin.
#[derive(Clone, Copy, Debug, PartialEq, Eq)]
pub struct CameraStep {
    /// Along the camera's local X.
    pub local_x: i8,
    /// Along the camera's local Z.
    pub local_z: i8,
    /// Along the world Z axis.
    pub world_z: i8,
    /// Some key moved the camera, so it must look at the origin again.
    pub moved: bool,
}

pub open spec fn signed(plus: bool, minus: bool) -> int {
    (if plus { 1int } else { 0int }) - (if minus { 1int } else { 0int })
}

/// Each pressed key adds its unit movement; a pressed key of either
/// direction counts as a move, even where two opposite keys cancel.
pub fn camera_step(keys: CameraKeys) -> (r: CameraStep)
    ensures
        r.local_x == signed(keys.right, keys.left),
        r.local_z == signed(keys.back, keys.forward),
        r.world_z == signed(keys.rise, keys.fall),
        r.moved == (keys.forward || keys.left || keys.back || keys.right || keys.rise
            || keys.fall),
{
    let mut step = CameraStep { local_x: 0, local_z: 0, world_z: 0, moved: false };
    if keys.right {
        step.local_x = step.local_x + 1;
        step.moved = true;
    }
    if keys.left {
        step.local_x = step.local_x - 1;
        step.moved = true;
    }
    if keys.forward {
        step.local_z = step.local_z - 1;
        step.moved = true;
    }
    if keys.back {
        step.local_z = step.local_z + 1;
        step.moved = true;
    }
    if keys.rise {
        step.world_z = step.world_z + 1;
        step.moved = true;
    }
    if keys.fall {
        step.world_z = step.world_z - 1;
        step.moved = true;
    }
    step
}

} // verus!
