use vstd::prelude::*;
use crate::components::RotationVelocity;
use crate::geometry::Vec3;

verus! {

/// Rotation rate about the three local axes, in milliradians per second.
#[derive(Clone, Copy, Debug, PartialEq, Eq, Structural)]
pub struct Rotation {
    pub value: Vec3,
}

impl Rotation {
    pub fn new(value: Vec3) -> (r: Rotation)
        ensures
            r.value == value,
    {
        Rotation { value }
    }
}

/// Angles about the three local axes, in microradians.
#[derive(Clone, Copy, Debug, PartialEq, Eq, Structural)]
pub struct Turn {
    pub x: i64,
    pub y: i64,
    pub z: i64,
}

/// The angle, in microradians, turned in `delta` milliseconds at `rate`
/// milliradians per second.
pub open spec fn turned(rate: int, delta: int) -> int {
    rate * delta
}

/// Angle turned about one axis.
fn turn_about(rate: i32, delta: u32) -> (angle: i64)
    ensures
        angle == turned(rate as int, delta as int),
{
    assert(-0x8000_0000 * 0xFFFF_FFFF <= rate * delta <= 0x8000_0000 * 0xFFFF_FFFF) by (nonlinear_arith)
        requires
            -0x8000_0000 <= rate <= 0x8000_0000,
            0 <= delta <= 0xFFFF_FFFF,
    ;
    rate as i64 * delta as i64
}

/// Rotation stepping: the angles by which an entity turns about its local
/// axes during a tick of `delta` milliseconds.
pub fn update_rotation(rotation: &RotationVelocity, delta: u32) -> (turn: Turn)
    ensures
        turn.x == turned(rotation.value.x as int, delta as int),
        turn.y == turned(rotation.value.y as int, delta as int),
        turn.z == turned(rotation.value.z as int, delta as int),
{
    Turn {
        x: turn_about(rotation.value.x, delta),
        y: turn_about(rotation.value.y, delta),
        z: turn_about(rotation.value.z, delta),
    }
}

} // verus!
