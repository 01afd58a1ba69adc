use vstd::prelude::*;
use crate::components::{
    Acceleration, Archetype, Collider, CollisionDemage, Health, MovingObjectBundle,
    RotationVelocity, Velocity,
};
use crate::geometry::{distance_squared, spheres_overlap, Vec3};
use crate::spawn::{
    rescale, rescaled, zero_vector, Spawn, SpawnView, MISSILE_COLLIDER_RADIUS,
    MISSILE_COLLISION_DEMAGE, MISSILE_FORWARD_SPAWN_SCALAR, MISSILE_HEALTH, MISSILE_SPEED, SCALE,
    SPACESHIP_COLLIDER_RADIUS, SPACESHIP_ROLL_SPEED, SPACESHIP_ROTATION_SPEED, SPACESHIP_SPEED,
};

verus! {

/// Snapshot of the control signals that are held during one tick.
#[derive(Clone, Copy, Debug, PartialEq, Eq, Structural)]
pub struct Controls {
    pub forward: bool,
    pub backward: bool,
    pub turn_left: bool,
    pub turn_right: bool,
    pub roll_right: bool,
    pub roll_left: bool,
    pub fire: bool,
    pub shield: bool,
}

/// Where the ship stands and which way its local forward axis points; the
/// axis is a unit vector in thousandths.
#[derive(Clone, Copy, Debug, PartialEq, Eq, Structural)]
pub struct ShipPose {
    pub translation: Vec3,
    pub forward: Vec3,
}

/// No coordinate of a unit vector exceeds one whole unit.
pub open spec fn is_direction(v: Vec3) -> bool {
    &&& -(SCALE as int) <= v.x <= SCALE
    &&& -(SCALE as int) <= v.y <= SCALE
    &&& -(SCALE as int) <= v.z <= SCALE
}

/// The vector of length `scalar` that points against `forward`.
pub open spec fn against(forward: Vec3, scalar: int) -> Vec3 {
    Vec3 {
        x: rescaled(-forward.x, SCALE as int, scalar) as i32,
        y: rescaled(-forward.y, SCALE as int, scalar) as i32,
        z: rescaled(-forward.z, SCALE as int, scalar) as i32,
    }
}

/// The vector of length `scalar` that points along `forward`.
pub open spec fn along(forward: Vec3, scalar: int) -> Vec3 {
    Vec3 {
        x: rescaled(forward.x as int, SCALE as int, scalar) as i32,
        y: rescaled(forward.y as int, SCALE as int, scalar) as i32,
        z: rescaled(forward.z as int, SCALE as int, scalar) as i32,
    }
}

/// The place where a missile fired in pose `pose` starts can be written in
/// 32 bits: the ship's place and the offset ahead of it add up without
/// overflow.
pub open spec fn missile_in_reach(pose: ShipPose) -> bool {
    let offset = against(pose.forward, MISSILE_FORWARD_SPAWN_SCALAR as int);
    &&& i32::MIN <= pose.translation.x + offset.x <= i32::MAX
    &&& i32::MIN <= pose.translation.y + offset.y <= i32::MAX
    &&& i32::MIN <= pose.translation.z + offset.z <= i32::MAX
}

/// What firing asks of the ship's pose: a unit forward axis, and a starting
/// place for the missile that can be written in 32 bits.
pub open spec fn can_fire(ship: Option<ShipPose>, controls: Controls) -> bool {
    match ship {
        Some(pose) => controls.fire ==> is_direction(pose.forward) && missile_in_reach(pose),
        None => true,
    }
}

/// Computes [`against`].
pub fn scaled_against(forward: &Vec3, scalar: u32) -> (v: Vec3)
    requires
        is_direction(*forward),
        scalar <= i32::MAX,
    ensures
        v == against(*forward, scalar as int),
        -(scalar as int) <= v.x <= scalar,
        -(scalar as int) <= v.y <= scalar,
        -(scalar as int) <= v.z <= scalar,
{
    Vec3 {
        x: rescale(-forward.x, SCALE, scalar),
        y: rescale(-forward.y, SCALE, scalar),
        z: rescale(-forward.z, SCALE, scalar),
    }
}

/// Computes [`along`].
pub fn scaled_along(forward: &Vec3, scalar: u32) -> (v: Vec3)
    requires
        is_direction(*forward),
        scalar <= i32::MAX,
    ensures
        v == along(*forward, scalar as int),
{
    Vec3 {
        x: rescale(forward.x, SCALE, scalar),
        y: rescale(forward.y, SCALE, scalar),
        z: rescale(forward.z, SCALE, scalar),
    }
}

/// The velocity that the held controls ask for: against the forward axis at
/// full speed while `forward` is held, along it while only `backward` is
/// held, and none otherwise.
pub open spec fn commanded_velocity(forward: Vec3, controls: Controls) -> Vec3 {
    if controls.forward {
        against(forward, SPACESHIP_SPEED as int)
    } else if controls.backward {
        along(forward, SPACESHIP_SPEED as int)
    } else {
        zero_vector()
    }
}

/// The turn rate that the held controls ask for.
pub open spec fn commanded_turn(controls: Controls) -> i32 {
    if controls.turn_left {
        SPACESHIP_ROTATION_SPEED
    } else if controls.turn_right {
        (-SPACESHIP_ROTATION_SPEED) as i32
    } else {
        0
    }
}

/// The roll rate that the held controls ask for.
pub open spec fn commanded_roll(controls: Controls) -> i32 {
    if controls.roll_right {
        SPACESHIP_ROLL_SPEED
    } else if controls.roll_left {
        (-SPACESHIP_ROLL_SPEED) as i32
    } else {
        0
    }
}

/// Steers the ship: sets its velocity, turn rate and roll rate from the held
/// controls. The rate about the first axis is left as it is.
pub fn spaceship_movement_controls(
    forward: &Vec3,
    controls: &Controls,
    velocity: &mut Velocity,
    rotation: &mut RotationVelocity,
)
    requires
        is_direction(*forward),
    ensures
        final(velocity).value == commanded_velocity(*forward, *controls),
        final(rotation).value == (Vec3 {
            x: old(rotation).value.x,
            y: commanded_turn(*controls),
            z: commanded_roll(*controls),
        }),
{
    if controls.forward {
        velocity.value = scaled_against(forward, SPACESHIP_SPEED);
    } else if controls.backward {
        velocity.value = scaled_along(forward, SPACESHIP_SPEED);
    } else {
        velocity.value = Vec3 { x: 0, y: 0, z: 0 };
    }
    let mut turn: i32 = 0;
    if controls.turn_left {
        turn = SPACESHIP_ROTATION_SPEED;
    } else if controls.turn_right {
        turn = -SPACESHIP_ROTATION_SPEED;
    }
    rotation.value.y = turn;
    let mut roll: i32 = 0;
    if controls.roll_right {
        roll = SPACESHIP_ROLL_SPEED;
    } else if controls.roll_left {
        roll = -SPACESHIP_ROLL_SPEED;
    }
    rotation.value.z = roll;
}

/// The missile that a ship in pose `pose` fires: it starts ahead of the
/// ship, against the forward axis, and flies on in that direction.
pub open spec fn missile_of(pose: ShipPose) -> SpawnView {
    let offset = against(pose.forward, MISSILE_FORWARD_SPAWN_SCALAR as int);
    SpawnView {
        archetype: Archetype::SpaceshipMissile,
        translation: Vec3 {
            x: (pose.translation.x + offset.x) as i32,
            y: (pose.translation.y + offset.y) as i32,
            z: (pose.translation.z + offset.z) as i32,
        },
        velocity: against(pose.forward, MISSILE_SPEED as int),
        acceleration: zero_vector(),
        rotation_velocity: zero_vector(),
        radius: MISSILE_COLLIDER_RADIUS,
        colliding_entities: Seq::empty(),
        health: MISSILE_HEALTH,
        collision_demage: MISSILE_COLLISION_DEMAGE,
    }
}

/// Weapon fire: one missile on every tick on which the fire control is held
/// and there is a ship; nothing otherwise.
pub fn spaceship_weapon_controls(ship: &Option<ShipPose>, controls: &Controls) -> (spawned: Option<
    Spawn,
>)
    requires
        can_fire(*ship, *controls),
    ensures
        spawned.is_some() == (ship.is_some() && controls.fire),
        match spawned {
            Some(spawn) => spawn@ == missile_of(ship.unwrap()),
            None => true,
        },
{
    match ship {
        Some(pose) => {
            if controls.fire {
                let offset = scaled_against(&pose.forward, MISSILE_FORWARD_SPAWN_SCALAR);
                let zero = Vec3 { x: 0, y: 0, z: 0 };
                Some(
                    Spawn {
                        bundle: MovingObjectBundle {
                            velocity: Velocity::new(scaled_against(&pose.forward, MISSILE_SPEED)),
                            acceleration: Acceleration::new(zero),
                            rotation_velocity: RotationVelocity::new(zero),
                            collider: Collider::new(MISSILE_COLLIDER_RADIUS),
                            translation: Vec3 {
                                x: pose.translation.x + offset.x,
                                y: pose.translation.y + offset.y,
                                z: pose.translation.z + offset.z,
                            },
                        },
                        archetype: Archetype::SpaceshipMissile,
                        health: Health::new(MISSILE_HEALTH),
                        collision_demage: CollisionDemage::new(MISSILE_COLLISION_DEMAGE),
                    },
                )
            } else {
                None
            }
        },
        None => None,
    }
}

/// How far one coordinate of the missile's offset reaches, from below: with
/// `a` the size of the coordinate of the axis and `o` the size of the
/// coordinate of the offset, `4 o^2 >= 225 a^2 - 60 a`.
proof fn lemma_offset_reach(f: int)
    requires
        -1_000 <= f <= 1_000,
    ensures
        4 * (rescaled(-f, 1_000, 7_500) * rescaled(-f, 1_000, 7_500)) >= 225 * (f * f) - 60 * (if f
            >= 0 {
            f
        } else {
            -f
        }),
{
    let a = if f >= 0 {
        f
    } else {
        -f
    };
    let o = a * 7_500 / 1_000;
    assert(rescaled(-f, 1_000, 7_500) == o || rescaled(-f, 1_000, 7_500) == -o);
    assert(rescaled(-f, 1_000, 7_500) * rescaled(-f, 1_000, 7_500) == o * o) by (nonlinear_arith)
        requires
            rescaled(-f, 1_000, 7_500) == o || rescaled(-f, 1_000, 7_500) == -o,
    ;
    assert(f * f == a * a) by (nonlinear_arith)
        requires
            a == f || a == -f,
    ;
    assert(2 * o >= 15 * a - 1 && o >= 0);
    assert(4 * (o * o) >= 225 * (a * a) - 60 * a) by (nonlinear_arith)
        requires
            2 * o >= 15 * a - 1,
            o >= 0,
            a >= 0,
    ;
}

/// A missile starts clear of the ship that fires it: where the forward axis
/// is a unit vector, up to rounding to thousandths, the bounding spheres of
/// the ship and of the new missile do not overlap.
pub proof fn lemma_missile_clear_of_ship(pose: ShipPose)
    requires
        is_direction(pose.forward),
        missile_in_reach(pose),
        pose.forward.x * pose.forward.x + pose.forward.y * pose.forward.y + pose.forward.z
            * pose.forward.z >= 998_001,
    ensures
        !spheres_overlap(
            pose.translation,
            SPACESHIP_COLLIDER_RADIUS,
            missile_of(pose).translation,
            MISSILE_COLLIDER_RADIUS,
        ),
{
    let f = pose.forward;
    let t = pose.translation;
    let m = missile_of(pose).translation;
    let ox = rescaled(-f.x, 1_000, 7_500);
    let oy = rescaled(-f.y, 1_000, 7_500);
    let oz = rescaled(-f.z, 1_000, 7_500);
    lemma_offset_reach(f.x as int);
    lemma_offset_reach(f.y as int);
    lemma_offset_reach(f.z as int);
    assert(-7_500 <= ox <= 7_500 && -7_500 <= oy <= 7_500 && -7_500 <= oz <= 7_500);
    assert(m.x == t.x + ox && m.y == t.y + oy && m.z == t.z + oz);
    assert((t.x - m.x) * (t.x - m.x) == ox * ox) by (nonlinear_arith)
        requires
            m.x == t.x + ox,
    ;
    assert((t.y - m.y) * (t.y - m.y) == oy * oy) by (nonlinear_arith)
        requires
            m.y == t.y + oy,
    ;
    assert((t.z - m.z) * (t.z - m.z) == oz * oz) by (nonlinear_arith)
        requires
            m.z == t.z + oz,
    ;
    assert(distance_squared(t, m) == ox * ox + oy * oy + oz * oz);
    assert((SPACESHIP_COLLIDER_RADIUS + MISSILE_COLLIDER_RADIUS) * (SPACESHIP_COLLIDER_RADIUS
        + MISSILE_COLLIDER_RADIUS) == 49_420_900);
}

/// Shield control: the ship gets its shield on every tick on which the
/// shield control is held and there is a ship.
pub fn spaceship_shield_controls(ship: Option<u64>, controls: &Controls) -> (shielded: Option<u64>)
    ensures
        shielded == (if controls.shield {
            ship
        } else {
            None
        }),
{
    if controls.shield {
        ship
    } else {
        None
    }
}

} // verus!
