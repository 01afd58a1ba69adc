use vstd::prelude::*;
use rand::Rng;
use crate::components::{
    Acceleration, Archetype, Collider, CollisionDemage, Health, MovingObjectBundle,
    RotationVelocity, Velocity,
};
use crate::geometry::Vec3;

verus! {

/// Thousandths that make one whole unit.
pub const SCALE: u32 = 1_000;

pub const VELOCITY_SCALAR: u32 = 5_000;

pub const ACCELERATION_SCALAR: u32 = 1_000;

pub const SPAWN_RANGE_X_LOW: i32 = -25_000;

pub const SPAWN_RANGE_X_HIGH: i32 = 25_000;

pub const SPAWN_RANGE_Z_LOW: i32 = 0;

pub const SPAWN_RANGE_Z_HIGH: i32 = 25_000;

/// The rotation rates lie within half a turn either way, in milliradians
/// per second: from `ROTATION_RANGE_LOW` up to, but not including,
/// `ROTATION_RANGE_HIGH`.
pub const ROTATION_RANGE_LOW: i32 = -3_141;

pub const ROTATION_RANGE_HIGH: i32 = 3_142;

/// Each coordinate of a sampled direction lies between minus one and one.
pub const DIRECTION_RANGE_LOW: i32 = -1_000;

pub const DIRECTION_RANGE_HIGH: i32 = 1_000;

/// Milliseconds between two asteroids.
pub const SPAWN_TIME_MILLIS: u32 = 2_000;

pub const ASTEROID_COLLIDER_RADIUS: u32 = 2_000;

pub const ASTEROID_HEALTH: i64 = 5_000;

pub const ASTEROID_COLLISION_DEMAGE: u32 = 35_000;

pub const SPACESHIP_STARTING_Z: i32 = -20_000;

pub const SPACESHIP_SPEED: u32 = 25_000;

pub const SPACESHIP_ROTATION_SPEED: i32 = 2_500;

pub const SPACESHIP_ROLL_SPEED: i32 = 2_500;

pub const SPACESHIP_COLLIDER_RADIUS: u32 = 7_000;

pub const SPACESHIP_HEALTH: i64 = 100_000;

pub const SPACESHIP_COLLISION_DEMAGE: u32 = 10_000;

pub const MISSILE_SPEED: u32 = 20_000;

pub const MISSILE_FORWARD_SPAWN_SCALAR: u32 = 7_500;

pub const MISSILE_COLLIDER_RADIUS: u32 = 30;

pub const MISSILE_HEALTH: i64 = 1_000;

pub const MISSILE_COLLISION_DEMAGE: u32 = 1_000;

/// Everything a new entity is created with.
#[derive(Clone, Debug)]
pub struct Spawn {
    pub bundle: MovingObjectBundle,
    pub archetype: Archetype,
    pub health: Health,
    pub collision_demage: CollisionDemage,
}

/// Mathematical model of a [`Spawn`].
pub struct SpawnView {
    pub archetype: Archetype,
    pub translation: Vec3,
    pub velocity: Vec3,
    pub acceleration: Vec3,
    pub rotation_velocity: Vec3,
    pub radius: u32,
    pub colliding_entities: Seq<u64>,
    pub health: i64,
    pub collision_demage: u32,
}

impl View for Spawn {
    type V = SpawnView;

    open spec fn view(&self) -> SpawnView {
        SpawnView {
            archetype: self.archetype,
            translation: self.bundle.translation,
            velocity: self.bundle.velocity.value,
            acceleration: self.bundle.acceleration.value,
            rotation_velocity: self.bundle.rotation_velocity.value,
            radius: self.bundle.collider.radius,
            colliding_entities: self.bundle.collider.colliding_entities@,
            health: self.health.value,
            collision_demage: self.collision_demage.amount,
        }
    }
}

pub open spec fn zero_vector() -> Vec3 {
    Vec3 { x: 0, y: 0, z: 0 }
}

/// Repeating timer of the asteroid generator, counted in milliseconds.
#[derive(Clone, Copy, Debug, PartialEq, Eq, Structural)]
pub struct SpawnTimer {
    pub elapsed: u32,
    pub finished: bool,
}

impl SpawnTimer {
    pub fn new() -> (timer: SpawnTimer)
        ensures
            timer == (SpawnTimer { elapsed: 0, finished: false }),
    {
        SpawnTimer { elapsed: 0, finished: false }
    }

    /// Advances the timer by `delta` milliseconds. It finishes when the time
    /// gathered reaches the spawn interval, and then keeps what is left over.
    pub fn tick(&mut self, delta: u32)
        ensures
            final(self).finished == (old(self).elapsed + delta >= SPAWN_TIME_MILLIS),
            final(self).elapsed == (old(self).elapsed + delta) % (SPAWN_TIME_MILLIS as int),
    {
        let total: u64 = self.elapsed as u64 + delta as u64;
        self.finished = total >= SPAWN_TIME_MILLIS as u64;
        self.elapsed = (total % (SPAWN_TIME_MILLIS as u64)) as u32;
    }

    /// Whether the last tick finished the interval.
    pub fn just_finished(&self) -> (done: bool)
        ensures
            done == self.finished,
    {
        self.finished
    }
}

/// `r` is the integer part of the square root of `v`.
pub open spec fn is_floor_sqrt(v: int, r: int) -> bool {
    0 <= r && r * r <= v < (r + 1) * (r + 1)
}

/// Integer part of the square root.
pub fn floor_sqrt(v: u64) -> (r: u64)
    ensures
        is_floor_sqrt(v as int, r as int),
        r <= 0xFFFF_FFFF,
{
    let mut low: u64 = 0;
    let mut high: u64 = 0x1_0000_0000;
    assert(0x1_0000_0000 * 0x1_0000_0000 == 0x1_0000_0000_0000_0000) by (nonlinear_arith);
    while high - low > 1
        invariant
            low < high <= 0x1_0000_0000,
            low * low <= v < high * high,
        decreases high - low,
    {
        let mid: u64 = low + (high - low) / 2;
        assert(mid * mid <= 0xFFFF_FFFF * 0xFFFF_FFFF) by (nonlinear_arith)
            requires
                0 <= mid <= 0xFFFF_FFFF,
        ;
        if mid * mid <= v {
            low = mid;
        } else {
            high = mid;
        }
    }
    low
}

/// One coordinate of a vector of length `length`, rescaled so that the
/// vector has length `scalar`; the magnitude is rounded towards zero.
pub open spec fn rescaled(component: int, length: int, scalar: int) -> int {
    if component >= 0 {
        component * scalar / length
    } else {
        -((-component) * scalar / length)
    }
}

/// Rescales one coordinate.
pub fn rescale(component: i32, length: u32, scalar: u32) -> (r: i32)
    requires
        length > 0,
        -(length as int) <= component <= length,
        scalar <= i32::MAX,
    ensures
        r == rescaled(component as int, length as int, scalar as int),
        -(scalar as int) <= r <= scalar,
{
    let magnitude: u64 = if component >= 0 {
        component as u64
    } else {
        (-(component as i64)) as u64
    };
    assert(magnitude * scalar <= 0xFFFF_FFFF * 0x7FFF_FFFF) by (nonlinear_arith)
        requires
            0 <= magnitude <= 0xFFFF_FFFF,
            0 <= scalar <= 0x7FFF_FFFF,
    ;
    let scaled: u64 = magnitude * scalar as u64 / length as u64;
    assert(magnitude * scalar / (length as int) <= scalar) by (nonlinear_arith)
        requires
            0 <= magnitude <= length,
            0 < length,
            0 <= scalar,
    ;
    if component >= 0 {
        scaled as i32
    } else {
        -(scaled as i32)
    }
}

/// The size of a number, without its sign.
pub open spec fn magnitude(c: int) -> int {
    if c >= 0 {
        c
    } else {
        -c
    }
}

/// `v` is what the coordinate `c` of a vector of squared length `square`
/// becomes when the vector is brought to length `scalar`: its size is the
/// integer part of the size of `c` times `scalar` over the vector's length,
/// and its sign is that of `c`. The two bounds say so without a square root.
pub open spec fn is_scaled_coordinate(v: int, c: int, square: int, scalar: int) -> bool {
    &&& (magnitude(v) * magnitude(v)) * square <= (c * c) * (scalar * scalar)
    &&& (c * c) * (scalar * scalar) < ((magnitude(v) + 1) * (magnitude(v) + 1)) * square
    &&& c >= 0 ==> v >= 0
    &&& c <= 0 ==> v <= 0
}

/// `v` is the unit vector along `(x, 0, z)` times `scalar`, each coordinate
/// rounded towards zero, or the zero vector where `(x, 0, z)` is zero.
pub open spec fn is_horizontal_of_length(v: Vec3, x: int, z: int, scalar: int) -> bool {
    if x == 0 && z == 0 {
        v == zero_vector()
    } else {
        &&& v.y == 0
        &&& is_scaled_coordinate(v.x as int, x, x * x + z * z, scalar)
        &&& is_scaled_coordinate(v.z as int, z, x * x + z * z, scalar)
    }
}

/// One coordinate of a vector of squared length `square`, brought to length
/// `scalar`.
fn scale_coordinate(c: i32, square: u64, scalar: u32) -> (v: i32)
    requires
        0 < square,
        c * c <= square,
        scalar <= i32::MAX,
    ensures
        is_scaled_coordinate(v as int, c as int, square as int, scalar as int),
{
    let size: u128 = if c >= 0 {
        c as u128
    } else {
        (-(c as i64)) as u128
    };
    assert(size * size == c * c) by (nonlinear_arith)
        requires
            size == c || size == -c,
    ;
    assert(size * size <= 0x8000_0000 * 0x8000_0000) by (nonlinear_arith)
        requires
            0 <= size <= 0x8000_0000,
    ;
    assert(scalar * scalar <= 0x7FFF_FFFF * 0x7FFF_FFFF) by (nonlinear_arith)
        requires
            0 <= scalar <= 0x7FFF_FFFF,
    ;
    let c2: u128 = size * size;
    let s2: u128 = scalar as u128 * scalar as u128;
    assert(c2 * s2 <= 0x4000_0000_0000_0000 * 0x4000_0000_0000_0000) by (nonlinear_arith)
        requires
            0 <= c2 <= 0x4000_0000_0000_0000,
            0 <= s2 <= 0x4000_0000_0000_0000,
    ;
    let product: u128 = c2 * s2;
    let quotient: u128 = product / square as u128;
    assert(quotient * square <= product < (quotient + 1) * square) by (nonlinear_arith)
        requires
            quotient == product as int / square as int,
            0 < square,
            0 <= product,
    ;
    assert(quotient <= s2) by (nonlinear_arith)
        requires
            quotient * square <= product,
            product == c2 * s2,
            0 <= c2 <= square,
            0 < square,
            0 <= s2,
            0 <= quotient,
    ;
    let root: u64 = floor_sqrt(quotient as u64);
    assert(root <= scalar) by (nonlinear_arith)
        requires
            root * root <= quotient,
            quotient <= s2,
            s2 == scalar * scalar,
            0 <= root,
            0 <= scalar,
    ;
    assert((root * root) * square <= product) by (nonlinear_arith)
        requires
            root * root <= quotient,
            quotient * square <= product,
            0 < square,
    ;
    assert(product < ((root + 1) * (root + 1)) * square) by (nonlinear_arith)
        requires
            quotient < (root + 1) * (root + 1),
            product < (quotient + 1) * square,
            0 < square,
    ;
    assert(product == (c * c) * (scalar * scalar));
    if c == 0 {
        assert(c2 == 0);
        assert(product == 0) by (nonlinear_arith)
            requires
                product == c2 * s2,
                c2 == 0,
        ;
        assert(root == 0) by (nonlinear_arith)
            requires
                (root * root) * square <= product,
                product == 0,
                0 < square,
                0 <= root,
        ;
    }
    let v: i32 = if c >= 0 {
        root as i32
    } else {
        -(root as i32)
    };
    assert(magnitude(v as int) == root);
    v
}

/// Brings the horizontal vector `(x, 0, z)` to length `scalar`: the unit
/// vector along it times `scalar`, each coordinate rounded towards zero.
pub fn horizontal_with_length(x: i32, z: i32, scalar: u32) -> (v: Vec3)
    requires
        scalar <= i32::MAX,
    ensures
        is_horizontal_of_length(v, x as int, z as int, scalar as int),
{
    if x == 0 && z == 0 {
        return Vec3 { x: 0, y: 0, z: 0 };
    }
    assert(0 <= x * x <= 0x8000_0000 * 0x8000_0000 && 0 <= z * z <= 0x8000_0000 * 0x8000_0000
        && x * x + z * z > 0) by (nonlinear_arith)
        requires
            -0x8000_0000 <= x <= 0x8000_0000,
            -0x8000_0000 <= z <= 0x8000_0000,
            x != 0 || z != 0,
    ;
    let wide_x: i64 = x as i64;
    let wide_z: i64 = z as i64;
    let square: u64 = (wide_x * wide_x) as u64 + (wide_z * wide_z) as u64;
    Vec3 { x: scale_coordinate(x, square, scalar), y: 0, z: scale_coordinate(z, square, scalar) }
}

/// Length of a vector brought to length `scalar`: the squared length of the
/// result is at most `scalar` squared, and exceeds it once each horizontal
/// coordinate is taken one unit further out. The result is shorter than
/// `scalar` by less than the rounding of its two coordinates.
pub proof fn lemma_horizontal_length(v: Vec3, x: int, z: int, scalar: int)
    requires
        is_horizontal_of_length(v, x, z, scalar),
        x != 0 || z != 0,
    ensures
        v.x * v.x + v.y * v.y + v.z * v.z <= scalar * scalar,
        scalar * scalar < (magnitude(v.x as int) + 1) * (magnitude(v.x as int) + 1) + (magnitude(
            v.z as int,
        ) + 1) * (magnitude(v.z as int) + 1),
{
    let d = x * x + z * z;
    let s2 = scalar * scalar;
    let mx = magnitude(v.x as int);
    let mz = magnitude(v.z as int);
    assert(d > 0) by (nonlinear_arith)
        requires
            d == x * x + z * z,
            x != 0 || z != 0,
    ;
    assert(v.x * v.x == mx * mx && v.z * v.z == mz * mz) by (nonlinear_arith)
        requires
            mx == v.x || mx == -v.x,
            mz == v.z || mz == -v.z,
    ;
    assert(v.y * v.y == 0);
    let low = mx * mx + mz * mz;
    let high = (mx + 1) * (mx + 1) + (mz + 1) * (mz + 1);
    assert(low * d <= s2 * d) by (nonlinear_arith)
        requires
            low == mx * mx + mz * mz,
            d == x * x + z * z,
            (mx * mx) * d <= (x * x) * s2,
            (mz * mz) * d <= (z * z) * s2,
    ;
    assert(low <= s2) by (nonlinear_arith)
        requires
            low * d <= s2 * d,
            d > 0,
    ;
    assert(s2 * d < high * d) by (nonlinear_arith)
        requires
            high == (mx + 1) * (mx + 1) + (mz + 1) * (mz + 1),
            d == x * x + z * z,
            (x * x) * s2 < ((mx + 1) * (mx + 1)) * d,
            (z * z) * s2 < ((mz + 1) * (mz + 1)) * d,
    ;
    assert(s2 < high) by (nonlinear_arith)
        requires
            s2 * d < high * d,
            d > 0,
    ;
}

/// The random numbers that shape one asteroid.
#[derive(Clone, Copy, Debug, PartialEq, Eq, Structural)]
pub struct AsteroidSamples {
    pub x: i32,
    pub z: i32,
    pub rotation: Vec3,
    pub velocity_x: i32,
    pub velocity_z: i32,
    pub acceleration_x: i32,
    pub acceleration_z: i32,
}

/// Each number lies in the range it is drawn from.
pub open spec fn samples_in_range(s: AsteroidSamples) -> bool {
    &&& SPAWN_RANGE_X_LOW <= s.x < SPAWN_RANGE_X_HIGH
    &&& SPAWN_RANGE_Z_LOW <= s.z < SPAWN_RANGE_Z_HIGH
    &&& ROTATION_RANGE_LOW <= s.rotation.x < ROTATION_RANGE_HIGH
    &&& ROTATION_RANGE_LOW <= s.rotation.y < ROTATION_RANGE_HIGH
    &&& ROTATION_RANGE_LOW <= s.rotation.z < ROTATION_RANGE_HIGH
    &&& DIRECTION_RANGE_LOW <= s.velocity_x < DIRECTION_RANGE_HIGH
    &&& DIRECTION_RANGE_LOW <= s.velocity_z < DIRECTION_RANGE_HIGH
    &&& DIRECTION_RANGE_LOW <= s.acceleration_x < DIRECTION_RANGE_HIGH
    &&& DIRECTION_RANGE_LOW <= s.acceleration_z < DIRECTION_RANGE_HIGH
}

/// `spawn` is the asteroid that the samples `s` shape.
pub open spec fn is_asteroid_of(spawn: SpawnView, s: AsteroidSamples) -> bool {
    &&& spawn.archetype == Archetype::Asteroid
    &&& spawn.translation == (Vec3 { x: s.x, y: 0, z: s.z })
    &&& spawn.rotation_velocity == s.rotation
    &&& is_horizontal_of_length(
        spawn.velocity,
        s.velocity_x as int,
        s.velocity_z as int,
        VELOCITY_SCALAR as int,
    )
    &&& is_horizontal_of_length(
        spawn.acceleration,
        s.acceleration_x as int,
        s.acceleration_z as int,
        ACCELERATION_SCALAR as int,
    )
    &&& spawn.radius == ASTEROID_COLLIDER_RADIUS
    &&& spawn.colliding_entities == Seq::<u64>::empty()
    &&& spawn.health == ASTEROID_HEALTH
    &&& spawn.collision_demage == ASTEROID_COLLISION_DEMAGE
}

/// `rand::thread_rng` and `Rng::gen_range` on the half-open range from `low`
/// to `high`: some number of that range. Which one is left open.
#[verifier::external_body]
fn random_in_range(low: i32, high: i32) -> (r: i32)
    requires
        low < high,
    ensures
        low <= r < high,
{
    rand::thread_rng().gen_range(low..high)
}

/// Draws the random numbers for one asteroid.
pub fn draw_asteroid_samples() -> (s: AsteroidSamples)
    ensures
        samples_in_range(s),
{
    let x: i32 = random_in_range(SPAWN_RANGE_X_LOW, SPAWN_RANGE_X_HIGH);
    let z: i32 = random_in_range(SPAWN_RANGE_Z_LOW, SPAWN_RANGE_Z_HIGH);
    let rotation = Vec3 {
        x: random_in_range(ROTATION_RANGE_LOW, ROTATION_RANGE_HIGH),
        y: random_in_range(ROTATION_RANGE_LOW, ROTATION_RANGE_HIGH),
        z: random_in_range(ROTATION_RANGE_LOW, ROTATION_RANGE_HIGH),
    };
    let velocity_x: i32 = random_in_range(DIRECTION_RANGE_LOW, DIRECTION_RANGE_HIGH);
    let velocity_z: i32 = random_in_range(DIRECTION_RANGE_LOW, DIRECTION_RANGE_HIGH);
    let acceleration_x: i32 = random_in_range(DIRECTION_RANGE_LOW, DIRECTION_RANGE_HIGH);
    let acceleration_z: i32 = random_in_range(DIRECTION_RANGE_LOW, DIRECTION_RANGE_HIGH);
    AsteroidSamples { x, z, rotation, velocity_x, velocity_z, acceleration_x, acceleration_z }
}

/// Shapes one asteroid from its random numbers: it stands at `(x, 0, z)`,
/// turns at the sampled rates, and moves and accelerates along the two
/// sampled horizontal directions at the fixed speeds.
pub fn asteroid_from_samples(s: &AsteroidSamples) -> (spawn: Spawn)
    requires
        samples_in_range(*s),
    ensures
        is_asteroid_of(spawn@, *s),
{
    Spawn {
        bundle: MovingObjectBundle {
            velocity: Velocity::new(horizontal_with_length(s.velocity_x, s.velocity_z, VELOCITY_SCALAR)),
            acceleration: Acceleration::new(
                horizontal_with_length(s.acceleration_x, s.acceleration_z, ACCELERATION_SCALAR),
            ),
            rotation_velocity: RotationVelocity::new(s.rotation),
            collider: Collider::new(ASTEROID_COLLIDER_RADIUS),
            translation: Vec3 { x: s.x, y: 0, z: s.z },
        },
        archetype: Archetype::Asteroid,
        health: Health::new(ASTEROID_HEALTH),
        collision_demage: CollisionDemage::new(ASTEROID_COLLISION_DEMAGE),
    }
}

/// Asteroid generator: advances the timer by `delta` milliseconds and, when
/// the interval has just finished, produces exactly one asteroid.
pub fn spawn_asteroid(timer: &mut SpawnTimer, delta: u32) -> (spawned: Option<Spawn>)
    ensures
        final(timer).finished == (old(timer).elapsed + delta >= SPAWN_TIME_MILLIS),
        final(timer).elapsed == (old(timer).elapsed + delta) % (SPAWN_TIME_MILLIS as int),
        spawned.is_some() == final(timer).finished,
        match spawned {
            Some(spawn) => exists|s: AsteroidSamples|
                samples_in_range(s) && #[trigger] is_asteroid_of(spawn@, s),
            None => true,
        },
{
    timer.tick(delta);
    if !timer.just_finished() {
        return None;
    }
    let samples = draw_asteroid_samples();
    let spawn = asteroid_from_samples(&samples);
    assert(samples_in_range(samples) && is_asteroid_of(spawn@, samples));
    Some(spawn)
}

/// The ship as it is created: at rest at its starting place.
pub open spec fn new_spaceship() -> SpawnView {
    SpawnView {
        archetype: Archetype::Spaceship,
        translation: Vec3 { x: 0, y: 0, z: SPACESHIP_STARTING_Z },
        velocity: zero_vector(),
        acceleration: zero_vector(),
        rotation_velocity: zero_vector(),
        radius: SPACESHIP_COLLIDER_RADIUS,
        colliding_entities: Seq::empty(),
        health: SPACESHIP_HEALTH,
        collision_demage: SPACESHIP_COLLISION_DEMAGE,
    }
}

/// Produces the ship.
pub fn spawn_spaceship() -> (spawn: Spawn)
    ensures
        spawn@ == new_spaceship(),
{
    let zero = Vec3 { x: 0, y: 0, z: 0 };
    Spawn {
        bundle: MovingObjectBundle {
            velocity: Velocity::new(zero),
            acceleration: Acceleration::new(zero),
            rotation_velocity: RotationVelocity::new(zero),
            collider: Collider::new(SPACESHIP_COLLIDER_RADIUS),
            translation: Vec3 { x: 0, y: 0, z: SPACESHIP_STARTING_Z },
        },
        archetype: Archetype::Spaceship,
        health: Health::new(SPACESHIP_HEALTH),
        collision_demage: CollisionDemage::new(SPACESHIP_COLLISION_DEMAGE),
    }
}

} // verus!
