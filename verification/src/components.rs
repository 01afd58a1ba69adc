use vstd::prelude::*;
use crate::geometry::Vec3;

verus! {

/// The gameplay role of an entity. Every entity has exactly one.
#[derive(Clone, Copy, Debug, PartialEq, Eq, Structural)]
pub enum Archetype {
    Spaceship,
    Asteroid,
    SpaceshipMissile,
}

/// The two states of a run.
#[derive(Clone, Copy, Debug, PartialEq, Eq, Structural)]
pub enum GameState {
    InGame,
    GameOver,
}

/// Bounding sphere of an entity, with the entities it overlaps this tick.
#[derive(Clone, Debug)]
pub struct Collider {
    pub radius: u32,
    pub colliding_entities: Vec<u64>,
}

impl Collider {
    pub fn new(radius: u32) -> (c: Collider)
        ensures
            c.radius == radius,
            c.colliding_entities@ == Seq::<u64>::empty(),
    {
        Collider { radius, colliding_entities: Vec::new() }
    }
}

/// Linear velocity, in thousandths of a world unit per second.
#[derive(Clone, Copy, Debug, PartialEq, Eq, Structural)]
pub struct Velocity {
    pub value: Vec3,
}

impl Velocity {
    pub fn new(value: Vec3) -> (v: Velocity)
        ensures
            v.value == value,
    {
        Velocity { value }
    }
}

/// Linear acceleration, in thousandths of a world unit per second squared.
#[derive(Clone, Copy, Debug, PartialEq, Eq, Structural)]
pub struct Acceleration {
    pub value: Vec3,
}

impl Acceleration {
    pub fn new(value: Vec3) -> (a: Acceleration)
        ensures
            a.value == value,
    {
        Acceleration { value }
    }
}

/// Rotation rate about the three local axes, in milliradians per second.
#[derive(Clone, Copy, Debug, PartialEq, Eq, Structural)]
pub struct RotationVelocity {
    pub value: Vec3,
}

impl RotationVelocity {
    pub fn new(value: Vec3) -> (r: RotationVelocity)
        ensures
            r.value == value,
    {
        RotationVelocity { value }
    }
}

/// What every moving object is spawned with.
#[derive(Clone, Debug)]
pub struct MovingObjectBundle {
    pub velocity: Velocity,
    pub acceleration: Acceleration,
    pub rotation_velocity: RotationVelocity,
    pub collider: Collider,
    pub translation: Vec3,
}

/// Health pool of an entity.
#[derive(Clone, Copy, Debug, PartialEq, Eq, Structural)]
pub struct Health {
    pub value: i64,
}

impl Health {
    pub fn new(value: i64) -> (h: Health)
        ensures
            h.value == value,
    {
        Health { value }
    }
}

/// Damage that an entity inflicts on contact.
#[derive(Clone, Copy, Debug, PartialEq, Eq, Structural)]
pub struct CollisionDemage {
    pub amount: u32,
}

impl CollisionDemage {
    pub fn new(amount: u32) -> (d: CollisionDemage)
        ensures
            d.amount == amount,
    {
        CollisionDemage { amount }
    }
}

/// Directed collision message: `entity` was hit by `collided_entity`.
#[derive(Clone, Copy, Debug, PartialEq, Eq, Structural)]
pub struct CollisionEvent {
    pub entity: u64,
    pub collided_entity: u64,
}

impl CollisionEvent {
    pub fn new(entity: u64, collided_entity: u64) -> (e: CollisionEvent)
        ensures
            e.entity == entity,
            e.collided_entity == collided_entity,
    {
        CollisionEvent { entity, collided_entity }
    }
}

/// One collidable entity as the pipeline sees it.
#[derive(Clone, Debug)]
pub struct Body {
    pub entity: u64,
    pub archetype: Archetype,
    pub translation: Vec3,
    pub collider: Collider,
    pub health: Option<Health>,
    pub collision_demage: Option<CollisionDemage>,
}

/// Mathematical model of a [`Body`].
pub struct BodyView {
    pub entity: u64,
    pub archetype: Archetype,
    pub translation: Vec3,
    pub radius: u32,
    pub colliding_entities: Seq<u64>,
    pub health: Option<i64>,
    pub collision_demage: Option<u32>,
}

impl View for Body {
    type V = BodyView;

    open spec fn view(&self) -> BodyView {
        BodyView {
            entity: self.entity,
            archetype: self.archetype,
            translation: self.translation,
            radius: self.collider.radius,
            colliding_entities: self.collider.colliding_entities@,
            health: match self.health {
                Some(h) => Some(h.value),
                None => None,
            },
            collision_demage: match self.collision_demage {
                Some(d) => Some(d.amount),
                None => None,
            },
        }
    }
}

/// The models of a list of bodies, in order.
pub open spec fn views(bodies: Seq<Body>) -> Seq<BodyView> {
    Seq::new(bodies.len(), |i: int| bodies[i]@)
}

/// No entity identifier occurs twice.
pub open spec fn distinct_entities(bodies: Seq<BodyView>) -> bool {
    forall|i: int, j: int|
        0 <= i < j < bodies.len() ==> (#[trigger] bodies[i]).entity != (#[trigger] bodies[j]).entity
}

impl Body {
    pub fn new(
        entity: u64,
        archetype: Archetype,
        translation: Vec3,
        radius: u32,
        health: Option<Health>,
        collision_demage: Option<CollisionDemage>,
    ) -> (b: Body)
        ensures
            b@ == (BodyView {
                entity,
                archetype,
                translation,
                radius,
                colliding_entities: Seq::empty(),
                health: match health {
                    Some(h) => Some(h.value),
                    None => None,
                },
                collision_demage: match collision_demage {
                    Some(d) => Some(d.amount),
                    None => None,
                },
            }),
    {
        Body {
            entity,
            archetype,
            translation,
            collider: Collider::new(radius),
            health,
            collision_demage,
        }
    }
}

} // verus!
