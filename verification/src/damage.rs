use vstd::prelude::*;
use crate::components::{distinct_entities, views, Body, BodyView, CollisionEvent, Health};

verus! {

/// Some body of the list is the entity `entity`.
pub open spec fn present(bodies: Seq<BodyView>, entity: u64) -> bool {
    exists|m: int| 0 <= m < bodies.len() && (#[trigger] bodies[m]).entity == entity
}

/// The place of the entity `entity` in the list, where it is present.
pub open spec fn index_of(bodies: Seq<BodyView>, entity: u64) -> int {
    choose|m: int| 0 <= m < bodies.len() && (#[trigger] bodies[m]).entity == entity
}

/// The damage that `entity` inflicts on contact: `None` where the entity is
/// gone or carries no damage.
pub open spec fn payload_of(bodies: Seq<BodyView>, entity: u64) -> Option<u32> {
    if present(bodies, entity) {
        bodies[index_of(bodies, entity)].collision_demage
    } else {
        None
    }
}

/// A body after contact with a counterpart that inflicts `amount`: a health
/// pool that is still positive loses the amount; a body without a health
/// pool, a pool already at or below zero, and a counterpart without damage
/// leave the body as it is.
pub open spec fn struck(body: BodyView, amount: Option<u32>) -> BodyView {
    match (body.health, amount) {
        (Some(h), Some(a)) => if h > 0 {
            BodyView { health: Some((h - a) as i64), ..body }
        } else {
            body
        },
        _ => body,
    }
}

/// The list after one event: the event's entity is struck by what its
/// counterpart inflicts; every other body is unchanged.
pub open spec fn after_event(bodies: Seq<BodyView>, event: CollisionEvent) -> Seq<BodyView> {
    Seq::new(
        bodies.len(),
        |m: int|
            if bodies[m].entity == event.entity {
                struck(bodies[m], payload_of(bodies, event.collided_entity))
            } else {
                bodies[m]
            },
    )
}

/// The list after the first `n` events, applied in order.
pub open spec fn after_events(bodies: Seq<BodyView>, events: Seq<CollisionEvent>, n: int) -> Seq<
    BodyView,
>
    decreases n,
{
    if n <= 0 {
        bodies
    } else {
        after_event(after_events(bodies, events, n - 1), events[n - 1])
    }
}

/// Finds the first place of `entity` in the list.
pub fn find_entity(bodies: &Vec<Body>, entity: u64) -> (place: Option<usize>)
    ensures
        place.is_some() == present(views(bodies@), entity),
        match place {
            Some(m) => {
                &&& m < bodies.len()
                &&& views(bodies@)[m as int].entity == entity
                &&& forall|p: int| 0 <= p < m ==> (#[trigger] views(bodies@)[p]).entity != entity
            },
            None => true,
        },
{
    let ghost s = views(bodies@);
    let mut m: usize = 0;
    while m < bodies.len()
        invariant
            m <= bodies.len(),
            s == views(bodies@),
            forall|p: int| 0 <= p < m ==> (#[trigger] s[p]).entity != entity,
        decreases bodies.len() - m,
    {
        if bodies[m].entity == entity {
            assert(s[m as int].entity == entity);
            return Some(m);
        }
        m = m + 1;
    }
    None
}

/// Damage resolver for one event.
pub fn apply_collision_event(event: &CollisionEvent, bodies: &mut Vec<Body>)
    requires
        distinct_entities(views(old(bodies)@)),
    ensures
        views(final(bodies)@) == after_event(views(old(bodies)@), *event),
        distinct_entities(views(final(bodies)@)),
{
    let ghost s = views(bodies@);
    let ghost goal = after_event(s, *event);
    let victim = find_entity(bodies, event.entity);
    let attacker = find_entity(bodies, event.collided_entity);
    proof {
        if attacker.is_some() {
            let a = attacker.unwrap() as int;
            let c = index_of(s, event.collided_entity);
            if a < c {
                assert(s[a].entity != s[c].entity);
            }
            if c < a {
                assert(s[c].entity != s[a].entity);
            }
        }
        assert forall|m: int| 0 <= m < s.len() && s[m].entity == event.entity implies Some(
            m as usize,
        ) == victim by {
            let v = victim.unwrap() as int;
            if m < v {
                assert(s[m].entity != s[v].entity);
            }
            if v < m {
                assert(s[v].entity != s[m].entity);
            }
        }
    }
    if let Some(v) = victim {
        if let Some(a) = attacker {
            let health = bodies[v].health;
            let demage = bodies[a].collision_demage;
            if let Some(h) = health {
                if let Some(d) = demage {
                    if h.value > 0 {
                        let ghost prior = bodies@;
                        assert(s[v as int] == prior[v as int]@);
                        assert(s[a as int] == prior[a as int]@);
                        bodies[v].health = Some(Health::new(h.value - d.amount as i64));
                        assert forall|m: int| 0 <= m < s.len() implies #[trigger] views(bodies@)[m]
                            == goal[m] by {
                            assert(s[m] == prior[m]@);
                        }
                        assert(views(bodies@) =~= goal);
                        return ;
                    }
                }
            }
        }
    }
    assert(s =~= goal);
}

/// Damage resolver: applies the events of the tick in order. For each event
/// the entity's health pool loses what the counterpart inflicts; an event
/// whose entity has no health pool, or whose counterpart is gone or has no
/// damage, is skipped, and so is one whose entity is already at or below zero.
pub fn apply_collision_demage(events: &Vec<CollisionEvent>, bodies: &mut Vec<Body>)
    requires
        distinct_entities(views(old(bodies)@)),
    ensures
        views(final(bodies)@) == after_events(views(old(bodies)@), events@, events.len() as int),
        distinct_entities(views(final(bodies)@)),
{
    let mut n: usize = 0;
    while n < events.len()
        invariant
            n <= events.len(),
            distinct_entities(views(bodies@)),
            views(bodies@) == after_events(views(old(bodies)@), events@, n as int),
        decreases events.len() - n,
    {
        apply_collision_event(&events[n], bodies);
        n = n + 1;
    }
}

/// Events change health pools only: the list keeps its length, and every
/// body its entity, archetype, place, radius, overlap set and damage.
pub proof fn lemma_after_events_keeps_identity(
    bodies: Seq<BodyView>,
    events: Seq<CollisionEvent>,
    n: int,
)
    ensures
        after_events(bodies, events, n).len() == bodies.len(),
        forall|m: int|
            0 <= m < bodies.len() ==> (#[trigger] after_events(bodies, events, n)[m]) == (BodyView {
                health: after_events(bodies, events, n)[m].health,
                ..bodies[m]
            }),
    decreases n,
{
    if n > 0 {
        lemma_after_events_keeps_identity(bodies, events, n - 1);
        let prior = after_events(bodies, events, n - 1);
        assert forall|m: int| 0 <= m < bodies.len() implies (#[trigger] after_events(
            bodies,
            events,
            n,
        )[m]) == (BodyView { health: after_events(bodies, events, n)[m].health, ..bodies[m] }) by {
            assert(prior[m] == (BodyView { health: prior[m].health, ..bodies[m] }));
        }
    }
}

/// Damage conservation for one collision: when a victim with a positive
/// health pool `h` is hit by an attacker that inflicts `d`, the victim's
/// health is `h - d` afterwards, and no other body changes.
pub proof fn lemma_single_hit(bodies: Seq<BodyView>, victim: int, attacker: int, h: i64, d: u32)
    requires
        distinct_entities(bodies),
        0 <= victim < bodies.len(),
        0 <= attacker < bodies.len(),
        bodies[victim].health == Some(h),
        h > 0,
        bodies[attacker].collision_demage == Some(d),
    ensures
        ({
            let event = CollisionEvent {
                entity: bodies[victim].entity,
                collided_entity: bodies[attacker].entity,
            };
            let after = after_event(bodies, event);
            &&& after.len() == bodies.len()
            &&& after[victim].health.is_some()
            &&& after[victim].health.unwrap() == h - d
            &&& after[victim] == (BodyView { health: after[victim].health, ..bodies[victim] })
            &&& forall|m: int| 0 <= m < bodies.len() && m != victim ==> #[trigger] after[m] == bodies[m]
        }),
{
    let event = CollisionEvent {
        entity: bodies[victim].entity,
        collided_entity: bodies[attacker].entity,
    };
    let after = after_event(bodies, event);
    let found = index_of(bodies, event.collided_entity);
    assert(bodies[attacker].entity == event.collided_entity);
    if found < attacker {
        assert(bodies[found].entity != bodies[attacker].entity);
    }
    if attacker < found {
        assert(bodies[attacker].entity != bodies[found].entity);
    }
    assert forall|m: int| 0 <= m < bodies.len() && m != victim implies #[trigger] after[m]
        == bodies[m] by {
        if m < victim {
            assert(bodies[m].entity != bodies[victim].entity);
        } else {
            assert(bodies[victim].entity != bodies[m].entity);
        }
    }
}

} // verus!
