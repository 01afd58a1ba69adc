use vstd::prelude::*;
use crate::components::{distinct_entities, views, Archetype, Body, BodyView, CollisionEvent};
use crate::detection::{
    detection_of, lemma_overlaps_among_contains, lemma_overlaps_among_no_duplicates, touching,
};

verus! {

/// Some body of the list is the entity `entity` and carries the tag `tag`.
pub open spec fn carries(bodies: Seq<BodyView>, entity: u64, tag: Archetype) -> bool {
    exists|m: int|
        0 <= m < bodies.len() && (#[trigger] bodies[m]).entity == entity && bodies[m].archetype
            == tag
}

/// The events that body `k` raises over the first `n` members of its overlap
/// set when classified under `tag`: one for each member that does not carry
/// `tag`, in the order of the set.
pub open spec fn events_of_body(bodies: Seq<BodyView>, tag: Archetype, k: int, n: int) -> Seq<
    CollisionEvent,
>
    decreases n,
{
    if n <= 0 {
        Seq::empty()
    } else if carries(bodies, bodies[k].colliding_entities[n - 1], tag) {
        events_of_body(bodies, tag, k, n - 1)
    } else {
        events_of_body(bodies, tag, k, n - 1).push(
            CollisionEvent {
                entity: bodies[k].entity,
                collided_entity: bodies[k].colliding_entities[n - 1],
            },
        )
    }
}

/// The events that the first `k` bodies raise when classified under `tag`:
/// those of each body that carries `tag`, in the order of the list.
pub open spec fn events_of_tag(bodies: Seq<BodyView>, tag: Archetype, k: int) -> Seq<
    CollisionEvent,
>
    decreases k,
{
    if k <= 0 {
        Seq::empty()
    } else if bodies[k - 1].archetype == tag {
        events_of_tag(bodies, tag, k - 1) + events_of_body(
            bodies,
            tag,
            k - 1,
            bodies[k - 1].colliding_entities.len() as int,
        )
    } else {
        events_of_tag(bodies, tag, k - 1)
    }
}

/// Whether `entity` is among the bodies that carry `tag`.
pub fn has_archetype(bodies: &Vec<Body>, entity: u64, tag: Archetype) -> (found: bool)
    ensures
        found == carries(views(bodies@), entity, tag),
{
    let ghost s = views(bodies@);
    let mut m: usize = 0;
    while m < bodies.len()
        invariant
            m <= bodies.len(),
            s == views(bodies@),
            forall|p: int| 0 <= p < m ==> !((#[trigger] s[p]).entity == entity && s[p].archetype == tag),
        decreases bodies.len() - m,
    {
        if bodies[m].entity == entity && bodies[m].archetype == tag {
            assert(s[m as int].entity == entity && s[m as int].archetype == tag);
            return true;
        }
        m = m + 1;
    }
    false
}

/// Classifier for one archetype: every body tagged `tag` raises one event
/// against each member of its overlap set that is not itself tagged `tag`.
/// The events are appended to `events`.
pub fn handle_collisions(tag: Archetype, bodies: &Vec<Body>, events: &mut Vec<CollisionEvent>)
    ensures
        final(events)@ == old(events)@ + events_of_tag(
            views(bodies@),
            tag,
            bodies.len() as int,
        ),
{
    let ghost s = views(bodies@);
    let ghost start = events@;
    let mut k: usize = 0;
    while k < bodies.len()
        invariant
            k <= bodies.len(),
            s == views(bodies@),
            events@ == start + events_of_tag(s, tag, k as int),
        decreases bodies.len() - k,
    {
        if bodies[k].archetype == tag {
            let entity: u64 = bodies[k].entity;
            let ghost raised = events@;
            let count: usize = bodies[k].collider.colliding_entities.len();
            let mut n: usize = 0;
            assert(s[k as int] == bodies[k as int]@);
            while n < count
                invariant
                    n <= count,
                    k < bodies.len(),
                    s == views(bodies@),
                    count == s[k as int].colliding_entities.len(),
                    entity == s[k as int].entity,
                    s[k as int].colliding_entities == bodies[k as int].collider.colliding_entities@,
                    events@ == raised + events_of_body(s, tag, k as int, n as int),
                decreases count - n,
            {
                let collided_entity: u64 = bodies[k].collider.colliding_entities[n];
                if !has_archetype(bodies, collided_entity, tag) {
                    events.push(CollisionEvent::new(entity, collided_entity));
                }
                n = n + 1;
            }
        }
        k = k + 1;
    }
}

/// An event is among those that body `k` raises over the first `n` members
/// of its overlap set exactly when it names body `k` and one of those
/// members, and that member does not carry `tag`.
pub proof fn lemma_events_of_body_contains(
    bodies: Seq<BodyView>,
    tag: Archetype,
    k: int,
    n: int,
    event: CollisionEvent,
)
    requires
        0 <= n <= bodies[k].colliding_entities.len(),
    ensures
        events_of_body(bodies, tag, k, n).contains(event) <==> {
            &&& event.entity == bodies[k].entity
            &&& !carries(bodies, event.collided_entity, tag)
            &&& exists|p: int|
                0 <= p < n && #[trigger] bodies[k].colliding_entities[p] == event.collided_entity
        },
    decreases n,
{
    if n > 0 {
        lemma_events_of_body_contains(bodies, tag, k, n - 1, event);
        let rest = events_of_body(bodies, tag, k, n - 1);
        let all = events_of_body(bodies, tag, k, n);
        let last = bodies[k].colliding_entities[n - 1];
        if all.contains(event) {
            let at = choose|at: int| 0 <= at < all.len() && all[at] == event;
            if at < rest.len() {
                assert(rest[at] == event);
                assert(rest.contains(event));
            } else {
                assert(bodies[k].colliding_entities[n - 1] == event.collided_entity);
            }
        }
        if event.entity == bodies[k].entity && !carries(bodies, event.collided_entity, tag)
            && exists|p: int|
            0 <= p < n && #[trigger] bodies[k].colliding_entities[p] == event.collided_entity {
            let p = choose|p: int|
                0 <= p < n && #[trigger] bodies[k].colliding_entities[p] == event.collided_entity;
            if p < n - 1 {
                assert(rest.contains(event));
                let at = choose|at: int| 0 <= at < rest.len() && rest[at] == event;
                assert(all[at] == event);
            } else {
                assert(all[all.len() - 1] == event);
            }
        }
    }
}

/// A body whose overlap set names no entity twice raises no event twice.
pub proof fn lemma_events_of_body_no_duplicates(
    bodies: Seq<BodyView>,
    tag: Archetype,
    k: int,
    n: int,
)
    requires
        0 <= n <= bodies[k].colliding_entities.len(),
        bodies[k].colliding_entities.no_duplicates(),
    ensures
        events_of_body(bodies, tag, k, n).no_duplicates(),
    decreases n,
{
    if n > 0 {
        lemma_events_of_body_no_duplicates(bodies, tag, k, n - 1);
        let rest = events_of_body(bodies, tag, k, n - 1);
        let last = CollisionEvent {
            entity: bodies[k].entity,
            collided_entity: bodies[k].colliding_entities[n - 1],
        };
        lemma_events_of_body_contains(bodies, tag, k, n - 1, last);
        if rest.contains(last) {
            let p = choose|p: int|
                0 <= p < n - 1 && #[trigger] bodies[k].colliding_entities[p]
                    == last.collided_entity;
            assert(bodies[k].colliding_entities[p] != bodies[k].colliding_entities[n - 1]);
        }
    }
}

/// An event is among those of the first `k` bodies under `tag` exactly when
/// one of them carries `tag` and raises it.
pub proof fn lemma_events_of_tag_contains(
    bodies: Seq<BodyView>,
    tag: Archetype,
    k: int,
    event: CollisionEvent,
)
    requires
        0 <= k <= bodies.len(),
    ensures
        events_of_tag(bodies, tag, k).contains(event) <==> exists|m: int|
            0 <= m < k && (#[trigger] bodies[m]).archetype == tag && events_of_body(
                bodies,
                tag,
                m,
                bodies[m].colliding_entities.len() as int,
            ).contains(event),
    decreases k,
{
    if k > 0 {
        lemma_events_of_tag_contains(bodies, tag, k - 1, event);
        let rest = events_of_tag(bodies, tag, k - 1);
        let own = events_of_body(bodies, tag, k - 1, bodies[k - 1].colliding_entities.len() as int);
        let all = events_of_tag(bodies, tag, k);
        if all.contains(event) {
            let at = choose|at: int| 0 <= at < all.len() && all[at] == event;
            if at < rest.len() {
                assert(rest[at] == event);
                assert(rest.contains(event));
            } else {
                assert(bodies[k - 1].archetype == tag);
                assert(own[at - rest.len()] == event);
                assert(own.contains(event));
            }
        }
        if exists|m: int|
            0 <= m < k && (#[trigger] bodies[m]).archetype == tag && events_of_body(
                bodies,
                tag,
                m,
                bodies[m].colliding_entities.len() as int,
            ).contains(event) {
            let m = choose|m: int|
                0 <= m < k && (#[trigger] bodies[m]).archetype == tag && events_of_body(
                    bodies,
                    tag,
                    m,
                    bodies[m].colliding_entities.len() as int,
                ).contains(event);
            if m < k - 1 {
                assert(rest.contains(event));
                let at = choose|at: int| 0 <= at < rest.len() && rest[at] == event;
                assert(all[at] == event);
            } else {
                let at = choose|at: int| 0 <= at < own.len() && own[at] == event;
                assert(all[rest.len() + at] == event);
            }
        }
    }
}

/// Where identifiers are distinct and no overlap set names an entity twice,
/// a classifier raises no event twice.
pub proof fn lemma_events_of_tag_no_duplicates(bodies: Seq<BodyView>, tag: Archetype, k: int)
    requires
        0 <= k <= bodies.len(),
        distinct_entities(bodies),
        forall|m: int|
            0 <= m < bodies.len() ==> (#[trigger] bodies[m]).colliding_entities.no_duplicates(),
    ensures
        events_of_tag(bodies, tag, k).no_duplicates(),
    decreases k,
{
    if k > 0 {
        lemma_events_of_tag_no_duplicates(bodies, tag, k - 1);
        let rest = events_of_tag(bodies, tag, k - 1);
        let count = bodies[k - 1].colliding_entities.len() as int;
        let own = events_of_body(bodies, tag, k - 1, count);
        let all = events_of_tag(bodies, tag, k);
        if bodies[k - 1].archetype == tag {
            lemma_events_of_body_no_duplicates(bodies, tag, k - 1, count);
            assert forall|i: int, j: int| 0 <= i < j < all.len() implies all[i] != all[j] by {
                if j < rest.len() {
                    assert(rest[i] != rest[j]);
                } else if i >= rest.len() {
                    assert(own[i - rest.len()] != own[j - rest.len()]);
                } else {
                    let event = rest[i];
                    assert(rest.contains(event));
                    lemma_events_of_tag_contains(bodies, tag, k - 1, event);
                    let m = choose|m: int|
                        0 <= m < k - 1 && (#[trigger] bodies[m]).archetype == tag && events_of_body(
                            bodies,
                            tag,
                            m,
                            bodies[m].colliding_entities.len() as int,
                        ).contains(event);
                    lemma_events_of_body_contains(
                        bodies,
                        tag,
                        m,
                        bodies[m].colliding_entities.len() as int,
                        event,
                    );
                    assert(bodies[m].entity != bodies[k - 1].entity);
                    let other = own[j - rest.len()];
                    assert(own.contains(other));
                    lemma_events_of_body_contains(bodies, tag, k - 1, count, other);
                }
            }
        }
    }
}

/// Cross-archetype events: when two bodies of different archetypes touch,
/// then after detection the classifier of the first one's archetype raises
/// the event of the first against the second, the classifier of the second
/// one's archetype raises the event of the second against the first, and
/// neither classifier raises any event twice: each of the two events occurs
/// exactly once.
pub proof fn lemma_cross_archetype_events(before: Seq<BodyView>, x: int, y: int)
    requires
        distinct_entities(before),
        0 <= x < before.len(),
        0 <= y < before.len(),
        before[x].archetype != before[y].archetype,
        touching(before, x, y),
    ensures
        ({
            let found = detection_of(before);
            let first = events_of_tag(found, before[x].archetype, found.len() as int);
            let second = events_of_tag(found, before[y].archetype, found.len() as int);
            &&& first.contains(
                CollisionEvent { entity: before[x].entity, collided_entity: before[y].entity },
            )
            &&& first.no_duplicates()
            &&& second.contains(
                CollisionEvent { entity: before[y].entity, collided_entity: before[x].entity },
            )
            &&& second.no_duplicates()
        }),
{
    let found = detection_of(before);
    let n = before.len() as int;
    assert forall|m: int| 0 <= m < n implies (#[trigger] found[m]).colliding_entities.no_duplicates() by {
        lemma_overlaps_among_no_duplicates(before, m, n);
    }
    assert forall|i: int, j: int| 0 <= i < j < n implies (#[trigger] found[i]).entity != (
    #[trigger] found[j]).entity by {
        assert(before[i].entity != before[j].entity);
    }
    crate::detection::lemma_touching_symmetric(before, x, y);
    lemma_raises(before, x, y);
    lemma_raises(before, y, x);
    lemma_events_of_tag_no_duplicates(found, before[x].archetype, n);
    lemma_events_of_tag_no_duplicates(found, before[y].archetype, n);
}

/// After detection, the classifier of the archetype of body `x` raises the
/// event of `x` against a touching body `y` of another archetype.
proof fn lemma_raises(before: Seq<BodyView>, x: int, y: int)
    requires
        distinct_entities(before),
        0 <= x < before.len(),
        0 <= y < before.len(),
        before[x].archetype != before[y].archetype,
        touching(before, x, y),
    ensures
        events_of_tag(detection_of(before), before[x].archetype, before.len() as int).contains(
            CollisionEvent { entity: before[x].entity, collided_entity: before[y].entity },
        ),
{
    let found = detection_of(before);
    let n = before.len() as int;
    let tag = before[x].archetype;
    let event = CollisionEvent { entity: before[x].entity, collided_entity: before[y].entity };
    let list = found[x].colliding_entities;
    lemma_overlaps_among_contains(before, x, n, before[y].entity);
    assert(list.contains(before[y].entity));
    let p = choose|p: int| 0 <= p < list.len() && list[p] == before[y].entity;
    assert(found[x].colliding_entities[p] == event.collided_entity);
    if carries(found, event.collided_entity, tag) {
        let m = choose|m: int|
            0 <= m < found.len() && (#[trigger] found[m]).entity == event.collided_entity
                && found[m].archetype == tag;
        if m < y {
            assert(before[m].entity != before[y].entity);
        }
        if y < m {
            assert(before[y].entity != before[m].entity);
        }
    }
    lemma_events_of_body_contains(found, tag, x, list.len() as int, event);
    assert(found[x].archetype == tag);
    lemma_events_of_tag_contains(found, tag, n, event);
}

/// Every event of a classifier is raised by a body that carries the
/// classifier's tag, against a member of that body's overlap set that does
/// not carry it: no event joins two entities of the classifier's archetype.
pub proof fn lemma_events_cross_archetype_only(
    bodies: Seq<BodyView>,
    tag: Archetype,
    event: CollisionEvent,
)
    requires
        events_of_tag(bodies, tag, bodies.len() as int).contains(event),
    ensures
        carries(bodies, event.entity, tag),
        !carries(bodies, event.collided_entity, tag),
{
    lemma_events_of_tag_contains(bodies, tag, bodies.len() as int, event);
    let m = choose|m: int|
        0 <= m < bodies.len() && (#[trigger] bodies[m]).archetype == tag && events_of_body(
            bodies,
            tag,
            m,
            bodies[m].colliding_entities.len() as int,
        ).contains(event);
    lemma_events_of_body_contains(
        bodies,
        tag,
        m,
        bodies[m].colliding_entities.len() as int,
        event,
    );
}

} // verus!
