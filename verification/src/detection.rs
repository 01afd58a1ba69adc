use vstd::prelude::*;
use crate::components::{distinct_entities, views, Body, BodyView};
use crate::geometry::{lemma_spheres_overlap_symmetric, overlapping, spheres_overlap};
use crate::registry::{checked_contents, recorded, registry_contents, CheckedSet, OverlapRegistry};

verus! {

/// Bodies `k` and `j` are different entities whose bounding spheres overlap.
pub open spec fn touching(bodies: Seq<BodyView>, k: int, j: int) -> bool {
    bodies[k].entity != bodies[j].entity && spheres_overlap(
        bodies[k].translation,
        bodies[k].radius,
        bodies[j].translation,
        bodies[j].radius,
    )
}

/// The entities among the first `n` bodies that touch body `k`, in the order
/// of the list.
pub open spec fn overlaps_among(bodies: Seq<BodyView>, k: int, n: int) -> Seq<u64>
    decreases n,
{
    if n <= 0 {
        Seq::empty()
    } else if touching(bodies, k, n - 1) {
        overlaps_among(bodies, k, n - 1).push(bodies[n - 1].entity)
    } else {
        overlaps_among(bodies, k, n - 1)
    }
}

/// The overlap set of body `k`: every entity of the list that touches it.
pub open spec fn overlap_list(bodies: Seq<BodyView>, k: int) -> Seq<u64> {
    overlaps_among(bodies, k, bodies.len() as int)
}

/// Body `k` with its overlap set replaced by the one that `bodies` gives it.
pub open spec fn with_overlaps(bodies: Seq<BodyView>, k: int) -> BodyView {
    BodyView { colliding_entities: overlap_list(bodies, k), ..bodies[k] }
}

/// The list with every overlap set computed afresh from the positions and
/// radii; nothing else differs.
pub open spec fn detection_of(before: Seq<BodyView>) -> Seq<BodyView> {
    Seq::new(before.len(), |k: int| with_overlaps(before, k))
}

/// `after` is what detection makes of `before`.
pub open spec fn detected(before: Seq<BodyView>, after: Seq<BodyView>) -> bool {
    after == detection_of(before)
}

/// What the registry holds for body `k` once every pair with a first member
/// before `i`, and every pair of `i` with a second member before `j`, has
/// been examined.
pub open spec fn overlaps_so_far(bodies: Seq<BodyView>, k: int, i: int, j: int) -> Seq<u64> {
    if k < i {
        overlap_list(bodies, k)
    } else if k == i {
        if j <= i {
            overlaps_among(bodies, k, i)
        } else {
            overlaps_among(bodies, k, j)
        }
    } else if k < j {
        overlaps_among(bodies, k, i + 1)
    } else {
        overlaps_among(bodies, k, i)
    }
}

/// Touching is symmetric.
pub proof fn lemma_touching_symmetric(bodies: Seq<BodyView>, k: int, j: int)
    ensures
        touching(bodies, k, j) == touching(bodies, j, k),
{
    lemma_spheres_overlap_symmetric(
        bodies[k].translation,
        bodies[k].radius,
        bodies[j].translation,
        bodies[j].radius,
    );
}

/// Recomputes the overlap set of every body from the current positions.
///
/// Each unordered pair is tested once: a body that has been the outer one is
/// skipped as inner one, and a hit is recorded for both members at once.
pub fn collision_detection(bodies: &mut Vec<Body>)
    requires
        distinct_entities(views(old(bodies)@)),
    ensures
        detected(views(old(bodies)@), views(final(bodies)@)),
        distinct_entities(views(final(bodies)@)),
{
    let n: usize = bodies.len();
    let ghost s = views(bodies@);
    let mut registry = OverlapRegistry::new();
    let mut checked = CheckedSet::new();
    let mut i: usize = 0;
    while i < n
        invariant
            i <= n,
            n == bodies.len(),
            s == views(bodies@),
            bodies == old(bodies),
            distinct_entities(s),
            forall|e: u64|
                checked_contents(checked).contains(e) <==> exists|k: int|
                    0 <= k < i && (#[trigger] s[k]).entity == e,
            forall|k: int|
                0 <= k < n ==> recorded(registry_contents(registry), (#[trigger] s[k]).entity)
                    == overlaps_so_far(s, k, i as int, 0),
        decreases n - i,
    {
        let entity: u64 = bodies[i].entity;
        assert(s[i as int].entity == entity);
        let mut j: usize = 0;
        while j < n
            invariant
                i < n,
                j <= n,
                n == bodies.len(),
                s == views(bodies@),
                distinct_entities(s),
                entity == s[i as int].entity,
                forall|e: u64|
                    checked_contents(checked).contains(e) <==> exists|k: int|
                        0 <= k < i && (#[trigger] s[k]).entity == e,
                forall|k: int|
                    0 <= k < n ==> recorded(registry_contents(registry), (#[trigger] s[k]).entity)
                        == overlaps_so_far(s, k, i as int, j as int),
            decreases n - j,
        {
            let other: u64 = bodies[j].entity;
            assert(s[j as int].entity == other);
            let ghost before = registry_contents(registry);
            proof {
                lemma_touching_symmetric(s, i as int, j as int);
            }
            if other != entity && !checked.contains(other) {
                assert(j > i) by {
                    if j < i {
                        assert(s[j as int].entity == other);
                    }
                }
                let hit: bool = overlapping(
                    &bodies[i].translation,
                    bodies[i].collider.radius,
                    &bodies[j].translation,
                    bodies[j].collider.radius,
                );
                assert(hit == touching(s, i as int, j as int));
                if hit {
                    registry.record(entity, other);
                    registry.record(other, entity);
                }
            } else {
                assert(j <= i) by {
                    if j > i {
                        let k = choose|k: int| 0 <= k < i && (#[trigger] s[k]).entity == other;
                        assert(s[k].entity == s[j as int].entity);
                    }
                }
            }
            assert forall|k: int| 0 <= k < n implies recorded(
                registry_contents(registry),
                (#[trigger] s[k]).entity,
            ) == overlaps_so_far(s, k, i as int, j as int + 1) by {
                assert(recorded(before, s[k].entity) == overlaps_so_far(s, k, i as int, j as int));
                if k != i {
                    assert(s[k].entity != s[i as int].entity);
                }
                if k != j {
                    assert(s[k].entity != s[j as int].entity);
                }
            }
            j = j + 1;
        }
        checked.insert(entity);
        assert forall|e: u64|
            checked_contents(checked).contains(e) <==> exists|k: int|
                0 <= k < i + 1 && (#[trigger] s[k]).entity == e by {
            if checked_contents(checked).contains(e) {
                if e == entity {
                    assert(s[i as int].entity == e);
                } else {
                    let k = choose|k: int| 0 <= k < i && (#[trigger] s[k]).entity == e;
                    assert(0 <= k < i + 1 && s[k].entity == e);
                }
            }
        }
        i = i + 1;
    }
    let mut k: usize = 0;
    while k < n
        invariant
            k <= n,
            n == bodies.len(),
            s == views(old(bodies)@),
            s.len() == n,
            views(bodies@).len() == n,
            forall|m: int|
                0 <= m < n ==> recorded(registry_contents(registry), (#[trigger] s[m]).entity)
                    == overlap_list(s, m),
            forall|m: int| 0 <= m < k ==> #[trigger] views(bodies@)[m] == with_overlaps(s, m),
            forall|m: int| k <= m < n ==> #[trigger] views(bodies@)[m] == s[m],
        decreases n - k,
    {
        let ghost prior = bodies@;
        assert(views(prior)[k as int] == s[k as int]);
        let list: Vec<u64> = match registry.get(bodies[k].entity) {
            Some(found) => found,
            None => Vec::new(),
        };
        assert(list@ == overlap_list(s, k as int));
        bodies[k].collider.colliding_entities = list;
        assert forall|m: int| 0 <= m < n implies #[trigger] views(bodies@)[m] == (if m <= k {
            with_overlaps(s, m)
        } else {
            s[m]
        }) by {
            assert(views(prior)[m] == prior[m]@);
        }
        k = k + 1;
    }
    assert(views(bodies@) =~= detection_of(s));
    assert forall|a: int, b: int| 0 <= a < b < n implies (#[trigger] views(bodies@)[a]).entity != (
    #[trigger] views(bodies@)[b]).entity by {
        assert(s[a].entity != s[b].entity);
    }
}

/// An entity is in `overlaps_among(bodies, k, n)` exactly when one of the
/// first `n` bodies carries it and touches body `k`.
pub proof fn lemma_overlaps_among_contains(bodies: Seq<BodyView>, k: int, n: int, e: u64)
    requires
        0 <= n <= bodies.len(),
    ensures
        overlaps_among(bodies, k, n).contains(e) <==> exists|j: int|
            0 <= j < n && touching(bodies, k, j) && (#[trigger] bodies[j]).entity == e,
    decreases n,
{
    if n > 0 {
        lemma_overlaps_among_contains(bodies, k, n - 1, e);
        let rest = overlaps_among(bodies, k, n - 1);
        if touching(bodies, k, n - 1) {
            let all = rest.push(bodies[n - 1].entity);
            if all.contains(e) {
                let at = choose|at: int| 0 <= at < all.len() && all[at] == e;
                if at < rest.len() {
                    assert(rest[at] == e);
                    assert(rest.contains(e));
                } else {
                    assert(bodies[n - 1].entity == e);
                }
            }
            if exists|j: int|
                0 <= j < n && touching(bodies, k, j) && (#[trigger] bodies[j]).entity == e {
                let j = choose|j: int|
                    0 <= j < n && touching(bodies, k, j) && (#[trigger] bodies[j]).entity == e;
                if j < n - 1 {
                    assert(rest.contains(e));
                    let at = choose|at: int| 0 <= at < rest.len() && rest[at] == e;
                    assert(all[at] == e);
                } else {
                    assert(all[all.len() - 1] == e);
                }
            }
        }
    }
}

/// With distinct identifiers no entity occurs twice in an overlap set.
pub proof fn lemma_overlaps_among_no_duplicates(bodies: Seq<BodyView>, k: int, n: int)
    requires
        0 <= n <= bodies.len(),
        distinct_entities(bodies),
    ensures
        overlaps_among(bodies, k, n).no_duplicates(),
    decreases n,
{
    if n > 0 {
        lemma_overlaps_among_no_duplicates(bodies, k, n - 1);
        lemma_overlaps_among_contains(bodies, k, n - 1, bodies[n - 1].entity);
        let rest = overlaps_among(bodies, k, n - 1);
        if rest.contains(bodies[n - 1].entity) {
            let j = choose|j: int|
                0 <= j < n - 1 && touching(bodies, k, j) && (#[trigger] bodies[j]).entity
                    == bodies[n - 1].entity;
            assert(bodies[j].entity != bodies[n - 1].entity);
        }
    }
}

/// After detection, body `y` is in the overlap set of body `x` exactly when
/// the two are different entities whose spheres overlap.
pub proof fn lemma_detection_exact(before: Seq<BodyView>, after: Seq<BodyView>, x: int, y: int)
    requires
        distinct_entities(before),
        detected(before, after),
        0 <= x < before.len(),
        0 <= y < before.len(),
    ensures
        after[x].colliding_entities.contains(after[y].entity) <==> touching(before, x, y),
{
    assert(after[x] == with_overlaps(before, x));
    assert(after[y] == with_overlaps(before, y));
    lemma_overlaps_among_contains(before, x, before.len() as int, before[y].entity);
    if after[x].colliding_entities.contains(after[y].entity) {
        let j = choose|j: int|
            0 <= j < before.len() && touching(before, x, j) && (#[trigger] before[j]).entity
                == before[y].entity;
        if j < y {
            assert(before[j].entity != before[y].entity);
        }
        if y < j {
            assert(before[y].entity != before[j].entity);
        }
    }
}

/// Symmetry: after detection, `y` is in the overlap set of `x` exactly when
/// `x` is in the overlap set of `y`.
pub proof fn lemma_detection_symmetric(before: Seq<BodyView>, after: Seq<BodyView>, x: int, y: int)
    requires
        distinct_entities(before),
        detected(before, after),
        0 <= x < before.len(),
        0 <= y < before.len(),
    ensures
        after[x].colliding_entities.contains(after[y].entity)
            <==> after[y].colliding_entities.contains(after[x].entity),
{
    lemma_detection_exact(before, after, x, y);
    lemma_detection_exact(before, after, y, x);
    lemma_touching_symmetric(before, x, y);
}

/// Self-exclusion: after detection, no entity is in its own overlap set.
pub proof fn lemma_detection_excludes_self(before: Seq<BodyView>, after: Seq<BodyView>, x: int)
    requires
        distinct_entities(before),
        detected(before, after),
        0 <= x < before.len(),
    ensures
        !after[x].colliding_entities.contains(after[x].entity),
{
    lemma_detection_exact(before, after, x, x);
}

/// Every member of an overlap set after detection is an entity of the list.
pub proof fn lemma_detection_members_present(
    before: Seq<BodyView>,
    after: Seq<BodyView>,
    x: int,
    e: u64,
)
    requires
        detected(before, after),
        0 <= x < before.len(),
        after[x].colliding_entities.contains(e),
    ensures
        exists|y: int| 0 <= y < after.len() && (#[trigger] after[y]).entity == e && touching(before, x, y),
{
    assert(after[x] == with_overlaps(before, x));
    lemma_overlaps_among_contains(before, x, before.len() as int, e);
    let j = choose|j: int|
        0 <= j < before.len() && touching(before, x, j) && (#[trigger] before[j]).entity == e;
    assert(after[j] == with_overlaps(before, j));
}

} // verus!
