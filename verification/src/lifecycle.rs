use vstd::prelude::*;
use crate::components::{distinct_entities, views, Archetype, Body, BodyView, GameState};

verus! {

/// A body is dead when it has a health pool that is at or below zero.
pub open spec fn is_dead(body: BodyView) -> bool {
    match body.health {
        Some(h) => h <= 0,
        None => false,
    }
}

/// The bodies among the first `n` that are not dead, in order.
pub open spec fn survivors(bodies: Seq<BodyView>, n: int) -> Seq<BodyView>
    decreases n,
{
    if n <= 0 {
        Seq::empty()
    } else if is_dead(bodies[n - 1]) {
        survivors(bodies, n - 1)
    } else {
        survivors(bodies, n - 1).push(bodies[n - 1])
    }
}

/// The entities among the first `n` bodies that are dead, in order.
pub open spec fn casualties(bodies: Seq<BodyView>, n: int) -> Seq<u64>
    decreases n,
{
    if n <= 0 {
        Seq::empty()
    } else if is_dead(bodies[n - 1]) {
        casualties(bodies, n - 1).push(bodies[n - 1].entity)
    } else {
        casualties(bodies, n - 1)
    }
}

/// How many of the first `n` bodies are ships.
pub open spec fn ship_count(bodies: Seq<BodyView>, n: int) -> nat
    decreases n,
{
    if n <= 0 {
        0
    } else if bodies[n - 1].archetype == Archetype::Spaceship {
        ship_count(bodies, n - 1) + 1
    } else {
        ship_count(bodies, n - 1)
    }
}

/// The state that follows `state` when the list holds `ships` ships: a run
/// without exactly one ship is over.
pub open spec fn state_after(state: GameState, ships: nat) -> GameState {
    if ships == 1 {
        state
    } else {
        GameState::GameOver
    }
}

/// The state after a restart when the list holds `ships` ships: a run that
/// is over goes on again when exactly one ship stands ready; otherwise the
/// state stays as it is.
pub open spec fn state_on_restart(state: GameState, ships: nat) -> GameState {
    if state == GameState::GameOver && ships == 1 {
        GameState::InGame
    } else {
        state
    }
}

/// Whether the body's health pool is at or below zero.
pub fn dead(body: &Body) -> (gone: bool)
    ensures
        gone == is_dead(body@),
{
    match body.health {
        Some(h) => h.value <= 0,
        None => false,
    }
}

/// Removes every dead body and returns the entities removed, both in the
/// order of the list.
pub fn despawn_dead_entities(bodies: &mut Vec<Body>) -> (despawned: Vec<u64>)
    ensures
        views(final(bodies)@) == survivors(views(old(bodies)@), old(bodies).len() as int),
        despawned@ == casualties(views(old(bodies)@), old(bodies).len() as int),
{
    let ghost s = views(bodies@);
    let ghost seen: int = 0;
    let mut despawned: Vec<u64> = Vec::new();
    let mut k: usize = 0;
    while k < bodies.len()
        invariant
            0 <= seen <= s.len(),
            k <= bodies.len(),
            s == views(old(bodies)@),
            bodies.len() - k == s.len() - seen,
            views(bodies@).subrange(0, k as int) == survivors(s, seen),
            forall|m: int| k <= m < bodies.len() ==> #[trigger] views(bodies@)[m] == s[m - k + seen],
            despawned@ == casualties(s, seen),
        decreases bodies.len() - k,
    {
        let ghost prior = views(bodies@);
        assert(prior[k as int] == s[seen]);
        if dead(&bodies[k]) {
            despawned.push(bodies[k].entity);
            bodies.remove(k);
            assert forall|m: int| k <= m < bodies.len() implies #[trigger] views(bodies@)[m] == s[m
                - k + seen + 1] by {
                assert(views(bodies@)[m] == prior[m + 1]);
            }
            assert(views(bodies@).subrange(0, k as int) =~= prior.subrange(0, k as int));
        } else {
            assert(views(bodies@).subrange(0, k as int + 1) =~= prior.subrange(0, k as int).push(
                prior[k as int],
            ));
            k = k + 1;
        }
        proof {
            seen = seen + 1;
        }
    }
    assert(views(bodies@).subrange(0, k as int) =~= views(bodies@));
    despawned
}

/// Counts the ships of the list.
pub fn count_ships(bodies: &Vec<Body>) -> (ships: usize)
    ensures
        ships == ship_count(views(bodies@), bodies.len() as int),
{
    let mut ships: usize = 0;
    let mut k: usize = 0;
    while k < bodies.len()
        invariant
            k <= bodies.len(),
            ships <= k,
            ships == ship_count(views(bodies@), k as int),
        decreases bodies.len() - k,
    {
        assert(views(bodies@)[k as int] == bodies[k as int]@);
        if bodies[k].archetype == Archetype::Spaceship {
            ships = ships + 1;
        }
        k = k + 1;
    }
    ships
}

/// The state that follows `state` when `ships` ships are present.
pub fn state_for(state: GameState, ships: usize) -> (next: GameState)
    ensures
        next == state_after(state, ships as nat),
{
    if ships != 1 {
        GameState::GameOver
    } else {
        state
    }
}

/// The state after a restart when `ships` ships are present.
pub fn restart_for(state: GameState, ships: usize) -> (next: GameState)
    ensures
        next == state_on_restart(state, ships as nat),
{
    match state {
        GameState::GameOver => if ships == 1 {
            GameState::InGame
        } else {
            state
        },
        GameState::InGame => state,
    }
}

/// Observes the ship: where the list does not hold exactly one, the run is
/// over; otherwise the state stays as it is.
pub fn spaceship_destroyed(state: GameState, bodies: &Vec<Body>) -> (next: GameState)
    ensures
        next == state_after(state, ship_count(views(bodies@), bodies.len() as int)),
{
    state_for(state, count_ships(bodies))
}

/// Despawn threshold: a body is among the survivors exactly when it is one
/// of the bodies and is not dead.
pub proof fn lemma_survivors_contains(bodies: Seq<BodyView>, n: int, body: BodyView)
    requires
        0 <= n <= bodies.len(),
    ensures
        survivors(bodies, n).contains(body) <==> !is_dead(body) && exists|m: int|
            0 <= m < n && #[trigger] bodies[m] == body,
    decreases n,
{
    if n > 0 {
        lemma_survivors_contains(bodies, n - 1, body);
        let rest = survivors(bodies, n - 1);
        let all = survivors(bodies, n);
        if all.contains(body) {
            let at = choose|at: int| 0 <= at < all.len() && all[at] == body;
            if at < rest.len() {
                assert(rest[at] == body);
                assert(rest.contains(body));
            } else {
                assert(bodies[n - 1] == body);
            }
        }
        if !is_dead(body) && exists|m: int| 0 <= m < n && #[trigger] bodies[m] == body {
            let m = choose|m: int| 0 <= m < n && #[trigger] bodies[m] == body;
            if m < n - 1 {
                assert(rest.contains(body));
                let at = choose|at: int| 0 <= at < rest.len() && rest[at] == body;
                assert(all[at] == body);
            } else {
                assert(all[all.len() - 1] == body);
            }
        }
    }
}

/// Despawn threshold: an entity is among the casualties exactly when one of
/// the bodies carries it and is dead.
pub proof fn lemma_casualties_contains(bodies: Seq<BodyView>, n: int, entity: u64)
    requires
        0 <= n <= bodies.len(),
    ensures
        casualties(bodies, n).contains(entity) <==> exists|m: int|
            0 <= m < n && is_dead(#[trigger] bodies[m]) && bodies[m].entity == entity,
    decreases n,
{
    if n > 0 {
        lemma_casualties_contains(bodies, n - 1, entity);
        let rest = casualties(bodies, n - 1);
        let all = casualties(bodies, n);
        if all.contains(entity) {
            let at = choose|at: int| 0 <= at < all.len() && all[at] == entity;
            if at < rest.len() {
                assert(rest[at] == entity);
                assert(rest.contains(entity));
            } else {
                assert(is_dead(bodies[n - 1]) && bodies[n - 1].entity == entity);
            }
        }
        if exists|m: int| 0 <= m < n && is_dead(#[trigger] bodies[m]) && bodies[m].entity == entity {
            let m = choose|m: int|
                0 <= m < n && is_dead(#[trigger] bodies[m]) && bodies[m].entity == entity;
            if m < n - 1 {
                assert(rest.contains(entity));
                let at = choose|at: int| 0 <= at < rest.len() && rest[at] == entity;
                assert(all[at] == entity);
            } else {
                assert(all[all.len() - 1] == entity);
            }
        }
    }
}

/// Despawn threshold: where identifiers are distinct, body `k` is despawned
/// exactly when its health pool is at or below zero, and survives exactly
/// when it is not; a body with positive health, or without a health pool, is
/// never despawned.
pub proof fn lemma_despawn_threshold(bodies: Seq<BodyView>, k: int)
    requires
        distinct_entities(bodies),
        0 <= k < bodies.len(),
    ensures
        casualties(bodies, bodies.len() as int).contains(bodies[k].entity) <==> is_dead(bodies[k]),
        survivors(bodies, bodies.len() as int).contains(bodies[k]) <==> !is_dead(bodies[k]),
{
    let n = bodies.len() as int;
    lemma_casualties_contains(bodies, n, bodies[k].entity);
    lemma_survivors_contains(bodies, n, bodies[k]);
    if casualties(bodies, n).contains(bodies[k].entity) {
        let m = choose|m: int|
            0 <= m < n && is_dead(#[trigger] bodies[m]) && bodies[m].entity == bodies[k].entity;
        if m < k {
            assert(bodies[m].entity != bodies[k].entity);
        }
        if k < m {
            assert(bodies[k].entity != bodies[m].entity);
        }
    }
}

/// Reaping keeps identifiers distinct.
pub proof fn lemma_survivors_distinct(bodies: Seq<BodyView>, n: int)
    requires
        0 <= n <= bodies.len(),
        distinct_entities(bodies),
    ensures
        distinct_entities(survivors(bodies, n)),
    decreases n,
{
    if n > 0 {
        lemma_survivors_distinct(bodies, n - 1);
        let rest = survivors(bodies, n - 1);
        let all = survivors(bodies, n);
        if !is_dead(bodies[n - 1]) {
            assert forall|i: int, j: int| 0 <= i < j < all.len() implies (#[trigger] all[i]).entity != (
            #[trigger] all[j]).entity by {
                if j < rest.len() {
                    assert(rest[i].entity != rest[j].entity);
                } else {
                    assert(rest.contains(rest[i]));
                    lemma_survivors_contains(bodies, n - 1, rest[i]);
                    let m = choose|m: int| 0 <= m < n - 1 && #[trigger] bodies[m] == rest[i];
                    assert(bodies[m].entity != bodies[n - 1].entity);
                }
            }
        }
    }
}

} // verus!
