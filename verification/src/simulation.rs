use vstd::prelude::*;
use crate::classification::{events_of_tag, handle_collisions};
use crate::components::{
    distinct_entities, views, Archetype, Body, BodyView, CollisionEvent, GameState,
};
use crate::controls::{
    can_fire, missile_of, spaceship_weapon_controls, Controls, ShipPose,
};
use crate::damage::{
    after_event, after_events, apply_collision_demage, lemma_after_events_keeps_identity,
    lemma_single_hit,
};
use crate::detection::{collision_detection, detection_of, lemma_touching_symmetric, touching};
use crate::lifecycle::{
    casualties, count_ships, despawn_dead_entities, restart_for, state_on_restart, lemma_survivors_contains, lemma_survivors_distinct,
    ship_count, spaceship_destroyed, state_after, survivors,
};
use crate::spawn::{
    is_asteroid_of, new_spaceship, samples_in_range, spawn_asteroid, spawn_spaceship,
    AsteroidSamples, Spawn, SpawnTimer, SpawnView, SPAWN_TIME_MILLIS,
};

verus! {

/// The state that the simulation driver owns and hands to every system.
#[derive(Debug)]
pub struct Simulation {
    pub bodies: Vec<Body>,
    pub events: Vec<CollisionEvent>,
    pub state: GameState,
    pub spawn_timer: SpawnTimer,
    pub next_entity: u64,
}

/// Mathematical model of a [`Simulation`].
pub struct SimulationView {
    pub bodies: Seq<BodyView>,
    pub events: Seq<CollisionEvent>,
    pub state: GameState,
    pub spawn_timer: SpawnTimer,
    pub next_entity: u64,
}

impl View for Simulation {
    type V = SimulationView;

    open spec fn view(&self) -> SimulationView {
        SimulationView {
            bodies: views(self.bodies@),
            events: self.events@,
            state: self.state,
            spawn_timer: self.spawn_timer,
            next_entity: self.next_entity,
        }
    }
}

/// Identifiers are distinct, and all of them are below the next one to be
/// handed out.
pub open spec fn well_formed(sim: SimulationView) -> bool {
    &&& distinct_entities(sim.bodies)
    &&& forall|k: int| 0 <= k < sim.bodies.len() ==> (#[trigger] sim.bodies[k]).entity < sim.next_entity
}

/// The body that a spawn becomes under the identifier `entity`.
pub open spec fn body_of(entity: u64, spawn: SpawnView) -> BodyView {
    BodyView {
        entity,
        archetype: spawn.archetype,
        translation: spawn.translation,
        radius: spawn.radius,
        colliding_entities: spawn.colliding_entities,
        health: Some(spawn.health),
        collision_demage: Some(spawn.collision_demage),
    }
}

/// The simulation with one more body, made from `spawn` under the next
/// identifier.
pub open spec fn with_spawn(sim: SimulationView, spawn: SpawnView) -> SimulationView {
    SimulationView {
        bodies: sim.bodies.push(body_of(sim.next_entity, spawn)),
        next_entity: (sim.next_entity + 1) as u64,
        ..sim
    }
}

/// The events of one tick: those of the asteroid classifier, then those of
/// the ship classifier, then those of the missile classifier.
pub open spec fn classified(bodies: Seq<BodyView>) -> Seq<CollisionEvent> {
    events_of_tag(bodies, Archetype::Asteroid, bodies.len() as int) + events_of_tag(
        bodies,
        Archetype::Spaceship,
        bodies.len() as int,
    ) + events_of_tag(bodies, Archetype::SpaceshipMissile, bodies.len() as int)
}

/// The simulation after detection, classification and damage resolution:
/// the overlap sets are those of the current positions, the event queue
/// holds this tick's events only, and every event has been applied.
pub open spec fn collided(sim: SimulationView) -> SimulationView {
    let found = detection_of(sim.bodies);
    let events = classified(found);
    SimulationView { bodies: after_events(found, events, events.len() as int), events, ..sim }
}

/// The simulation after reaping: dead bodies are gone; where that leaves
/// no single ship, the run is over, and on the tick on which it ends a new
/// ship is spawned.
pub open spec fn reaped(sim: SimulationView) -> SimulationView {
    let alive = survivors(sim.bodies, sim.bodies.len() as int);
    let next = state_after(sim.state, ship_count(alive, alive.len() as int));
    let cleared = SimulationView { bodies: alive, state: next, ..sim };
    if sim.state == GameState::InGame && next == GameState::GameOver {
        with_spawn(cleared, new_spaceship())
    } else {
        cleared
    }
}

/// The simulation after a restart: a run that is over goes on again when
/// exactly one ship stands ready; otherwise nothing changes.
pub open spec fn resumed(sim: SimulationView) -> SimulationView {
    SimulationView {
        state: state_on_restart(sim.state, ship_count(sim.bodies, sim.bodies.len() as int)),
        ..sim
    }
}

/// `after` is `before` once the asteroid generator has run for a tick of
/// `delta` milliseconds: the timer has advanced, and one asteroid has been
/// added if the timer finished.
pub open spec fn after_generator(before: SimulationView, delta: u32, after: SimulationView) -> bool {
    let timer = SpawnTimer {
        elapsed: ((before.spawn_timer.elapsed + delta) % (SPAWN_TIME_MILLIS as int)) as u32,
        finished: before.spawn_timer.elapsed + delta >= SPAWN_TIME_MILLIS,
    };
    let ticked = SimulationView { spawn_timer: timer, ..before };
    if timer.finished {
        exists|s: AsteroidSamples, asteroid: SpawnView|
            samples_in_range(s) && #[trigger] is_asteroid_of(asteroid, s) && after == with_spawn(
                ticked,
                asteroid,
            )
    } else {
        after == ticked
    }
}

/// The simulation once weapon fire has run: one missile has been added if
/// there is a ship and the fire control is held.
pub open spec fn after_weapon(
    before: SimulationView,
    ship: Option<ShipPose>,
    controls: Controls,
) -> SimulationView {
    if ship.is_some() && controls.fire {
        with_spawn(before, missile_of(ship.unwrap()))
    } else {
        before
    }
}

/// `after` is `before` once the spawn systems have run for a tick of
/// `delta` milliseconds: the asteroid generator, then weapon fire.
pub open spec fn spawned(
    before: SimulationView,
    delta: u32,
    ship: Option<ShipPose>,
    controls: Controls,
    after: SimulationView,
) -> bool {
    exists|grown: SimulationView| #[trigger]
        after_generator(before, delta, grown) && after == after_weapon(grown, ship, controls)
}

impl Simulation {
    /// A run at its start: in game, with the ship and nothing else.
    pub fn new() -> (sim: Simulation)
        ensures
            sim@ == (SimulationView {
                bodies: seq![body_of(0, new_spaceship())],
                events: Seq::empty(),
                state: GameState::InGame,
                spawn_timer: SpawnTimer { elapsed: 0, finished: false },
                next_entity: 1,
            }),
            well_formed(sim@),
    {
        let mut sim = Simulation {
            bodies: Vec::new(),
            events: Vec::new(),
            state: GameState::InGame,
            spawn_timer: SpawnTimer::new(),
            next_entity: 0,
        };
        assert(views(sim.bodies@) =~= Seq::<BodyView>::empty());
        sim.spawn(spawn_spaceship());
        assert(sim@.bodies =~= seq![body_of(0, new_spaceship())]);
        sim
    }

    /// Adds the entity that `spawn` describes and returns its identifier.
    pub fn spawn(&mut self, spawn: Spawn) -> (entity: u64)
        requires
            well_formed(old(self)@),
            old(self).next_entity < u64::MAX,
        ensures
            entity == old(self).next_entity,
            final(self)@ == with_spawn(old(self)@, spawn@),
            well_formed(final(self)@),
    {
        let entity: u64 = self.next_entity;
        let ghost before = views(self.bodies@);
        let body = Body {
            entity,
            archetype: spawn.archetype,
            translation: spawn.bundle.translation,
            collider: spawn.bundle.collider,
            health: Some(spawn.health),
            collision_demage: Some(spawn.collision_demage),
        };
        assert(body@ == body_of(entity, spawn@));
        self.bodies.push(body);
        self.next_entity = entity + 1;
        assert(views(self.bodies@) =~= before.push(body_of(entity, spawn@)));
        assert forall|i: int, j: int| 0 <= i < j < self@.bodies.len() implies (
        #[trigger] self@.bodies[i]).entity != (#[trigger] self@.bodies[j]).entity by {
            assert(before[i].entity < entity);
            if j < before.len() {
                assert(before[i].entity != before[j].entity);
            }
        }
        assert forall|k: int| 0 <= k < self@.bodies.len() implies (#[trigger] self@.bodies[k]).entity
            < self.next_entity by {
            if k < before.len() {
                assert(before[k].entity < entity);
            }
        }
        entity
    }

    /// Spawn systems of one tick of `delta` milliseconds: the asteroid
    /// generator, then weapon fire.
    pub fn spawn_systems(&mut self, delta: u32, ship: &Option<ShipPose>, controls: &Controls)
        requires
            well_formed(old(self)@),
            old(self).next_entity <= u64::MAX - 2,
            can_fire(*ship, *controls),
        ensures
            spawned(old(self)@, delta, *ship, *controls, final(self)@),
            well_formed(final(self)@),
            final(self).next_entity <= old(self).next_entity + 2,
    {
        let asteroid = spawn_asteroid(&mut self.spawn_timer, delta);
        match asteroid {
            Some(spawn) => {
                proof {
                    let s = choose|s: AsteroidSamples|
                        samples_in_range(s) && #[trigger] is_asteroid_of(spawn@, s);
                    assert(samples_in_range(s) && is_asteroid_of(spawn@, s));
                }
                self.spawn(spawn);
            },
            None => {},
        }
        let ghost grown = self@;
        assert(after_generator(old(self)@, delta, grown));
        let missile = spaceship_weapon_controls(ship, controls);
        match missile {
            Some(spawn) => {
                self.spawn(spawn);
            },
            None => {},
        }
    }

    /// Overlap detection, classification for each archetype and damage
    /// resolution, in that order. The event queue of the last tick is
    /// discarded first.
    pub fn run_collisions(&mut self)
        requires
            well_formed(old(self)@),
        ensures
            final(self)@ == collided(old(self)@),
            well_formed(final(self)@),
    {
        let ghost before = self@.bodies;
        self.events.clear();
        collision_detection(&mut self.bodies);
        let ghost found = views(self.bodies@);
        handle_collisions(Archetype::Asteroid, &self.bodies, &mut self.events);
        handle_collisions(Archetype::Spaceship, &self.bodies, &mut self.events);
        handle_collisions(Archetype::SpaceshipMissile, &self.bodies, &mut self.events);
        assert(self.events@ =~= classified(found));
        apply_collision_demage(&self.events, &mut self.bodies);
        proof {
            lemma_after_events_keeps_identity(found, self.events@, self.events.len() as int);
            assert forall|k: int| 0 <= k < self@.bodies.len() implies (
            #[trigger] self@.bodies[k]).entity < self.next_entity by {
                assert(found[k].entity == before[k].entity);
            }
        }
    }

    /// Lifecycle reaper: despawns every dead body and returns the entities
    /// despawned; then observes the ship, ends the run where there is not
    /// exactly one, and spawns a new ship on the tick on which the run ends.
    pub fn reap(&mut self) -> (despawned: Vec<u64>)
        requires
            well_formed(old(self)@),
            old(self).next_entity < u64::MAX,
        ensures
            final(self)@ == reaped(old(self)@),
            despawned@ == casualties(old(self)@.bodies, old(self)@.bodies.len() as int),
            well_formed(final(self)@),
            final(self).next_entity <= old(self).next_entity + 1,
    {
        let ghost before = self@.bodies;
        let despawned = despawn_dead_entities(&mut self.bodies);
        proof {
            lemma_survivors_distinct(before, before.len() as int);
            assert forall|k: int| 0 <= k < self@.bodies.len() implies (
            #[trigger] self@.bodies[k]).entity < self.next_entity by {
                let body = self@.bodies[k];
                assert(survivors(before, before.len() as int).contains(body));
                lemma_survivors_contains(before, before.len() as int, body);
            }
        }
        let next = spaceship_destroyed(self.state, &self.bodies);
        let entering = match (self.state, next) {
            (GameState::InGame, GameState::GameOver) => true,
            _ => false,
        };
        self.state = next;
        if entering {
            self.spawn(spawn_spaceship());
        }
        despawned
    }

    /// Restart: takes a run that is over back into the game, provided that
    /// exactly one ship stands ready.
    pub fn resume(&mut self)
        ensures
            final(self)@ == resumed(old(self)@),
    {
        self.state = restart_for(self.state, count_ships(&self.bodies));
    }

    /// One tick: spawn systems, then detection, classification and damage
    /// resolution, then reaping. Returns the entities despawned.
    pub fn tick(&mut self, delta: u32, ship: &Option<ShipPose>, controls: &Controls) -> (despawned:
        Vec<u64>)
        requires
            well_formed(old(self)@),
            old(self).next_entity <= u64::MAX - 3,
            can_fire(*ship, *controls),
        ensures
            exists|grown: SimulationView|
                {
                    &&& #[trigger] spawned(old(self)@, delta, *ship, *controls, grown)
                    &&& final(self)@ == reaped(collided(grown))
                    &&& despawned@ == casualties(
                        collided(grown).bodies,
                        collided(grown).bodies.len() as int,
                    )
                },
            well_formed(final(self)@),
    {
        self.spawn_systems(delta, ship, controls);
        let ghost grown = self@;
        self.run_collisions();
        let despawned = self.reap();
        assert(spawned(old(self)@, delta, *ship, *controls, grown));
        despawned
    }
}

/// Two lists that agree on their first `n` bodies hold as many ships there.
proof fn lemma_ship_count_agrees(a: Seq<BodyView>, b: Seq<BodyView>, n: int)
    requires
        0 <= n <= a.len(),
        n <= b.len(),
        forall|m: int| 0 <= m < n ==> a[m] == b[m],
    ensures
        ship_count(a, n) == ship_count(b, n),
    decreases n,
{
    if n > 0 {
        lemma_ship_count_agrees(a, b, n - 1);
    }
}

/// Game-over trigger: when reaping leaves no ship while the run is on, the
/// run is over on that tick, and exactly one ship, a new one, exists
/// afterwards.
pub proof fn lemma_game_over_trigger(sim: SimulationView)
    requires
        sim.state == GameState::InGame,
        ship_count(
            survivors(sim.bodies, sim.bodies.len() as int),
            survivors(sim.bodies, sim.bodies.len() as int).len() as int,
        ) == 0,
    ensures
        reaped(sim).state == GameState::GameOver,
        ship_count(reaped(sim).bodies, reaped(sim).bodies.len() as int) == 1,
        reaped(sim).bodies.last() == body_of(sim.next_entity, new_spaceship()),
{
    let alive = survivors(sim.bodies, sim.bodies.len() as int);
    lemma_ship_count_agrees(alive, reaped(sim).bodies, alive.len() as int);
}

/// Empty tick: with no collidable entity, the collision systems raise no
/// event and the reaper despawns nothing, whatever the state of the run.
pub proof fn lemma_empty_tick(sim: SimulationView)
    requires
        sim.bodies.len() == 0,
    ensures
        collided(sim).events == Seq::<CollisionEvent>::empty(),
        collided(sim).bodies == sim.bodies,
        casualties(collided(sim).bodies, collided(sim).bodies.len() as int) == Seq::<u64>::empty(),
{
    let found = detection_of(sim.bodies);
    assert(found =~= sim.bodies);
    assert(classified(found) =~= Seq::<CollisionEvent>::empty());
    assert(collided(sim).bodies =~= sim.bodies);
}

/// Empty tick without a state transition: with no collidable entity, and
/// the run already over, the collision systems and the reaper leave the
/// simulation as it is, but for the event queue, which is empty.
pub proof fn lemma_empty_tick_keeps_state(sim: SimulationView)
    requires
        sim.bodies.len() == 0,
        sim.state == GameState::GameOver,
    ensures
        reaped(collided(sim)) == (SimulationView { events: Seq::empty(), ..sim }),
{
    lemma_empty_tick(sim);
    assert(reaped(collided(sim)).bodies =~= sim.bodies);
}

/// Damage conservation: when the only two bodies are of different
/// archetypes, touch, and both have positive health and a damage payload,
/// then after detection, classification and damage resolution each has lost
/// exactly what the other inflicts, once.
pub proof fn lemma_isolated_collision(sim: SimulationView, hx: i64, dx: u32, hy: i64, dy: u32)
    requires
        sim.bodies.len() == 2,
        sim.bodies[0].entity != sim.bodies[1].entity,
        sim.bodies[0].archetype != sim.bodies[1].archetype,
        touching(sim.bodies, 0, 1),
        sim.bodies[0].health == Some(hx),
        sim.bodies[1].health == Some(hy),
        hx > 0,
        hy > 0,
        sim.bodies[0].collision_demage == Some(dx),
        sim.bodies[1].collision_demage == Some(dy),
    ensures
        collided(sim).bodies.len() == 2,
        collided(sim).bodies[0].health.is_some(),
        collided(sim).bodies[0].health.unwrap() == hx - dy,
        collided(sim).bodies[1].health.is_some(),
        collided(sim).bodies[1].health.unwrap() == hy - dx,
{
    let before = sim.bodies;
    let found = detection_of(before);
    let x = found[0].entity;
    let y = found[1].entity;
    let first = CollisionEvent { entity: x, collided_entity: y };
    let second = CollisionEvent { entity: y, collided_entity: x };
    lemma_touching_symmetric(before, 0, 1);
    reveal_with_fuel(crate::detection::overlaps_among, 3);
    assert(found[0].colliding_entities =~= seq![y]);
    assert(found[1].colliding_entities =~= seq![x]);
    assert forall|tag: Archetype| #[trigger]
        events_of_tag(found, tag, 2) == (if tag == found[0].archetype {
            seq![first]
        } else if tag == found[1].archetype {
            seq![second]
        } else {
            Seq::<CollisionEvent>::empty()
        }) by {
        reveal_with_fuel(events_of_tag, 3);
        reveal_with_fuel(crate::classification::events_of_body, 2);
        if crate::classification::carries(found, y, found[0].archetype) {
        }
        if crate::classification::carries(found, x, found[1].archetype) {
        }
        assert(events_of_tag(found, tag, 2) =~= (if tag == found[0].archetype {
            seq![first]
        } else if tag == found[1].archetype {
            seq![second]
        } else {
            Seq::<CollisionEvent>::empty()
        }));
    }
    let events = classified(found);
    assert(events =~= seq![first, second] || events =~= seq![second, first]);
    reveal_with_fuel(after_events, 3);
    if events == seq![first, second] {
        lemma_single_hit(found, 0, 1, hx, dy);
        let middle = after_event(found, first);
        lemma_single_hit(middle, 1, 0, hy, dx);
    } else {
        lemma_single_hit(found, 1, 0, hy, dx);
        let middle = after_event(found, second);
        lemma_single_hit(middle, 0, 1, hx, dy);
    }
}

} // verus!
