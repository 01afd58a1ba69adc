use asteroid_arena::classification::{handle_collisions, has_archetype};
use asteroid_arena::components::{Archetype, Body, CollisionDemage, CollisionEvent, Health};
use asteroid_arena::damage::{apply_collision_demage, apply_collision_event, find_entity};
use asteroid_arena::detection::collision_detection;
use asteroid_arena::geometry::Vec3;
use asteroid_arena::lifecycle::{
    count_ships, dead, despawn_dead_entities, restart_for, spaceship_destroyed, state_for,
};
use asteroid_arena::components::GameState;

fn full(entity: u64, archetype: Archetype, x: i32, radius: u32, health: i64, demage: u32) -> Body {
    Body::new(
        entity,
        archetype,
        Vec3::new(x, 0, 0),
        radius,
        Some(Health::new(health)),
        Some(CollisionDemage::new(demage)),
    )
}

fn trio() -> Vec<Body> {
    let mut bodies = vec![
        full(1, Archetype::Spaceship, 0, 7_000, 100_000, 10_000),
        full(2, Archetype::Asteroid, 8_000, 2_000, 5_000, 35_000),
        full(3, Archetype::Asteroid, 9_000, 2_000, 5_000, 35_000),
        full(4, Archetype::SpaceshipMissile, 10_900, 30, 1_000, 1_000),
    ];
    collision_detection(&mut bodies);
    bodies
}

#[test]
fn has_archetype_looks_at_entity_and_tag() {
    let bodies = trio();
    assert!(has_archetype(&bodies, 1, Archetype::Spaceship));
    assert!(!has_archetype(&bodies, 1, Archetype::Asteroid));
    assert!(has_archetype(&bodies, 3, Archetype::Asteroid));
    assert!(!has_archetype(&bodies, 99, Archetype::Asteroid));
}

#[test]
fn ship_classifier_raises_events_against_other_archetypes() {
    let bodies = trio();
    let mut events = Vec::new();
    handle_collisions(Archetype::Spaceship, &bodies, &mut events);
    assert_eq!(events, vec![CollisionEvent::new(1, 2)]);
}

#[test]
fn asteroid_classifier_skips_other_asteroids() {
    let bodies = trio();
    assert_eq!(bodies[1].collider.colliding_entities, vec![1, 3]);
    assert_eq!(bodies[2].collider.colliding_entities, vec![2, 4]);
    let mut events = Vec::new();
    handle_collisions(Archetype::Asteroid, &bodies, &mut events);
    assert_eq!(events, vec![CollisionEvent::new(2, 1), CollisionEvent::new(3, 4)]);
}

#[test]
fn missile_classifier_raises_its_own_direction() {
    let bodies = trio();
    let mut events = Vec::new();
    handle_collisions(Archetype::SpaceshipMissile, &bodies, &mut events);
    assert_eq!(events, vec![CollisionEvent::new(4, 3)]);
}

#[test]
fn each_cross_archetype_pair_gives_one_event_per_direction() {
    let bodies = trio();
    let mut events = Vec::new();
    handle_collisions(Archetype::Asteroid, &bodies, &mut events);
    handle_collisions(Archetype::Spaceship, &bodies, &mut events);
    handle_collisions(Archetype::SpaceshipMissile, &bodies, &mut events);
    let count = |e: CollisionEvent| events.iter().filter(|x| **x == e).count();
    assert_eq!(count(CollisionEvent::new(1, 2)), 1);
    assert_eq!(count(CollisionEvent::new(2, 1)), 1);
    assert_eq!(count(CollisionEvent::new(3, 4)), 1);
    assert_eq!(count(CollisionEvent::new(4, 3)), 1);
    assert_eq!(count(CollisionEvent::new(2, 3)), 0);
    assert_eq!(count(CollisionEvent::new(3, 2)), 0);
    assert_eq!(events.len(), 4);
}

#[test]
fn classifier_appends_to_the_queue() {
    let bodies = trio();
    let mut events = vec![CollisionEvent::new(70, 71)];
    handle_collisions(Archetype::Spaceship, &bodies, &mut events);
    assert_eq!(events, vec![CollisionEvent::new(70, 71), CollisionEvent::new(1, 2)]);
}

#[test]
fn classifier_raises_event_against_a_departed_entity() {
    let mut bodies = vec![full(1, Archetype::Spaceship, 0, 7_000, 100_000, 10_000)];
    bodies[0].collider.colliding_entities = vec![42];
    let mut events = Vec::new();
    handle_collisions(Archetype::Spaceship, &bodies, &mut events);
    assert_eq!(events, vec![CollisionEvent::new(1, 42)]);
}

#[test]
fn find_entity_gives_the_place() {
    let bodies = trio();
    assert_eq!(find_entity(&bodies, 3), Some(2));
    assert_eq!(find_entity(&bodies, 5), None);
}

#[test]
fn damage_is_subtracted_once() {
    let mut bodies = vec![
        full(1, Archetype::Spaceship, 0, 7_000, 100_000, 10_000),
        full(2, Archetype::Asteroid, 8_000, 2_000, 5_000, 35_000),
    ];
    apply_collision_event(&CollisionEvent::new(1, 2), &mut bodies);
    assert_eq!(bodies[0].health, Some(Health::new(65_000)));
    assert_eq!(bodies[1].health, Some(Health::new(5_000)));
}

#[test]
fn damage_may_take_health_below_zero() {
    let mut bodies = vec![
        full(1, Archetype::Spaceship, 0, 7_000, 100_000, 10_000),
        full(2, Archetype::Asteroid, 8_000, 2_000, 5_000, 35_000),
    ];
    apply_collision_event(&CollisionEvent::new(2, 1), &mut bodies);
    assert_eq!(bodies[1].health, Some(Health::new(-5_000)));
}

#[test]
fn no_further_damage_at_or_below_zero() {
    let mut bodies = vec![
        full(1, Archetype::Spaceship, 0, 7_000, 100_000, 10_000),
        full(2, Archetype::Asteroid, 8_000, 2_000, 5_000, 35_000),
        full(3, Archetype::SpaceshipMissile, 8_000, 30, 1_000, 1_000),
    ];
    let events = vec![CollisionEvent::new(2, 1), CollisionEvent::new(2, 3)];
    apply_collision_demage(&events, &mut bodies);
    assert_eq!(bodies[1].health, Some(Health::new(-5_000)));
    let mut zero = vec![
        full(1, Archetype::Spaceship, 0, 7_000, 0, 10_000),
        full(2, Archetype::Asteroid, 8_000, 2_000, 5_000, 35_000),
    ];
    apply_collision_event(&CollisionEvent::new(1, 2), &mut zero);
    assert_eq!(zero[0].health, Some(Health::new(0)));
}

#[test]
fn several_attackers_add_up_while_health_is_positive() {
    let mut bodies = vec![
        full(1, Archetype::Spaceship, 0, 7_000, 100_000, 10_000),
        full(2, Archetype::Asteroid, 8_000, 2_000, 5_000, 35_000),
        full(3, Archetype::Asteroid, 8_000, 2_000, 5_000, 35_000),
    ];
    let events = vec![CollisionEvent::new(1, 2), CollisionEvent::new(1, 3)];
    apply_collision_demage(&events, &mut bodies);
    assert_eq!(bodies[0].health, Some(Health::new(30_000)));
}

#[test]
fn victim_without_health_is_skipped() {
    let mut bodies = vec![
        Body::new(1, Archetype::Spaceship, Vec3::new(0, 0, 0), 7_000, None, None),
        full(2, Archetype::Asteroid, 8_000, 2_000, 5_000, 35_000),
    ];
    apply_collision_event(&CollisionEvent::new(1, 2), &mut bodies);
    assert_eq!(bodies[0].health, None);
    assert_eq!(bodies[1].health, Some(Health::new(5_000)));
}

#[test]
fn attacker_without_damage_is_skipped() {
    let mut bodies = vec![
        Body::new(1, Archetype::Spaceship, Vec3::new(0, 0, 0), 7_000, None, None),
        full(2, Archetype::Asteroid, 8_000, 2_000, 5_000, 35_000),
    ];
    apply_collision_event(&CollisionEvent::new(2, 1), &mut bodies);
    assert_eq!(bodies[1].health, Some(Health::new(5_000)));
}

#[test]
fn stale_entities_are_skipped() {
    let mut bodies = vec![full(2, Archetype::Asteroid, 8_000, 2_000, 5_000, 35_000)];
    let events = vec![CollisionEvent::new(2, 9), CollisionEvent::new(9, 2)];
    apply_collision_demage(&events, &mut bodies);
    assert_eq!(bodies.len(), 1);
    assert_eq!(bodies[0].health, Some(Health::new(5_000)));
}

#[test]
fn largest_damage_does_not_overflow() {
    let mut bodies = vec![
        full(1, Archetype::Spaceship, 0, 7_000, 1, u32::MAX),
        full(2, Archetype::Asteroid, 8_000, 2_000, i64::MAX, u32::MAX),
    ];
    let events = vec![CollisionEvent::new(1, 2), CollisionEvent::new(2, 1)];
    apply_collision_demage(&events, &mut bodies);
    assert_eq!(bodies[0].health, Some(Health::new(1 - 4_294_967_295)));
    assert_eq!(bodies[1].health, Some(Health::new(i64::MAX - 4_294_967_295)));
}

#[test]
fn dead_means_health_at_or_below_zero() {
    assert!(dead(&full(1, Archetype::Asteroid, 0, 1, 0, 1)));
    assert!(dead(&full(1, Archetype::Asteroid, 0, 1, -1, 1)));
    assert!(!dead(&full(1, Archetype::Asteroid, 0, 1, 1, 1)));
    assert!(!dead(&Body::new(1, Archetype::Asteroid, Vec3::new(0, 0, 0), 1, None, None)));
}

#[test]
fn despawn_removes_exactly_the_dead() {
    let mut bodies = vec![
        full(1, Archetype::Spaceship, 0, 7_000, 1, 10_000),
        full(2, Archetype::Asteroid, 8_000, 2_000, 0, 35_000),
        Body::new(3, Archetype::Asteroid, Vec3::new(0, 0, 0), 1, None, None),
        full(4, Archetype::SpaceshipMissile, 8_000, 30, -7, 1_000),
        full(5, Archetype::Asteroid, 8_000, 2_000, 5_000, 35_000),
    ];
    let despawned = despawn_dead_entities(&mut bodies);
    assert_eq!(despawned, vec![2, 4]);
    let left: Vec<u64> = bodies.iter().map(|b| b.entity).collect();
    assert_eq!(left, vec![1, 3, 5]);
}

#[test]
fn despawn_of_all_and_of_none() {
    let mut all = vec![
        full(1, Archetype::Asteroid, 0, 1, 0, 1),
        full(2, Archetype::Asteroid, 0, 1, -3, 1),
    ];
    assert_eq!(despawn_dead_entities(&mut all), vec![1, 2]);
    assert!(all.is_empty());
    let mut none = vec![full(1, Archetype::Asteroid, 0, 1, 1, 1)];
    assert_eq!(despawn_dead_entities(&mut none), Vec::<u64>::new());
    assert_eq!(none.len(), 1);
}

#[test]
fn health_crossing_zero_is_despawned_by_the_next_pass() {
    let mut bodies = vec![
        full(1, Archetype::Spaceship, 0, 7_000, 100_000, 10_000),
        full(2, Archetype::Asteroid, 8_000, 2_000, 5_000, 35_000),
    ];
    assert_eq!(despawn_dead_entities(&mut bodies), Vec::<u64>::new());
    apply_collision_event(&CollisionEvent::new(2, 1), &mut bodies);
    assert_eq!(despawn_dead_entities(&mut bodies), vec![2]);
    assert_eq!(bodies.len(), 1);
    assert_eq!(bodies[0].entity, 1);
}

#[test]
fn ship_observation() {
    let none: Vec<Body> = vec![full(2, Archetype::Asteroid, 0, 1, 1, 1)];
    let one = vec![full(1, Archetype::Spaceship, 0, 1, 1, 1)];
    let two = vec![
        full(1, Archetype::Spaceship, 0, 1, 1, 1),
        full(2, Archetype::Spaceship, 0, 1, 1, 1),
    ];
    assert_eq!(count_ships(&none), 0);
    assert_eq!(count_ships(&one), 1);
    assert_eq!(count_ships(&two), 2);
    assert_eq!(spaceship_destroyed(GameState::InGame, &none), GameState::GameOver);
    assert_eq!(spaceship_destroyed(GameState::InGame, &one), GameState::InGame);
    assert_eq!(spaceship_destroyed(GameState::GameOver, &one), GameState::GameOver);
    assert_eq!(spaceship_destroyed(GameState::InGame, &two), GameState::GameOver);
    assert_eq!(state_for(GameState::InGame, 1), GameState::InGame);
    assert_eq!(state_for(GameState::InGame, 0), GameState::GameOver);
    assert_eq!(state_for(GameState::GameOver, 7), GameState::GameOver);
}

#[test]
fn restart_needs_exactly_one_ship() {
    assert_eq!(restart_for(GameState::GameOver, 1), GameState::InGame);
    assert_eq!(restart_for(GameState::GameOver, 0), GameState::GameOver);
    assert_eq!(restart_for(GameState::GameOver, 2), GameState::GameOver);
    assert_eq!(restart_for(GameState::InGame, 1), GameState::InGame);
    assert_eq!(restart_for(GameState::InGame, 0), GameState::InGame);
}
