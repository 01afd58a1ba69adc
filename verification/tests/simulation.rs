use asteroid_arena::components::{
    Archetype, Body, CollisionDemage, CollisionEvent, GameState, Health, RotationVelocity,
    Velocity,
};
use asteroid_arena::controls::{
    scaled_against, scaled_along, spaceship_movement_controls, spaceship_shield_controls,
    spaceship_weapon_controls, Controls, ShipPose,
};
use asteroid_arena::geometry::{overlapping, Vec3};
use asteroid_arena::rotation::{update_rotation, Rotation, Turn};
use asteroid_arena::simulation::Simulation;
use asteroid_arena::spawn::{
    asteroid_from_samples, draw_asteroid_samples, floor_sqrt, horizontal_with_length, rescale,
    spawn_asteroid, spawn_spaceship, AsteroidSamples, SpawnTimer,
};

fn idle() -> Controls {
    Controls {
        forward: false,
        backward: false,
        turn_left: false,
        turn_right: false,
        roll_right: false,
        roll_left: false,
        fire: false,
        shield: false,
    }
}

fn asteroid_body(entity: u64, x: i32, z: i32) -> Body {
    Body::new(
        entity,
        Archetype::Asteroid,
        Vec3::new(x, 0, z),
        2_000,
        Some(Health::new(5_000)),
        Some(CollisionDemage::new(35_000)),
    )
}

#[test]
fn a_run_starts_with_the_ship() {
    let sim = Simulation::new();
    assert_eq!(sim.state, GameState::InGame);
    assert_eq!(sim.next_entity, 1);
    assert!(sim.events.is_empty());
    assert_eq!(sim.bodies.len(), 1);
    let ship = &sim.bodies[0];
    assert_eq!(ship.entity, 0);
    assert_eq!(ship.archetype, Archetype::Spaceship);
    assert_eq!(ship.translation, Vec3::new(0, 0, -20_000));
    assert_eq!(ship.collider.radius, 7_000);
    assert_eq!(ship.health, Some(Health::new(100_000)));
    assert_eq!(ship.collision_demage, Some(CollisionDemage::new(10_000)));
}

#[test]
fn concrete_scenario_ship_hit_by_asteroid() {
    let mut sim = Simulation::new();
    sim.bodies[0].translation = Vec3::new(0, 0, 0);
    sim.bodies.push(asteroid_body(1, 8_000, 0));
    sim.next_entity = 2;
    sim.run_collisions();
    assert_eq!(sim.bodies[0].collider.colliding_entities, vec![1]);
    assert_eq!(sim.bodies[1].collider.colliding_entities, vec![0]);
    assert_eq!(sim.events, vec![CollisionEvent::new(1, 0), CollisionEvent::new(0, 1)]);
    assert_eq!(sim.bodies[0].health, Some(Health::new(65_000)));
    assert_eq!(sim.bodies[1].health, Some(Health::new(-5_000)));
    let despawned = sim.reap();
    assert_eq!(despawned, vec![1]);
    assert_eq!(sim.bodies.len(), 1);
    assert_eq!(sim.bodies[0].health, Some(Health::new(65_000)));
    assert_eq!(sim.state, GameState::InGame);
}

#[test]
fn events_last_one_tick() {
    let mut sim = Simulation::new();
    sim.bodies[0].translation = Vec3::new(0, 0, 0);
    sim.bodies.push(asteroid_body(1, 8_000, 0));
    sim.next_entity = 2;
    sim.run_collisions();
    assert_eq!(sim.events.len(), 2);
    sim.bodies[1].translation = Vec3::new(90_000, 0, 0);
    sim.bodies[1].health = Some(Health::new(5_000));
    sim.run_collisions();
    assert!(sim.events.is_empty());
    assert_eq!(sim.bodies[0].health, Some(Health::new(65_000)));
}

#[test]
fn asteroids_do_not_damage_each_other() {
    let mut sim = Simulation::new();
    sim.bodies.push(asteroid_body(1, 8_000, 0));
    sim.bodies.push(asteroid_body(2, 8_500, 0));
    sim.next_entity = 3;
    sim.run_collisions();
    assert_eq!(sim.bodies[1].collider.colliding_entities, vec![2]);
    assert!(sim.events.is_empty());
    assert_eq!(sim.bodies[1].health, Some(Health::new(5_000)));
    assert_eq!(sim.bodies[2].health, Some(Health::new(5_000)));
}

#[test]
fn game_over_when_no_ship_is_left() {
    let mut sim = Simulation::new();
    sim.bodies[0].health = Some(Health::new(0));
    sim.bodies.push(asteroid_body(1, 8_000, 0));
    sim.next_entity = 2;
    let despawned = sim.reap();
    assert_eq!(despawned, vec![0]);
    assert_eq!(sim.state, GameState::GameOver);
    let ships: Vec<&Body> =
        sim.bodies.iter().filter(|b| b.archetype == Archetype::Spaceship).collect();
    assert_eq!(ships.len(), 1);
    assert_eq!(ships[0].entity, 2);
    assert_eq!(ships[0].health, Some(Health::new(100_000)));
    assert_eq!(ships[0].translation, Vec3::new(0, 0, -20_000));
    assert_eq!(sim.next_entity, 3);
    assert_eq!(sim.bodies.len(), 2);
}

#[test]
fn game_over_is_entered_once() {
    let mut sim = Simulation::new();
    sim.bodies.clear();
    sim.reap();
    assert_eq!(sim.state, GameState::GameOver);
    assert_eq!(sim.bodies.len(), 1);
    sim.reap();
    assert_eq!(sim.state, GameState::GameOver);
    assert_eq!(sim.bodies.len(), 1);
    sim.bodies.clear();
    sim.reap();
    assert_eq!(sim.state, GameState::GameOver);
    assert!(sim.bodies.is_empty());
}

#[test]
fn two_ships_end_the_run() {
    let mut sim = Simulation::new();
    sim.spawn(spawn_spaceship());
    sim.reap();
    assert_eq!(sim.state, GameState::GameOver);
    assert_eq!(sim.bodies.len(), 3);
}

#[test]
fn empty_tick_changes_nothing() {
    let mut sim = Simulation::new();
    sim.bodies.clear();
    sim.state = GameState::GameOver;
    let despawned = sim.tick(16, &None, &idle());
    assert!(despawned.is_empty());
    assert!(sim.events.is_empty());
    assert!(sim.bodies.is_empty());
    assert_eq!(sim.state, GameState::GameOver);
    assert_eq!(sim.next_entity, 1);
    assert_eq!(sim.spawn_timer, SpawnTimer { elapsed: 16, finished: false });
}

#[test]
fn tick_spawns_an_asteroid_when_the_timer_finishes() {
    let mut sim = Simulation::new();
    sim.tick(1_999, &None, &idle());
    assert_eq!(sim.bodies.len(), 1);
    sim.tick(1, &None, &idle());
    assert_eq!(sim.bodies.len(), 2);
    let asteroid = &sim.bodies[1];
    assert_eq!(asteroid.entity, 1);
    assert_eq!(asteroid.archetype, Archetype::Asteroid);
    assert_eq!(asteroid.collider.radius, 2_000);
    assert_eq!(asteroid.health, Some(Health::new(5_000)));
    assert_eq!(asteroid.collision_demage, Some(CollisionDemage::new(35_000)));
    assert_eq!(asteroid.translation.y, 0);
    assert!(-25_000 <= asteroid.translation.x && asteroid.translation.x < 25_000);
    assert!(0 <= asteroid.translation.z && asteroid.translation.z < 25_000);
    assert_eq!(sim.state, GameState::InGame);
}

#[test]
fn tick_fires_on_every_tick_the_control_is_held() {
    let mut sim = Simulation::new();
    let pose = ShipPose { translation: Vec3::new(0, 0, -20_000), forward: Vec3::new(0, 0, -1_000) };
    let mut controls = idle();
    controls.fire = true;
    sim.tick(16, &Some(pose), &controls);
    sim.tick(16, &Some(pose), &controls);
    let missiles: Vec<&Body> =
        sim.bodies.iter().filter(|b| b.archetype == Archetype::SpaceshipMissile).collect();
    assert_eq!(missiles.len(), 2);
    assert_eq!(missiles[0].translation, Vec3::new(0, 0, -12_500));
    assert_eq!(missiles[0].collider.radius, 30);
    assert_eq!(missiles[0].health, Some(Health::new(1_000)));
    assert_eq!(sim.bodies[0].health, Some(Health::new(100_000)));
}

#[test]
fn timer_keeps_what_is_left_over() {
    let mut timer = SpawnTimer::new();
    timer.tick(1_500);
    assert_eq!(timer, SpawnTimer { elapsed: 1_500, finished: false });
    assert!(!timer.just_finished());
    timer.tick(700);
    assert_eq!(timer, SpawnTimer { elapsed: 200, finished: true });
    assert!(timer.just_finished());
    timer.tick(100);
    assert_eq!(timer, SpawnTimer { elapsed: 300, finished: false });
    timer.tick(u32::MAX);
    assert_eq!(timer.elapsed, ((300u64 + 4_294_967_295u64) % 2_000) as u32);
    assert!(timer.finished);
}

#[test]
fn asteroid_generator_fires_on_the_interval() {
    let mut timer = SpawnTimer::new();
    assert!(spawn_asteroid(&mut timer, 1_000).is_none());
    let spawn = spawn_asteroid(&mut timer, 1_000).unwrap();
    assert_eq!(spawn.archetype, Archetype::Asteroid);
    assert_eq!(spawn.bundle.collider.radius, 2_000);
    assert!(spawn.bundle.collider.colliding_entities.is_empty());
    assert_eq!(spawn.health, Health::new(5_000));
    assert_eq!(spawn.collision_demage, CollisionDemage::new(35_000));
    assert!(spawn_asteroid(&mut timer, 10).is_none());
}

#[test]
fn samples_stay_in_their_ranges() {
    let mut seen_x = Vec::new();
    for _ in 0..200 {
        let s = draw_asteroid_samples();
        assert!(-25_000 <= s.x && s.x < 25_000);
        assert!(0 <= s.z && s.z < 25_000);
        assert!(-3_141 <= s.rotation.x && s.rotation.x < 3_142);
        assert!(-3_141 <= s.rotation.y && s.rotation.y < 3_142);
        assert!(-3_141 <= s.rotation.z && s.rotation.z < 3_142);
        assert!(-1_000 <= s.velocity_x && s.velocity_x < 1_000);
        assert!(-1_000 <= s.velocity_z && s.velocity_z < 1_000);
        assert!(-1_000 <= s.acceleration_x && s.acceleration_x < 1_000);
        assert!(-1_000 <= s.acceleration_z && s.acceleration_z < 1_000);
        seen_x.push(s.x);
    }
    seen_x.sort();
    seen_x.dedup();
    assert!(seen_x.len() > 1);
}

#[test]
fn asteroid_is_shaped_by_its_samples() {
    let samples = AsteroidSamples {
        x: -12_000,
        z: 7_000,
        rotation: Vec3::new(1, -2, 3),
        velocity_x: 600,
        velocity_z: -800,
        acceleration_x: 0,
        acceleration_z: 0,
    };
    let spawn = asteroid_from_samples(&samples);
    assert_eq!(spawn.bundle.translation, Vec3::new(-12_000, 0, 7_000));
    assert_eq!(spawn.bundle.rotation_velocity, RotationVelocity::new(Vec3::new(1, -2, 3)));
    assert_eq!(spawn.bundle.velocity, Velocity::new(Vec3::new(3_000, 0, -4_000)));
    assert_eq!(spawn.bundle.acceleration.value, Vec3::new(0, 0, 0));
}

#[test]
fn floor_sqrt_values() {
    assert_eq!(floor_sqrt(0), 0);
    assert_eq!(floor_sqrt(1), 1);
    assert_eq!(floor_sqrt(3), 1);
    assert_eq!(floor_sqrt(4), 2);
    assert_eq!(floor_sqrt(1_000_000), 1_000);
    assert_eq!(floor_sqrt(999_999), 999);
    assert_eq!(floor_sqrt(2_000_000), 1_414);
    assert_eq!(floor_sqrt(4_294_967_295), 65_535);
    assert_eq!(floor_sqrt(4_294_967_296), 65_536);
    assert_eq!(floor_sqrt(12_500_000), 3_535);
    assert_eq!(floor_sqrt(u64::MAX), 4_294_967_295);
}

#[test]
fn rescale_rounds_towards_zero() {
    assert_eq!(rescale(600, 1_000, 5_000), 3_000);
    assert_eq!(rescale(-600, 1_000, 5_000), -3_000);
    assert_eq!(rescale(1, 3, 1_000), 333);
    assert_eq!(rescale(-1, 3, 1_000), -333);
    assert_eq!(rescale(0, 7, 1_000), 0);
    assert_eq!(rescale(7, 7, 1_000), 1_000);
}

#[test]
fn horizontal_vectors_get_their_length() {
    assert_eq!(horizontal_with_length(600, -800, 5_000), Vec3::new(3_000, 0, -4_000));
    assert_eq!(horizontal_with_length(0, 0, 5_000), Vec3::new(0, 0, 0));
    assert_eq!(horizontal_with_length(1_000, 0, 1_000), Vec3::new(1_000, 0, 0));
    assert_eq!(horizontal_with_length(-1_000, -1_000, 1_000), Vec3::new(-707, 0, -707));
}

#[test]
fn short_vectors_get_the_same_length() {
    assert_eq!(horizontal_with_length(1, 1, 5_000), Vec3::new(3_535, 0, 3_535));
    assert_eq!(horizontal_with_length(1, -1, 1_000), Vec3::new(707, 0, -707));
    assert_eq!(horizontal_with_length(31, 40, 5_000), Vec3::new(3_062, 0, 3_952));
    assert_eq!(horizontal_with_length(0, -1, 5_000), Vec3::new(0, 0, -5_000));
    assert_eq!(horizontal_with_length(3, 4, 5_000), Vec3::new(3_000, 0, 4_000));
    assert_eq!(horizontal_with_length(-999, 1, 5_000), Vec3::new(-4_999, 0, 5));
}

#[test]
fn vectors_of_any_size_get_their_length() {
    assert_eq!(
        horizontal_with_length(i32::MIN, 0, 2_147_483_647),
        Vec3::new(-2_147_483_647, 0, 0)
    );
    assert_eq!(
        horizontal_with_length(i32::MAX, i32::MAX, 1_000),
        Vec3::new(707, 0, 707)
    );
    assert_eq!(horizontal_with_length(7, 24, 0), Vec3::new(0, 0, 0));
}

#[test]
fn scaled_length_is_the_scalar_up_to_rounding() {
    for x in -40i32..40 {
        for z in -40i32..40 {
            if x == 0 && z == 0 {
                continue;
            }
            let v = horizontal_with_length(x, z, 5_000);
            let (a, b) = (v.x.abs() as i64, v.z.abs() as i64);
            assert_eq!(v.y, 0);
            assert!(a * a + b * b <= 25_000_000);
            assert!((a + 1) * (a + 1) + (b + 1) * (b + 1) > 25_000_000);
            assert_eq!(v.x.signum(), if a == 0 { 0 } else { x.signum() });
            assert_eq!(v.z.signum(), if b == 0 { 0 } else { z.signum() });
        }
    }
}

#[test]
fn asteroid_speed_does_not_depend_on_the_size_of_the_sample() {
    let samples = AsteroidSamples {
        x: 0,
        z: 0,
        rotation: Vec3::new(0, 0, 0),
        velocity_x: 1,
        velocity_z: 1,
        acceleration_x: -1,
        acceleration_z: 0,
    };
    let spawn = asteroid_from_samples(&samples);
    assert_eq!(spawn.bundle.velocity.value, Vec3::new(3_535, 0, 3_535));
    assert_eq!(spawn.bundle.acceleration.value, Vec3::new(-1_000, 0, 0));
}

#[test]
fn scaled_vectors() {
    let forward = Vec3::new(0, 600, -800);
    assert_eq!(scaled_against(&forward, 25_000), Vec3::new(0, -15_000, 20_000));
    assert_eq!(scaled_along(&forward, 25_000), Vec3::new(0, 15_000, -20_000));
    assert_eq!(scaled_against(&Vec3::new(1, 0, -1), 7_500), Vec3::new(-7, 0, 7));
}

#[test]
fn movement_controls_set_velocity_and_rates() {
    let forward = Vec3::new(0, 0, -1_000);
    let mut velocity = Velocity::new(Vec3::new(9, 9, 9));
    let mut rotation = RotationVelocity::new(Vec3::new(5, 6, 7));
    let mut controls = idle();
    spaceship_movement_controls(&forward, &controls, &mut velocity, &mut rotation);
    assert_eq!(velocity.value, Vec3::new(0, 0, 0));
    assert_eq!(rotation.value, Vec3::new(5, 0, 0));
    controls.forward = true;
    controls.backward = true;
    controls.turn_left = true;
    controls.roll_left = true;
    spaceship_movement_controls(&forward, &controls, &mut velocity, &mut rotation);
    assert_eq!(velocity.value, Vec3::new(0, 0, 25_000));
    assert_eq!(rotation.value, Vec3::new(5, 2_500, -2_500));
    controls.forward = false;
    controls.turn_left = false;
    controls.turn_right = true;
    controls.roll_right = true;
    spaceship_movement_controls(&forward, &controls, &mut velocity, &mut rotation);
    assert_eq!(velocity.value, Vec3::new(0, 0, -25_000));
    assert_eq!(rotation.value, Vec3::new(5, -2_500, 2_500));
}

#[test]
fn weapon_fires_only_with_a_ship_and_the_control_held() {
    let pose = ShipPose { translation: Vec3::new(1_000, 0, -20_000), forward: Vec3::new(0, 0, -1_000) };
    let mut controls = idle();
    assert!(spaceship_weapon_controls(&Some(pose), &controls).is_none());
    controls.fire = true;
    assert!(spaceship_weapon_controls(&None, &controls).is_none());
    let missile = spaceship_weapon_controls(&Some(pose), &controls).unwrap();
    assert_eq!(missile.archetype, Archetype::SpaceshipMissile);
    assert_eq!(missile.bundle.translation, Vec3::new(1_000, 0, -12_500));
    assert_eq!(missile.bundle.velocity.value, Vec3::new(0, 0, 20_000));
    assert_eq!(missile.bundle.acceleration.value, Vec3::new(0, 0, 0));
    assert_eq!(missile.bundle.rotation_velocity.value, Vec3::new(0, 0, 0));
    assert_eq!(missile.bundle.collider.radius, 30);
    assert_eq!(missile.health, Health::new(1_000));
    assert_eq!(missile.collision_demage, CollisionDemage::new(1_000));
}

#[test]
fn missile_starts_clear_of_the_ship() {
    let mut controls = idle();
    controls.fire = true;
    for forward in [
        Vec3::new(0, 0, -1_000),
        Vec3::new(577, 577, 577),
        Vec3::new(-600, 0, 800),
        Vec3::new(999, -1, 1),
    ] {
        let pose = ShipPose { translation: Vec3::new(3, -4, 5), forward };
        let missile = spaceship_weapon_controls(&Some(pose), &controls).unwrap();
        assert!(!overlapping(
            &pose.translation,
            7_000,
            &missile.bundle.translation,
            missile.bundle.collider.radius
        ));
    }
}

#[test]
fn weapon_at_the_edge_of_the_world() {
    let pose = ShipPose {
        translation: Vec3::new(i32::MAX - 7_500, i32::MIN + 7_500, i32::MAX),
        forward: Vec3::new(-1_000, 1_000, 0),
    };
    let mut controls = idle();
    controls.fire = true;
    let missile = spaceship_weapon_controls(&Some(pose), &controls).unwrap();
    assert_eq!(missile.bundle.translation, Vec3::new(i32::MAX, i32::MIN, i32::MAX));
}

#[test]
fn weapon_asks_nothing_of_the_pose_while_it_does_not_fire() {
    let pose = ShipPose {
        translation: Vec3::new(i32::MAX, i32::MIN, 0),
        forward: Vec3::new(5_000, -5_000, 0),
    };
    assert!(spaceship_weapon_controls(&Some(pose), &idle()).is_none());
}

#[test]
fn empty_tick_in_game_raises_nothing_and_despawns_nothing() {
    let mut sim = Simulation::new();
    sim.bodies.clear();
    let despawned = sim.tick(16, &None, &idle());
    assert!(despawned.is_empty());
    assert!(sim.events.is_empty());
    assert_eq!(sim.state, GameState::GameOver);
    assert_eq!(sim.bodies.len(), 1);
    assert_eq!(sim.bodies[0].archetype, Archetype::Spaceship);
}

#[test]
fn a_run_that_is_over_resumes_with_one_ship() {
    let mut sim = Simulation::new();
    sim.resume();
    assert_eq!(sim.state, GameState::InGame);
    sim.bodies.clear();
    sim.reap();
    assert_eq!(sim.state, GameState::GameOver);
    sim.resume();
    assert_eq!(sim.state, GameState::InGame);
    sim.bodies.clear();
    sim.state = GameState::GameOver;
    sim.resume();
    assert_eq!(sim.state, GameState::GameOver);
    sim.spawn(spawn_spaceship());
    sim.spawn(spawn_spaceship());
    sim.resume();
    assert_eq!(sim.state, GameState::GameOver);
}

#[test]
fn shield_goes_to_the_ship_while_held() {
    let mut controls = idle();
    assert_eq!(spaceship_shield_controls(Some(4), &controls), None);
    controls.shield = true;
    assert_eq!(spaceship_shield_controls(Some(4), &controls), Some(4));
    assert_eq!(spaceship_shield_controls(None, &controls), None);
}

#[test]
fn rotation_step_is_rate_times_time() {
    let rate = RotationVelocity::new(Vec3::new(2_500, -2_500, 0));
    assert_eq!(update_rotation(&rate, 16), Turn { x: 40_000, y: -40_000, z: 0 });
    let extreme = RotationVelocity::new(Vec3::new(i32::MIN, i32::MAX, 1));
    let turn = update_rotation(&extreme, u32::MAX);
    assert_eq!(turn.x, -2_147_483_648i64 * 4_294_967_295i64);
    assert_eq!(turn.y, 2_147_483_647i64 * 4_294_967_295i64);
    assert_eq!(turn.z, 4_294_967_295);
    assert_eq!(Rotation::new(Vec3::new(1, 2, 3)).value, Vec3::new(1, 2, 3));
}

#[test]
fn spawn_hands_out_fresh_identifiers() {
    let mut sim = Simulation::new();
    let a = sim.spawn(spawn_spaceship());
    let b = sim.spawn(spawn_spaceship());
    assert_eq!((a, b), (1, 2));
    assert_eq!(sim.next_entity, 3);
    assert_eq!(sim.bodies[2].entity, 2);
}
