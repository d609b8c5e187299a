use gravinyon::engine::{FrameInput, SimulationEngine};
use gravinyon::entity::Entity;
use gravinyon::spawn::ObstacleParams;
use gravinyon::table::{MeshClass, Orientation};
use gravinyon::{
    INITIAL_OBSTACLES, OBSTACLE_LIFE, SHIP_RADIUS, SPAWN_X, TURN, UNIT, X_BOUND,
};

fn idle_input() -> FrameInput {
    FrameInput { aim_x: 0, aim_y: 0, thrust: false, fire_held: false, restart: false }
}

fn still_obstacle(scale: i64) -> ObstacleParams {
    ObstacleParams { y: 0, angle: 0, scale, vx: 0, vy: 0, spin: 0 }
}

#[test]
fn damage_accumulates_two_shots_same_frame() {
    let mut e = SimulationEngine::with_ship(0, 0);
    e.spawn_obstacle(still_obstacle(30_000));
    // two shots inside the obstacle's circle; they die, it loses 2 life
    e.spawn_shot(SPAWN_X - 20_000, 0, UNIT, 0);
    e.spawn_shot(SPAWN_X + 20_000, 0, UNIT, 0);
    let report = e.advance_frame(idle_input());
    assert_eq!(report.shots_removed, 2);
    assert_eq!(report.obstacles_destroyed, 0);
    assert_eq!(e.entity_count(), 2);
    match e.entity(1) {
        Entity::Obstacle(o) => assert_eq!(o.life, OBSTACLE_LIFE - 2),
        _ => panic!("expected the obstacle to survive"),
    }
    assert_eq!(e.score(), 0);
}

#[test]
fn obstacle_removed_exactly_when_life_reaches_zero() {
    let mut e = SimulationEngine::with_ship(0, 0);
    e.spawn_obstacle(still_obstacle(30_000));
    // OBSTACLE_LIFE is odd: after (OBSTACLE_LIFE - 1) / 2 frames of two
    // hits each, one life is left and the obstacle still stands
    let full_frames = ((OBSTACLE_LIFE - 1) / 2) as usize;
    for _ in 0..full_frames {
        e.spawn_shot(SPAWN_X - 20_000, 0, UNIT, 0);
        e.spawn_shot(SPAWN_X + 20_000, 0, UNIT, 0);
        let report = e.advance_frame(idle_input());
        assert_eq!(report.obstacles_destroyed, 0);
    }
    match e.entity(1) {
        Entity::Obstacle(o) => assert_eq!(o.life, 1),
        _ => panic!("expected the obstacle to survive on one life"),
    }
    assert_eq!(e.score(), 0);
    // the next double hit saturates life at zero and removes it
    e.spawn_shot(SPAWN_X - 20_000, 0, UNIT, 0);
    e.spawn_shot(SPAWN_X + 20_000, 0, UNIT, 0);
    let report = e.advance_frame(idle_input());
    assert_eq!(report.obstacles_destroyed, 1);
    assert_eq!(e.score(), 1);
    // the death raised a spawn event: two replacements entered
    let mut obstacles = 0;
    for i in 0..e.entity_count() {
        if matches!(e.entity(i), Entity::Obstacle(_)) {
            obstacles += 1;
        }
    }
    assert_eq!(obstacles, 2);
}

#[test]
fn end_to_end_drift_into_ship_freezes_world_until_restart() {
    let mut e = SimulationEngine::with_ship(0, 0);
    // one obstacle at (1.05, 0), scale 0.03, velocity (-0.01, 0)
    e.spawn_obstacle(ObstacleParams { y: 0, angle: 0, scale: 30_000, vx: -10_000, vy: 0, spin: 0 });
    let mut frames = 0;
    while !e.is_game_over() && frames < 200 {
        e.advance_frame(idle_input());
        frames += 1;
    }
    // it closes 1.05 at 0.01 per frame; contact at distance < 0.02 + 0.03
    assert!(e.is_game_over(), "the obstacle should have hit the ship");
    assert!(frames >= 100, "game over cannot come before contact is possible");
    // frozen: no further entity mutation until a restart is requested
    let count = e.entity_count();
    let obstacle_before = match e.entity(1) {
        Entity::Obstacle(o) => (o.x, o.y, o.vx, o.vy, o.life),
        _ => panic!("expected the obstacle"),
    };
    for _ in 0..5 {
        let report = e.advance_frame(idle_input());
        assert_eq!(report.obstacles_destroyed, 0);
        assert_eq!(report.shots_removed, 0);
    }
    assert!(e.is_game_over());
    assert_eq!(e.entity_count(), count);
    match e.entity(1) {
        Entity::Obstacle(o) => assert_eq!((o.x, o.y, o.vx, o.vy, o.life), obstacle_before),
        _ => panic!("expected the obstacle"),
    }
    // restart: fresh world, score reset
    let input = FrameInput { restart: true, ..idle_input() };
    e.advance_frame(input);
    assert!(!e.is_game_over());
    assert_eq!(e.score(), 0);
    assert_eq!(e.entity_count(), 1 + INITIAL_OBSTACLES);
    match e.entity(0) {
        Entity::Ship(s) => {
            assert_eq!((s.x, s.y, s.vx, s.vy), (0, 0, 0, 0));
        },
        _ => panic!("expected the ship first"),
    }
}

#[test]
fn firing_spawns_symmetric_volley_and_respects_cooldown() {
    let mut e = SimulationEngine::with_ship(0, 0);
    let fire = FrameInput { aim_x: 500_000, aim_y: 0, thrust: false, fire_held: true, restart: false };
    e.advance_frame(fire);
    assert_eq!(e.entity_count(), 3);
    // aim straight right: the volley sits forward of the ship, offset
    // symmetrically sideways
    let (s0, s1) = match (e.entity(1), e.entity(2)) {
        (Entity::Shot(a), Entity::Shot(b)) => (*a, *b),
        _ => panic!("expected two shots"),
    };
    assert_eq!(s0.y, -s1.y);
    assert_eq!(s0.x, s1.x);
    // the cooldown keeps the trigger quiet for the next frames
    for _ in 0..12 {
        e.advance_frame(fire);
        assert_eq!(e.entity_count(), 3);
    }
    // and then the next volley comes
    e.advance_frame(fire);
    assert_eq!(e.entity_count(), 5);
}

#[test]
fn score_only_increases_and_resets_only_on_restart() {
    let mut e = SimulationEngine::with_ship(0, 0);
    e.spawn_obstacle(still_obstacle(30_000));
    let mut last_score = e.score();
    // hammer the obstacle to death; the score may only ever rise
    for _ in 0..((OBSTACLE_LIFE + 1) / 2) {
        e.spawn_shot(SPAWN_X - 20_000, 0, UNIT, 0);
        e.spawn_shot(SPAWN_X + 20_000, 0, UNIT, 0);
        let report = e.advance_frame(idle_input());
        let score = e.score();
        assert!(score >= last_score, "score decreased without a restart");
        assert_eq!(score, last_score + report.obstacles_destroyed as u64);
        last_score = score;
    }
    assert_eq!(e.score(), 1);
}

#[test]
fn homing_force_and_thrust_have_documented_magnitudes() {
    // far from the aim point the homing force is capped at 0.0001/frame
    let mut e = SimulationEngine::with_ship(0, 0);
    let aim = FrameInput { aim_x: 200_000, aim_y: 0, thrust: false, fire_held: false, restart: false };
    e.advance_frame(aim);
    match e.entity(0) {
        Entity::Ship(s) => {
            assert_eq!(s.vx, 100);
            assert_eq!(s.vy, 0);
            assert_eq!(s.x, 100);
        },
        _ => panic!("expected the ship"),
    }
    // a thrust impulse adds 0.003 along the aim direction on top of it
    let mut e2 = SimulationEngine::with_ship(0, 0);
    let thrust = FrameInput { thrust: true, ..aim };
    e2.advance_frame(thrust);
    match e2.entity(0) {
        Entity::Ship(s) => {
            assert_eq!(s.vx, 3_100);
            assert_eq!(s.vy, 0);
        },
        _ => panic!("expected the ship"),
    }
    // close to the aim point the force falls off with squared distance:
    // at 0.6 units it is 0.000025 / 0.36, well under the cap
    let mut e3 = SimulationEngine::with_ship(0, 0);
    let far = FrameInput { aim_x: 600_000, aim_y: 0, thrust: false, fire_held: false, restart: false };
    e3.advance_frame(far);
    match e3.entity(0) {
        Entity::Ship(s) => assert_eq!(s.vx, 69),
        _ => panic!("expected the ship"),
    }
}

#[test]
fn initial_setup_spawns_documented_ranges() {
    let e = SimulationEngine::new_game();
    assert_eq!(e.entity_count(), 1 + INITIAL_OBSTACLES);
    assert!(!e.is_game_over());
    assert_eq!(e.score(), 0);
    match e.entity(0) {
        Entity::Ship(s) => assert_eq!((s.x, s.y, s.vx, s.vy), (0, 0, 0, 0)),
        _ => panic!("expected the ship first"),
    }
    for i in 1..e.entity_count() {
        match e.entity(i) {
            Entity::Obstacle(o) => {
                assert_eq!(o.x, SPAWN_X);
                assert!(-400_000 <= o.y && o.y < 400_000);
                assert!(0 <= o.angle && o.angle < TURN);
                assert!(20_000 <= o.scale && o.scale < 40_000);
                assert!(-3_000 <= o.vx && o.vx < 500);
                assert!(-1_000 <= o.vy && o.vy < 1_000);
                assert!(-12_566 <= o.spin && o.spin < 12_566);
                assert_eq!(o.life, OBSTACLE_LIFE);
            },
            _ => panic!("expected obstacles after the ship"),
        }
    }
}

#[test]
fn spawn_sampler_varies_between_obstacles() {
    // sixty samples over an 800 000-wide range: a sampler pinned to one
    // value (or to a range end) cannot produce this
    let mut ys = Vec::new();
    for _ in 0..12 {
        let e = SimulationEngine::new_game();
        for i in 1..e.entity_count() {
            if let Entity::Obstacle(o) = e.entity(i) {
                ys.push(o.y);
            }
        }
    }
    let first = ys[0];
    assert!(ys.iter().any(|y| *y != first), "every spawn height came out identical");
}

#[test]
fn refresh_writes_records_for_survivors() {
    let mut e = SimulationEngine::with_ship(100_000, 50_000);
    e.spawn_obstacle(still_obstacle(30_000));
    let aim = FrameInput { aim_x: 300_000, aim_y: 50_000, thrust: false, fire_held: false, restart: false };
    e.advance_frame(aim);
    // the ship's record faces from its position toward the aim point
    let (ship_x, ship_y, ship_handle) = match e.entity(0) {
        Entity::Ship(s) => (s.x, s.y, s.handle),
        _ => panic!("expected the ship"),
    };
    let snap = e.table().snapshot(MeshClass::Ship);
    let rec = snap[ship_handle.slot];
    assert_eq!(rec.x, ship_x);
    assert_eq!(rec.y, ship_y);
    assert_eq!(rec.scale, SHIP_RADIUS);
    match rec.orient {
        Orientation::Heading(hx, hy) => {
            assert_eq!(hx, 300_000 - ship_x);
            assert_eq!(hy, 50_000 - ship_y);
        },
        _ => panic!("ship records carry a facing vector"),
    }
    // the obstacle's record spins with its own angle
    let (ox, oangle, ohandle) = match e.entity(1) {
        Entity::Obstacle(o) => (o.x, o.angle, o.handle),
        _ => panic!("expected the obstacle"),
    };
    let orec = e.table().snapshot(MeshClass::Obstacle)[ohandle.slot];
    assert_eq!(orec.x, ox);
    match orec.orient {
        Orientation::Spin(a) => assert_eq!(a, oangle),
        _ => panic!("obstacle records carry a spin angle"),
    }
    // the ship wraps across the horizontal bound like obstacles do
    assert!(ship_x.abs() <= X_BOUND);
}
