use gravinyon::entity::{Entity, ObstacleState, ShipState, ShotState};
use gravinyon::table::{InstanceHandle, MeshClass};
use gravinyon::{SHIP_RADIUS, SHOT_RADIUS, SHOT_SPEED, UNIT, X_BOUND, Y_MARGIN};

fn obstacle_at(x: i64, y: i64, scale: i64) -> Entity {
    Entity::Obstacle(ObstacleState {
        x,
        y,
        vx: 0,
        vy: 0,
        angle: 0,
        spin: 0,
        scale,
        life: 21,
        handle: InstanceHandle { class: MeshClass::Obstacle, slot: 0 },
    })
}

#[test]
fn collision_boundary_is_exact() {
    let r1: i64 = 30_000;
    let r2: i64 = 20_000;
    let a = obstacle_at(0, 0, r1);
    // at distance exactly r1 + r2 there is no collision
    let apart = obstacle_at(r1 + r2, 0, r2);
    assert!(!a.collides_with(&apart));
    // one tick closer, there is
    let touching = obstacle_at(r1 + r2 - 1, 0, r2);
    assert!(a.collides_with(&touching));
}

#[test]
fn collision_uses_fixed_ship_and_shot_radii() {
    let ship = Entity::Ship(ShipState {
        x: 0,
        y: 0,
        vx: 0,
        vy: 0,
        handle: InstanceHandle { class: MeshClass::Ship, slot: 0 },
    });
    let shot = Entity::Shot(ShotState {
        x: SHIP_RADIUS + SHOT_RADIUS,
        y: 0,
        dir_x: UNIT,
        dir_y: 0,
        handle: InstanceHandle { class: MeshClass::Shot, slot: 0 },
    });
    assert!(!ship.collides_with(&shot));
    let shot_close = Entity::Shot(ShotState {
        x: SHIP_RADIUS + SHOT_RADIUS - 1,
        y: 0,
        dir_x: UNIT,
        dir_y: 0,
        handle: InstanceHandle { class: MeshClass::Shot, slot: 0 },
    });
    assert!(ship.collides_with(&shot_close));
}

#[test]
fn obstacle_wraps_horizontally_with_velocity_kept() {
    let mut o = ObstacleState {
        x: X_BOUND,
        y: 0,
        vx: 500,
        vy: 0,
        angle: 0,
        spin: 0,
        scale: 30_000,
        life: 21,
        handle: InstanceHandle { class: MeshClass::Obstacle, slot: 0 },
    };
    o.step();
    // past the right bound: reappears at the left bound, velocity unchanged
    assert_eq!(o.x, -X_BOUND);
    assert_eq!(o.vx, 500);
    // and the other way around
    let mut o2 = ObstacleState { x: -X_BOUND + 1, vx: -2_000, ..o };
    o2.step();
    assert_eq!(o2.x, X_BOUND);
    assert_eq!(o2.vx, -2_000);
}

#[test]
fn obstacle_bounces_vertically_with_clamp_and_flip() {
    let scale: i64 = 30_000;
    let margin = Y_MARGIN - scale;
    // heading up past the top margin: clamped there, vy flipped downward
    let mut o = ObstacleState {
        x: 0,
        y: margin - 100,
        vx: 0,
        vy: 60_000,
        angle: 0,
        spin: 0,
        scale,
        life: 21,
        handle: InstanceHandle { class: MeshClass::Obstacle, slot: 0 },
    };
    o.step();
    assert_eq!(o.y, margin);
    assert_eq!(o.vy, -60_000);
    // heading down past the bottom margin: clamped, vy flipped upward
    let mut o2 = ObstacleState { y: -margin + 100, vy: -60_000, ..o };
    o2.step();
    assert_eq!(o2.y, -margin);
    assert_eq!(o2.vy, 60_000);
}

#[test]
fn obstacle_angle_advances_and_wraps() {
    let mut o = ObstacleState {
        x: 0,
        y: 0,
        vx: 0,
        vy: 0,
        angle: 6_283_000,
        spin: 500,
        scale: 30_000,
        life: 21,
        handle: InstanceHandle { class: MeshClass::Obstacle, slot: 0 },
    };
    o.step();
    // 6_283_000 + 500 wraps past a full turn of 6_283_185
    assert_eq!(o.angle, 6_283_500 - 6_283_185);
}

#[test]
fn ship_bounce_damps_velocity() {
    let mut s = ShipState {
        x: 0,
        y: Y_MARGIN - SHIP_RADIUS - 50,
        vx: 10_000,
        vy: 4_000,
        handle: InstanceHandle { class: MeshClass::Ship, slot: 0 },
    };
    s.step();
    // clamped at the margin; vy flipped downward then damped to 95%, vx damped too
    assert_eq!(s.y, Y_MARGIN - SHIP_RADIUS);
    assert_eq!(s.vx, 9_500);
    assert_eq!(s.vy, -3_800);
}

#[test]
fn shot_travels_fixed_speed_along_facing() {
    let mut s = ShotState {
        x: 1_000,
        y: 2_000,
        dir_x: UNIT,
        dir_y: 0,
        handle: InstanceHandle { class: MeshClass::Shot, slot: 0 },
    };
    let oob = s.step();
    assert!(!oob);
    assert_eq!(s.x, 1_000 + SHOT_SPEED);
    assert_eq!(s.y, 2_000);
}

#[test]
fn shot_dies_leaving_play_bounds() {
    let mut s = ShotState {
        x: X_BOUND,
        y: 0,
        dir_x: UNIT,
        dir_y: 0,
        handle: InstanceHandle { class: MeshClass::Shot, slot: 0 },
    };
    let oob = s.step();
    assert!(oob);
    assert_eq!(s.x, X_BOUND + SHOT_SPEED);
}
