//! Simulation and GPU-instance bookkeeping core of a small arcade game:
//! a player-controlled ship dodges and shoots drifting obstacles.
//!
//! The library covers the two subsystems that carry all the game rules:
//! an instance slot allocator ([`table::InstanceSlotTable`]) that maps live
//! entities to stable indices inside per-mesh instance arrays, and the
//! per-frame simulation engine ([`engine::SimulationEngine`]) that advances
//! motion, resolves circle-approximate collisions with damage and death,
//! and drives spawn and despawn events.
//!
//! All geometry is carried in fixed-point micro-units: one world unit is
//! [`UNIT`] (1 000 000) ticks of an `i64`. The renderer converts these plain
//! integers to whatever number format the graphics device wants.

use vstd::prelude::*;

pub mod engine;
pub mod entity;
pub mod motion;
pub mod num;
pub mod spawn;
pub mod table;

verus! {

/// One world unit, in fixed-point ticks. All positions, velocities, radii
/// and scales in the library are `i64` counts of `1 / UNIT` world units.
pub const UNIT: i64 = 1_000_000;

/// A full turn (tau radians) in micro-radians; obstacle angles are kept
/// normalized into `[0, TURN)`.
pub const TURN: i64 = 6_283_185;

/// Collision radius of the ship (0.02 world units).
pub const SHIP_RADIUS: i64 = 20_000;

/// Collision radius of a shot (0.01 world units).
pub const SHOT_RADIUS: i64 = 10_000;

/// Horizontal play-field limit (1.1): positions wrap across `±X_BOUND`.
pub const X_BOUND: i64 = 1_100_000;

/// Vertical play-field margin (0.5): ships and obstacles bounce off
/// `±(Y_MARGIN - radius)`.
pub const Y_MARGIN: i64 = 500_000;

/// Vertical bound past which a shot despawns (0.6).
pub const SHOT_Y_BOUND: i64 = 600_000;

/// Distance a shot travels per frame (0.015).
pub const SHOT_SPEED: i64 = 15_000;

/// Magnitude of the thrust impulse applied along the aim direction (0.003).
pub const THRUST_IMPULSE: i64 = 3_000;

/// Numerator of the homing force: the force magnitude toward the aim point
/// is `HOMING_NUM / d²` (0.000025 world units over squared distance),
/// with `d` in ticks.
pub const HOMING_NUM: i64 = 25_000_000_000_000;

/// Cap on the homing force magnitude per frame (0.0001).
pub const FORCE_CAP: i64 = 100;

/// Ship velocity is damped to 95% on a vertical bounce.
pub const DAMPING_NUM: u64 = 95;

/// Denominator of the bounce damping factor.
pub const DAMPING_DEN: u64 = 100;

/// Frames between volleys while the fire button is held.
pub const COOLDOWN_FRAMES: i64 = 13;

/// Hit points a freshly spawned obstacle carries.
pub const OBSTACLE_LIFE: u32 = 21;

/// Obstacles created by the initial setup.
pub const INITIAL_OBSTACLES: usize = 5;

/// Replacement obstacles created when a spawn event fires.
pub const DEATH_SPAWN_COUNT: usize = 2;

/// Forward offset from the ship at which shots appear (0.035).
pub const SHOT_FORWARD_OFFSET: i64 = 35_000;

/// Sideways offset between the two shots of a volley (0.016).
pub const SHOT_SIDE_OFFSET: i64 = 16_000;

/// Fixed x coordinate of the trailing edge where obstacles enter (1.05).
pub const SPAWN_X: i64 = 1_050_000;

/// Largest |y| at which an obstacle may spawn (0.4).
pub const SPAWN_Y_RANGE: i64 = 400_000;

/// Smallest scale a spawned obstacle may have (0.02).
pub const OBSTACLE_SCALE_MIN: i64 = 20_000;

/// Largest scale a spawned obstacle may have (0.04, exclusive).
pub const OBSTACLE_SCALE_MAX: i64 = 40_000;

/// Horizontal spawn velocity range: `[OBSTACLE_VX_MIN, OBSTACLE_VX_MAX)`.
pub const OBSTACLE_VX_MIN: i64 = -3_000;

/// Upper end of the horizontal spawn velocity range (0.0005, exclusive).
pub const OBSTACLE_VX_MAX: i64 = 500;

/// Vertical spawn speed bound: `vy` is sampled from `±OBSTACLE_VY_RANGE`.
pub const OBSTACLE_VY_RANGE: i64 = 1_000;

/// Spawn spin bound (tau * 0.002 in micro-radians per frame).
pub const SPIN_RANGE: i64 = 12_566;

/// Shade sensitivity written into ship and obstacle instance records (3.0).
pub const SHADE_OBJECT: i64 = 3_000_000;

/// Shade sensitivity written into shot instance records (0.0).
pub const SHADE_SHOT: i64 = 0;

/// Every live entity keeps both position coordinates within this bound.
pub const POS_LIMIT: i64 = 2_000_000;

/// Velocity components saturate at this bound (one world unit per frame).
pub const VEL_LIMIT: i64 = 1_000_000;

/// Largest obstacle scale the engine accepts (well under `Y_MARGIN`, so the
/// bounce clamp always has room).
pub const SCALE_LIMIT: i64 = 100_000;

/// Largest spin magnitude the engine accepts.
pub const SPIN_LIMIT: i64 = 50_000;

/// Bound on either coordinate of an aim position handed to the engine.
pub const AIM_LIMIT: i64 = 2_000_000;

} // verus!
