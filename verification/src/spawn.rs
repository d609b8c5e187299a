//! Spawn policy: the parameter ranges new obstacles are drawn from, and the
//! uniform sampling that fills them.

use vstd::prelude::*;

verus! {

use rand::Rng;
use crate::{OBSTACLE_SCALE_MAX, OBSTACLE_SCALE_MIN, OBSTACLE_VX_MAX, OBSTACLE_VX_MIN,
    OBSTACLE_VY_RANGE, SCALE_LIMIT, SPAWN_Y_RANGE, SPIN_LIMIT, SPIN_RANGE, TURN, VEL_LIMIT,
    Y_MARGIN};

/// Everything a new obstacle is built from, apart from its fixed entry
/// x coordinate and fixed initial life: position height, angle, scale,
/// velocity and spin, all in ticks.
#[derive(Clone, Copy, Debug)]
pub struct ObstacleParams {
    pub y: i64,
    pub angle: i64,
    pub scale: i64,
    pub vx: i64,
    pub vy: i64,
    pub spin: i64,
}

impl ObstacleParams {
    /// The loose bounds the engine accepts from any caller.
    pub open spec fn wf(self) -> bool {
        &&& -Y_MARGIN <= self.y <= Y_MARGIN
        &&& 0 <= self.angle < TURN
        &&& 0 < self.scale <= SCALE_LIMIT
        &&& -VEL_LIMIT <= self.vx <= VEL_LIMIT
        &&& -VEL_LIMIT <= self.vy <= VEL_LIMIT
        &&& -SPIN_LIMIT <= self.spin <= SPIN_LIMIT
    }

    /// The documented uniform ranges the random spawner draws from.
    pub open spec fn in_spawn_ranges(self) -> bool {
        &&& -SPAWN_Y_RANGE <= self.y < SPAWN_Y_RANGE
        &&& 0 <= self.angle < TURN
        &&& OBSTACLE_SCALE_MIN <= self.scale < OBSTACLE_SCALE_MAX
        &&& OBSTACLE_VX_MIN <= self.vx < OBSTACLE_VX_MAX
        &&& -OBSTACLE_VY_RANGE <= self.vy < OBSTACLE_VY_RANGE
        &&& -SPIN_RANGE <= self.spin < SPIN_RANGE
    }
}

/// Relies on `rand::Rng::gen_range` on the thread-local generator: it
/// returns a sample inside the given half-open range and panics only on an
/// empty range, which the precondition rules out. Nothing further is
/// assumed of the sample.
#[verifier::external_body]
fn sample_range(lo: i64, hi: i64) -> (r: i64)
    requires
        lo < hi,
    ensures
        lo <= r < hi,
{
    rand::thread_rng().gen_range(lo..hi)
}

/// Draw one obstacle's spawn parameters uniformly from the documented
/// ranges.
pub fn random_obstacle_params() -> (p: ObstacleParams)
    ensures
        p.wf(),
        p.in_spawn_ranges(),
{
    ObstacleParams {
        y: sample_range(-SPAWN_Y_RANGE, SPAWN_Y_RANGE),
        angle: sample_range(0, TURN),
        scale: sample_range(OBSTACLE_SCALE_MIN, OBSTACLE_SCALE_MAX),
        vx: sample_range(OBSTACLE_VX_MIN, OBSTACLE_VX_MAX),
        vy: sample_range(-OBSTACLE_VY_RANGE, OBSTACLE_VY_RANGE),
        spin: sample_range(-SPIN_RANGE, SPIN_RANGE),
    }
}

} // verus!
