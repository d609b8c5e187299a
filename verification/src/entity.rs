//! The game's data model: the tagged entity variants (ship, shot, obstacle),
//! their well-formedness bounds, and the circle-approximate collision test.

use vstd::prelude::*;

verus! {

use crate::table::{InstanceHandle, MeshClass};
use crate::{POS_LIMIT, SCALE_LIMIT, SHIP_RADIUS, SHOT_RADIUS, SPIN_LIMIT, TURN, UNIT, VEL_LIMIT,
    X_BOUND, Y_MARGIN};

/// The player's ship: position, velocity, and its instance slot.
#[derive(Clone, Copy, Debug)]
pub struct ShipState {
    pub x: i64,
    pub y: i64,
    pub vx: i64,
    pub vy: i64,
    pub handle: InstanceHandle,
}

/// A shot: position, unit facing vector (speed is a fixed scalar along it),
/// and its instance slot.
#[derive(Clone, Copy, Debug)]
pub struct ShotState {
    pub x: i64,
    pub y: i64,
    pub dir_x: i64,
    pub dir_y: i64,
    pub handle: InstanceHandle,
}

/// A drifting obstacle: position, velocity, spin state, radius (`scale`),
/// remaining hit points, and its instance slot.
#[derive(Clone, Copy, Debug)]
pub struct ObstacleState {
    pub x: i64,
    pub y: i64,
    pub vx: i64,
    pub vy: i64,
    pub angle: i64,
    pub spin: i64,
    pub scale: i64,
    pub life: u32,
    pub handle: InstanceHandle,
}

impl ShipState {
    /// The ship stays inside the wrapped/bounced play field with a bounded
    /// velocity, and its slot is a ship slot.
    pub open spec fn wf(self) -> bool {
        &&& -X_BOUND <= self.x <= X_BOUND
        &&& -Y_MARGIN <= self.y <= Y_MARGIN
        &&& -VEL_LIMIT <= self.vx <= VEL_LIMIT
        &&& -VEL_LIMIT <= self.vy <= VEL_LIMIT
        &&& self.handle.class == MeshClass::Ship
    }
}

impl ShotState {
    /// A shot may briefly leave the strict play bounds (it is culled by the
    /// next lifecycle pass), but stays well inside the numeric range, and
    /// its facing vector has at most unit-length components.
    pub open spec fn wf(self) -> bool {
        &&& -POS_LIMIT <= self.x <= POS_LIMIT
        &&& -POS_LIMIT <= self.y <= POS_LIMIT
        &&& -UNIT <= self.dir_x <= UNIT
        &&& -UNIT <= self.dir_y <= UNIT
        &&& self.handle.class == MeshClass::Shot
    }
}

impl ObstacleState {
    /// An obstacle stays inside the wrapped/bounced play field, with bounded
    /// velocity, spin and scale, and a normalized angle.
    pub open spec fn wf(self) -> bool {
        &&& -X_BOUND <= self.x <= X_BOUND
        &&& -Y_MARGIN <= self.y <= Y_MARGIN
        &&& -VEL_LIMIT <= self.vx <= VEL_LIMIT
        &&& -VEL_LIMIT <= self.vy <= VEL_LIMIT
        &&& 0 <= self.angle < TURN
        &&& -SPIN_LIMIT <= self.spin <= SPIN_LIMIT
        &&& 0 < self.scale <= SCALE_LIMIT
        &&& self.handle.class == MeshClass::Obstacle
    }
}

/// A live game object: exactly one of the three variants, each owning one
/// instance handle.
#[derive(Clone, Copy, Debug)]
pub enum Entity {
    Ship(ShipState),
    Shot(ShotState),
    Obstacle(ObstacleState),
}

impl Entity {
    /// Well-formedness of whichever variant this is.
    pub open spec fn wf(self) -> bool {
        match self {
            Entity::Ship(s) => s.wf(),
            Entity::Shot(s) => s.wf(),
            Entity::Obstacle(o) => o.wf(),
        }
    }

    pub open spec fn spec_x(self) -> int {
        match self {
            Entity::Ship(s) => s.x as int,
            Entity::Shot(s) => s.x as int,
            Entity::Obstacle(o) => o.x as int,
        }
    }

    pub open spec fn spec_y(self) -> int {
        match self {
            Entity::Ship(s) => s.y as int,
            Entity::Shot(s) => s.y as int,
            Entity::Obstacle(o) => o.y as int,
        }
    }

    /// The collision radius: fixed for ship and shot, the obstacle's own
    /// scale otherwise.
    pub open spec fn spec_radius(self) -> int {
        match self {
            Entity::Ship(_) => SHIP_RADIUS as int,
            Entity::Shot(_) => SHOT_RADIUS as int,
            Entity::Obstacle(o) => o.scale as int,
        }
    }

    /// The instance slot this entity owns.
    pub open spec fn spec_handle(self) -> InstanceHandle {
        match self {
            Entity::Ship(s) => s.handle,
            Entity::Shot(s) => s.handle,
            Entity::Obstacle(o) => o.handle,
        }
    }

    pub fn is_ship(&self) -> (r: bool)
        ensures
            r == self is Ship,
    {
        matches!(self, Entity::Ship(_))
    }

    pub fn is_shot(&self) -> (r: bool)
        ensures
            r == self is Shot,
    {
        matches!(self, Entity::Shot(_))
    }

    pub fn is_obstacle(&self) -> (r: bool)
        ensures
            r == self is Obstacle,
    {
        matches!(self, Entity::Obstacle(_))
    }

    /// Current position, in ticks.
    pub fn position(&self) -> (p: (i64, i64))
        ensures
            p.0 == self.spec_x(),
            p.1 == self.spec_y(),
    {
        match self {
            Entity::Ship(s) => (s.x, s.y),
            Entity::Shot(s) => (s.x, s.y),
            Entity::Obstacle(o) => (o.x, o.y),
        }
    }

    /// Collision radius, in ticks.
    pub fn radius(&self) -> (r: i64)
        ensures
            r == self.spec_radius(),
    {
        match self {
            Entity::Ship(_) => SHIP_RADIUS,
            Entity::Shot(_) => SHOT_RADIUS,
            Entity::Obstacle(o) => o.scale,
        }
    }

    /// The instance slot this entity owns.
    pub fn handle(&self) -> (h: InstanceHandle)
        ensures
            h == self.spec_handle(),
    {
        match self {
            Entity::Ship(s) => s.handle,
            Entity::Shot(s) => s.handle,
            Entity::Obstacle(o) => o.handle,
        }
    }

    /// Circle-approximate collision test: true exactly when the squared
    /// center distance is below the squared sum of the radii.
    pub fn collides_with(&self, other: &Entity) -> (r: bool)
        requires
            self.wf(),
            other.wf(),
        ensures
            r == spec_collides(*self, *other),
    {
        let (ax, ay) = self.position();
        let (bx, by) = other.position();
        let dx = ax - bx;
        let dy = ay - by;
        proof {
            assert(dx * dx + dy * dy <= 64_000_000_000_000) by (nonlinear_arith)
                requires
                    -4_000_000 <= dx <= 4_000_000,
                    -4_000_000 <= dy <= 4_000_000,
            {}
            assert(dx * dx >= 0 && dy * dy >= 0) by (nonlinear_arith) {}
        }
        let d2 = dx * dx + dy * dy;
        let rsum = self.radius() + other.radius();
        proof {
            assert(rsum * rsum <= 1_000_000_000_000) by (nonlinear_arith)
                requires 0 <= rsum <= 1_000_000,
            {}
        }
        d2 < rsum * rsum
    }
}

/// Squared distance between two points.
pub open spec fn dist_sq(ax: int, ay: int, bx: int, by: int) -> int {
    (ax - bx) * (ax - bx) + (ay - by) * (ay - by)
}

/// Two entities collide when their center distance is below the sum of
/// their radii; compared in squared form, which is exact on integers.
pub open spec fn spec_collides(a: Entity, b: Entity) -> bool {
    dist_sq(a.spec_x(), a.spec_y(), b.spec_x(), b.spec_y()) < (a.spec_radius() + b.spec_radius())
        * (a.spec_radius() + b.spec_radius())
}

/// Law: the squared-form collision test draws its boundary exactly at the
/// sum of the radii — centers a distance `d` apart collide iff `d < r1 + r2`.
/// At `d == r1 + r2` there is no collision; one tick closer there is.
pub proof fn lemma_collision_boundary(d: nat, r1: nat, r2: nat)
    ensures
        d * d < (r1 + r2) * (r1 + r2) <==> d < r1 + r2,
{
    crate::num::lemma_square_order(d, (r1 + r2) as nat);
}

} // verus!
