//! Per-frame motion: position integration, horizontal wrap, vertical bounce,
//! shot travel and play-bounds culling, and the ship's homing/thrust
//! steering toward the aim point.

use vstd::prelude::*;

verus! {

use crate::entity::{ObstacleState, ShipState, ShotState};
use crate::num::{clamp_i64, isqrt_u64, lemma_int_sqrt, lemma_muldiv_bound, muldiv, scale_i64,
    int_sqrt};
use crate::{AIM_LIMIT, DAMPING_DEN, DAMPING_NUM, FORCE_CAP, HOMING_NUM, POS_LIMIT, SHIP_RADIUS,
    SHOT_SPEED, SHOT_Y_BOUND, THRUST_IMPULSE, TURN, UNIT, VEL_LIMIT, X_BOUND, Y_MARGIN};

/// Horizontal wrap: a position past `X_BOUND` on either side reappears at
/// the opposite bound.
pub open spec fn wrap_x(x: int) -> int {
    if x <= -X_BOUND {
        X_BOUND as int
    } else if x > X_BOUND {
        -X_BOUND as int
    } else {
        x
    }
}

/// Vertical bounce, position part: clamp to the margin a body of radius `r`
/// may reach.
pub open spec fn bounce_y(y: int, r: int) -> int {
    if y < -(Y_MARGIN - r) {
        -(Y_MARGIN - r)
    } else if y > Y_MARGIN - r {
        Y_MARGIN - r
    } else {
        y
    }
}

/// Vertical bounce, velocity part: reflect the vertical velocity away from
/// the violated margin; unchanged when no margin is hit.
pub open spec fn bounce_vy(y: int, vy: int, r: int) -> int {
    if y < -(Y_MARGIN - r) {
        abs_spec(vy)
    } else if y > Y_MARGIN - r {
        -abs_spec(vy)
    } else {
        vy
    }
}

/// True when a body of radius `r` at integrated height `y` hits a margin.
pub open spec fn bounces(y: int, r: int) -> bool {
    y < -(Y_MARGIN - r) || y > Y_MARGIN - r
}

/// Absolute value.
pub open spec fn abs_spec(v: int) -> int {
    if v >= 0 {
        v
    } else {
        -v
    }
}

/// Normalize an angle from `[-TURN, 2*TURN)` into `[0, TURN)`.
pub open spec fn wrap_angle(a: int) -> int {
    if a < 0 {
        a + TURN
    } else if a >= TURN {
        a - TURN
    } else {
        a
    }
}

/// The denominator a vector is normalized by: the integer square root of
/// its squared length.
pub open spec fn norm_den(dx: int, dy: int) -> int {
    int_sqrt((dx * dx + dy * dy) as nat) as int
}

/// The obstacle state after one frame of motion: position and angle
/// integrated, wrapped and bounced, everything else kept.
pub open spec fn stepped_obstacle(o: ObstacleState) -> ObstacleState {
    ObstacleState {
        x: wrap_x(o.x + o.vx) as i64,
        y: bounce_y(o.y + o.vy, o.scale as int) as i64,
        vx: o.vx,
        vy: bounce_vy(o.y + o.vy, o.vy as int, o.scale as int) as i64,
        angle: wrap_angle(o.angle + o.spin) as i64,
        spin: o.spin,
        scale: o.scale,
        life: o.life,
        handle: o.handle,
    }
}

/// The ship state after one frame of motion: as an obstacle's, except that
/// a vertical bounce also damps the whole velocity to 95%.
pub open spec fn stepped_ship(s: ShipState) -> ShipState {
    let y2 = s.y + s.vy;
    let vy2 = bounce_vy(y2, s.vy as int, SHIP_RADIUS as int);
    ShipState {
        x: wrap_x(s.x + s.vx) as i64,
        y: bounce_y(y2, SHIP_RADIUS as int) as i64,
        vx: if bounces(y2, SHIP_RADIUS as int) {
            muldiv(s.vx as int, DAMPING_NUM as int, DAMPING_DEN as int) as i64
        } else {
            s.vx
        },
        vy: if bounces(y2, SHIP_RADIUS as int) {
            muldiv(vy2, DAMPING_NUM as int, DAMPING_DEN as int) as i64
        } else {
            s.vy
        },
        handle: s.handle,
    }
}

/// The shot state after one frame of travel: a fixed speed along the
/// facing vector.
pub open spec fn stepped_shot(s: ShotState) -> ShotState {
    ShotState {
        x: (s.x + muldiv(s.dir_x as int, SHOT_SPEED as int, UNIT as int)) as i64,
        y: (s.y + muldiv(s.dir_y as int, SHOT_SPEED as int, UNIT as int)) as i64,
        dir_x: s.dir_x,
        dir_y: s.dir_y,
        handle: s.handle,
    }
}

/// A shot at this position has left the play bounds and is culled by the
/// lifecycle pass.
pub open spec fn shot_oob(s: ShotState) -> bool {
    s.x <= -X_BOUND || s.x > X_BOUND || s.y <= -SHOT_Y_BOUND || s.y > SHOT_Y_BOUND
}

impl ObstacleState {
    /// One frame of obstacle motion: integrate position and angle, wrap
    /// horizontally, bounce vertically (velocity reflected away from the
    /// margin), keep everything else.
    pub fn step(&mut self)
        requires
            old(self).wf(),
        ensures
            final(self).wf(),
            *final(self) == stepped_obstacle(*old(self)),
            final(self).x == wrap_x(old(self).x + old(self).vx),
            final(self).y == bounce_y(old(self).y + old(self).vy, old(self).scale as int),
            final(self).vy == bounce_vy(
                old(self).y + old(self).vy,
                old(self).vy as int,
                old(self).scale as int,
            ),
            final(self).vx == old(self).vx,
            final(self).angle == wrap_angle(old(self).angle + old(self).spin),
            final(self).spin == old(self).spin,
            final(self).scale == old(self).scale,
            final(self).life == old(self).life,
            final(self).handle == old(self).handle,
    {
        let x2 = self.x + self.vx;
        self.x = if x2 <= -X_BOUND {
            X_BOUND
        } else if x2 > X_BOUND {
            -X_BOUND
        } else {
            x2
        };
        let a2 = self.angle + self.spin;
        self.angle = if a2 < 0 {
            a2 + TURN
        } else if a2 >= TURN {
            a2 - TURN
        } else {
            a2
        };
        let y2 = self.y + self.vy;
        if y2 < -(Y_MARGIN - self.scale) {
            self.y = -(Y_MARGIN - self.scale);
            self.vy = abs_i64_local(self.vy);
        } else if y2 > Y_MARGIN - self.scale {
            self.y = Y_MARGIN - self.scale;
            self.vy = -abs_i64_local(self.vy);
        } else {
            self.y = y2;
        }
    }
}

/// Absolute value of a velocity-sized `i64`.
fn abs_i64_local(v: i64) -> (r: i64)
    requires
        v > i64::MIN,
    ensures
        r == abs_spec(v as int),
{
    if v >= 0 {
        v
    } else {
        -v
    }
}

impl ShipState {
    /// One frame of ship motion: integrate, wrap horizontally, bounce
    /// vertically; a bounce also damps the whole velocity to 95%.
    pub fn step(&mut self)
        requires
            old(self).wf(),
        ensures
            final(self).wf(),
            *final(self) == stepped_ship(*old(self)),
            final(self).x == wrap_x(old(self).x + old(self).vx),
            final(self).y == bounce_y(old(self).y + old(self).vy, SHIP_RADIUS as int),
            ({
                let y2 = old(self).y + old(self).vy;
                let vy2 = bounce_vy(y2, old(self).vy as int, SHIP_RADIUS as int);
                if bounces(y2, SHIP_RADIUS as int) {
                    &&& final(self).vx == muldiv(old(self).vx as int, DAMPING_NUM as int, DAMPING_DEN as int)
                    &&& final(self).vy == muldiv(vy2, DAMPING_NUM as int, DAMPING_DEN as int)
                } else {
                    &&& final(self).vx == old(self).vx
                    &&& final(self).vy == old(self).vy
                }
            }),
            final(self).handle == old(self).handle,
    {
        let x2 = self.x + self.vx;
        self.x = if x2 <= -X_BOUND {
            X_BOUND
        } else if x2 > X_BOUND {
            -X_BOUND
        } else {
            x2
        };
        let y2 = self.y + self.vy;
        if y2 < -(Y_MARGIN - SHIP_RADIUS) {
            self.y = -(Y_MARGIN - SHIP_RADIUS);
            self.vy = abs_i64_local(self.vy);
            self.vx = scale_i64(self.vx, DAMPING_NUM, DAMPING_DEN);
            self.vy = scale_i64(self.vy, DAMPING_NUM, DAMPING_DEN);
            proof {
                lemma_muldiv_bound(old(self).vx as int, DAMPING_NUM as int, DAMPING_DEN as int, VEL_LIMIT as int);
                lemma_muldiv_bound(abs_spec(old(self).vy as int), DAMPING_NUM as int, DAMPING_DEN as int, VEL_LIMIT as int);
            }
        } else if y2 > Y_MARGIN - SHIP_RADIUS {
            self.y = Y_MARGIN - SHIP_RADIUS;
            self.vy = -abs_i64_local(self.vy);
            self.vx = scale_i64(self.vx, DAMPING_NUM, DAMPING_DEN);
            self.vy = scale_i64(self.vy, DAMPING_NUM, DAMPING_DEN);
            proof {
                lemma_muldiv_bound(old(self).vx as int, DAMPING_NUM as int, DAMPING_DEN as int, VEL_LIMIT as int);
                lemma_muldiv_bound(-abs_spec(old(self).vy as int), DAMPING_NUM as int, DAMPING_DEN as int, VEL_LIMIT as int);
            }
        } else {
            self.y = y2;
        }
    }
}

impl ShotState {
    /// One frame of shot travel: advance a fixed speed along the facing
    /// vector; report whether the shot has left the play bounds (the caller
    /// culls it).
    pub fn step(&mut self) -> (oob: bool)
        requires
            old(self).wf(),
            -POS_LIMIT + SHOT_SPEED <= old(self).x <= POS_LIMIT - SHOT_SPEED,
            -POS_LIMIT + SHOT_SPEED <= old(self).y <= POS_LIMIT - SHOT_SPEED,
        ensures
            final(self).wf(),
            *final(self) == stepped_shot(*old(self)),
            oob == shot_oob(*final(self)),
            final(self).x == old(self).x + muldiv(old(self).dir_x as int, SHOT_SPEED as int, UNIT as int),
            final(self).y == old(self).y + muldiv(old(self).dir_y as int, SHOT_SPEED as int, UNIT as int),
            final(self).dir_x == old(self).dir_x,
            final(self).dir_y == old(self).dir_y,
            final(self).handle == old(self).handle,
            oob == (final(self).x <= -X_BOUND || final(self).x > X_BOUND || final(self).y
                <= -SHOT_Y_BOUND || final(self).y > SHOT_Y_BOUND),
    {
        let sx = scale_i64(self.dir_x, SHOT_SPEED as u64, UNIT as u64);
        let sy = scale_i64(self.dir_y, SHOT_SPEED as u64, UNIT as u64);
        proof {
            lemma_shot_speed_bound(self.dir_x as int);
            lemma_shot_speed_bound(self.dir_y as int);
        }
        self.x = self.x + sx;
        self.y = self.y + sy;
        self.x <= -X_BOUND || self.x > X_BOUND || self.y <= -SHOT_Y_BOUND || self.y > SHOT_Y_BOUND
    }
}

/// A facing vector with unit-bounded components moves at most `SHOT_SPEED`
/// per frame.
proof fn lemma_shot_speed_bound(d: int)
    requires
        -UNIT <= d <= UNIT,
    ensures
        -SHOT_SPEED <= muldiv(d, SHOT_SPEED as int, UNIT as int) <= SHOT_SPEED,
{
    if d >= 0 {
        assert(0 <= (d * (SHOT_SPEED as int)) / (UNIT as int) <= SHOT_SPEED) by (nonlinear_arith)
            requires 0 <= d <= UNIT, UNIT == 1_000_000int, SHOT_SPEED == 15_000int,
        {}
    } else {
        assert(0 <= ((-d) * (SHOT_SPEED as int)) / (UNIT as int) <= SHOT_SPEED) by (nonlinear_arith)
            requires 0 <= -d <= UNIT, UNIT == 1_000_000int, SHOT_SPEED == 15_000int,
        {}
    }
}

/// Scale `d` toward a unit vector: `d * UNIT / den` where `den` is the
/// integer length of the whole vector. The result is unit-bounded because
/// no component exceeds the vector's length.
proof fn lemma_unit_component_bound(d: int, other: int)
    requires
        !(d == 0 && other == 0),
        -4_000_000 <= d <= 4_000_000,
        -4_000_000 <= other <= 4_000_000,
    ensures
        norm_den(d, other) >= 1,
        abs_spec(d) <= norm_den(d, other),
        -UNIT <= muldiv(d, UNIT as int, norm_den(d, other)) <= UNIT,
{
    let n = (d * d + other * other) as nat;
    assert(d * d >= 0 && other * other >= 0 && d * d + other * other >= 1) by (nonlinear_arith)
        requires !(d == 0 && other == 0),
    {}
    lemma_int_sqrt(n);
    let den = int_sqrt(n);
    // den >= 1 since n >= 1
    if den == 0 {
        assert((den + 1) * (den + 1) == 1) by (nonlinear_arith)
            requires den == 0,
        {}
    }
    // |d| <= den: otherwise |d| >= den + 1 and |d|^2 > n
    let a = abs_spec(d);
    if a > den {
        assert(a * a <= d * d + other * other) by (nonlinear_arith)
            requires a == d || a == -d,
        {}
        assert((den + 1) * (den + 1) <= a * a) by (nonlinear_arith)
            requires den + 1 <= a,
        {}
    }
    assert(0 <= (a * (UNIT as int)) / (den as int) <= UNIT) by (nonlinear_arith)
        requires 0 <= a <= den, 1 <= den, UNIT == 1_000_000int,
    {}
}

/// Normalize `(dx, dy)` to a unit-length facing vector in ticks: each
/// component is `c * UNIT / len`, with `len` the integer length of the
/// vector. Requires a nonzero vector.
pub fn unit_toward(dx: i64, dy: i64) -> (u: (i64, i64))
    requires
        !(dx == 0 && dy == 0),
        -4_000_000 <= dx <= 4_000_000,
        -4_000_000 <= dy <= 4_000_000,
    ensures
        u.0 == muldiv(dx as int, UNIT as int, norm_den(dx as int, dy as int)),
        u.1 == muldiv(dy as int, UNIT as int, norm_den(dx as int, dy as int)),
        -UNIT <= u.0 <= UNIT,
        -UNIT <= u.1 <= UNIT,
{
    proof {
        assert(dx * dx + dy * dy <= 32_000_000_000_000 && dx * dx >= 0 && dy * dy >= 0)
            by (nonlinear_arith)
            requires -4_000_000 <= dx <= 4_000_000, -4_000_000 <= dy <= 4_000_000,
        {}
        lemma_unit_component_bound(dx as int, dy as int);
        lemma_unit_component_bound(dy as int, dx as int);
        assert(norm_den(dx as int, dy as int) == norm_den(dy as int, dx as int));
    }
    let d2 = dx * dx + dy * dy;
    let den = isqrt_u64(d2 as u64);
    proof {
        lemma_int_sqrt(d2 as nat);
        assert(den * den <= d2);
        assert(den <= 6_000_000) by (nonlinear_arith)
            requires den * den <= 32_000_000_000_000, den >= 0,
        {}
    }
    let ux = scale_i64(dx, UNIT as u64, den);
    let uy = scale_i64(dy, UNIT as u64, den);
    (ux, uy)
}

/// The homing force magnitude at squared distance `d2`: inversely
/// proportional to `d2`, capped at `FORCE_CAP`.
pub open spec fn homing_mag(d2: int) -> int {
    vstd::math::min(HOMING_NUM as int / d2, FORCE_CAP as int)
}

/// The ship state after steering toward `(aim_x, aim_y)`: the homing force
/// (inversely proportional to the squared distance, capped) plus the
/// optional thrust impulse along the aim direction, each velocity component
/// saturated at `VEL_LIMIT`. With the aim exactly on the ship the homing
/// force vanishes and the thrust direction degrades to facing right.
pub open spec fn steered_ship(s: ShipState, aim_x: i64, aim_y: i64, thrust: bool) -> ShipState {
    let dx = aim_x - s.x;
    let dy = aim_y - s.y;
    let d2 = dx * dx + dy * dy;
    let den = norm_den(dx, dy);
    let hx = if d2 == 0 {
        0int
    } else {
        muldiv(dx, homing_mag(d2), den)
    };
    let hy = if d2 == 0 {
        0int
    } else {
        muldiv(dy, homing_mag(d2), den)
    };
    let tx = if !thrust {
        0int
    } else if d2 == 0 {
        THRUST_IMPULSE as int
    } else {
        muldiv(muldiv(dx, UNIT as int, den), THRUST_IMPULSE as int, UNIT as int)
    };
    let ty = if !thrust {
        0int
    } else if d2 == 0 {
        0int
    } else {
        muldiv(muldiv(dy, UNIT as int, den), THRUST_IMPULSE as int, UNIT as int)
    };
    ShipState {
        x: s.x,
        y: s.y,
        vx: clamp_spec(s.vx + hx + tx) as i64,
        vy: clamp_spec(s.vy + hy + ty) as i64,
        handle: s.handle,
    }
}

impl ShipState {
    /// Steer toward the aim point: add a homing force whose magnitude falls
    /// off with squared distance (capped), then, if thrust is requested, a
    /// fixed impulse along the aim direction. Both velocity components
    /// saturate at `VEL_LIMIT`. With the aim exactly on the ship the homing
    /// force vanishes and the thrust direction degrades to facing right.
    pub fn steer(&mut self, aim_x: i64, aim_y: i64, thrust: bool)
        requires
            old(self).wf(),
            -AIM_LIMIT <= aim_x <= AIM_LIMIT,
            -AIM_LIMIT <= aim_y <= AIM_LIMIT,
        ensures
            final(self).wf(),
            *final(self) == steered_ship(*old(self), aim_x, aim_y, thrust),
            ({
                let dx = aim_x - old(self).x;
                let dy = aim_y - old(self).y;
                let d2 = dx * dx + dy * dy;
                let den = norm_den(dx, dy);
                let hx = if d2 == 0 { 0int } else { muldiv(dx, homing_mag(d2), den) };
                let hy = if d2 == 0 { 0int } else { muldiv(dy, homing_mag(d2), den) };
                let tx = if !thrust { 0int } else if d2 == 0 { THRUST_IMPULSE as int } else {
                    muldiv(muldiv(dx, UNIT as int, den), THRUST_IMPULSE as int, UNIT as int)
                };
                let ty = if !thrust { 0int } else if d2 == 0 { 0int } else {
                    muldiv(muldiv(dy, UNIT as int, den), THRUST_IMPULSE as int, UNIT as int)
                };
                &&& final(self).vx == clamp_spec(old(self).vx + hx + tx)
                &&& final(self).vy == clamp_spec(old(self).vy + hy + ty)
            }),
    {
        let dx = aim_x - self.x;
        let dy = aim_y - self.y;
        proof {
            assert(dx * dx + dy * dy <= 32_000_000_000_000 && dx * dx >= 0 && dy * dy >= 0)
                by (nonlinear_arith)
                requires -4_000_000 <= dx <= 4_000_000, -4_000_000 <= dy <= 4_000_000,
            {}
        }
        let d2 = dx * dx + dy * dy;
        let mut hx: i64 = 0;
        let mut hy: i64 = 0;
        let mut tx: i64 = 0;
        let mut ty: i64 = 0;
        if d2 > 0 {
            let mag_raw = (HOMING_NUM as u64) / (d2 as u64);
            let mag: u64 = if mag_raw > FORCE_CAP as u64 {
                FORCE_CAP as u64
            } else {
                mag_raw
            };
            proof {
                assert(mag == homing_mag(d2 as int));
                lemma_unit_component_bound(dx as int, dy as int);
                lemma_unit_component_bound(dy as int, dx as int);
                assert(norm_den(dx as int, dy as int) == norm_den(dy as int, dx as int));
            }
            let den = isqrt_u64(d2 as u64);
            proof {
                lemma_int_sqrt(d2 as nat);
                assert(den == int_sqrt((dx as int * dx as int + dy as int * dy as int) as nat));
                assert(den as int == norm_den(dx as int, dy as int));
                assert(den <= 6_000_000) by (nonlinear_arith)
                    requires den * den <= 32_000_000_000_000, den >= 0,
                {}
                lemma_homing_bound(dx as int, mag as int, den as int);
                lemma_homing_bound(dy as int, mag as int, den as int);
                assert((dx as int) * (mag as int) <= i64::MAX && -(dx as int) * (mag as int)
                    <= i64::MAX && (dy as int) * (mag as int) <= i64::MAX && -(dy as int) * (
                mag as int) <= i64::MAX) by (nonlinear_arith)
                    requires
                        -4_000_000 <= dx <= 4_000_000,
                        -4_000_000 <= dy <= 4_000_000,
                        0 <= mag <= 100,
                {}
            }
            hx = scale_i64(dx, mag, den);
            hy = scale_i64(dy, mag, den);
            if thrust {
                let (ux, uy) = unit_toward(dx, dy);
                proof {
                    lemma_muldiv_bound(ux as int, THRUST_IMPULSE as int, UNIT as int, UNIT as int);
                    lemma_muldiv_bound(uy as int, THRUST_IMPULSE as int, UNIT as int, UNIT as int);
                    lemma_shot_speed_bound(ux as int);
                    lemma_shot_speed_bound(uy as int);
                    lemma_thrust_bound(ux as int);
                    lemma_thrust_bound(uy as int);
                }
                tx = scale_i64(ux, THRUST_IMPULSE as u64, UNIT as u64);
                ty = scale_i64(uy, THRUST_IMPULSE as u64, UNIT as u64);
            }
        } else {
            if thrust {
                tx = THRUST_IMPULSE;
            }
        }
        self.vx = clamp_i64(self.vx + hx + tx, -VEL_LIMIT, VEL_LIMIT);
        self.vy = clamp_i64(self.vy + hy + ty, -VEL_LIMIT, VEL_LIMIT);
    }
}

/// Saturate a velocity component at `±VEL_LIMIT`.
pub open spec fn clamp_spec(v: int) -> int {
    if v < -VEL_LIMIT {
        -VEL_LIMIT as int
    } else if v > VEL_LIMIT {
        VEL_LIMIT as int
    } else {
        v
    }
}

/// The homing force component along `d` is bounded by the magnitude `mag`,
/// because `|d|` never exceeds the normalization denominator.
proof fn lemma_homing_bound(d: int, mag: int, den: int)
    requires
        0 <= mag <= FORCE_CAP,
        1 <= den,
        abs_spec(d) <= den,
    ensures
        -FORCE_CAP <= muldiv(d, mag, den) <= FORCE_CAP,
{
    let a = abs_spec(d);
    assert(0 <= (a * mag) / den <= FORCE_CAP) by (nonlinear_arith)
        requires 0 <= a <= den, 1 <= den, 0 <= mag <= FORCE_CAP,
    {}
}

/// A unit-bounded direction scaled by the thrust impulse stays within the
/// impulse magnitude.
proof fn lemma_thrust_bound(u: int)
    requires
        -UNIT <= u <= UNIT,
    ensures
        -THRUST_IMPULSE <= muldiv(u, THRUST_IMPULSE as int, UNIT as int) <= THRUST_IMPULSE,
{
    if u >= 0 {
        assert(0 <= (u * (THRUST_IMPULSE as int)) / (UNIT as int) <= THRUST_IMPULSE)
            by (nonlinear_arith)
            requires 0 <= u <= UNIT, UNIT == 1_000_000int, THRUST_IMPULSE == 3_000int,
        {}
    } else {
        assert(0 <= ((-u) * (THRUST_IMPULSE as int)) / (UNIT as int) <= THRUST_IMPULSE)
            by (nonlinear_arith)
            requires 0 <= -u <= UNIT, UNIT == 1_000_000int, THRUST_IMPULSE == 3_000int,
        {}
    }
}

} // verus!
