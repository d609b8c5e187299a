//! The per-frame simulation engine: owns the live entity collection and the
//! instance slot table; each frame it steers the ship, fires volleys,
//! detects and resolves collisions, removes the dead, spawns replacements,
//! and refreshes every survivor's instance record.

use vstd::prelude::*;

verus! {

use crate::entity::{spec_collides, Entity, ObstacleState, ShipState, ShotState};
use crate::motion::{norm_den, shot_oob, steered_ship, stepped_obstacle, stepped_ship,
    stepped_shot, unit_toward};
use crate::num::{lemma_muldiv_scale_bound, muldiv, scale_i64};
use crate::spawn::{random_obstacle_params, ObstacleParams};
use crate::table::{InstanceHandle, InstanceRecord, InstanceSlotTable, MeshClass, Orientation};
use crate::{AIM_LIMIT, COOLDOWN_FRAMES, DEATH_SPAWN_COUNT, INITIAL_OBSTACLES, OBSTACLE_LIFE,
    OBSTACLE_SCALE_MAX, OBSTACLE_SCALE_MIN, OBSTACLE_VX_MAX, OBSTACLE_VX_MIN, OBSTACLE_VY_RANGE,
    POS_LIMIT, SHADE_OBJECT, SHADE_SHOT, SHIP_RADIUS, SHOT_FORWARD_OFFSET, SHOT_RADIUS,
    SHOT_SIDE_OFFSET, SHOT_Y_BOUND, SPAWN_X, SPAWN_Y_RANGE, SPIN_RANGE, TURN, UNIT, X_BOUND,
    Y_MARGIN};

/// The decoded player input one frame consumes: the aim point (cursor) in
/// ticks, and the three button states.
#[derive(Clone, Copy, Debug)]
pub struct FrameInput {
    pub aim_x: i64,
    pub aim_y: i64,
    pub thrust: bool,
    pub fire_held: bool,
    pub restart: bool,
}

impl FrameInput {
    /// The aim point stays within the numeric range the engine handles.
    pub open spec fn wf(self) -> bool {
        &&& -AIM_LIMIT <= self.aim_x <= AIM_LIMIT
        &&& -AIM_LIMIT <= self.aim_y <= AIM_LIMIT
    }
}

/// What one frame did, for the caller's bookkeeping.
#[derive(Clone, Copy, Debug, PartialEq, Eq, Structural)]
pub struct FrameReport {
    /// Obstacles destroyed this frame; the score rose by exactly this much
    /// (saturating only at the numeric limit).
    pub obstacles_destroyed: usize,
    /// Shots culled this frame, by hits or by leaving the play bounds.
    pub shots_removed: usize,
}

/// A shot at rest between frames sits inside the play bounds (anything
/// outside was culled by the lifecycle pass); other entities trivially
/// qualify.
pub open spec fn shot_rest_ok(e: Entity) -> bool {
    e is Shot ==> {
        &&& -X_BOUND < e.spec_x() <= X_BOUND
        &&& -SHOT_Y_BOUND < e.spec_y() <= SHOT_Y_BOUND
    }
}

/// A shot in the middle of a frame may additionally have just been fired
/// from the ship's muzzle, slightly outside the strict bounds.
pub open spec fn shot_fresh_ok(e: Entity) -> bool {
    e is Shot ==> {
        &&& -X_BOUND - 60_000 <= e.spec_x() <= X_BOUND + 60_000
        &&& -SHOT_Y_BOUND - 60_000 <= e.spec_y() <= SHOT_Y_BOUND + 60_000
    }
}

/// The x component of the unit facing vector from `(x, y)` toward the aim
/// point `(ax, ay)`; facing straight right when the two coincide (the
/// degenerate aim).
pub open spec fn aim_dir_x(x: int, y: int, ax: int, ay: int) -> int {
    let dx = ax - x;
    let dy = ay - y;
    if dx == 0 && dy == 0 {
        UNIT as int
    } else {
        muldiv(dx, UNIT as int, norm_den(dx, dy))
    }
}

/// The y component of the unit facing vector from `(x, y)` toward `(ax, ay)`.
pub open spec fn aim_dir_y(x: int, y: int, ax: int, ay: int) -> int {
    let dx = ax - x;
    let dy = ay - y;
    if dx == 0 && dy == 0 {
        0int
    } else {
        muldiv(dy, UNIT as int, norm_den(dx, dy))
    }
}

/// The x coordinate where one shot of a volley appears: the ship's muzzle
/// offset forward along the aim direction and sideways (`side` is −1 or +1)
/// along its left-hand perpendicular.
pub open spec fn volley_x(sx: int, sy: int, ax: int, ay: int, side: int) -> int {
    let ux = aim_dir_x(sx, sy, ax, ay);
    let uy = aim_dir_y(sx, sy, ax, ay);
    sx + muldiv(ux, SHOT_FORWARD_OFFSET as int, UNIT as int) + side * muldiv(
        -uy,
        SHOT_SIDE_OFFSET as int,
        UNIT as int,
    )
}

/// The y coordinate where one shot of a volley appears.
pub open spec fn volley_y(sx: int, sy: int, ax: int, ay: int, side: int) -> int {
    let ux = aim_dir_x(sx, sy, ax, ay);
    let uy = aim_dir_y(sx, sy, ax, ay);
    sy + muldiv(uy, SHOT_FORWARD_OFFSET as int, UNIT as int) + side * muldiv(
        ux,
        SHOT_SIDE_OFFSET as int,
        UNIT as int,
    )
}

/// The instance record the refresh pass writes for one entity: its
/// position; a spin angle for an obstacle or a facing vector for the ship
/// (toward the aim point) and for a shot (its travel direction); its
/// collision radius as the scale; and its shading sensitivity.
pub open spec fn spec_record_for(e: Entity, aim_x: i64, aim_y: i64) -> InstanceRecord {
    match e {
        Entity::Ship(s) => InstanceRecord {
            x: s.x,
            y: s.y,
            orient: Orientation::Heading((aim_x - s.x) as i64, (aim_y - s.y) as i64),
            scale: SHIP_RADIUS,
            shade: SHADE_OBJECT,
        },
        Entity::Shot(s) => InstanceRecord {
            x: s.x,
            y: s.y,
            orient: Orientation::Heading(s.dir_x, s.dir_y),
            scale: SHOT_RADIUS,
            shade: SHADE_SHOT,
        },
        Entity::Obstacle(o) => InstanceRecord {
            x: o.x,
            y: o.y,
            orient: Orientation::Spin(o.angle),
            scale: o.scale,
            shade: SHADE_OBJECT,
        },
    }
}

/// How many of the first `j` entities are shots colliding with entity `i`,
/// counted only when entity `i` is an obstacle and skipping `i` itself:
/// the damage the obstacle accumulates during its scan.
pub open spec fn shot_hits_upto(s: Seq<Entity>, i: int, j: int) -> int
    decreases j,
{
    if j <= 0 {
        0
    } else {
        shot_hits_upto(s, i, j - 1) + if j - 1 != i && s[i] is Obstacle && s[j - 1] is Shot
            && spec_collides(s[i], s[j - 1]) {
            1int
        } else {
            0int
        }
    }
}

/// Whether any of the first `j` entities other than `i` is an obstacle
/// colliding with entity `i`.
pub open spec fn obstacle_hit_upto(s: Seq<Entity>, i: int, j: int) -> bool
    decreases j,
{
    if j <= 0 {
        false
    } else {
        obstacle_hit_upto(s, i, j - 1) || (j - 1 != i && s[j - 1] is Obstacle && spec_collides(
            s[i],
            s[j - 1],
        ))
    }
}

/// The ship state inside an entity; a placeholder for other variants.
pub open spec fn ship_state_of(e: Entity) -> ShipState {
    match e {
        Entity::Ship(s) => s,
        _ => ShipState {
            x: 0,
            y: 0,
            vx: 0,
            vy: 0,
            handle: InstanceHandle { class: MeshClass::Ship, slot: 0 },
        },
    }
}

/// The shot state inside an entity; a placeholder for other variants.
pub open spec fn shot_state_of(e: Entity) -> ShotState {
    match e {
        Entity::Shot(s) => s,
        _ => ShotState {
            x: 0,
            y: 0,
            dir_x: 0,
            dir_y: 0,
            handle: InstanceHandle { class: MeshClass::Shot, slot: 0 },
        },
    }
}

/// The obstacle state inside an entity; a placeholder for other variants.
pub open spec fn obstacle_state_of(e: Entity) -> ObstacleState {
    match e {
        Entity::Obstacle(o) => o,
        _ => ObstacleState {
            x: 0,
            y: 0,
            vx: 0,
            vy: 0,
            angle: 0,
            spin: 0,
            scale: 1,
            life: 0,
            handle: InstanceHandle { class: MeshClass::Obstacle, slot: 0 },
        },
    }
}

/// The life left after soaking `dmg` hits, never below zero.
pub open spec fn hurt_life(life: u32, dmg: int) -> u32 {
    if dmg >= life {
        0u32
    } else {
        (life - dmg) as u32
    }
}

/// One entity's turn of the combined pass, on the current collection `s`:
/// it soaks the damage its scan found, is marked dead (a shot that hit, or
/// an obstacle out of life), or else moves — a shot being marked dead after
/// moving out of bounds. Yields the collection afterwards, the dead mark,
/// and whether (as the ship) it collided with an obstacle.
pub open spec fn pass_one(s: Seq<Entity>, i: int) -> (Seq<Entity>, bool, bool) {
    let n = s.len() as int;
    let dmg = shot_hits_upto(s, i, n);
    let hit = obstacle_hit_upto(s, i, n);
    let ship_hit = s[i] is Ship && hit;
    let shot_dies = s[i] is Shot && hit;
    let s1 = if s[i] is Obstacle && dmg > 0 {
        let o = obstacle_state_of(s[i]);
        s.update(
            i,
            Entity::Obstacle(
                ObstacleState {
                    x: o.x,
                    y: o.y,
                    vx: o.vx,
                    vy: o.vy,
                    angle: o.angle,
                    spin: o.spin,
                    scale: o.scale,
                    life: hurt_life(o.life, dmg),
                    handle: o.handle,
                },
            ),
        )
    } else {
        s
    };
    let dies = shot_dies || (s1[i] is Obstacle && obstacle_life(s1[i]) == 0);
    if dies {
        (s1, true, ship_hit)
    } else if s1[i] is Obstacle {
        (s1.update(i, Entity::Obstacle(stepped_obstacle(obstacle_state_of(s1[i])))), false, ship_hit)
    } else if s1[i] is Ship {
        (s1.update(i, Entity::Ship(stepped_ship(ship_state_of(s1[i])))), false, ship_hit)
    } else {
        let moved = stepped_shot(shot_state_of(s1[i]));
        (s1.update(i, Entity::Shot(moved)), shot_oob(moved), ship_hit)
    }
}

/// The combined pass applied to the first `i` entities, in order — damage
/// already soaked by earlier entities is visible to later scans. Yields the
/// evolved collection, the dead indices in increasing order, and whether
/// the ship was hit by an obstacle.
pub open spec fn pass_upto(s: Seq<Entity>, i: int) -> (Seq<Entity>, Seq<usize>, bool)
    decreases i,
{
    if i <= 0 {
        (s, Seq::<usize>::empty(), false)
    } else {
        let prev = pass_upto(s, i - 1);
        let step = pass_one(prev.0, i - 1);
        (
            step.0,
            if step.1 {
                prev.1.push((i - 1) as usize)
            } else {
                prev.1
            },
            prev.2 || step.2,
        )
    }
}

/// A freshly spawned obstacle, as the spawn policy makes them: entering at
/// the trailing edge with full life and parameters inside the documented
/// uniform spawn ranges.
pub open spec fn spawned_obstacle_ok(e: Entity) -> bool {
    e matches Entity::Obstacle(o) && o.x == SPAWN_X && o.life == OBSTACLE_LIFE && -SPAWN_Y_RANGE
        <= o.y < SPAWN_Y_RANGE && 0 <= o.angle < TURN && OBSTACLE_SCALE_MIN <= o.scale
        < OBSTACLE_SCALE_MAX && OBSTACLE_VX_MIN <= o.vx < OBSTACLE_VX_MAX && -OBSTACLE_VY_RANGE
        <= o.vy < OBSTACLE_VY_RANGE && -SPIN_RANGE <= o.spin < SPIN_RANGE
}

/// One volley shot as fired from the ship at `(sx, sy)`: at the symmetric
/// muzzle position for `side` (−1 or +1), facing from that position toward
/// the aim point, in a shot-class slot.
pub open spec fn volley_shot_ok(
    sh: ShotState,
    sx: int,
    sy: int,
    ax: int,
    ay: int,
    side: int,
) -> bool {
    &&& sh.x == volley_x(sx, sy, ax, ay, side)
    &&& sh.y == volley_y(sx, sy, ax, ay, side)
    &&& sh.dir_x == aim_dir_x(sh.x as int, sh.y as int, ax, ay)
    &&& sh.dir_y == aim_dir_y(sh.x as int, sh.y as int, ax, ay)
    &&& sh.handle.class == MeshClass::Shot
}

/// An obstacle's remaining hit points; zero for the other variants.
pub open spec fn obstacle_life(e: Entity) -> u32 {
    match e {
        Entity::Obstacle(o) => o.life,
        _ => 0,
    }
}

/// Whether the index list `d` holds the index `i`.
pub open spec fn contains_index(d: Seq<usize>, i: int) -> bool {
    exists|k: int| 0 <= k < d.len() && d[k] == i
}

/// Whether the first `k` entries of the index list `d` hold the index `i`.
pub open spec fn contains_index_upto(d: Seq<usize>, k: int, i: int) -> bool {
    exists|j: int| 0 <= j < k && j < d.len() && d[j] == i
}

/// How many of the indices `idxs[k..]` point at obstacles in `s`: the
/// number of obstacle deaths a dead-index list accounts for.
pub open spec fn obstacles_from(s: Seq<Entity>, idxs: Seq<usize>, k: int) -> int
    decreases idxs.len() - k,
{
    if k < 0 || k >= idxs.len() {
        0
    } else {
        (if idxs[k] < s.len() && s[idxs[k] as int] is Obstacle {
            1int
        } else {
            0int
        }) + obstacles_from(s, idxs, k + 1)
    }
}

/// The entity collection after removing the listed indices, largest first
/// (so each removal leaves the smaller indices in place): the recursion
/// removes everything after the head first, then the head itself.
pub open spec fn remove_at_indices(s: Seq<Entity>, idxs: Seq<usize>) -> Seq<Entity>
    decreases idxs.len(),
{
    if idxs.len() == 0 {
        s
    } else {
        remove_at_indices(s, idxs.subrange(1, idxs.len() as int)).remove(idxs[0] as int)
    }
}

/// What one running (not game-over) frame does, given the collection `s2`
/// as it stands after steering and firing: the combined pass evolves it and
/// marks the dead; the dead are removed in order, each obstacle death
/// scoring one point (saturating); a game over is recorded exactly when the
/// pass saw the ship hit an obstacle; iff any obstacle died, the
/// replacement obstacles are appended; the cooldown and the report record
/// what happened.
pub open spec fn frame_outcome(
    pre: SimulationEngine,
    post: SimulationEngine,
    report: FrameReport,
    s2: Seq<Entity>,
    fired: bool,
    cd1: int,
) -> bool {
    let r = pass_upto(s2, s2.len() as int);
    let survivors = remove_at_indices(r.0, r.1);
    let destroyed = obstacles_from(r.0, r.1, 0);
    &&& post.spec_game_over() == r.2
    &&& report.obstacles_destroyed == destroyed
    &&& report.obstacles_destroyed + report.shots_removed == r.1.len()
    &&& post.spec_score() == saturate_u64(pre.spec_score() + destroyed)
    &&& post.spec_cooldown() == (if fired {
        COOLDOWN_FRAMES as int
    } else {
        cd1
    })
    &&& (destroyed == 0 ==> post.entities_seq() == survivors)
    &&& (destroyed > 0 ==> {
        &&& post.entities_seq().len() == survivors.len() + DEATH_SPAWN_COUNT
        &&& post.entities_seq().subrange(0, survivors.len() as int) == survivors
        &&& forall|i: int|
            survivors.len() <= i < post.entities_seq().len() ==> spawned_obstacle_ok(
                #[trigger] post.entities_seq()[i],
            )
    })
}

/// Addition that sticks at the top of the `u64` range.
pub open spec fn saturate_u64(v: int) -> int {
    if v > u64::MAX {
        u64::MAX as int
    } else {
        v
    }
}

/// In a strictly increasing index list, entries grow at least as fast as
/// their positions.
proof fn lemma_sorted_gap(d: Seq<usize>, a: int, b: int)
    requires
        forall|k1: int, k2: int| 0 <= k1 < k2 < d.len() ==> d[k1] < d[k2],
        0 <= a <= b < d.len(),
    ensures
        d[b] >= d[a] + (b - a),
    decreases b - a,
{
    if a < b {
        lemma_sorted_gap(d, a, b - 1);
    }
}

/// One entity's collision scan against every other, in entity order: the
/// damage it takes if it is an obstacle, whether it dies if it is a shot,
/// and whether the game ends if it is the ship.
fn scan_collisions(entities: &Vec<Entity>, i: usize) -> (r: (u64, bool, bool))
    requires
        i < entities@.len(),
        forall|j: int| 0 <= j < entities@.len() ==> (#[trigger] entities@[j]).wf(),
    ensures
        r.0 == shot_hits_upto(entities@, i as int, entities@.len() as int),
        r.1 == (entities@[i as int] is Shot && obstacle_hit_upto(
            entities@,
            i as int,
            entities@.len() as int,
        )),
        r.2 == (entities@[i as int] is Ship && obstacle_hit_upto(
            entities@,
            i as int,
            entities@.len() as int,
        )),
{
    let n = entities.len();
    let mut damage: u64 = 0;
    let mut hit_obstacle = false;
    let mut j: usize = 0;
    while j < n
        invariant
            n == entities@.len(),
            i < n,
            j <= n,
            forall|m: int| 0 <= m < entities@.len() ==> (#[trigger] entities@[m]).wf(),
            damage == shot_hits_upto(entities@, i as int, j as int),
            hit_obstacle == obstacle_hit_upto(entities@, i as int, j as int),
            damage <= j,
        decreases n - j,
    {
        if j != i {
            let ei = entities[i];
            let ej = entities[j];
            if ei.is_obstacle() && ej.is_shot() && ei.collides_with(&ej) {
                damage = damage + 1;
            }
            if ej.is_obstacle() && ei.collides_with(&ej) {
                hit_obstacle = true;
            }
        }
        j += 1;
    }
    let ei = entities[i];
    (damage, ei.is_shot() && hit_obstacle, ei.is_ship() && hit_obstacle)
}

/// The simulation state carried across frames.
pub struct SimulationEngine {
    entities: Vec<Entity>,
    table: InstanceSlotTable,
    cooldown: i64,
    game_over: bool,
    score: u64,
}

impl SimulationEngine {
    /// The live entity collection, in collision-processing order.
    pub closed spec fn entities_seq(self) -> Seq<Entity> {
        self.entities@
    }

    /// The instance slot table.
    pub closed spec fn spec_table(self) -> InstanceSlotTable {
        self.table
    }

    /// Frames left until the next volley may fire.
    pub closed spec fn spec_cooldown(self) -> int {
        self.cooldown as int
    }

    /// Whether the world is frozen awaiting a restart.
    pub closed spec fn spec_game_over(self) -> bool {
        self.game_over
    }

    /// Obstacles destroyed since the last (re)start.
    pub closed spec fn spec_score(self) -> int {
        self.score as int
    }

    /// The core invariant: a well-formed table; a nonempty entity list led
    /// by the one and only ship; every entity well-formed, owning a live
    /// slot of its own mesh class, no two entities sharing a slot; and a
    /// cooldown inside its counting range.
    pub open spec fn wf_core(self) -> bool {
        &&& self.spec_table().wf()
        &&& self.entities_seq().len() >= 1
        &&& self.entities_seq()[0] is Ship
        &&& forall|i: int|
            1 <= i < self.entities_seq().len() ==> !((#[trigger] self.entities_seq()[i]) is Ship)
        &&& forall|i: int|
            0 <= i < self.entities_seq().len() ==> (#[trigger] self.entities_seq()[i]).wf()
        &&& forall|i: int|
            0 <= i < self.entities_seq().len() ==> self.spec_table().live(
                (#[trigger] self.entities_seq()[i]).spec_handle(),
            )
        &&& forall|i: int, j: int|
            0 <= i < j < self.entities_seq().len() ==> (#[trigger] self.entities_seq()[i]).spec_handle()
                != (#[trigger] self.entities_seq()[j]).spec_handle()
        &&& -1 <= self.spec_cooldown() <= COOLDOWN_FRAMES
    }

    /// The full between-frames invariant: the core plus every shot resting
    /// inside the play bounds.
    pub open spec fn wf(self) -> bool {
        &&& self.wf_core()
        &&& forall|i: int|
            0 <= i < self.entities_seq().len() ==> shot_rest_ok(#[trigger] self.entities_seq()[i])
    }

    /// Obstacles destroyed since the last (re)start.
    pub fn score(&self) -> (r: u64)
        ensures
            r == self.spec_score(),
    {
        self.score
    }

    /// Whether the world is frozen awaiting a restart.
    pub fn is_game_over(&self) -> (r: bool)
        ensures
            r == self.spec_game_over(),
    {
        self.game_over
    }

    /// How many entities are live.
    pub fn entity_count(&self) -> (n: usize)
        ensures
            n == self.entities_seq().len(),
    {
        self.entities.len()
    }

    /// Read one live entity.
    pub fn entity(&self, i: usize) -> (e: &Entity)
        requires
            i < self.entities_seq().len(),
        ensures
            *e == self.entities_seq()[i as int],
    {
        &self.entities[i]
    }

    /// Read-only access to the instance slot table, for the renderer.
    pub fn table(&self) -> (t: &InstanceSlotTable)
        ensures
            *t == self.spec_table(),
    {
        &self.table
    }

    /// An engine holding only a ship at the given position with zero
    /// velocity: the starting point for a deterministic world.
    pub fn with_ship(x: i64, y: i64) -> (e: SimulationEngine)
        requires
            -X_BOUND <= x <= X_BOUND,
            -Y_MARGIN <= y <= Y_MARGIN,
        ensures
            e.wf(),
            e.entities_seq().len() == 1,
            e.entities_seq()[0] matches Entity::Ship(s) && s.x == x && s.y == y && s.vx == 0
                && s.vy == 0,
            e.spec_score() == 0,
            !e.spec_game_over(),
            e.spec_cooldown() == 0,
            e.spec_table().records(MeshClass::Ship).len() == 1,
            e.spec_table().records(MeshClass::Obstacle).len() == 0,
            e.spec_table().records(MeshClass::Shot).len() == 0,
    {
        let mut table = InstanceSlotTable::new();
        let handle = table.allocate(MeshClass::Ship, InstanceRecord::zeroed());
        let ship = ShipState { x, y, vx: 0, vy: 0, handle };
        let mut entities: Vec<Entity> = Vec::new();
        entities.push(Entity::Ship(ship));
        SimulationEngine { entities, table, cooldown: 0, game_over: false, score: 0 }
    }

    /// Append one obstacle built from explicit parameters: it enters at the
    /// trailing edge (`SPAWN_X`) with full life, in a freshly allocated
    /// obstacle slot.
    pub fn spawn_obstacle(&mut self, p: ObstacleParams)
        requires
            old(self).wf_core(),
            p.wf(),
            old(self).entities_seq().len() < usize::MAX,
            old(self).spec_table().records(MeshClass::Obstacle).len() < usize::MAX,
        ensures
            final(self).wf_core(),
            final(self).entities_seq().len() == old(self).entities_seq().len() + 1,
            final(self).entities_seq() =~= old(self).entities_seq().push(
                final(self).entities_seq().last(),
            ),
            final(self).entities_seq().last() matches Entity::Obstacle(o) && o.x == SPAWN_X
                && o.y == p.y && o.vx == p.vx && o.vy == p.vy && o.angle == p.angle && o.spin
                == p.spin && o.scale == p.scale && o.life == OBSTACLE_LIFE,
            final(self).spec_score() == old(self).spec_score(),
            final(self).spec_game_over() == old(self).spec_game_over(),
            final(self).spec_cooldown() == old(self).spec_cooldown(),
            final(self).spec_table().records(MeshClass::Ship) == old(self).spec_table().records(
                MeshClass::Ship,
            ),
            final(self).spec_table().records(MeshClass::Shot) == old(self).spec_table().records(
                MeshClass::Shot,
            ),
            final(self).spec_table().free_marks(MeshClass::Ship) == old(self).spec_table().free_marks(MeshClass::Ship),
            final(self).spec_table().free_marks(MeshClass::Shot) == old(self).spec_table().free_marks(MeshClass::Shot),
            old(self).spec_table().records(MeshClass::Obstacle).len() <= final(self).spec_table().records(MeshClass::Obstacle).len() <= old(self).spec_table().records(
                MeshClass::Obstacle,
            ).len() + 1,
    {
        let handle = self.table.allocate(MeshClass::Obstacle, InstanceRecord::zeroed());
        let o = ObstacleState {
            x: SPAWN_X,
            y: p.y,
            vx: p.vx,
            vy: p.vy,
            angle: p.angle,
            spin: p.spin,
            scale: p.scale,
            life: OBSTACLE_LIFE,
            handle,
        };
        proof {
            let pre = old(self).spec_table();
            let post = self.table;
            assert(post.records(MeshClass::Ship) == pre.records(MeshClass::Ship));
            assert(post.records(MeshClass::Shot) == pre.records(MeshClass::Shot));
            // the allocation either reused a free obstacle slot or appended one
            if exists|s: int|
                0 <= s < pre.free_marks(MeshClass::Obstacle).len() && pre.free_marks(
                    MeshClass::Obstacle,
                )[s] {
                assert(post.records(MeshClass::Obstacle) == pre.records(MeshClass::Obstacle).update(
                    handle.slot as int,
                    InstanceRecord::zero_spec(),
                ));
            } else {
                assert(post.records(MeshClass::Obstacle) == pre.records(MeshClass::Obstacle).push(
                    InstanceRecord::zero_spec(),
                ));
            }
            // every handle live before the allocation is still live, and the
            // new handle differs from each of them
            assert forall|i: int|
                0 <= i < self.entities@.len() implies post.live(
                (#[trigger] self.entities@[i]).spec_handle(),
            ) && self.entities@[i].spec_handle() != handle by {
                let h = self.entities@[i].spec_handle();
                assert(pre.live(h));
                if h.class != MeshClass::Obstacle {
                    assert(post.records(h.class) == pre.records(h.class));
                    assert(post.free_marks(h.class) == pre.free_marks(h.class));
                }
            }
        }
        self.entities.push(Entity::Obstacle(o));
    }

    /// Append one shot with the given position and facing vector, in a
    /// freshly allocated shot slot.
    fn push_shot(&mut self, x: i64, y: i64, dir_x: i64, dir_y: i64)
        requires
            old(self).wf_core(),
            -POS_LIMIT <= x <= POS_LIMIT,
            -POS_LIMIT <= y <= POS_LIMIT,
            -UNIT <= dir_x <= UNIT,
            -UNIT <= dir_y <= UNIT,
            old(self).entities_seq().len() < usize::MAX,
            old(self).spec_table().records(MeshClass::Shot).len() < usize::MAX,
        ensures
            final(self).wf_core(),
            final(self).entities_seq().len() == old(self).entities_seq().len() + 1,
            final(self).entities_seq() =~= old(self).entities_seq().push(
                final(self).entities_seq().last(),
            ),
            final(self).entities_seq().last() matches Entity::Shot(s) && s.x == x && s.y == y
                && s.dir_x == dir_x && s.dir_y == dir_y,
            final(self).spec_score() == old(self).spec_score(),
            final(self).spec_game_over() == old(self).spec_game_over(),
            final(self).spec_cooldown() == old(self).spec_cooldown(),
            final(self).spec_table().records(MeshClass::Ship) == old(self).spec_table().records(
                MeshClass::Ship,
            ),
            final(self).spec_table().records(MeshClass::Obstacle) == old(self).spec_table().records(MeshClass::Obstacle),
            final(self).spec_table().free_marks(MeshClass::Ship) == old(self).spec_table().free_marks(MeshClass::Ship),
            final(self).spec_table().free_marks(MeshClass::Obstacle) == old(self).spec_table().free_marks(MeshClass::Obstacle),
            old(self).spec_table().records(MeshClass::Shot).len() <= final(self).spec_table().records(MeshClass::Shot).len() <= old(self).spec_table().records(
                MeshClass::Shot,
            ).len() + 1,
    {
        let handle = self.table.allocate(MeshClass::Shot, InstanceRecord::zeroed());
        let s = ShotState { x, y, dir_x, dir_y, handle };
        proof {
            let pre = old(self).spec_table();
            let post = self.table;
            assert(post.records(MeshClass::Ship) == pre.records(MeshClass::Ship));
            assert(post.records(MeshClass::Obstacle) == pre.records(MeshClass::Obstacle));
            if exists|s2: int|
                0 <= s2 < pre.free_marks(MeshClass::Shot).len() && pre.free_marks(
                    MeshClass::Shot,
                )[s2] {
                assert(post.records(MeshClass::Shot) == pre.records(MeshClass::Shot).update(
                    handle.slot as int,
                    InstanceRecord::zero_spec(),
                ));
            } else {
                assert(post.records(MeshClass::Shot) == pre.records(MeshClass::Shot).push(
                    InstanceRecord::zero_spec(),
                ));
            }
            assert forall|i: int|
                0 <= i < self.entities@.len() implies post.live(
                (#[trigger] self.entities@[i]).spec_handle(),
            ) && self.entities@[i].spec_handle() != handle by {
                let h = self.entities@[i].spec_handle();
                assert(pre.live(h));
                if h.class != MeshClass::Shot {
                    assert(post.records(h.class) == pre.records(h.class));
                    assert(post.free_marks(h.class) == pre.free_marks(h.class));
                }
            }
        }
        self.entities.push(Entity::Shot(s));
    }

    /// Append one shot at rest inside the play bounds: the deterministic
    /// entry point for building a custom world.
    pub fn spawn_shot(&mut self, x: i64, y: i64, dir_x: i64, dir_y: i64)
        requires
            old(self).wf(),
            -X_BOUND < x <= X_BOUND,
            -SHOT_Y_BOUND < y <= SHOT_Y_BOUND,
            -UNIT <= dir_x <= UNIT,
            -UNIT <= dir_y <= UNIT,
            old(self).entities_seq().len() < usize::MAX,
            old(self).spec_table().records(MeshClass::Shot).len() < usize::MAX,
        ensures
            final(self).wf(),
            final(self).entities_seq().len() == old(self).entities_seq().len() + 1,
            final(self).entities_seq() =~= old(self).entities_seq().push(
                final(self).entities_seq().last(),
            ),
            final(self).entities_seq().last() matches Entity::Shot(s) && s.x == x && s.y == y
                && s.dir_x == dir_x && s.dir_y == dir_y,
            final(self).spec_score() == old(self).spec_score(),
            final(self).spec_game_over() == old(self).spec_game_over(),
            final(self).spec_cooldown() == old(self).spec_cooldown(),
            final(self).spec_table().records(MeshClass::Ship) == old(self).spec_table().records(
                MeshClass::Ship,
            ),
            final(self).spec_table().records(MeshClass::Obstacle) == old(self).spec_table().records(MeshClass::Obstacle),
            final(self).spec_table().free_marks(MeshClass::Ship) == old(self).spec_table().free_marks(MeshClass::Ship),
            final(self).spec_table().free_marks(MeshClass::Obstacle) == old(self).spec_table().free_marks(MeshClass::Obstacle),
            old(self).spec_table().records(MeshClass::Shot).len() <= final(self).spec_table().records(MeshClass::Shot).len() <= old(self).spec_table().records(
                MeshClass::Shot,
            ).len() + 1,
    {
        self.push_shot(x, y, dir_x, dir_y);
        proof {
            assert forall|i: int|
                0 <= i < self.entities@.len() implies shot_rest_ok(
                #[trigger] self.entities@[i],
            ) by {
                if i < old(self).entities@.len() {
                    assert(self.entities@[i] == old(self).entities@[i]);
                }
            }
        }
    }

    /// Fire one volley: two shots symmetric about the aim axis, each facing
    /// from its own muzzle position toward the aim point; the fire cooldown
    /// restarts.
    #[verifier::rlimit(80)]
    fn fire_volley(&mut self, aim_x: i64, aim_y: i64)
        requires
            old(self).wf(),
            -AIM_LIMIT <= aim_x <= AIM_LIMIT,
            -AIM_LIMIT <= aim_y <= AIM_LIMIT,
            old(self).entities_seq().len() <= usize::MAX - 2,
            old(self).spec_table().records(MeshClass::Shot).len() <= usize::MAX - 2,
        ensures
            final(self).wf_core(),
            forall|i: int|
                0 <= i < final(self).entities_seq().len() ==> shot_fresh_ok(
                    #[trigger] final(self).entities_seq()[i],
                ),
            final(self).entities_seq().len() == old(self).entities_seq().len() + 2,
            final(self).entities_seq().subrange(0, old(self).entities_seq().len() as int) == old(self).entities_seq(),
            final(self).spec_cooldown() == COOLDOWN_FRAMES,
            final(self).spec_score() == old(self).spec_score(),
            final(self).spec_game_over() == old(self).spec_game_over(),
            final(self).spec_table().records(MeshClass::Ship) == old(self).spec_table().records(
                MeshClass::Ship,
            ),
            final(self).spec_table().records(MeshClass::Obstacle) == old(self).spec_table().records(MeshClass::Obstacle),
            final(self).spec_table().free_marks(MeshClass::Ship) == old(self).spec_table().free_marks(MeshClass::Ship),
            final(self).spec_table().free_marks(MeshClass::Obstacle) == old(self).spec_table().free_marks(MeshClass::Obstacle),
            old(self).spec_table().records(MeshClass::Shot).len() <= final(self).spec_table().records(MeshClass::Shot).len() <= old(self).spec_table().records(
                MeshClass::Shot,
            ).len() + 2,
            ({
                let sh = old(self).entities_seq()[0];
                let n = old(self).entities_seq().len() as int;
                &&& final(self).entities_seq()[n] matches Entity::Shot(s0) && s0.x == volley_x(
                    sh.spec_x(),
                    sh.spec_y(),
                    aim_x as int,
                    aim_y as int,
                    -1,
                ) && s0.y == volley_y(sh.spec_x(), sh.spec_y(), aim_x as int, aim_y as int, -1)
                    && s0.dir_x == aim_dir_x(s0.x as int, s0.y as int, aim_x as int, aim_y as int)
                    && s0.dir_y == aim_dir_y(s0.x as int, s0.y as int, aim_x as int, aim_y as int)
                &&& final(self).entities_seq()[n + 1] matches Entity::Shot(s1) && s1.x == volley_x(
                    sh.spec_x(),
                    sh.spec_y(),
                    aim_x as int,
                    aim_y as int,
                    1,
                ) && s1.y == volley_y(sh.spec_x(), sh.spec_y(), aim_x as int, aim_y as int, 1)
                    && s1.dir_x == aim_dir_x(s1.x as int, s1.y as int, aim_x as int, aim_y as int)
                    && s1.dir_y == aim_dir_y(s1.x as int, s1.y as int, aim_x as int, aim_y as int)
            }),
    {
        let (sx, sy) = self.entities[0].position();
        let dx = aim_x - sx;
        let dy = aim_y - sy;
        let (ux, uy) = if dx == 0 && dy == 0 {
            (UNIT, 0)
        } else {
            unit_toward(dx, dy)
        };
        proof {
            assert(ux == aim_dir_x(sx as int, sy as int, aim_x as int, aim_y as int));
            assert(uy == aim_dir_y(sx as int, sy as int, aim_x as int, aim_y as int));
            lemma_muldiv_scale_bound(ux as int, SHOT_FORWARD_OFFSET as int, UNIT as int);
            lemma_muldiv_scale_bound(uy as int, SHOT_FORWARD_OFFSET as int, UNIT as int);
            lemma_muldiv_scale_bound(-(uy as int), SHOT_SIDE_OFFSET as int, UNIT as int);
            lemma_muldiv_scale_bound(ux as int, SHOT_SIDE_OFFSET as int, UNIT as int);
        }
        let fx = scale_i64(ux, SHOT_FORWARD_OFFSET as u64, UNIT as u64);
        let fy = scale_i64(uy, SHOT_FORWARD_OFFSET as u64, UNIT as u64);
        let lx = scale_i64(-uy, SHOT_SIDE_OFFSET as u64, UNIT as u64);
        let ly = scale_i64(ux, SHOT_SIDE_OFFSET as u64, UNIT as u64);
        let p0x = sx + fx - lx;
        let p0y = sy + fy - ly;
        let p1x = sx + fx + lx;
        let p1y = sy + fy + ly;
        let (d0x, d0y) = Self::muzzle_dir(p0x, p0y, aim_x, aim_y);
        let (d1x, d1y) = Self::muzzle_dir(p1x, p1y, aim_x, aim_y);
        self.push_shot(p0x, p0y, d0x, d0y);
        self.push_shot(p1x, p1y, d1x, d1y);
        self.cooldown = COOLDOWN_FRAMES;
        proof {
            assert(self.entities@.subrange(0, old(self).entities@.len() as int) =~= old(self).entities@);
            assert forall|i: int|
                0 <= i < self.entities@.len() implies shot_fresh_ok(
                #[trigger] self.entities@[i],
            ) by {
                if i < old(self).entities@.len() {
                    assert(self.entities@[i] == old(self).entities@[i]);
                    assert(shot_rest_ok(old(self).entities@[i]));
                }
            }
        }
    }

    /// The facing vector of a shot fired from `(px, py)`: toward the aim
    /// point, or straight right when the muzzle sits exactly on it.
    fn muzzle_dir(px: i64, py: i64, aim_x: i64, aim_y: i64) -> (u: (i64, i64))
        requires
            -2_000_000 <= px <= 2_000_000,
            -2_000_000 <= py <= 2_000_000,
            -AIM_LIMIT <= aim_x <= AIM_LIMIT,
            -AIM_LIMIT <= aim_y <= AIM_LIMIT,
        ensures
            u.0 == aim_dir_x(px as int, py as int, aim_x as int, aim_y as int),
            u.1 == aim_dir_y(px as int, py as int, aim_x as int, aim_y as int),
            -UNIT <= u.0 <= UNIT,
            -UNIT <= u.1 <= UNIT,
    {
        let ddx = aim_x - px;
        let ddy = aim_y - py;
        if ddx == 0 && ddy == 0 {
            (UNIT, 0)
        } else {
            unit_toward(ddx, ddy)
        }
    }

    /// The combined collision/damage/death-marking/motion pass, in entity
    /// order. Each entity scans all others in the current state (so damage
    /// already applied to earlier entities is visible), takes its damage,
    /// is marked dead (shot that hit, obstacle out of life), or else moves;
    /// a shot leaving the play bounds is marked dead after moving. A
    /// ship–obstacle collision sets the game-over flag. Returns the dead
    /// indices in increasing order; nothing is removed yet.
    fn collide_and_move(&mut self) -> (dead: Vec<usize>)
        requires
            old(self).wf_core(),
            forall|i: int|
                0 <= i < old(self).entities_seq().len() ==> shot_fresh_ok(
                    #[trigger] old(self).entities_seq()[i],
                ),
        ensures
            final(self).wf_core(),
            final(self).entities_seq().len() == old(self).entities_seq().len(),
            final(self).spec_table() == old(self).spec_table(),
            final(self).spec_score() == old(self).spec_score(),
            final(self).spec_cooldown() == old(self).spec_cooldown(),
            old(self).spec_game_over() ==> final(self).spec_game_over(),
            // the pass is exactly the spec-level replay of the sequential
            // scan/damage/death/motion fold
            ({
                let r = pass_upto(
                    old(self).entities_seq(),
                    old(self).entities_seq().len() as int,
                );
                &&& final(self).entities_seq() == r.0
                &&& dead@ == r.1
                &&& final(self).spec_game_over() == (old(self).spec_game_over() || r.2)
            }),
            forall|i: int|
                0 <= i < final(self).entities_seq().len()
                    ==> (#[trigger] final(self).entities_seq()[i]).spec_handle() == old(self).entities_seq()[i].spec_handle(),
            forall|k: int|
                #![trigger dead@[k]]
                0 <= k < dead@.len() ==> (1 <= dead@[k] && dead@[k] < final(self).entities_seq().len()),
            forall|k1: int, k2: int|
                0 <= k1 < k2 < dead@.len() ==> dead@[k1] < dead@[k2],
            forall|k: int|
                0 <= k < dead@.len() ==> (#[trigger] final(self).entities_seq()[dead@[k] as int])
                    is Shot || final(self).entities_seq()[dead@[k] as int] is Obstacle,
            forall|i: int|
                0 <= i < final(self).entities_seq().len() && !contains_index(dead@, i)
                    ==> shot_rest_ok(#[trigger] final(self).entities_seq()[i]),
            // damage only accumulates: an obstacle stays an obstacle and its
            // life never rises during the pass
            forall|i: int|
                0 <= i < final(self).entities_seq().len() && old(self).entities_seq()[i]
                    is Obstacle ==> (#[trigger] final(self).entities_seq()[i]) is Obstacle
                    && obstacle_life(final(self).entities_seq()[i]) <= obstacle_life(
                    old(self).entities_seq()[i],
                ),
    {
        let n = self.entities.len();
        let mut dead: Vec<usize> = Vec::new();
        let mut i: usize = 0;
        while i < n
            invariant
                n == self.entities@.len(),
                self.entities@.len() == old(self).entities@.len(),
                i <= n,
                self.wf_core(),
                self.table == old(self).table,
                self.score == old(self).score,
                self.cooldown == old(self).cooldown,
                old(self).game_over ==> self.game_over,
                self.entities@ == pass_upto(old(self).entities@, i as int).0,
                dead@ == pass_upto(old(self).entities@, i as int).1,
                self.game_over == (old(self).game_over || pass_upto(
                    old(self).entities@,
                    i as int,
                ).2),
                forall|j: int|
                    0 <= j < n ==> (#[trigger] self.entities@[j]).spec_handle() == old(self).entities@[j].spec_handle(),
                forall|j: int| i <= j < n ==> self.entities@[j] == old(self).entities@[j],
                forall|j: int|
                    0 <= j < old(self).entities@.len() ==> shot_fresh_ok(
                        #[trigger] old(self).entities@[j],
                    ),
                forall|k: int|
                    #![trigger dead@[k]]
                    0 <= k < dead@.len() ==> (1 <= dead@[k] && dead@[k] < i),
                forall|k1: int, k2: int| 0 <= k1 < k2 < dead@.len() ==> dead@[k1] < dead@[k2],
                forall|k: int|
                    0 <= k < dead@.len() ==> (#[trigger] self.entities@[dead@[k] as int]) is Shot
                        || self.entities@[dead@[k] as int] is Obstacle,
                forall|j: int|
                    0 <= j < i && !contains_index(dead@, j) ==> shot_rest_ok(
                        #[trigger] self.entities@[j],
                    ),
                forall|j: int|
                    0 <= j < n && old(self).entities@[j] is Obstacle
                        ==> (#[trigger] self.entities@[j]) is Obstacle && obstacle_life(
                        self.entities@[j],
                    ) <= obstacle_life(old(self).entities@[j]),
            decreases n - i,
        {
            let ghost dead_before = dead@;
            let (damage, shot_dies, ship_hit) = scan_collisions(&self.entities, i);
            if ship_hit {
                self.game_over = true;
            }
            if damage > 0 {
                let e = self.entities[i];
                if let Entity::Obstacle(o) = e {
                    let hurt = ObstacleState {
                        life: if damage >= o.life as u64 {
                            0
                        } else {
                            o.life - damage as u32
                        },
                        ..o
                    };
                    self.entities[i] = Entity::Obstacle(hurt);
                }
            }
            let e = self.entities[i];
            let mut dies = shot_dies;
            if let Entity::Obstacle(o) = e {
                if o.life == 0 {
                    dies = true;
                }
            }
            if dies {
                dead.push(i);
                proof {
                    assert(self.entities@[i as int] is Shot || self.entities@[i as int]
                        is Obstacle);
                }
            } else {
                match e {
                    Entity::Obstacle(o) => {
                        let mut moved = o;
                        moved.step();
                        self.entities[i] = Entity::Obstacle(moved);
                    },
                    Entity::Ship(s) => {
                        let mut moved = s;
                        moved.step();
                        self.entities[i] = Entity::Ship(moved);
                    },
                    Entity::Shot(s) => {
                        let mut moved = s;
                        let oob = moved.step();
                        self.entities[i] = Entity::Shot(moved);
                        if oob {
                            dead.push(i);
                        }
                    },
                }
            }
            proof {
                // this iteration is exactly `pass_one` on the collection the
                // iteration started from
                let prev = pass_upto(old(self).entities@, i as int);
                let stepped = pass_one(prev.0, i as int);
                assert(self.entities@ == stepped.0);
                assert(dead@ == if stepped.1 {
                    prev.1.push(i)
                } else {
                    prev.1
                });
                assert(self.game_over == (old(self).game_over || prev.2 || stepped.2));
                assert forall|j: int|
                    0 <= j < i + 1 && !contains_index(dead@, j) implies shot_rest_ok(
                    #[trigger] self.entities@[j],
                ) by {
                    if j < i {
                        // membership in the list only grows, so an index not
                        // in the new list was not in the old one either
                        if contains_index(dead_before, j) {
                            let k = choose|k: int|
                                0 <= k < dead_before.len() && dead_before[k] == j;
                            assert(dead@[k] == dead_before[k]);
                            assert(contains_index(dead@, j));
                        }
                    } else {
                        // this iteration's entity: either it was marked dead
                        // (so the hypothesis fails), or a moved shot passed
                        // the bounds test
                        if dead@.len() == dead_before.len() + 1 {
                            assert(dead@[dead_before.len() as int] == i);
                            assert(contains_index(dead@, i as int));
                        }
                    }
                }
            }
            i += 1;
        }
        dead
    }

    /// Remove the entities marked dead, largest index first (so the smaller
    /// indices stay valid), freeing each one's instance slot in the same
    /// step; every obstacle death raises the score by one. Returns how many
    /// obstacles and how many shots were removed.
    fn remove_dead(&mut self, dead: Vec<usize>) -> (removed: (usize, usize))
        requires
            old(self).wf_core(),
            forall|k: int|
                #![trigger dead@[k]]
                0 <= k < dead@.len() ==> (1 <= dead@[k] && dead@[k] < old(self).entities_seq().len()),
            forall|k1: int, k2: int| 0 <= k1 < k2 < dead@.len() ==> dead@[k1] < dead@[k2],
            forall|i: int|
                0 <= i < old(self).entities_seq().len() && !contains_index(dead@, i)
                    ==> shot_rest_ok(#[trigger] old(self).entities_seq()[i]),
        ensures
            final(self).wf(),
            final(self).entities_seq() == remove_at_indices(old(self).entities_seq(), dead@),
            final(self).entities_seq().len() == old(self).entities_seq().len() - dead@.len(),
            final(self).spec_score() == saturate_u64(old(self).spec_score() + removed.0),
            removed.0 == obstacles_from(old(self).entities_seq(), dead@, 0),
            removed.0 + removed.1 == dead@.len(),
            final(self).spec_game_over() == old(self).spec_game_over(),
            final(self).spec_cooldown() == old(self).spec_cooldown(),
            final(self).entities_seq()[0] == old(self).entities_seq()[0],
            forall|c: MeshClass| (#[trigger] final(self).spec_table().records(c)).len() == old(self).spec_table().records(c).len(),
    {
        let mut destroyed: usize = 0;
        let mut culled: usize = 0;
        let mut k: usize = dead.len();
        proof {
            if dead@.len() > 0 {
                lemma_sorted_gap(dead@, 0, dead@.len() - 1);
            }
            assert(dead@.subrange(dead@.len() as int, dead@.len() as int) =~= Seq::<
                usize,
            >::empty());
        }
        while k > 0
            invariant
                self.wf_core(),
                k <= dead@.len(),
                dead@.len() <= old(self).entities@.len(),
                self.entities@.len() == old(self).entities@.len() - (dead@.len() - k),
                destroyed + culled == dead@.len() - k,
                self.entities@ == remove_at_indices(
                    old(self).entities@,
                    dead@.subrange(k as int, dead@.len() as int),
                ),
                destroyed == obstacles_from(old(self).entities@, dead@, k as int),
                forall|j: int|
                    0 <= j < k ==> self.entities@[#[trigger] dead@[j] as int] == old(self).entities@[dead@[j] as int],
                self.score == saturate_u64(old(self).score + destroyed),
                self.game_over == old(self).game_over,
                self.cooldown == old(self).cooldown,
                self.entities@[0] == old(self).entities@[0],
                forall|c: MeshClass| (#[trigger] self.table.records(c)).len() == old(self).table.records(c).len(),
                forall|k1: int, k2: int| 0 <= k1 < k2 < dead@.len() ==> dead@[k1] < dead@[k2],
                forall|k1: int|
                    #![trigger dead@[k1]]
                    0 <= k1 < dead@.len() ==> 1 <= dead@[k1],
                forall|k1: int|
                    #![trigger dead@[k1]]
                    0 <= k1 < k ==> dead@[k1] < self.entities@.len(),
                forall|m: int|
                    0 <= m < self.entities@.len() ==> (contains_index_upto(dead@, k as int, m)
                        || shot_rest_ok(#[trigger] self.entities@[m])),
            decreases k,
        {
            proof {
                if k < dead@.len() {
                    lemma_sorted_gap(dead@, k as int - 1, dead@.len() - 1);
                }
            }
            k = k - 1;
            let idx = dead[k];
            let ghost pre_vec = self.entities@;
            let ghost pre_table = self.table;
            let e = self.entities.remove(idx);
            self.table.free(e.handle());
            if e.is_obstacle() {
                destroyed = destroyed + 1;
                self.score = if self.score < u64::MAX {
                    self.score + 1
                } else {
                    self.score
                };
            } else {
                culled = culled + 1;
            }
            proof {
                // the loop's removals replay the spec-level recursion
                let sub = dead@.subrange(k as int, dead@.len() as int);
                assert(sub[0] == dead@[k as int]);
                assert(sub.subrange(1, sub.len() as int) =~= dead@.subrange(
                    k as int + 1,
                    dead@.len() as int,
                ));
                assert(self.entities@ == remove_at_indices(old(self).entities@, sub));
                let h = e.spec_handle();
                assert(self.table.records(h.class).len() == pre_table.records(h.class).len());
                assert forall|c: MeshClass| (#[trigger] self.table.records(c)).len() == old(self).table.records(c).len() by {
                    if c != h.class {
                        assert(self.table.records(c) == pre_table.records(c));
                    }
                }
                // every remaining entity keeps a live slot: its handle is not
                // the one that was freed
                assert forall|m: int|
                    0 <= m < self.entities@.len() implies self.table.live(
                    (#[trigger] self.entities@[m]).spec_handle(),
                ) && self.entities@[m].wf() by {
                    let src: int = if m < idx {
                        m
                    } else {
                        m + 1
                    };
                    assert(self.entities@[m] == pre_vec[src]);
                    let hm = pre_vec[src].spec_handle();
                    assert(hm != h);
                    if hm.class != h.class {
                        assert(self.table.records(hm.class) == pre_table.records(hm.class));
                        assert(self.table.free_marks(hm.class) == pre_table.free_marks(hm.class));
                    }
                }
                // injectivity survives removal
                assert forall|m1: int, m2: int|
                    0 <= m1 < m2 < self.entities@.len() implies (
                #[trigger] self.entities@[m1]).spec_handle() != (
                #[trigger] self.entities@[m2]).spec_handle() by {
                    let s1: int = if m1 < idx {
                        m1
                    } else {
                        m1 + 1
                    };
                    let s2: int = if m2 < idx {
                        m2
                    } else {
                        m2 + 1
                    };
                    assert(self.entities@[m1] == pre_vec[s1]);
                    assert(self.entities@[m2] == pre_vec[s2]);
                }
                // shots at rest, except the ones still marked dead (all of
                // which sit below the index just removed)
                assert forall|m: int|
                    0 <= m < self.entities@.len() implies (contains_index_upto(dead@, k as int, m)
                    || shot_rest_ok(#[trigger] self.entities@[m])) by {
                    if m < idx {
                        assert(self.entities@[m] == pre_vec[m]);
                        if contains_index_upto(dead@, k as int + 1, m) {
                            let j = choose|j: int|
                                0 <= j < k + 1 && j < dead@.len() && dead@[j] == m;
                            assert(dead@[j] == m && m < idx && dead@[k as int] == idx);
                            assert(j < k);
                            assert(contains_index_upto(dead@, k as int, m));
                        }
                    } else {
                        assert(self.entities@[m] == pre_vec[m + 1]);
                        if contains_index_upto(dead@, k as int + 1, m + 1) {
                            let j = choose|j: int|
                                0 <= j < k + 1 && j < dead@.len() && dead@[j] == m + 1;
                            assert(dead@[j] <= dead@[k as int]);
                            assert(false);
                        }
                    }
                }
            }
        }
        proof {
            assert(dead@.subrange(0, dead@.len() as int) =~= dead@);
        }
        (destroyed, culled)
    }

    /// Write every surviving entity's current record into its slot:
    /// position, orientation (obstacles spin, ship and shots face along a
    /// vector), scale and shading.
    fn refresh_records(&mut self, aim_x: i64, aim_y: i64)
        requires
            old(self).wf(),
            -AIM_LIMIT <= aim_x <= AIM_LIMIT,
            -AIM_LIMIT <= aim_y <= AIM_LIMIT,
        ensures
            final(self).wf(),
            final(self).entities_seq() == old(self).entities_seq(),
            final(self).spec_score() == old(self).spec_score(),
            final(self).spec_game_over() == old(self).spec_game_over(),
            final(self).spec_cooldown() == old(self).spec_cooldown(),
            forall|c: MeshClass| #[trigger] final(self).spec_table().free_marks(c) == old(self).spec_table().free_marks(c),
            forall|c: MeshClass| (#[trigger] final(self).spec_table().records(c)).len() == old(self).spec_table().records(c).len(),
            forall|i: int|
                0 <= i < final(self).entities_seq().len() ==> {
                    let e = #[trigger] final(self).entities_seq()[i];
                    final(self).spec_table().records(e.spec_handle().class)[e.spec_handle().slot as int]
                        == spec_record_for(e, aim_x, aim_y)
                },
    {
        let n = self.entities.len();
        let mut i: usize = 0;
        while i < n
            invariant
                n == self.entities@.len(),
                self.wf(),
                -AIM_LIMIT <= aim_x <= AIM_LIMIT,
                -AIM_LIMIT <= aim_y <= AIM_LIMIT,
                i <= n,
                self.entities@ == old(self).entities@,
                self.score == old(self).score,
                self.game_over == old(self).game_over,
                self.cooldown == old(self).cooldown,
                forall|c: MeshClass| #[trigger] self.table.free_marks(c) == old(self).table.free_marks(c),
                forall|c: MeshClass| (#[trigger] self.table.records(c)).len() == old(self).table.records(c).len(),
                forall|j: int|
                    0 <= j < i ==> {
                        let e = #[trigger] self.entities@[j];
                        self.table.records(e.spec_handle().class)[e.spec_handle().slot as int]
                            == spec_record_for(e, aim_x, aim_y)
                    },
            decreases n - i,
        {
            let e = self.entities[i];
            let rec = match e {
                Entity::Ship(s) => InstanceRecord {
                    x: s.x,
                    y: s.y,
                    orient: Orientation::Heading(aim_x - s.x, aim_y - s.y),
                    scale: SHIP_RADIUS,
                    shade: SHADE_OBJECT,
                },
                Entity::Shot(s) => InstanceRecord {
                    x: s.x,
                    y: s.y,
                    orient: Orientation::Heading(s.dir_x, s.dir_y),
                    scale: SHOT_RADIUS,
                    shade: SHADE_SHOT,
                },
                Entity::Obstacle(o) => InstanceRecord {
                    x: o.x,
                    y: o.y,
                    orient: Orientation::Spin(o.angle),
                    scale: o.scale,
                    shade: SHADE_OBJECT,
                },
            };
            let ghost pre_table = self.table;
            self.table.update(e.handle(), rec);
            proof {
                let h = e.spec_handle();
                assert forall|c: MeshClass| #[trigger] self.table.free_marks(c) == old(self).table.free_marks(c) && (self.table.records(c)).len() == old(self).table.records(c).len() by {
                    if c != h.class {
                        assert(self.table.records(c) == pre_table.records(c));
                        assert(self.table.free_marks(c) == pre_table.free_marks(c));
                    }
                }
                // earlier entities keep their records: their slots differ
                assert forall|j: int|
                    0 <= j <= i implies {
                    let e2 = #[trigger] self.entities@[j];
                    self.table.records(e2.spec_handle().class)[e2.spec_handle().slot as int]
                        == spec_record_for(e2, aim_x, aim_y)
                } by {
                    let e2 = self.entities@[j];
                    let h2 = e2.spec_handle();
                    if j < i {
                        assert(h2 != h);
                        if h2.class != h.class {
                            assert(self.table.records(h2.class) == pre_table.records(h2.class));
                        }
                    }
                }
                assert forall|m: int|
                    0 <= m < self.entities@.len() implies self.table.live(
                    (#[trigger] self.entities@[m]).spec_handle(),
                ) by {
                    let hm = self.entities@[m].spec_handle();
                    if hm.class != h.class {
                        assert(self.table.records(hm.class) == pre_table.records(hm.class));
                        assert(self.table.free_marks(hm.class) == pre_table.free_marks(hm.class));
                    }
                }
            }
            i += 1;
        }
    }

    /// Clear the world after a game over: free every entity's slot, empty
    /// the collection, reset the score, and run the initial setup again —
    /// one ship at the field center plus the initial count of random
    /// obstacles.
    fn reset_world(&mut self)
        requires
            old(self).wf_core(),
            forall|c: MeshClass| (#[trigger] old(self).spec_table().records(c)).len()
                <= usize::MAX - 8,
        ensures
            final(self).wf(),
            final(self).spec_score() == 0,
            !final(self).spec_game_over(),
            final(self).spec_cooldown() == old(self).spec_cooldown(),
            final(self).entities_seq().len() == 1 + INITIAL_OBSTACLES,
            final(self).entities_seq()[0] matches Entity::Ship(s) && s.x == 0 && s.y == 0 && s.vx
                == 0 && s.vy == 0,
            forall|i: int|
                1 <= i < final(self).entities_seq().len()
                    ==> spawned_obstacle_ok(#[trigger] final(self).entities_seq()[i]),
            forall|c: MeshClass|
                old(self).spec_table().records(c).len() <= (
                #[trigger] final(self).spec_table().records(c)).len() <= old(self).spec_table().records(c).len() + 8,
    {
        let n = self.entities.len();
        let mut i: usize = 0;
        while i < n
            invariant
                n == self.entities@.len(),
                i <= n,
                self.table.wf(),
                self.entities@ == old(self).entities@,
                self.score == old(self).score,
                self.game_over == old(self).game_over,
                self.cooldown == old(self).cooldown,
                forall|j: int|
                    0 <= j < n ==> self.table.in_bounds(
                        (#[trigger] self.entities@[j]).spec_handle(),
                    ),
                forall|c: MeshClass| (#[trigger] self.table.records(c)).len() == old(self).spec_table().records(c).len(),
            decreases n - i,
        {
            let e = self.entities[i];
            let ghost pre_table = self.table;
            self.table.free(e.handle());
            proof {
                let h = e.spec_handle();
                assert forall|c: MeshClass| (#[trigger] self.table.records(c)).len() == old(self).spec_table().records(c).len() by {
                    if c != h.class {
                        assert(self.table.records(c) == pre_table.records(c));
                    }
                }
                assert forall|j: int|
                    0 <= j < n implies self.table.in_bounds(
                    (#[trigger] self.entities@[j]).spec_handle(),
                ) by {
                    let hj = self.entities@[j].spec_handle();
                    if hj.class != h.class {
                        assert(self.table.records(hj.class) == pre_table.records(hj.class));
                    }
                }
            }
            i += 1;
        }
        self.entities.clear();
        let ghost t_freed = self.table;
        let handle = self.table.allocate(MeshClass::Ship, InstanceRecord::zeroed());
        self.entities.push(Entity::Ship(ShipState { x: 0, y: 0, vx: 0, vy: 0, handle }));
        self.score = 0;
        self.game_over = false;
        let ghost t_ship = self.table;
        self.spawn_wave(INITIAL_OBSTACLES);
        proof {
            // no lane shrank: freeing keeps lengths, the ship and obstacle
            // allocations only grow theirs
            assert forall|c: MeshClass|
                old(self).spec_table().records(c).len() <= (
            #[trigger] self.table.records(c)).len() by {
                if c != MeshClass::Ship {
                    assert(t_ship.records(c) == t_freed.records(c));
                }
                match c {
                    MeshClass::Obstacle => {},
                    MeshClass::Ship => {
                        assert(self.table.records(MeshClass::Ship) == t_ship.records(
                            MeshClass::Ship,
                        ));
                    },
                    MeshClass::Shot => {
                        assert(self.table.records(MeshClass::Shot) == t_ship.records(
                            MeshClass::Shot,
                        ));
                    },
                }
            }
        }
    }

    /// A fresh game, as the spawn policy's initial setup describes it: one
    /// ship at the field center with zero velocity, plus the initial count
    /// of obstacles with randomized parameters.
    pub fn new_game() -> (e: SimulationEngine)
        ensures
            e.wf(),
            e.entities_seq().len() == 1 + INITIAL_OBSTACLES,
            e.entities_seq()[0] matches Entity::Ship(s) && s.x == 0 && s.y == 0 && s.vx == 0
                && s.vy == 0,
            forall|i: int|
                1 <= i < e.entities_seq().len() ==> spawned_obstacle_ok(
                    #[trigger] e.entities_seq()[i],
                ),
            e.spec_score() == 0,
            !e.spec_game_over(),
    {
        let mut e = SimulationEngine::with_ship(0, 0);
        e.spawn_wave(INITIAL_OBSTACLES);
        e
    }

    /// Advance the world by one displayed frame.
    ///
    /// With the game over and no restart requested, the world is frozen:
    /// nothing changes. With a restart requested, the world is rebuilt from
    /// the initial setup and the score resets to zero — the only way it
    /// ever decreases. Otherwise the ship steers toward the aim point, a
    /// volley may fire, collisions are detected and resolved in entity
    /// order, the dead are removed (each obstacle death scoring one point,
    /// exactly as the report says), replacements spawn, and every
    /// survivor's instance record is refreshed.
    pub fn advance_frame(&mut self, input: FrameInput) -> (report: FrameReport)
        requires
            old(self).wf(),
            input.wf(),
            old(self).entities_seq().len() <= usize::MAX - 4,
            forall|c: MeshClass| (#[trigger] old(self).spec_table().records(c)).len()
                <= usize::MAX - 8,
        ensures
            final(self).wf(),
            old(self).spec_game_over() && !input.restart ==> {
                &&& final(self).entities_seq() == old(self).entities_seq()
                &&& final(self).spec_table() == old(self).spec_table()
                &&& final(self).spec_score() == old(self).spec_score()
                &&& final(self).spec_game_over()
                &&& final(self).spec_cooldown() == old(self).spec_cooldown()
                &&& report == (FrameReport { obstacles_destroyed: 0, shots_removed: 0 })
            },
            old(self).spec_game_over() && input.restart ==> {
                &&& final(self).spec_score() == 0
                &&& !final(self).spec_game_over()
                &&& final(self).entities_seq().len() == 1 + INITIAL_OBSTACLES
                &&& final(self).entities_seq()[0] matches Entity::Ship(s) && s.x == 0 && s.y == 0
                    && s.vx == 0 && s.vy == 0
                &&& forall|i: int|
                    1 <= i < final(self).entities_seq().len() ==> spawned_obstacle_ok(
                        #[trigger] final(self).entities_seq()[i],
                    )
                &&& report == (FrameReport { obstacles_destroyed: 0, shots_removed: 0 })
            },
            !old(self).spec_game_over() ==> {
                &&& final(self).spec_score() == saturate_u64(
                    old(self).spec_score() + report.obstacles_destroyed,
                )
                &&& final(self).spec_score() >= old(self).spec_score()
            },
            // the whole running frame, composed: the old ship steered toward
            // the aim point, the cooldown ticked, the volley fired exactly
            // when due, and the pass/removal/scoring/spawn outcome of the
            // resulting collection
            !old(self).spec_game_over() ==> ({
                let s0 = old(self).entities_seq();
                let ship1 = steered_ship(
                    ship_state_of(s0[0]),
                    input.aim_x,
                    input.aim_y,
                    input.thrust,
                );
                let s1 = s0.update(0, Entity::Ship(ship1));
                let cd1: int = if old(self).spec_cooldown() >= 0 {
                    old(self).spec_cooldown() - 1
                } else {
                    old(self).spec_cooldown()
                };
                let fired = input.fire_held && cd1 <= 0;
                &&& (!fired ==> frame_outcome(*old(self), *final(self), report, s1, false, cd1))
                &&& (fired ==> exists|sh0: ShotState, sh1: ShotState|
                    {
                        &&& volley_shot_ok(
                            sh0,
                            ship1.x as int,
                            ship1.y as int,
                            input.aim_x as int,
                            input.aim_y as int,
                            -1,
                        )
                        &&& volley_shot_ok(
                            sh1,
                            ship1.x as int,
                            ship1.y as int,
                            input.aim_x as int,
                            input.aim_y as int,
                            1,
                        )
                        &&& frame_outcome(
                            *old(self),
                            *final(self),
                            report,
                            s1.push(Entity::Shot(sh0)).push(Entity::Shot(sh1)),
                            true,
                            cd1,
                        )
                    })
            }),
            // after a running frame, every survivor's instance record has
            // been refreshed for the renderer
            !old(self).spec_game_over() ==> forall|i: int|
                0 <= i < final(self).entities_seq().len() ==> {
                    let e = #[trigger] final(self).entities_seq()[i];
                    final(self).spec_table().records(
                        e.spec_handle().class,
                    )[e.spec_handle().slot as int] == spec_record_for(e, input.aim_x, input.aim_y)
                },
            // one frame adds a handful of entities at most
            final(self).entities_seq().len() <= old(self).entities_seq().len()
                + INITIAL_OBSTACLES,
            // instance arrays never shrink (slot indices stay stable), and
            // one frame grows each by a handful at most
            forall|c: MeshClass|
                old(self).spec_table().records(c).len() <= (
                #[trigger] final(self).spec_table().records(c)).len() <= old(self).spec_table().records(c).len() + 8,
            final(self).spec_score() >= old(self).spec_score() || (old(self).spec_game_over()
                && input.restart),
    {
        if self.game_over {
            if input.restart {
                self.reset_world();
            }
            return FrameReport { obstacles_destroyed: 0, shots_removed: 0 };
        }
        // ship control: home toward the aim point, plus the optional thrust
        let e0 = self.entities[0];
        let mut ship = if let Entity::Ship(s) = e0 {
            s
        } else {
            proof {
                assert(false);
            }
            ShipState { x: 0, y: 0, vx: 0, vy: 0, handle: InstanceHandle {
                class: MeshClass::Ship,
                slot: 0,
            } }
        };
        ship.steer(input.aim_x, input.aim_y, input.thrust);
        self.entities[0] = Entity::Ship(ship);
        proof {
            assert forall|i: int|
                0 <= i < self.entities@.len() implies (#[trigger] self.entities@[i]).wf()
                && self.table.live(self.entities@[i].spec_handle()) && shot_rest_ok(
                self.entities@[i],
            ) by {
                if i > 0 {
                    assert(self.entities@[i] == old(self).entities@[i]);
                }
            }
        }
        let ghost s1_g = self.entities@;
        proof {
            assert(ship == steered_ship(
                ship_state_of(old(self).entities@[0]),
                input.aim_x,
                input.aim_y,
                input.thrust,
            ));
        }
        // firing: tick the cooldown; a held trigger past it fires a volley
        if self.cooldown >= 0 {
            self.cooldown = self.cooldown - 1;
        }
        let ghost cd1_g: int = self.cooldown as int;
        let fired = input.fire_held && self.cooldown <= 0;
        if fired {
            self.fire_volley(input.aim_x, input.aim_y);
        }
        let ghost s2_g = self.entities@;
        let ghost sh0_g = shot_state_of(s2_g[s1_g.len() as int]);
        let ghost sh1_g = shot_state_of(s2_g[s1_g.len() as int + 1]);
        let ghost t_fire = self.table;
        proof {
            if fired {
                assert(s2_g[s1_g.len() as int].wf());
                assert(s2_g[s1_g.len() as int + 1].wf());
                assert(s2_g =~= s1_g.push(Entity::Shot(sh0_g)).push(Entity::Shot(sh1_g)));
                assert(volley_shot_ok(
                    sh0_g,
                    ship.x as int,
                    ship.y as int,
                    input.aim_x as int,
                    input.aim_y as int,
                    -1,
                ));
                assert(volley_shot_ok(
                    sh1_g,
                    ship.x as int,
                    ship.y as int,
                    input.aim_x as int,
                    input.aim_y as int,
                    1,
                ));
            }
            assert forall|i: int|
                0 <= i < self.entities@.len() implies shot_fresh_ok(
                #[trigger] self.entities@[i],
            ) by {
                if shot_rest_ok(self.entities@[i]) {
                }
            }
        }
        // collisions, damage, deaths and motion, in entity order
        let dead = self.collide_and_move();
        // lifecycle: drop the dead, free their slots, score obstacle kills
        let (destroyed, culled) = self.remove_dead(dead);
        let ghost t_rem = self.table;
        let ghost survivors_g = self.entities@;
        // a spawn event replaces destroyed obstacles from the trailing edge
        if destroyed > 0 {
            let ghost before = self.entities@;
            self.spawn_wave(DEATH_SPAWN_COUNT);
            proof {
                assert forall|i: int|
                    0 <= i < self.entities@.len() implies shot_rest_ok(
                    #[trigger] self.entities@[i],
                ) by {
                    if i < before.len() {
                        assert(self.entities@[i] == before[i]);
                    }
                }
            }
        }
        let ghost t_spawn = self.table;
        // refresh every survivor's instance record for the renderer
        self.refresh_records(input.aim_x, input.aim_y);
        proof {
            // the phases compose into the frame outcome stated publicly
            let r = pass_upto(s2_g, s2_g.len() as int);
            assert(survivors_g == remove_at_indices(r.0, r.1));
            let rep = FrameReport { obstacles_destroyed: destroyed, shots_removed: culled };
            assert(frame_outcome(*old(self), *self, rep, s2_g, fired, cd1_g));
            let s0 = old(self).entities_seq();
            let ship1 = steered_ship(ship_state_of(s0[0]), input.aim_x, input.aim_y, input.thrust);
            assert(s1_g =~= s0.update(0, Entity::Ship(ship1)));
            // no lane shrank at any phase
            assert forall|c: MeshClass|
                old(self).spec_table().records(c).len() <= (
            #[trigger] self.table.records(c)).len() by {
                assert(t_rem.records(c).len() == t_fire.records(c).len());
                assert(self.table.records(c).len() == t_spawn.records(c).len());
                match c {
                    MeshClass::Obstacle => {
                        assert(t_fire.records(MeshClass::Obstacle) == old(self).spec_table().records(MeshClass::Obstacle));
                    },
                    MeshClass::Ship => {
                        assert(t_fire.records(MeshClass::Ship) == old(self).spec_table().records(
                            MeshClass::Ship,
                        ));
                        assert(t_spawn.records(MeshClass::Ship) == t_rem.records(MeshClass::Ship));
                    },
                    MeshClass::Shot => {
                        assert(t_spawn.records(MeshClass::Shot) == t_rem.records(MeshClass::Shot));
                    },
                }
            }
        }
        FrameReport { obstacles_destroyed: destroyed, shots_removed: culled }
    }

    /// Spawn `n` obstacles with uniformly random parameters from the
    /// documented ranges.
    fn spawn_wave(&mut self, n: usize)
        requires
            old(self).wf_core(),
            old(self).entities_seq().len() <= usize::MAX - n,
            old(self).spec_table().records(MeshClass::Obstacle).len() <= usize::MAX - n,
        ensures
            final(self).wf_core(),
            final(self).entities_seq().len() == old(self).entities_seq().len() + n,
            final(self).entities_seq().subrange(0, old(self).entities_seq().len() as int) == old(self).entities_seq(),
            forall|i: int|
                old(self).entities_seq().len() <= i < final(self).entities_seq().len()
                    ==> spawned_obstacle_ok(#[trigger] final(self).entities_seq()[i]),
            final(self).spec_score() == old(self).spec_score(),
            final(self).spec_game_over() == old(self).spec_game_over(),
            final(self).spec_cooldown() == old(self).spec_cooldown(),
            final(self).spec_table().records(MeshClass::Ship) == old(self).spec_table().records(
                MeshClass::Ship,
            ),
            final(self).spec_table().records(MeshClass::Shot) == old(self).spec_table().records(
                MeshClass::Shot,
            ),
            final(self).spec_table().free_marks(MeshClass::Ship) == old(self).spec_table().free_marks(MeshClass::Ship),
            final(self).spec_table().free_marks(MeshClass::Shot) == old(self).spec_table().free_marks(MeshClass::Shot),
            old(self).spec_table().records(MeshClass::Obstacle).len() <= final(self).spec_table().records(MeshClass::Obstacle).len() <= old(self).spec_table().records(
                MeshClass::Obstacle,
            ).len() + n,
    {
        let mut k: usize = 0;
        while k < n
            invariant
                self.wf_core(),
                k <= n,
                self.entities@.len() == old(self).entities@.len() + k,
                self.entities@.subrange(0, old(self).entities@.len() as int) == old(self).entities@,
                forall|i: int|
                    old(self).entities@.len() <= i < self.entities@.len()
                        ==> spawned_obstacle_ok(#[trigger] self.entities@[i]),
                self.score == old(self).score,
                self.game_over == old(self).game_over,
                self.cooldown == old(self).cooldown,
                self.table.records(MeshClass::Ship) == old(self).table.records(MeshClass::Ship),
                self.table.records(MeshClass::Shot) == old(self).table.records(MeshClass::Shot),
                self.table.free_marks(MeshClass::Ship) == old(self).table.free_marks(
                    MeshClass::Ship,
                ),
                self.table.free_marks(MeshClass::Shot) == old(self).table.free_marks(
                    MeshClass::Shot,
                ),
                old(self).table.records(MeshClass::Obstacle).len() <= self.table.records(
                    MeshClass::Obstacle,
                ).len() <= old(self).table.records(MeshClass::Obstacle).len() + k,
                old(self).entities@.len() <= usize::MAX - n,
                old(self).table.records(MeshClass::Obstacle).len() <= usize::MAX - n,
            decreases n - k,
        {
            let p = random_obstacle_params();
            let ghost before = self.entities@;
            self.spawn_obstacle(p);
            proof {
                assert(self.entities@.subrange(0, old(self).entities@.len() as int)
                    =~= old(self).entities@);
            }
            k += 1;
        }
    }
}

} // verus!
