//! The instance slot allocator: per mesh class, a dense array of
//! renderer-ready instance records plus a parallel free bitmap.
//!
//! Slots are never removed, only logically freed and later overwritten, so a
//! slot index stays valid for the lifetime of the table. A freed slot holds
//! the all-zero record, whose zero scale makes its geometry degenerate and
//! invisible, so stale uploads never render garbage.

use vstd::prelude::*;

verus! {

/// The fixed, closed set of mesh shapes sharing one instance array and one
/// draw call each.
#[derive(Clone, Copy, PartialEq, Eq, Structural, Debug)]
pub enum MeshClass {
    Obstacle,
    Ship,
    Shot,
}

/// How an instance is oriented on screen.
///
/// Obstacles carry their own spin angle; the ship and its shots face along a
/// vector (toward the aim point, or along the travel direction), which the
/// renderer turns into a mesh angle.
#[derive(Clone, Copy, PartialEq, Eq, Structural, Debug)]
pub enum Orientation {
    /// An angle in micro-radians.
    Spin(i64),
    /// Face along this vector (components in ticks; need not be unit length).
    Heading(i64, i64),
}

/// One renderer-ready instance record: where to draw one copy of a mesh,
/// how it is turned, how large it is, and how strongly it is shaded.
/// All quantities are fixed-point ticks (see [`crate::UNIT`]).
#[derive(Clone, Copy, PartialEq, Eq, Structural, Debug)]
pub struct InstanceRecord {
    pub x: i64,
    pub y: i64,
    pub orient: Orientation,
    pub scale: i64,
    pub shade: i64,
}

impl InstanceRecord {
    /// The neutral record a freed slot holds: zero scale, so nothing shows.
    pub open spec fn zero_spec() -> InstanceRecord {
        InstanceRecord { x: 0, y: 0, orient: Orientation::Spin(0), scale: 0, shade: 0 }
    }

    /// Build the neutral record.
    pub fn zeroed() -> (r: InstanceRecord)
        ensures
            r == InstanceRecord::zero_spec(),
    {
        InstanceRecord { x: 0, y: 0, orient: Orientation::Spin(0), scale: 0, shade: 0 }
    }
}

/// The identity of one allocated slot: a mesh class and an index into that
/// class's instance array. Owned by the entity that allocated it; reuse of
/// an index after a free is expected and safe.
#[derive(Clone, Copy, PartialEq, Eq, Structural, Debug)]
pub struct InstanceHandle {
    pub class: MeshClass,
    pub slot: usize,
}

/// The storage of one mesh class: records and the parallel free bitmap
/// (`true` marks a free slot).
struct Lane {
    records: Vec<InstanceRecord>,
    free: Vec<bool>,
}

impl Lane {
    /// Records and bitmap stay the same length, and every free slot holds
    /// the neutral record.
    spec fn wf(self) -> bool {
        &&& self.records@.len() == self.free@.len()
        &&& forall|i: int|
            0 <= i < self.free@.len() && self.free@[i] ==> self.records@[i]
                == InstanceRecord::zero_spec()
    }

    fn new() -> (l: Lane)
        ensures
            l.wf(),
            l.records@.len() == 0,
    {
        Lane { records: Vec::new(), free: Vec::new() }
    }

    /// First-fit allocation: reuse the lowest free slot, or append.
    fn acquire(&mut self, rec: InstanceRecord) -> (slot: usize)
        requires
            old(self).wf(),
            old(self).records@.len() < usize::MAX,
        ensures
            final(self).wf(),
            old(self).records@.len() <= final(self).records@.len() <= old(self).records@.len()
                + 1,
            slot < final(self).records@.len(),
            final(self).records@[slot as int] == rec,
            !final(self).free@[slot as int],
            // the returned slot was not live before: it was free or new
            slot >= old(self).free@.len() || old(self).free@[slot as int],
            // slots before the returned one were all in use
            forall|j: int| 0 <= j < slot ==> !old(self).free@[j],
            // reuse: if any slot was free, the table does not grow
            (exists|i: int| 0 <= i < old(self).free@.len() && old(self).free@[i]) ==> {
                &&& slot < old(self).free@.len()
                &&& final(self).records@ == old(self).records@.update(slot as int, rec)
                &&& final(self).free@ == old(self).free@.update(slot as int, false)
            },
            // growth: with no slot free, a new one is appended
            (forall|i: int| 0 <= i < old(self).free@.len() ==> !old(self).free@[i]) ==> {
                &&& slot == old(self).records@.len()
                &&& final(self).records@ == old(self).records@.push(rec)
                &&& final(self).free@ == old(self).free@.push(false)
            },
    {
        let n = self.free.len();
        let mut i: usize = 0;
        while i < n
            invariant
                n == self.free@.len(),
                self.wf(),
                i <= n,
                forall|j: int| 0 <= j < i ==> !self.free@[j],
                self.records@ == old(self).records@,
                self.free@ == old(self).free@,
            decreases n - i,
        {
            if self.free[i] {
                self.free[i] = false;
                self.records[i] = rec;
                return i;
            }
            i += 1;
        }
        self.records.push(rec);
        self.free.push(false);
        self.records.len() - 1
    }

    /// Mark a slot free and zero its record.
    fn release(&mut self, slot: usize)
        requires
            old(self).wf(),
            slot < old(self).records@.len(),
        ensures
            final(self).wf(),
            final(self).records@ == old(self).records@.update(
                slot as int,
                InstanceRecord::zero_spec(),
            ),
            final(self).free@ == old(self).free@.update(slot as int, true),
    {
        self.records[slot] = InstanceRecord::zeroed();
        self.free[slot] = true;
    }

    /// Overwrite a live slot's record in place.
    fn write(&mut self, slot: usize, rec: InstanceRecord)
        requires
            old(self).wf(),
            slot < old(self).records@.len(),
            !old(self).free@[slot as int],
        ensures
            final(self).wf(),
            final(self).records@ == old(self).records@.update(slot as int, rec),
            final(self).free@ == old(self).free@,
    {
        self.records[slot] = rec;
    }
}

/// The instance slot table: one [`Lane`] per mesh class, always present by
/// construction, so a mesh class can never be "missing".
pub struct InstanceSlotTable {
    obstacles: Lane,
    ships: Lane,
    shots: Lane,
}

impl InstanceSlotTable {
    /// The record sequence of one mesh class, as the renderer sees it.
    pub closed spec fn records(self, class: MeshClass) -> Seq<InstanceRecord> {
        match class {
            MeshClass::Obstacle => self.obstacles.records@,
            MeshClass::Ship => self.ships.records@,
            MeshClass::Shot => self.shots.records@,
        }
    }

    /// The free bitmap of one mesh class (`true` marks a free slot).
    pub closed spec fn free_marks(self, class: MeshClass) -> Seq<bool> {
        match class {
            MeshClass::Obstacle => self.obstacles.free@,
            MeshClass::Ship => self.ships.free@,
            MeshClass::Shot => self.shots.free@,
        }
    }

    /// A handle addresses an existing slot of its class.
    pub open spec fn in_bounds(self, h: InstanceHandle) -> bool {
        h.slot < self.records(h.class).len()
    }

    /// A handle is live: its slot exists and is not marked free.
    pub open spec fn live(self, h: InstanceHandle) -> bool {
        self.in_bounds(h) && !self.free_marks(h.class)[h.slot as int]
    }

    /// Every class keeps records and bitmap in step, and free slots zeroed.
    pub open spec fn wf(self) -> bool {
        forall|c: MeshClass|
            {
                &&& #[trigger] self.records(c).len() == self.free_marks(c).len()
                &&& forall|i: int|
                    0 <= i < self.free_marks(c).len() && self.free_marks(c)[i] ==> self.records(
                        c,
                    )[i] == InstanceRecord::zero_spec()
            }
    }

    /// An empty table with all three classes present.
    pub fn new() -> (t: InstanceSlotTable)
        ensures
            t.wf(),
            forall|c: MeshClass| #[trigger] t.records(c).len() == 0,
    {
        let t = InstanceSlotTable { obstacles: Lane::new(), ships: Lane::new(), shots: Lane::new() };
        proof {
            assert forall|c: MeshClass| #[trigger] t.records(c).len() == 0 by {
                match c {
                    MeshClass::Obstacle => {},
                    MeshClass::Ship => {},
                    MeshClass::Shot => {},
                }
            }
        }
        t
    }

    /// Allocate a slot of the given class and fill it with `rec`.
    ///
    /// The lowest free slot is reused when one exists; otherwise the array
    /// grows by one. The returned handle was not live before the call, so it
    /// is distinct from every handle currently live.
    pub fn allocate(&mut self, class: MeshClass, rec: InstanceRecord) -> (h: InstanceHandle)
        requires
            old(self).wf(),
            old(self).records(class).len() < usize::MAX,
        ensures
            final(self).wf(),
            h.class == class,
            old(self).records(class).len() <= final(self).records(class).len() <= old(
                self,
            ).records(class).len() + 1,
            final(self).live(h),
            final(self).records(class)[h.slot as int] == rec,
            !old(self).live(h),
            // slots below the returned one were all in use
            forall|j: int| 0 <= j < h.slot ==> !old(self).free_marks(class)[j],
            // reuse: if any slot was free, the lowest one is taken, no growth
            (exists|i: int|
                0 <= i < old(self).free_marks(class).len() && old(self).free_marks(class)[i])
                ==> {
                &&& h.slot < old(self).records(class).len()
                &&& old(self).free_marks(class)[h.slot as int]
                &&& final(self).records(class) == old(self).records(class).update(
                    h.slot as int,
                    rec,
                )
                &&& final(self).free_marks(class) == old(self).free_marks(class).update(
                    h.slot as int,
                    false,
                )
            },
            // growth: with no slot free, a new one is appended
            (forall|i: int|
                0 <= i < old(self).free_marks(class).len() ==> !old(self).free_marks(class)[i])
                ==> {
                &&& h.slot == old(self).records(class).len()
                &&& final(self).records(class) == old(self).records(class).push(rec)
                &&& final(self).free_marks(class) == old(self).free_marks(class).push(false)
            },
            // other classes are untouched
            forall|c: MeshClass|
                c != class ==> #[trigger] final(self).records(c) == old(self).records(c)
                    && final(self).free_marks(c) == old(self).free_marks(c),
    {
        let slot = match class {
            MeshClass::Obstacle => self.obstacles.acquire(rec),
            MeshClass::Ship => self.ships.acquire(rec),
            MeshClass::Shot => self.shots.acquire(rec),
        };
        proof {
            self.lemma_one_lane_changed(*old(self), class);
        }
        InstanceHandle { class, slot }
    }

    /// After an operation on the lane of `class`, every other class's view
    /// is unchanged, and well-formed lanes make a well-formed table.
    proof fn lemma_one_lane_changed(self, pre: InstanceSlotTable, class: MeshClass)
        requires
            pre.wf(),
            match class {
                MeshClass::Obstacle => self.obstacles.wf(),
                MeshClass::Ship => self.ships.wf(),
                MeshClass::Shot => self.shots.wf(),
            },
            class != MeshClass::Obstacle ==> self.obstacles == pre.obstacles,
            class != MeshClass::Ship ==> self.ships == pre.ships,
            class != MeshClass::Shot ==> self.shots == pre.shots,
        ensures
            self.wf(),
            forall|c: MeshClass|
                c != class ==> #[trigger] self.records(c) == pre.records(c) && self.free_marks(c)
                    == pre.free_marks(c),
    {
        assert(pre.records(MeshClass::Obstacle).len() == pre.free_marks(MeshClass::Obstacle).len());
        assert(pre.records(MeshClass::Ship).len() == pre.free_marks(MeshClass::Ship).len());
        assert(pre.records(MeshClass::Shot).len() == pre.free_marks(MeshClass::Shot).len());
        assert forall|c: MeshClass|
            c != class implies #[trigger] self.records(c) == pre.records(c) && self.free_marks(c)
            == pre.free_marks(c) by {
            match c {
                MeshClass::Obstacle => {},
                MeshClass::Ship => {},
                MeshClass::Shot => {},
            }
        }
        assert forall|c: MeshClass| #[trigger] self.records(c).len() == self.free_marks(c).len()
            && (forall|i: int|
            0 <= i < self.free_marks(c).len() && self.free_marks(c)[i] ==> self.records(c)[i]
                == InstanceRecord::zero_spec()) by {
            match c {
                MeshClass::Obstacle => {},
                MeshClass::Ship => {},
                MeshClass::Shot => {},
            }
        }
    }

    /// Free a slot: zero its record (so it renders nothing) and mark it
    /// reusable. The handle must address an existing slot of its class;
    /// anything else is a corrupted-bookkeeping condition the caller must
    /// rule out.
    pub fn free(&mut self, h: InstanceHandle)
        requires
            old(self).wf(),
            old(self).in_bounds(h),
        ensures
            final(self).wf(),
            final(self).records(h.class) == old(self).records(h.class).update(
                h.slot as int,
                InstanceRecord::zero_spec(),
            ),
            final(self).free_marks(h.class) == old(self).free_marks(h.class).update(
                h.slot as int,
                true,
            ),
            forall|c: MeshClass|
                c != h.class ==> #[trigger] final(self).records(c) == old(self).records(c)
                    && final(self).free_marks(c) == old(self).free_marks(c),
    {
        match h.class {
            MeshClass::Obstacle => self.obstacles.release(h.slot),
            MeshClass::Ship => self.ships.release(h.slot),
            MeshClass::Shot => self.shots.release(h.slot),
        }
        proof {
            self.lemma_one_lane_changed(*old(self), h.class);
        }
    }

    /// Refresh a live slot's record in place; used every frame for each
    /// surviving entity.
    pub fn update(&mut self, h: InstanceHandle, rec: InstanceRecord)
        requires
            old(self).wf(),
            old(self).live(h),
        ensures
            final(self).wf(),
            final(self).records(h.class) == old(self).records(h.class).update(h.slot as int, rec),
            final(self).free_marks(h.class) == old(self).free_marks(h.class),
            forall|c: MeshClass|
                c != h.class ==> #[trigger] final(self).records(c) == old(self).records(c)
                    && final(self).free_marks(c) == old(self).free_marks(c),
    {
        match h.class {
            MeshClass::Obstacle => self.obstacles.write(h.slot, rec),
            MeshClass::Ship => self.ships.write(h.slot, rec),
            MeshClass::Shot => self.shots.write(h.slot, rec),
        }
        proof {
            self.lemma_one_lane_changed(*old(self), h.class);
        }
    }

    /// Read-only view for the renderer: the dense record array of one mesh
    /// class, freed (zeroed) slots included, so indices stay stable.
    pub fn snapshot(&self, class: MeshClass) -> (r: &Vec<InstanceRecord>)
        ensures
            r@ == self.records(class),
    {
        match class {
            MeshClass::Obstacle => &self.obstacles.records,
            MeshClass::Ship => &self.ships.records,
            MeshClass::Shot => &self.shots.records,
        }
    }

    /// How many instances the renderer must draw for one mesh class.
    pub fn count(&self, class: MeshClass) -> (n: usize)
        ensures
            n == self.records(class).len(),
    {
        match class {
            MeshClass::Obstacle => self.obstacles.records.len(),
            MeshClass::Ship => self.ships.records.len(),
            MeshClass::Shot => self.shots.records.len(),
        }
    }
}

/// How many slots of a free bitmap are in use (`false` entries): the number
/// of currently-live handles of that class.
pub open spec fn live_slots(marks: Seq<bool>) -> nat
    decreases marks.len(),
{
    if marks.len() == 0 {
        0
    } else {
        live_slots(marks.drop_last()) + if marks.last() {
            0nat
        } else {
            1nat
        }
    }
}

/// Law: the drawn count of a mesh class never falls below the number of
/// currently-live handles — a dense array can hold no more live slots than
/// its length.
pub proof fn lemma_count_bounds_live(marks: Seq<bool>)
    ensures
        live_slots(marks) <= marks.len(),
    decreases marks.len(),
{
    if marks.len() > 0 {
        lemma_count_bounds_live(marks.drop_last());
    }
}

/// Law: every handle returned by `allocate` is distinct from every handle
/// that was live at the moment of the call — allocation never aliases live
/// storage. `fresh` is the returned handle (`allocate` ensures it was not
/// live before); `held` is any handle live before the call.
pub proof fn lemma_fresh_handle_distinct(
    table: InstanceSlotTable,
    fresh: InstanceHandle,
    held: InstanceHandle,
)
    requires
        !table.live(fresh),
        table.live(held),
    ensures
        fresh != held,
{
}

} // verus!
