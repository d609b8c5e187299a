use gravinyon::table::{InstanceHandle, InstanceRecord, InstanceSlotTable, MeshClass, Orientation};

fn rec(x: i64, scale: i64) -> InstanceRecord {
    InstanceRecord { x, y: 0, orient: Orientation::Spin(0), scale, shade: 0 }
}

#[test]
fn allocation_free_round_trip_unique_live_handles() {
    let mut t = InstanceSlotTable::new();
    let mut live: Vec<InstanceHandle> = Vec::new();
    // a mixed sequence of allocates and frees
    for i in 0..8 {
        live.push(t.allocate(MeshClass::Obstacle, rec(i, 1)));
    }
    // free three, allocate four more, free one, allocate two
    let freed1 = live.remove(2);
    t.free(freed1);
    let freed2 = live.remove(4);
    t.free(freed2);
    let freed3 = live.remove(0);
    t.free(freed3);
    for i in 0..4 {
        live.push(t.allocate(MeshClass::Obstacle, rec(100 + i, 1)));
    }
    let freed4 = live.remove(3);
    t.free(freed4);
    for i in 0..2 {
        live.push(t.allocate(MeshClass::Obstacle, rec(200 + i, 1)));
    }
    // every live handle is unique
    for a in 0..live.len() {
        for b in (a + 1)..live.len() {
            assert!(
                live[a].class != live[b].class || live[a].slot != live[b].slot,
                "two live handles share a slot"
            );
        }
    }
    // the drawn count never falls below the number of live handles
    assert!(t.count(MeshClass::Obstacle) >= live.len());
}

#[test]
fn slot_reuse_prefers_lowest_free_slot() {
    let mut t = InstanceSlotTable::new();
    let h0 = t.allocate(MeshClass::Ship, rec(1, 5));
    let h1 = t.allocate(MeshClass::Ship, rec(2, 5));
    let h2 = t.allocate(MeshClass::Ship, rec(3, 5));
    assert_eq!((h0.slot, h1.slot, h2.slot), (0, 1, 2));
    assert_eq!(t.count(MeshClass::Ship), 3);
    // free the middle slot: the next allocation must reuse it, not grow
    t.free(h1);
    let h3 = t.allocate(MeshClass::Ship, rec(4, 5));
    assert_eq!(h3.slot, h1.slot);
    assert_eq!(t.count(MeshClass::Ship), 3);
    // free two, in reverse order: the lowest free index wins
    t.free(h2);
    t.free(h0);
    let h4 = t.allocate(MeshClass::Ship, rec(5, 5));
    assert_eq!(h4.slot, 0);
    let h5 = t.allocate(MeshClass::Ship, rec(6, 5));
    assert_eq!(h5.slot, 2);
    // with no slot free the table grows by one
    let h6 = t.allocate(MeshClass::Ship, rec(7, 5));
    assert_eq!(h6.slot, 3);
    assert_eq!(t.count(MeshClass::Ship), 4);
}

#[test]
fn freed_slot_renders_degenerate() {
    let mut t = InstanceSlotTable::new();
    let h0 = t.allocate(MeshClass::Shot, rec(11, 7));
    let h1 = t.allocate(MeshClass::Shot, rec(22, 9));
    assert_eq!(t.snapshot(MeshClass::Shot)[h1.slot].scale, 9);
    t.free(h1);
    // immediately after the free, the snapshot shows the slot with zero scale
    let snap = t.snapshot(MeshClass::Shot);
    assert_eq!(snap.len(), 2);
    assert_eq!(snap[h1.slot].scale, 0);
    assert_eq!(snap[h1.slot].x, 0);
    assert_eq!(snap[h1.slot].y, 0);
    // the other slot is untouched
    assert_eq!(snap[h0.slot].x, 11);
    assert_eq!(snap[h0.slot].scale, 7);
}

#[test]
fn update_overwrites_in_place() {
    let mut t = InstanceSlotTable::new();
    let h = t.allocate(MeshClass::Obstacle, rec(1, 2));
    t.update(h, rec(42, 3));
    let snap = t.snapshot(MeshClass::Obstacle);
    assert_eq!(snap[h.slot].x, 42);
    assert_eq!(snap[h.slot].scale, 3);
    assert_eq!(t.count(MeshClass::Obstacle), 1);
}

#[test]
fn classes_are_independent() {
    let mut t = InstanceSlotTable::new();
    let ho = t.allocate(MeshClass::Obstacle, rec(1, 1));
    let hs = t.allocate(MeshClass::Ship, rec(2, 1));
    let hh = t.allocate(MeshClass::Shot, rec(3, 1));
    assert_eq!((ho.slot, hs.slot, hh.slot), (0, 0, 0));
    assert_eq!(t.count(MeshClass::Obstacle), 1);
    assert_eq!(t.count(MeshClass::Ship), 1);
    assert_eq!(t.count(MeshClass::Shot), 1);
    t.free(hs);
    assert_eq!(t.count(MeshClass::Obstacle), 1);
    assert_eq!(t.snapshot(MeshClass::Obstacle)[0].x, 1);
    assert_eq!(t.snapshot(MeshClass::Shot)[0].x, 3);
}
