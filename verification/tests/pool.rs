use pristine_grid::pool::{ObjectPool, PoolItem, Slot};

fn live(id: u32) -> Slot<u32> {
    Slot { active: true, payload: id }
}

fn ids(items: &[Slot<u32>]) -> Vec<u32> {
    items.iter().map(|s| s.payload).collect()
}

#[test]
fn fresh_pool_has_no_active_objects() {
    let pool: ObjectPool<Slot<u32>> = ObjectPool::with_capacity(8);
    assert!(pool.active().is_empty());
}

#[test]
fn activate_appends_while_every_slot_is_taken() {
    let mut pool = ObjectPool::with_capacity(2);
    pool.activate(live(1));
    pool.activate(live(2));
    pool.activate(live(3));
    assert_eq!(ids(&pool.active()), vec![1, 2, 3]);
}

#[test]
fn activate_reuses_the_lowest_free_slot() {
    let mut pool = ObjectPool::with_capacity(4);
    for id in 1..=4 {
        pool.activate(live(id));
    }
    pool.deactivate_where(|s: &Slot<u32>| s.payload == 2 || s.payload == 3);
    assert_eq!(ids(&pool.active()), vec![1, 4]);
    pool.activate(live(9));
    assert_eq!(ids(&pool.active()), vec![1, 9, 4]);
    pool.activate(live(8));
    assert_eq!(ids(&pool.active()), vec![1, 9, 8, 4]);
    pool.activate(live(7));
    assert_eq!(ids(&pool.active()), vec![1, 9, 8, 4, 7]);
}

#[test]
fn deactivate_all_frees_everything_and_slots_are_reused() {
    let mut pool = ObjectPool::with_capacity(3);
    pool.activate(live(1));
    pool.activate(live(2));
    pool.deactivate_all();
    assert!(pool.active().is_empty());
    pool.activate(live(5));
    pool.activate(live(6));
    pool.activate(live(7));
    assert_eq!(ids(&pool.active()), vec![5, 6, 7]);
}

#[test]
fn deactivate_where_asks_only_about_active_objects() {
    let mut pool = ObjectPool::with_capacity(3);
    pool.activate(live(1));
    pool.activate(live(2));
    pool.activate(live(3));
    pool.deactivate_where(|s: &Slot<u32>| s.payload == 2);
    let asked = std::cell::RefCell::new(Vec::new());
    pool.deactivate_where(|s: &Slot<u32>| {
        asked.borrow_mut().push(s.payload);
        false
    });
    assert_eq!(asked.into_inner(), vec![1, 3]);
    assert_eq!(ids(&pool.active()), vec![1, 3]);
}

#[test]
fn deactivate_first_where_frees_only_the_first_match() {
    let mut pool = ObjectPool::with_capacity(4);
    for id in [4, 7, 10, 13] {
        pool.activate(live(id));
    }
    assert!(pool.deactivate_first_where(|s: &Slot<u32>| s.payload > 5));
    assert_eq!(ids(&pool.active()), vec![4, 10, 13]);
    assert!(pool.deactivate_first_where(|s: &Slot<u32>| s.payload > 5));
    assert_eq!(ids(&pool.active()), vec![4, 13]);
    assert!(!pool.deactivate_first_where(|s: &Slot<u32>| s.payload > 20));
    assert_eq!(ids(&pool.active()), vec![4, 13]);
}

#[test]
fn iter_active_mut_counts_active_objects_only() {
    let mut pool = ObjectPool::with_capacity(4);
    for id in 1..=4 {
        pool.activate(live(id));
    }
    pool.deactivate_where(|s: &Slot<u32>| s.payload == 2);
    let active = pool.active();
    for (position, expected) in active.iter().enumerate() {
        let slot = pool.iter_active_mut(position).expect("an active object");
        assert_eq!(slot.payload, expected.payload);
    }
    assert!(pool.iter_active_mut(3).is_none());
    if let Some(slot) = pool.iter_active_mut(1) {
        slot.payload = 30;
    }
    assert_eq!(ids(&pool.active()), vec![1, 30, 4]);
    if let Some(slot) = pool.iter_active_mut(0) {
        slot.set_active(false);
    }
    assert_eq!(ids(&pool.active()), vec![30, 4]);
}

#[test]
fn slot_reports_its_flag() {
    let mut slot = live(3);
    assert!(slot.is_active());
    slot.set_active(false);
    assert!(!slot.is_active());
    assert_eq!(slot.payload, 3);
}
