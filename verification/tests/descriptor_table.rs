use visibuf::descriptor::{DescriptorTable, DescriptorTableFull};

#[test]
fn allocate_and_access() {
    let mut table: DescriptorTable<u32> = DescriptorTable::new(8);
    let a = table.allocate(10).unwrap().to_shared();
    let b = table.allocate(20).unwrap().to_shared();
    assert_eq!(table.access_shared(&a), &10);
    assert_eq!(table.access_shared(&b), &20);
    assert_eq!(table.free_room(), 6);
}

#[test]
fn allocation_fails_exactly_when_exhausted() {
    let mut table: DescriptorTable<u32> = DescriptorTable::new(2);
    assert!(table.allocate(1).is_ok());
    assert!(table.allocate(2).is_ok());
    assert!(matches!(table.allocate(3), Err(DescriptorTableFull)));
    assert_eq!(table.free_room(), 0);
}

#[test]
fn shared_clone_and_drop_keep_the_slot_until_the_last_share() {
    let mut table: DescriptorTable<u32> = DescriptorTable::new(1);
    let a = table.allocate(42).unwrap().to_shared();
    let b = table.clone_shared(&a);
    table.drop_shared(a);
    // One share is still out, so the slot stays live.
    assert_eq!(table.access_shared(&b), &42);
    assert!(matches!(table.allocate(7), Err(DescriptorTableFull)));
    table.drop_shared(b);
    // The count reached zero under the first recorded unit of work; the
    // slot is retired, not yet free.
    assert_eq!(table.free_room(), 0);
}

#[test]
fn strong_references_participate_in_the_refcount() {
    let mut table: DescriptorTable<u32> = DescriptorTable::new(1);
    let a = table.allocate(9).unwrap().to_shared();
    let s = table.to_strong(&a);
    table.drop_shared(a);
    assert_eq!(table.access_strong(&s), &9);
    table.drop_strong(s);
    assert_eq!(table.free_room(), 0);
}

#[test]
fn transient_outlives_drop_until_its_work_completes() {
    let mut table: DescriptorTable<u32> = DescriptorTable::new(1);
    let a = table.allocate(5).unwrap().to_shared();
    let t = table.to_transient(&a);
    table.drop_shared(a);
    // The count is zero, but the unit of work holding the transient has
    // not completed: the slot must still hold its contents.
    assert_eq!(table.access_transient(&t), &5);
    assert_eq!(table.free_room(), 0);
    table.submit();
    table.complete_next();
    // Now the retirement has elapsed and the slot is reusable.
    assert_eq!(table.free_room(), 1);
    assert!(table.allocate(6).is_ok());
}

#[test]
fn slot_reuse_after_retirement() {
    let mut table: DescriptorTable<u32> = DescriptorTable::new(2);
    let a = table.allocate(1).unwrap().to_shared();
    let b = table.allocate(2).unwrap().to_shared();
    table.drop_shared(a);
    table.submit();
    table.complete_next();
    let c = table.allocate(3).unwrap().to_shared();
    assert_eq!(table.access_shared(&c), &3);
    assert_eq!(table.access_shared(&b), &2);
    assert!(matches!(table.allocate(4), Err(DescriptorTableFull)));
}

#[test]
fn owned_index_is_stable_through_sharing() {
    let mut table: DescriptorTable<u32> = DescriptorTable::new(4);
    let owned = table.allocate(11).unwrap();
    let index = owned.index();
    let shared = owned.to_shared();
    assert_eq!(shared.index(), index);
    let strong = table.to_strong(&shared);
    assert_eq!(strong.index(), index);
    let transient = table.to_transient(&shared);
    assert_eq!(transient.index(), index);
}
