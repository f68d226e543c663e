use rel4_linux_kit::allocator::{find_largest_untyped, ObjectAllocator, ObjectKind, UntypedDesc};

#[test]
fn slots_are_consumed_in_order_and_never_reused() {
    let mut a = ObjectAllocator::empty();
    assert!(a.allocate_slot().is_none());
    a.init(4095, 4098, 9);
    let s = a.allocate_slot().unwrap();
    assert_eq!((s.raw, s.cnode_index, s.slot_index, s.new_table), (4095, 0, 4095, false));
    let s = a.allocate_slot().unwrap();
    assert_eq!((s.raw, s.cnode_index, s.slot_index, s.new_table), (4096, 1, 0, true));
    let s = a.allocate_slot().unwrap();
    assert_eq!((s.raw, s.cnode_index, s.slot_index, s.new_table), (4097, 1, 1, false));
    assert!(a.allocate_slot().is_none());
    assert!(a.allocate_slot().is_none());
}

#[test]
fn allocation_plans_follow_the_kind() {
    let mut a = ObjectAllocator::empty();
    a.init(32, 40, 3);
    let p = a.allocate(ObjectKind::CNode(12)).unwrap();
    assert_eq!(p.size_arg, 12);
    assert!(p.retype);
    assert_eq!(p.slot.raw, 32);
    let p = a.allocate(ObjectKind::IrqHandler).unwrap();
    assert!(!p.retype);
    assert_eq!(p.slot.raw, 33);
    let p = a.allocate(ObjectKind::Frame(21)).unwrap();
    assert_eq!(p.size_arg, 21);
    let p = a.allocate(ObjectKind::Tcb).unwrap();
    assert_eq!(p.size_arg, 0);
    assert_eq!(a.allocate_normal_cap(), Some(36));
    assert_eq!(a.next, 37);
}

#[test]
fn inverted_range_is_empty() {
    let mut a = ObjectAllocator::empty();
    a.init(10, 5, 1);
    assert!(a.allocate(ObjectKind::Endpoint).is_none());
}

#[test]
fn largest_general_purpose_region_is_picked() {
    let d = |size_bits: u8, is_device: bool| UntypedDesc { paddr: 0, size_bits, is_device };
    assert_eq!(find_largest_untyped(&vec![d(20, false), d(30, true), d(25, false), d(12, false)]), Some(2));
    assert_eq!(find_largest_untyped(&vec![d(25, false), d(25, false)]), Some(1));
    assert_eq!(find_largest_untyped(&vec![d(25, true)]), None);
    assert_eq!(find_largest_untyped(&vec![]), None);
}
