use memapi::backend::{Alloc, AllocExt, RawPtr};
use memapi::layout::Layout;
use memapi::tracking::TrackingAlloc;

fn id_of(p: RawPtr) -> usize {
    match p {
        RawPtr::Block { id } => id,
        RawPtr::Dangling { .. } => panic!("expected a block"),
    }
}

#[test]
fn allocate_and_deallocate_balance_the_books() {
    let mut a = TrackingAlloc::new();
    assert_eq!(a.live_bytes(), 0);
    let l = Layout { size: 24, align: 8 };
    let p = a.allocate(l).unwrap();
    assert_eq!(a.live_bytes(), 24);
    assert_eq!(a.block_bytes(id_of(p)).unwrap().len(), 24);
    a.deallocate(p, l);
    assert_eq!(a.live_bytes(), 0);
    assert!(a.block_bytes(id_of(p)).is_none());
}

#[test]
fn allocate_zeroed_hands_out_zero_bytes() {
    let mut a = TrackingAlloc::new();
    let l = Layout { size: 6, align: 2 };
    let p = a.allocate_zeroed(l).unwrap();
    assert_eq!(a.block_bytes(id_of(p)).unwrap().as_slice(), &[0, 0, 0, 0, 0, 0]);
}

#[test]
fn allocate_filled_hands_out_constant_bytes() {
    let mut a = TrackingAlloc::new();
    let l = Layout { size: 4, align: 4 };
    let p = a.allocate_filled(l, 0xAB).unwrap();
    assert_eq!(a.block_bytes(id_of(p)).unwrap().as_slice(), &[0xAB, 0xAB, 0xAB, 0xAB]);
}

#[test]
fn allocate_patterned_applies_the_pattern_per_byte() {
    let mut a = TrackingAlloc::new();
    let l = Layout { size: 5, align: 1 };
    let p = a.allocate_patterned(l, |i| (i * 2) as u8).unwrap();
    assert_eq!(a.block_bytes(id_of(p)).unwrap().as_slice(), &[0, 2, 4, 6, 8]);
}

#[test]
fn grow_preserves_old_bytes_and_zeroes_new_ones() {
    let mut a = TrackingAlloc::new();
    let old_l = Layout { size: 3, align: 1 };
    let p = a.allocate_patterned(old_l, |i| (i + 1) as u8).unwrap();
    let new_l = Layout { size: 6, align: 1 };
    let q = a.grow_zeroed(p, old_l, new_l).unwrap();
    assert_eq!(a.block_bytes(id_of(q)).unwrap().as_slice(), &[1, 2, 3, 0, 0, 0]);
    assert_eq!(a.live_bytes(), 6);
}

#[test]
fn shrink_keeps_the_byte_prefix() {
    let mut a = TrackingAlloc::new();
    let old_l = Layout { size: 4, align: 1 };
    let p = a.allocate_patterned(old_l, |i| (10 + i) as u8).unwrap();
    let new_l = Layout { size: 2, align: 1 };
    let q = a.shrink(p, old_l, new_l).unwrap();
    assert_eq!(a.block_bytes(id_of(q)).unwrap().as_slice(), &[10, 11]);
    assert_eq!(a.live_bytes(), 2);
}

#[test]
fn identities_are_never_reused() {
    let mut a = TrackingAlloc::new();
    let l = Layout { size: 8, align: 8 };
    let p = a.allocate(l).unwrap();
    let first = id_of(p);
    a.deallocate(p, l);
    let q = a.allocate(l).unwrap();
    assert_ne!(first, id_of(q));
}
