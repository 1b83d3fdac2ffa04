use std::cell::Cell;
use std::rc::Rc;

use memapi::alloc_slice::{AllocSlice, AllocSliceExt, TryFillError};
use memapi::backend::RawPtr;
use memapi::error::AllocError;
use memapi::guard::SliceAllocGuard;
use memapi::layout::Layout;
use memapi::tracking::TrackingAlloc;

fn id_of(p: RawPtr) -> usize {
    match p {
        RawPtr::Block { id } => id,
        RawPtr::Dangling { .. } => panic!("expected a block"),
    }
}

struct Counted {
    drops: Rc<Cell<u32>>,
}

impl Counted {
    fn new(drops: &Rc<Cell<u32>>) -> Counted {
        Counted { drops: Rc::clone(drops) }
    }
}

impl Drop for Counted {
    fn drop(&mut self) {
        self.drops.set(self.drops.get() + 1);
    }
}

#[test]
fn alloc_slice_reserves_exactly_the_bytes() {
    let mut a = TrackingAlloc::new();
    let b = a.alloc_slice::<u64>(5).unwrap();
    assert_eq!(b.cap(), 5);
    assert_eq!(b.initialized_len(), 0);
    assert_eq!(a.block_bytes(id_of(b.backend_ptr())).unwrap().len(), 40);
    assert_eq!(a.live_bytes(), 40);
    a.drop_and_dealloc_uninit_slice(b);
    assert_eq!(a.live_bytes(), 0);
}

#[test]
fn alloc_slice_of_zero_len_is_the_zero_sized_outcome() {
    let mut a = TrackingAlloc::new();
    let r = a.alloc_slice::<u64>(0);
    assert_eq!(r.unwrap_err(), AllocError::ZeroSizedLayout(RawPtr::Dangling { align: 8 }));
    assert_eq!(a.live_bytes(), 0);
}

#[test]
fn alloc_slice_of_zero_sized_type_is_the_zero_sized_outcome() {
    #[derive(Debug)]
    struct Nothing;
    let mut a = TrackingAlloc::new();
    let r = a.alloc_slice::<Nothing>(17);
    assert_eq!(r.unwrap_err(), AllocError::ZeroSizedLayout(RawPtr::Dangling { align: 1 }));
}

#[test]
fn alloc_slice_overflow_is_a_layout_error() {
    let mut a = TrackingAlloc::new();
    assert_eq!(a.alloc_slice::<u64>(usize::MAX).unwrap_err(), AllocError::LayoutError(8, 8));
    assert_eq!(
        a.alloc_slice::<u8>(usize::MAX).unwrap_err(),
        AllocError::LayoutError(usize::MAX, 1)
    );
}

#[test]
fn alloc_zeroed_slice_is_zero_filled() {
    let mut a = TrackingAlloc::new();
    let b = a.alloc_slice_zeroed::<u16>(3).unwrap();
    assert_eq!(a.block_bytes(id_of(b.backend_ptr())).unwrap().as_slice(), &[0, 0, 0, 0, 0, 0]);
}

#[test]
fn clone_slice_copies_every_element() {
    let mut a = TrackingAlloc::new();
    let data = [1u64, 2, 3];
    let b = a.alloc_clone_slice_to(&data).unwrap();
    assert_eq!(b.elems().as_slice(), &[1, 2, 3]);
    assert_eq!(b.cap(), 3);
    let returned = a.dealloc_n(b);
    assert_eq!(returned, vec![1, 2, 3]);
    assert_eq!(a.live_bytes(), 0);
}

#[test]
fn slice_with_fills_by_index() {
    let mut a = TrackingAlloc::new();
    let b = a.alloc_slice_with(4, |i| (i * i) as u64).unwrap();
    assert_eq!(b.elems().as_slice(), &[0, 1, 4, 9]);
}

#[test]
fn fill_then_destroy_leaves_zero_net_bytes() {
    let mut a = TrackingAlloc::new();
    let b = a.alloc_slice_with(5, |i| i).unwrap();
    assert_eq!(b.elems().as_slice(), &[0, 1, 2, 3, 4]);
    a.drop_and_dealloc_uninit_slice(b);
    assert_eq!(a.live_bytes(), 0);
}

#[test]
fn default_slice_holds_defaults() {
    let mut a = TrackingAlloc::new();
    let b = a.alloc_default_slice::<u32>(4).unwrap();
    assert_eq!(b.elems().as_slice(), &[0, 0, 0, 0]);
}

#[test]
fn init_slice_takes_the_produced_values() {
    let mut a = TrackingAlloc::new();
    let b = a.alloc_init_slice(|| vec![9u8, 8, 7], 3).unwrap();
    assert_eq!(b.elems().as_slice(), &[9, 8, 7]);
}

#[test]
fn grow_keeps_elements_and_bytes() {
    let mut a = TrackingAlloc::new();
    let mut b = a.alloc_clone_slice_to(&[5u8, 6]).unwrap();
    a.grow_slice(&mut b, 4).unwrap();
    assert_eq!(b.cap(), 4);
    assert_eq!(b.elems().as_slice(), &[5, 6]);
    assert_eq!(a.live_bytes(), 4);
}

#[test]
fn grow_to_fewer_elements_always_fails_without_backend_change() {
    let mut a = TrackingAlloc::new();
    let mut b = a.alloc_slice_with(3, |i| i as u64).unwrap();
    let before = a.live_bytes();
    let r = a.grow_slice(&mut b, 2);
    assert_eq!(r.unwrap_err(), AllocError::GrowSmallerNewLayout(24, 16));
    assert_eq!(a.live_bytes(), before);
    assert_eq!(b.cap(), 3);
    assert_eq!(b.elems().as_slice(), &[0, 1, 2]);
}

#[test]
fn grow_zeroed_zeroes_only_the_new_bytes() {
    let mut a = TrackingAlloc::new();
    let mut b = a.alloc_slice_patterned::<u8, _>(2, |i| (i + 1) as u8).unwrap();
    a.grow_slice_zeroed(&mut b, 5).unwrap();
    assert_eq!(a.block_bytes(id_of(b.backend_ptr())).unwrap().as_slice(), &[1, 2, 0, 0, 0]);
}

#[test]
fn shrink_returns_the_removed_elements_undropped() {
    let mut a = TrackingAlloc::new();
    let mut b = a.alloc_clone_slice_to(&[10u16, 20, 30, 40]).unwrap();
    let removed = a.shrink_slice(&mut b, 2).unwrap();
    assert_eq!(removed, vec![30, 40]);
    assert_eq!(b.elems().as_slice(), &[10, 20]);
    assert_eq!(b.cap(), 2);
    assert_eq!(a.live_bytes(), 4);
}

#[test]
fn shrink_to_more_elements_always_fails_without_backend_change() {
    let mut a = TrackingAlloc::new();
    let mut b = a.alloc_slice_with(3, |i| i as u64).unwrap();
    let before = a.live_bytes();
    let r = a.shrink_slice(&mut b, 5);
    assert_eq!(r.unwrap_err(), AllocError::ShrinkBiggerNewLayout(24, 40));
    assert_eq!(a.live_bytes(), before);
    assert_eq!(b.cap(), 3);
}

#[test]
fn shrink_to_zero_is_the_zero_sized_outcome() {
    let mut a = TrackingAlloc::new();
    let mut b = a.alloc_slice_with(3, |i| i as u32).unwrap();
    let r = a.shrink_slice(&mut b, 0);
    assert_eq!(r.unwrap_err(), AllocError::ZeroSizedLayout(RawPtr::Dangling { align: 4 }));
    assert_eq!(b.cap(), 3);
    a.drop_and_dealloc_n(b);
    assert_eq!(a.live_bytes(), 0);
}

#[test]
fn realloc_preserves_the_shared_byte_prefix() {
    let mut a = TrackingAlloc::new();
    let mut b = a.alloc_slice_patterned::<u8, _>(8, |i| i as u8).unwrap();
    let removed = a.realloc_slice(&mut b, 4).unwrap();
    assert!(removed.is_empty());
    assert_eq!(a.block_bytes(id_of(b.backend_ptr())).unwrap().as_slice(), &[0, 1, 2, 3]);
    a.realloc_slice_zeroed(&mut b, 8).unwrap();
    assert_eq!(
        a.block_bytes(id_of(b.backend_ptr())).unwrap().as_slice(),
        &[0, 1, 2, 3, 0, 0, 0, 0]
    );
}

#[test]
fn realloc_truncates_elements_and_hands_them_back() {
    let mut a = TrackingAlloc::new();
    let mut b = a.alloc_clone_slice_to(&[1u64, 2, 3, 4, 5]).unwrap();
    let removed = a.realloc_slice(&mut b, 2).unwrap();
    assert_eq!(removed, vec![3, 4, 5]);
    assert_eq!(b.elems().as_slice(), &[1, 2]);
    assert_eq!(b.cap(), 2);
}

#[test]
fn realloc_same_len_is_a_no_op() {
    let mut a = TrackingAlloc::new();
    let mut b = a.alloc_clone_slice_to(&[1u8, 2]).unwrap();
    let before = id_of(b.backend_ptr());
    let removed = a.realloc_slice(&mut b, 2).unwrap();
    assert!(removed.is_empty());
    assert_eq!(id_of(b.backend_ptr()), before);
}

#[test]
fn guard_commits_one_element_at_a_time() {
    let mut a = TrackingAlloc::new();
    let mut g = a.alloc_slice_guard::<u32>(3).unwrap();
    assert_eq!(g.committed_len(), 0);
    g.commit_next(11);
    g.commit_next(22);
    g.commit_next(33);
    assert_eq!(g.committed_len(), 3);
    let b = g.release();
    assert_eq!(b.elems().as_slice(), &[11, 22, 33]);
}

#[test]
fn abandoned_guard_drops_exactly_the_committed_elements() {
    let drops = Rc::new(Cell::new(0));
    let mut a = TrackingAlloc::new();
    let mut g: SliceAllocGuard<Counted> = a.alloc_slice_guard(3).unwrap();
    g.commit_next(Counted::new(&drops));
    g.commit_next(Counted::new(&drops));
    assert_eq!(drops.get(), 0);
    g.abort(&mut a);
    assert_eq!(drops.get(), 2);
    assert_eq!(a.live_bytes(), 0);
}

#[test]
fn failing_constructor_rolls_back_exactly() {
    let drops = Rc::new(Cell::new(0));
    let mut a = TrackingAlloc::new();
    let r = a.alloc_slice_try_with(3, |i| {
        if i == 1 {
            Err("refused")
        } else {
            Ok(Counted::new(&drops))
        }
    });
    match r {
        Err(TryFillError::Fill(idx, msg)) => {
            assert_eq!(idx, 1);
            assert_eq!(msg, "refused");
        },
        _ => panic!("expected the fill to be declined at index 1"),
    }
    assert_eq!(drops.get(), 1);
    assert_eq!(a.live_bytes(), 0);
}

#[test]
fn try_with_succeeds_when_every_constructor_does() {
    let mut a = TrackingAlloc::new();
    let b = a.alloc_slice_try_with(3, |i| Ok::<u64, ()>(i as u64 + 1)).unwrap();
    assert_eq!(b.elems().as_slice(), &[1, 2, 3]);
}

#[test]
fn zero_and_dealloc_returns_the_elements() {
    let mut a = TrackingAlloc::new();
    let b = a.alloc_clone_slice_to(&[7u8, 8]).unwrap();
    let returned = a.zero_and_dealloc_n(b);
    assert_eq!(returned, vec![7, 8]);
    assert_eq!(a.live_bytes(), 0);
}

#[test]
fn drop_zero_and_dealloc_frees_the_block() {
    let mut a = TrackingAlloc::new();
    let b = a.alloc_clone_slice_to(&[7u64, 8]).unwrap();
    a.drop_zero_and_dealloc_uninit_slice(b);
    assert_eq!(a.live_bytes(), 0);
}

#[test]
fn filled_slice_sets_every_byte() {
    let mut a = TrackingAlloc::new();
    let b = a.alloc_slice_filled::<u16>(3, 0xCD).unwrap();
    assert_eq!(b.cap(), 3);
    assert_eq!(
        a.block_bytes(id_of(b.backend_ptr())).unwrap().as_slice(),
        &[0xCD, 0xCD, 0xCD, 0xCD, 0xCD, 0xCD]
    );
}

#[test]
fn filled_slice_normalizes_the_zero_sized_case() {
    let mut a = TrackingAlloc::new();
    let r = a.alloc_slice_filled::<u16>(0, 0xCD);
    assert_eq!(r.unwrap_err(), AllocError::AllocFailed(Layout { size: 0, align: 2 }));
}

#[test]
fn patterned_slice_applies_the_byte_pattern() {
    let mut a = TrackingAlloc::new();
    let b = a.alloc_slice_patterned::<u32, _>(2, |i| (i * 3) as u8).unwrap();
    assert_eq!(
        a.block_bytes(id_of(b.backend_ptr())).unwrap().as_slice(),
        &[0, 3, 6, 9, 12, 15, 18, 21]
    );
}

#[test]
fn patterned_slice_normalizes_the_zero_sized_case() {
    let mut a = TrackingAlloc::new();
    let r = a.alloc_slice_patterned::<u32, _>(0, |i| i as u8);
    assert_eq!(r.unwrap_err(), AllocError::AllocFailed(Layout { size: 0, align: 4 }));
}
