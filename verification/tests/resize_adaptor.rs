use std::cell::Cell;

use memapi::error::{AllocError, UOp};
use memapi::external_alloc::resize;
use memapi::layout::Layout;

fn counting(calls: &Cell<u32>, give: Option<usize>) -> impl Fn() -> Option<usize> + '_ {
    move || {
        calls.set(calls.get() + 1);
        give
    }
}

#[test]
fn same_size_returns_pointer_unchanged_without_calling() {
    let calls = Cell::new(0);
    let l = Layout { size: 16, align: 8 };
    let r = resize(counting(&calls, Some(99)), 171usize, l, l, false, true);
    assert_eq!(r, Ok(171));
    assert_eq!(calls.get(), 0);
}

#[test]
fn same_size_is_a_no_op_even_with_alignment_pinned() {
    let calls = Cell::new(0);
    let l = Layout { size: 16, align: 8 };
    let r = resize(counting(&calls, Some(99)), 7usize, l, l, true, false);
    assert_eq!(r, Ok(7));
    assert_eq!(calls.get(), 0);
}

#[test]
fn alignment_mismatch_fails_regardless_of_sizes() {
    let calls = Cell::new(0);
    let old = Layout { size: 16, align: 8 };
    let new = Layout { size: 16, align: 16 };
    let r = resize(counting(&calls, Some(99)), 7usize, old, new, true, true);
    assert_eq!(r, Err(AllocError::UnsupportedOperation(UOp::ReallocDiffAlign(8, 16))));
    assert_eq!(calls.get(), 0);
}

#[test]
fn alignment_mismatch_ignored_when_not_required() {
    let calls = Cell::new(0);
    let old = Layout { size: 16, align: 8 };
    let new = Layout { size: 16, align: 16 };
    let r = resize(counting(&calls, Some(99)), 7usize, old, new, false, true);
    assert_eq!(r, Ok(7));
    assert_eq!(calls.get(), 0);
}

#[test]
fn grow_to_smaller_size_fails_without_calling() {
    let calls = Cell::new(0);
    let old = Layout { size: 16, align: 8 };
    let new = Layout { size: 8, align: 8 };
    let r = resize(counting(&calls, Some(99)), 7usize, old, new, false, true);
    assert_eq!(r, Err(AllocError::GrowSmallerNewLayout(16, 8)));
    assert_eq!(calls.get(), 0);
}

#[test]
fn shrink_to_bigger_size_fails_without_calling() {
    let calls = Cell::new(0);
    let old = Layout { size: 8, align: 8 };
    let new = Layout { size: 16, align: 8 };
    let r = resize(counting(&calls, Some(99)), 7usize, old, new, false, false);
    assert_eq!(r, Err(AllocError::ShrinkBiggerNewLayout(8, 16)));
    assert_eq!(calls.get(), 0);
}

#[test]
fn genuine_grow_delegates_exactly_once() {
    let calls = Cell::new(0);
    let old = Layout { size: 8, align: 8 };
    let new = Layout { size: 32, align: 8 };
    let r = resize(counting(&calls, Some(4242)), 7usize, old, new, true, true);
    assert_eq!(r, Ok(4242));
    assert_eq!(calls.get(), 1);
}

#[test]
fn genuine_shrink_delegates_exactly_once() {
    let calls = Cell::new(0);
    let old = Layout { size: 32, align: 8 };
    let new = Layout { size: 8, align: 8 };
    let r = resize(counting(&calls, Some(4242)), 7usize, old, new, true, false);
    assert_eq!(r, Ok(4242));
    assert_eq!(calls.get(), 1);
}

#[test]
fn null_result_becomes_alloc_failed_for_new_layout() {
    let calls = Cell::new(0);
    let old = Layout { size: 8, align: 8 };
    let new = Layout { size: 32, align: 8 };
    let r = resize(counting(&calls, None), 7usize, old, new, true, true);
    assert_eq!(r, Err(AllocError::AllocFailed(new)));
    assert_eq!(calls.get(), 1);
}
