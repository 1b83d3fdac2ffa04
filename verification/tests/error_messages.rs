use memapi::backend::RawPtr;
use memapi::error::{AllocError, UOp};
use memapi::layout::Layout;

#[test]
fn arithmetic_overflow_message() {
    assert_eq!(AllocError::ArithmeticOverflow.message(), "arithmetic overflow");
}

#[test]
fn layout_error_message() {
    assert_eq!(
        AllocError::LayoutError(0, 1024).message(),
        "computed invalid layout: size: 0, align: 1024"
    );
}

#[test]
fn zero_sized_layout_message() {
    let e = AllocError::ZeroSizedLayout(RawPtr::Dangling { align: 8 });
    assert_eq!(e.message(), "zero-sized layout was given");
}

#[test]
fn alloc_failed_message() {
    let e = AllocError::AllocFailed(Layout { size: 40, align: 8 });
    assert_eq!(e.message(), "allocation failed for layout: size: 40, align: 8");
}

#[test]
fn grow_smaller_message() {
    assert_eq!(
        AllocError::GrowSmallerNewLayout(16, 8).message(),
        "attempted to grow from a size of 16 to a smaller size of 8"
    );
}

#[test]
fn shrink_bigger_message() {
    assert_eq!(
        AllocError::ShrinkBiggerNewLayout(24, 4096).message(),
        "attempted to shrink from a size of 24 to a larger size of 4096"
    );
}

#[test]
fn unsupported_shrink_in_place_message() {
    assert_eq!(
        AllocError::UnsupportedOperation(UOp::ShrinkInPlace).message(),
        "unsupported operation: attempted to shrink in place"
    );
}

#[test]
fn unsupported_realloc_diff_align_message() {
    assert_eq!(
        AllocError::UnsupportedOperation(UOp::ReallocDiffAlign(8, 16)).message(),
        "unsupported operation: attempted to realloc diff align from 8 to 16"
    );
}

#[test]
fn resize_in_place_messages() {
    assert_eq!(AllocError::CannotResizeInPlace.message(), "cannot resize in place");
    assert_eq!(
        AllocError::ResizeInPlaceZeroSized.message(),
        "zero-sized resize in place was requested"
    );
}

#[test]
fn uop_messages_stand_alone() {
    assert_eq!(UOp::ShrinkInPlace.message(), "shrink in place");
    assert_eq!(UOp::ReallocDiffAlign(4096, 2).message(), "realloc diff align from 4096 to 2");
}
