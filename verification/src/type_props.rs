//! Size, alignment and layout properties of types and of pointees.
//!
//! [`SizedProps`] gives every sized type its size, alignment, derived
//! layout, zero-size flag and the largest safe slice length.  [`PtrProps`]
//! exposes the same properties of a pointee through the pointer-like values
//! that own or borrow it — one minimal capability shared by the enumerated
//! pointer kinds rather than per-kind duplicated logic.  A reference can
//! reach an unsized pointee, which carries its size and alignment only at
//! the value; the reference implementation therefore reads them from the
//! value itself.  These queries never touch any backend.

use vstd::prelude::*;

verus! {

use vstd::layout::{
    align_of, layout_for_type_is_valid, size_of, spec_align_of_val, spec_size_of_val,
};

use crate::layout::{max_len_for_size, Layout};

/// Properties every sized type carries.
pub trait SizedProps: Sized {
    /// The size of the type.
    fn sz() -> (r: usize)
        ensures
            r == size_of::<Self>(),
    ;

    /// The alignment of the type.
    fn align() -> (r: usize)
        ensures
            r == align_of::<Self>(),
            0 < r,
    ;

    /// The memory layout for the type.
    fn layout() -> (r: Layout)
        ensures
            r.size == size_of::<Self>(),
            r.align == align_of::<Self>(),
            r.wf(),
    ;

    /// Whether the type is zero-sized.
    fn is_zst() -> (r: bool)
        ensures
            r <==> size_of::<Self>() == 0,
    ;

    /// The largest safe length for a `[Self]`: the element count whose
    /// total byte length stays within the signed address-space limit.
    fn max_slice_len() -> (r: usize)
        ensures
            r == max_len_for_size(size_of::<Self>()),
    ;
}

impl<T> SizedProps for T {
    fn sz() -> (r: usize) {
        layout_for_type_is_valid::<T>();
        core::mem::size_of::<T>()
    }

    fn align() -> (r: usize) {
        layout_for_type_is_valid::<T>();
        core::mem::align_of::<T>()
    }

    fn layout() -> (r: Layout) {
        Layout::of::<T>()
    }

    fn is_zst() -> (r: bool) {
        layout_for_type_is_valid::<T>();
        core::mem::size_of::<T>() == 0
    }

    fn max_slice_len() -> (r: usize) {
        layout_for_type_is_valid::<T>();
        let sz: usize = core::mem::size_of::<T>();
        if sz == 0 {
            usize::MAX
        } else {
            (isize::MAX as usize) / sz
        }
    }
}

/// Properties of a pointee, provided by the pointer-like values that reach
/// it.  Each implementation says through [`PtrProps::pointee_size`] and
/// [`PtrProps::pointee_align`] whose size and alignment it reports; the
/// methods then return exactly those.
pub trait PtrProps<T: ?Sized> {
    /// The size of the pointee, as this pointer kind determines it.
    spec fn pointee_size(&self) -> nat;

    /// The alignment of the pointee, as this pointer kind determines it.
    spec fn pointee_align(&self) -> nat;

    /// Gets the size of the value.
    fn size(&self) -> (r: usize)
        ensures
            r == self.pointee_size(),
    ;

    /// Gets the alignment of the value.
    fn align(&self) -> (r: usize)
        ensures
            r == self.pointee_align(),
    ;

    /// Gets the memory layout for the value.
    fn layout(&self) -> (r: Layout)
        ensures
            r.size == self.pointee_size(),
            r.align == self.pointee_align(),
    ;

    /// Checks whether the value is zero-sized.
    fn is_zst(&self) -> (r: bool)
        ensures
            r <==> self.pointee_size() == 0,
    ;

    /// Gets the largest safe length for a slice containing copies of the
    /// value.
    fn max_slice_len(&self) -> (r: usize)
        ensures
            r == max_len_for_size(self.pointee_size()),
    ;
}

impl<T: ?Sized> PtrProps<T> for &T {
    open spec fn pointee_size(&self) -> nat {
        spec_size_of_val::<T>(*self)
    }

    open spec fn pointee_align(&self) -> nat {
        spec_align_of_val::<T>(*self)
    }

    fn size(&self) -> (r: usize) {
        core::mem::size_of_val::<T>(*self)
    }

    fn align(&self) -> (r: usize) {
        core::mem::align_of_val::<T>(*self)
    }

    fn layout(&self) -> (r: Layout) {
        Layout {
            size: core::mem::size_of_val::<T>(*self),
            align: core::mem::align_of_val::<T>(*self),
        }
    }

    fn is_zst(&self) -> (r: bool) {
        core::mem::size_of_val::<T>(*self) == 0
    }

    fn max_slice_len(&self) -> (r: usize) {
        let sz: usize = core::mem::size_of_val::<T>(*self);
        if sz == 0 {
            usize::MAX
        } else {
            (isize::MAX as usize) / sz
        }
    }
}

impl<T> PtrProps<T> for Box<T> {
    open spec fn pointee_size(&self) -> nat {
        size_of::<T>()
    }

    open spec fn pointee_align(&self) -> nat {
        align_of::<T>()
    }

    fn size(&self) -> (r: usize) {
        <T as SizedProps>::sz()
    }

    fn align(&self) -> (r: usize) {
        <T as SizedProps>::align()
    }

    fn layout(&self) -> (r: Layout) {
        <T as SizedProps>::layout()
    }

    fn is_zst(&self) -> (r: bool) {
        <T as SizedProps>::is_zst()
    }

    fn max_slice_len(&self) -> (r: usize) {
        <T as SizedProps>::max_slice_len()
    }
}

impl<T> PtrProps<T> for std::rc::Rc<T> {
    open spec fn pointee_size(&self) -> nat {
        size_of::<T>()
    }

    open spec fn pointee_align(&self) -> nat {
        align_of::<T>()
    }

    fn size(&self) -> (r: usize) {
        <T as SizedProps>::sz()
    }

    fn align(&self) -> (r: usize) {
        <T as SizedProps>::align()
    }

    fn layout(&self) -> (r: Layout) {
        <T as SizedProps>::layout()
    }

    fn is_zst(&self) -> (r: bool) {
        <T as SizedProps>::is_zst()
    }

    fn max_slice_len(&self) -> (r: usize) {
        <T as SizedProps>::max_slice_len()
    }
}

impl<T> PtrProps<T> for std::sync::Arc<T> {
    open spec fn pointee_size(&self) -> nat {
        size_of::<T>()
    }

    open spec fn pointee_align(&self) -> nat {
        align_of::<T>()
    }

    fn size(&self) -> (r: usize) {
        <T as SizedProps>::sz()
    }

    fn align(&self) -> (r: usize) {
        <T as SizedProps>::align()
    }

    fn layout(&self) -> (r: Layout) {
        <T as SizedProps>::layout()
    }

    fn is_zst(&self) -> (r: bool) {
        <T as SizedProps>::is_zst()
    }

    fn max_slice_len(&self) -> (r: usize) {
        <T as SizedProps>::max_slice_len()
    }
}

} // verus!
