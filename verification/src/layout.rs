//! Checked layout and size arithmetic.
//!
//! A [`Layout`] is a (size, alignment) pair describing a memory block.  Its
//! validity rule is the platform's: the alignment is a power of two and the
//! size, rounded up to the nearest multiple of the alignment, stays within the
//! signed address-space limit.  [`layout_or_sz_align`] derives the layout for `len`
//! elements of a type with overflow detection; on failure it hands back the
//! raw `(size, align)` pair for diagnostics rather than a constructed layout.

use vstd::prelude::*;

verus! {

use vstd::layout::{align_of, layout_for_type_is_valid, size_of, valid_layout};

/// A (size, alignment) pair describing a memory block's byte size and
/// required power-of-two alignment.
#[derive(Clone, Copy, Debug, PartialEq, Eq, Structural)]
pub struct Layout {
    /// Byte size of the block.
    pub size: usize,
    /// Required alignment of the block; a power of two when well formed.
    pub align: usize,
}

impl Layout {
    /// The platform's validity rule for a (size, alignment) pair.
    pub open spec fn wf(self) -> bool {
        valid_layout(self.size, self.align)
    }

    /// The layout of a single value of type `T`.
    pub fn of<T>() -> (r: Layout)
        ensures
            r.size == size_of::<T>(),
            r.align == align_of::<T>(),
            r.wf(),
            0 < r.align,
            r.size % r.align == 0,
    {
        layout_for_type_is_valid::<T>();
        Layout { size: core::mem::size_of::<T>(), align: core::mem::align_of::<T>() }
    }
}

/// The largest element count for which a slice of elements of byte size `sz`
/// stays within the signed address-space limit: unbounded (capped at the
/// pointer width) for zero-sized elements, `floor(isize::MAX / sz)` otherwise.
pub open spec fn max_len_for_size(sz: nat) -> nat {
    if sz == 0 {
        usize::MAX as nat
    } else {
        (isize::MAX as nat) / sz
    }
}

/// What [`layout_or_sz_align`] returns for `len` elements of a type with byte size
/// `sz` and alignment `al`: the total size with overflow detection, then the
/// platform validity rule; a failure carries the raw `(size, align)` pair.
/// An overflowing total cannot be reported, so the element's own size stands
/// in for it.
pub open spec fn layout_or_sz_align_result(len: nat, sz: nat, al: nat) -> Result<Layout, (usize, usize)> {
    if len * sz > usize::MAX {
        Err((sz as usize, al as usize))
    } else if !valid_layout((len * sz) as usize, al as usize) {
        Err(((len * sz) as usize, al as usize))
    } else {
        Ok(Layout { size: (len * sz) as usize, align: al as usize })
    }
}

/// Computes the layout for `len` elements of `T` with overflow detection.
/// If the total size overflows, or the resulting pair violates the platform
/// validity rule, returns the raw `(size, align)` pair for error reporting.
/// A zero total size (a zero `len` or a zero-sized `T`) is a valid layout
/// here; callers that must not see one short-circuit before allocating.
pub fn layout_or_sz_align<T>(len: usize) -> (r: Result<Layout, (usize, usize)>)
    ensures
        r == layout_or_sz_align_result(len as nat, size_of::<T>(), align_of::<T>()),
        r matches Ok(l) ==> l.wf() && l.size == len * size_of::<T>() && l.align == align_of::<T>(),
{
    layout_for_type_is_valid::<T>();
    let sz: usize = core::mem::size_of::<T>();
    let al: usize = core::mem::align_of::<T>();
    match len.checked_mul(sz) {
        None => Err((sz, al)),
        Some(total) => {
            let limit: usize = (isize::MAX as usize) - ((isize::MAX as usize) % al);
            if total > limit {
                Err((total, al))
            } else {
                Ok(Layout { size: total, align: al })
            }
        },
    }
}

} // verus!
