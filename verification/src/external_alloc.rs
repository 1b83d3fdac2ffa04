//! Support for backends reached through a single reallocate-by-size
//! primitive.
//!
//! C-style allocators expose one reallocation entry point and cannot
//! themselves tell a grow from a shrink.  The [`resize`] adaptor builds the
//! direction-checked grow/shrink contract of the rest of this crate on top
//! of such a primitive: it enforces the alignment and direction rules before
//! any backend call, so that misuse is caught deterministically rather than
//! silently succeeding.  [`layout_to_flags`] is the alignment-to-flag
//! translation rule such allocators pair with it.

use vstd::prelude::*;

verus! {

use vstd::std_specs::bits::u64_trailing_zeros;

use crate::error::{AllocError, UOp};
use crate::layout::Layout;

/// The maximum alignment that the memory allocations returned by the C
/// standard library memory allocation entry points are guaranteed to have on
/// this target.
pub const ALIGNOF_MAX_ALIGN_T: usize = 16;

/// Converts a size and alignment to the flag word a C-style allocator takes:
/// zero when the allocator's natural alignment already suffices — the
/// alignment neither exceeds [`ALIGNOF_MAX_ALIGN_T`] nor the size — and an
/// explicit request encoding the alignment's log2 otherwise.
pub fn layout_to_flags(size: usize, align: usize) -> (r: i32)
    requires
        align <= u64::MAX,
    ensures
        align <= ALIGNOF_MAX_ALIGN_T && align <= size ==> r == 0,
        !(align <= ALIGNOF_MAX_ALIGN_T && align <= size) ==> r == u64_trailing_zeros(
            align as u64,
        ) as i32,
{
    if align <= ALIGNOF_MAX_ALIGN_T && align <= size {
        0
    } else {
        (align as u64).trailing_zeros() as i32
    }
}

/// Whether the adaptor, on these inputs, reaches the raw reallocate
/// primitive at all: the alignment rule and the direction rule both pass and
/// the sizes actually differ.
pub open spec fn resize_delegates(
    old_layout: Layout,
    new_layout: Layout,
    need_same_align: bool,
    is_grow: bool,
) -> bool {
    &&& !(need_same_align && new_layout.align != old_layout.align)
    &&& new_layout.size != old_layout.size
    &&& !(is_grow && new_layout.size < old_layout.size)
    &&& !(!is_grow && new_layout.size > old_layout.size)
}

/// Gives a backend that exposes only a single reallocate-by-size primitive a
/// direction-checked grow/shrink contract.
///
/// The pointer type is opaque here: the adaptor only hands `ptr` back or
/// passes the primitive's result through.  In order: an alignment mismatch
/// under `need_same_align` fails with the offending pair; equal sizes return
/// `ptr` unchanged; a grow to a smaller size and a shrink to a larger size
/// fail their direction rule — each of these decisions is made without
/// invoking the primitive.  Only then is the primitive invoked, and its
/// `None` (a null result) becomes [`AllocError::AllocFailed`] for the new
/// layout.
pub fn resize<P: Copy, F: Fn() -> Option<P>>(
    ralloc: F,
    ptr: P,
    old_layout: Layout,
    new_layout: Layout,
    need_same_align: bool,
    is_grow: bool,
) -> (r: Result<P, AllocError>)
    requires
        resize_delegates(old_layout, new_layout, need_same_align, is_grow) ==> call_requires(
            ralloc,
            (),
        ),
    ensures
        need_same_align && new_layout.align != old_layout.align ==> r == Err::<P, AllocError>(
            AllocError::UnsupportedOperation(
                UOp::ReallocDiffAlign(old_layout.align, new_layout.align),
            ),
        ),
        !(need_same_align && new_layout.align != old_layout.align) && new_layout.size
            == old_layout.size ==> r == Ok::<P, AllocError>(ptr),
        !(need_same_align && new_layout.align != old_layout.align) && is_grow && new_layout.size
            < old_layout.size ==> r == Err::<P, AllocError>(
            AllocError::GrowSmallerNewLayout(old_layout.size, new_layout.size),
        ),
        !(need_same_align && new_layout.align != old_layout.align) && !is_grow && new_layout.size
            > old_layout.size ==> r == Err::<P, AllocError>(
            AllocError::ShrinkBiggerNewLayout(old_layout.size, new_layout.size),
        ),
        resize_delegates(old_layout, new_layout, need_same_align, is_grow) ==> match r {
            Ok(q) => call_ensures(ralloc, (), Some(q)),
            Err(e) => e == AllocError::AllocFailed(new_layout) && call_ensures(
                ralloc,
                (),
                None::<P>,
            ),
        },
{
    if need_same_align && new_layout.align != old_layout.align {
        return Err(
            AllocError::UnsupportedOperation(
                UOp::ReallocDiffAlign(old_layout.align, new_layout.align),
            ),
        );
    }
    let old_size = old_layout.size;
    let new_size = new_layout.size;
    if new_size == old_size {
        return Ok(ptr);
    } else if is_grow {
        if new_size < old_size {
            return Err(AllocError::GrowSmallerNewLayout(old_size, new_size));
        }
    } else if new_size > old_size {
        return Err(AllocError::ShrinkBiggerNewLayout(old_size, new_size));
    }
    match ralloc() {
        None => Err(AllocError::AllocFailed(new_layout)),
        Some(q) => Ok(q),
    }
}

} // verus!
