//! The slice allocation API.
//!
//! [`AllocSlice`] is the public surface: allocate, zero-allocate,
//! clone-into, fill-with, default-fill, grow, shrink, reallocate and
//! deallocate over slice blocks, provided for every backend by a blanket
//! implementation.  Each operation validates and computes a layout through
//! the checked routine of [`crate::layout`], short-circuits the zero-sized
//! outcome without touching the backend, enforces its direction rule before
//! any backend call, and only then delegates to the raw capability.
//! [`AllocSliceExt`] adds the pattern-fill operations for backends with the
//! byte-fill capability.

use vstd::prelude::*;

verus! {

use vstd::layout::{align_of, size_of};
use vstd::pervasive::cloned;

use crate::backend::{dangling_for, resize_post, Alloc, AllocExt};
use crate::block::SliceBlock;
use crate::error::AllocError;
use crate::guard::SliceAllocGuard;
use crate::layout::{layout_or_sz_align, layout_or_sz_align_result, Layout};

/// Whether `e` is the zero-sized outcome for element type `T`: a dangling
/// pointer aligned for `T`, inside the one error variant that many callers
/// treat as a degenerate success.
pub open spec fn zero_sized_err<T>(e: AllocError) -> bool {
    &&& e matches AllocError::ZeroSizedLayout(p)
    &&& p is Dangling
    &&& p->Dangling_align as nat == align_of::<T>()
}

/// What every successful slice allocation did to the backend: the handle is
/// consistent, matches a block the backend did not have before, of exactly
/// `len` elements, and nothing else changed.
pub open spec fn fresh_block_post<T, A: Alloc>(
    pre: A,
    post: A,
    b: SliceBlock<T>,
    len: usize,
) -> bool {
    &&& b.inv()
    &&& b.live(&post)
    &&& b.capacity() == len
    &&& !pre.blocks().contains_key(b.raw().block_id())
    &&& !pre.aligns().contains_key(b.raw().block_id())
    &&& post.blocks() == pre.blocks().insert(b.raw().block_id(), post.blocks()[b.raw().block_id()])
    &&& post.aligns() == pre.aligns().insert(b.raw().block_id(), align_of::<T>() as int)
}

/// Which error a slice allocation for `len` elements of `T` reports, and
/// what it leaves behind: the zero-sized outcome and the layout failure
/// decide before any backend call and leave the backend word-for-word as it
/// was; only the backend's own refusal of the computed layout remains.
pub open spec fn alloc_slice_err_post<T, A: Alloc>(pre: A, post: A, len: usize, e: AllocError) -> bool {
    if len as nat * size_of::<T>() == 0 {
        zero_sized_err::<T>(e) && post == pre
    } else {
        match layout_or_sz_align_result(len as nat, size_of::<T>(), align_of::<T>()) {
            Err((s, a)) => e == AllocError::LayoutError(s, a) && post == pre,
            Ok(l) => {
                &&& e == AllocError::AllocFailed(l)
                &&& post.blocks() == pre.blocks()
                &&& post.aligns() == pre.aligns()
            },
        }
    }
}

/// Which error a grow of a `cap`-element block to `new_len` elements
/// reports, and what it leaves behind.  The new layout is computed through
/// the checked routine first; a grow to fewer elements always passes that
/// check (its total shrinks), so the direction rule is reported exactly and
/// before any backend call.
pub open spec fn grow_err_post<T, A: Alloc>(
    pre: A,
    post: A,
    cap: usize,
    new_len: usize,
    e: AllocError,
) -> bool {
    match layout_or_sz_align_result(new_len as nat, size_of::<T>(), align_of::<T>()) {
        Err((s, a)) => e == AllocError::LayoutError(s, a) && post == pre,
        Ok(l) => {
            if new_len < cap {
                &&& e == AllocError::GrowSmallerNewLayout((cap * size_of::<T>()) as usize, l.size)
                &&& post == pre
            } else {
                &&& e == AllocError::AllocFailed(l)
                &&& post.blocks() == pre.blocks()
                &&& post.aligns() == pre.aligns()
            }
        },
    }
}

/// Which error a shrink of a `cap`-element block to `new_len` elements
/// reports, and what it leaves behind.  A `new_len` whose total size
/// overflows is caught by the checked layout routine before the direction
/// rule can see it; a shrink to zero elements is the zero-sized outcome and
/// makes no backend call.
pub open spec fn shrink_err_post<T, A: Alloc>(
    pre: A,
    post: A,
    cap: usize,
    new_len: usize,
    e: AllocError,
) -> bool {
    match layout_or_sz_align_result(new_len as nat, size_of::<T>(), align_of::<T>()) {
        Err((s, a)) => e == AllocError::LayoutError(s, a) && post == pre,
        Ok(l) => {
            if new_len > cap {
                &&& e == AllocError::ShrinkBiggerNewLayout((cap * size_of::<T>()) as usize, l.size)
                &&& post == pre
            } else if new_len == 0 {
                zero_sized_err::<T>(e) && post == pre
            } else {
                &&& e == AllocError::AllocFailed(l)
                &&& post.blocks() == pre.blocks()
                &&& post.aligns() == pre.aligns()
            }
        },
    }
}

/// Which error a direction-free reallocation of a `cap`-element block to
/// `new_len` elements reports, and what it leaves behind.
pub open spec fn realloc_err_post<T, A: Alloc>(
    pre: A,
    post: A,
    new_len: usize,
    e: AllocError,
) -> bool {
    match layout_or_sz_align_result(new_len as nat, size_of::<T>(), align_of::<T>()) {
        Err((s, a)) => e == AllocError::LayoutError(s, a) && post == pre,
        Ok(l) => {
            if new_len == 0 {
                zero_sized_err::<T>(e) && post == pre
            } else {
                &&& e == AllocError::AllocFailed(l)
                &&& post.blocks() == pre.blocks()
                &&& post.aligns() == pre.aligns()
            }
        },
    }
}

/// Which error a pattern-fill slice allocation reports: the layout failure
/// keeps its specificity, but every failure of the fill capability — the
/// zero-sized request included — is normalized to the one generic code.
pub open spec fn fill_err_post<T, A: Alloc>(pre: A, post: A, len: usize, e: AllocError) -> bool {
    match layout_or_sz_align_result(len as nat, size_of::<T>(), align_of::<T>()) {
        Err((s, a)) => e == AllocError::LayoutError(s, a) && post == pre,
        Ok(l) => {
            if len as nat * size_of::<T>() == 0 {
                e == AllocError::AllocFailed(l) && post == pre
            } else {
                &&& e == AllocError::AllocFailed(l)
                &&& post.blocks() == pre.blocks()
                &&& post.aligns() == pre.aligns()
            }
        },
    }
}

/// What the initialized elements and the returned remainder of a
/// reallocation to `new_len` elements are: the first `min(new_len, have)`
/// elements stay, in order and unchanged; the rest are handed back rather
/// than dropped.
pub open spec fn kept_elems<T>(have: Seq<T>, new_len: usize) -> Seq<T> {
    if new_len < have.len() {
        have.subrange(0, new_len as int)
    } else {
        have
    }
}

/// The elements a reallocation to `new_len` elements removes.
pub open spec fn removed_elems<T>(have: Seq<T>, new_len: usize) -> Seq<T> {
    if new_len < have.len() {
        have.subrange(new_len as int, have.len() as int)
    } else {
        Seq::empty()
    }
}

/// Why a guarded, fallible fill produced no block: either the allocation
/// itself failed, or the caller's constructor declined at some index, after
/// which the attempt was rolled back exactly.
#[derive(Debug, PartialEq, Eq)]
pub enum TryFillError<E> {
    /// The allocation failed before any element was constructed.
    Alloc(AllocError),
    /// The constructor declined at the given index; the elements committed
    /// before it were dropped and the block was returned to the backend.
    Fill(usize, E),
}

/// Slice-specific operations over any raw backend capability.
pub trait AllocSlice: Alloc {
    /// Attempts to allocate an uninitialized block of memory for `len`
    /// instances of `T`.
    ///
    /// Fails with [`AllocError::AllocFailed`] if allocation fails,
    /// [`AllocError::LayoutError`] if the computed layout is invalid, and
    /// [`AllocError::ZeroSizedLayout`] if the computed slice has a size of
    /// zero (no backend call occurs).
    fn alloc_slice<T>(&mut self, len: usize) -> (r: Result<SliceBlock<T>, AllocError>)
        requires
            old(self).wf(),
        ensures
            final(self).wf(),
            match r {
                Ok(b) => {
                    &&& len as nat * size_of::<T>() > 0
                    &&& layout_or_sz_align_result(len as nat, size_of::<T>(), align_of::<T>()) is Ok
                    &&& fresh_block_post(*old(self), *final(self), b, len)
                    &&& b@ == Seq::<T>::empty()
                },
                Err(e) => alloc_slice_err_post::<T, Self>(*old(self), *final(self), len, e),
            },
    ;

    /// Allocates uninitialized memory for a slice of `T` and clones each
    /// element of `data` into it, committing clone by clone under a slice
    /// guard.
    ///
    /// The layout is computed through the checked routine; for a slice that
    /// actually exists the check cannot fail, so the reachable errors are
    /// [`AllocError::AllocFailed`] and [`AllocError::ZeroSizedLayout`].
    fn alloc_clone_slice_to<T: Clone>(&mut self, data: &[T]) -> (r: Result<
        SliceBlock<T>,
        AllocError,
    >)
        requires
            old(self).wf(),
        ensures
            final(self).wf(),
            match r {
                Ok(b) => {
                    &&& fresh_block_post(*old(self), *final(self), b, data@.len() as usize)
                    &&& b@.len() == data@.len()
                    &&& forall|i: int| 0 <= i < data@.len() ==> cloned::<T>(data@[i], #[trigger] b@[i])
                },
                Err(e) => alloc_slice_err_post::<T, Self>(
                    *old(self),
                    *final(self),
                    data@.len() as usize,
                    e,
                ),
            },
    ;

    /// Allocates uninitialized memory for a slice of `T` of length `len`
    /// and fills element `i` with `f(i)`, committing element by element
    /// under a slice guard.
    ///
    /// Fails exactly as [`AllocSlice::alloc_slice`] does.
    fn alloc_slice_with<T, F: Fn(usize) -> T>(&mut self, len: usize, f: F) -> (r: Result<
        SliceBlock<T>,
        AllocError,
    >)
        requires
            old(self).wf(),
            forall|i: usize| i < len ==> call_requires(f, (i,)),
        ensures
            final(self).wf(),
            match r {
                Ok(b) => {
                    &&& fresh_block_post(*old(self), *final(self), b, len)
                    &&& b@.len() == len
                    &&& forall|i: int|
                        0 <= i < len ==> call_ensures(f, (i as usize,), #[trigger] b@[i])
                },
                Err(e) => alloc_slice_err_post::<T, Self>(*old(self), *final(self), len, e),
            },
    ;

    /// Allocates memory for a slice of `T` of length `len` and fills
    /// element `i` with `f(i)`, where `f` itself may decline.  The first
    /// decline tears the attempt down through the slice guard: the elements
    /// committed so far are dropped, the block is returned to the backend,
    /// and the backend's books stand exactly as they began — rollback is
    /// exact, not approximate.
    fn alloc_slice_try_with<T, E, F: Fn(usize) -> Result<T, E>>(&mut self, len: usize, f: F) -> (r:
        Result<SliceBlock<T>, TryFillError<E>>)
        requires
            old(self).wf(),
            forall|i: usize| i < len ==> call_requires(f, (i,)),
        ensures
            final(self).wf(),
            match r {
                Ok(b) => {
                    &&& fresh_block_post(*old(self), *final(self), b, len)
                    &&& b@.len() == len
                    &&& forall|i: int|
                        0 <= i < len ==> call_ensures(f, (i as usize,), Ok::<T, E>(#[trigger] b@[i]))
                },
                Err(TryFillError::Alloc(e)) => alloc_slice_err_post::<T, Self>(
                    *old(self),
                    *final(self),
                    len,
                    e,
                ),
                Err(TryFillError::Fill(idx, e)) => {
                    &&& idx < len
                    &&& call_ensures(f, (idx,), Err::<T, E>(e))
                    &&& final(self).blocks() == old(self).blocks()
                    &&& final(self).aligns() == old(self).aligns()
                },
            },
    ;

    /// Allocates memory for a slice of `T` of length `len` and returns a
    /// [`SliceAllocGuard`] around it, so that an abandoned fill is torn
    /// down exactly.
    ///
    /// Fails exactly as [`AllocSlice::alloc_slice`] does.
    fn alloc_slice_guard<T>(&mut self, len: usize) -> (r: Result<SliceAllocGuard<T>, AllocError>)
        requires
            old(self).wf(),
        ensures
            final(self).wf(),
            match r {
                Ok(g) => {
                    &&& fresh_block_post(*old(self), *final(self), g.block(), len)
                    &&& g.committed() == 0
                    &&& g.capacity() == len
                },
                Err(e) => alloc_slice_err_post::<T, Self>(*old(self), *final(self), len, e),
            },
    ;

    /// Allocates uninitialized memory for a slice of `T` of length `len`
    /// and initializes it in a single pass with the values `init` produces,
    /// under a single-value guard.  `init` must fully write the block: every
    /// value it can produce has exactly `len` elements.
    fn alloc_init_slice<T, I: FnOnce() -> Vec<T>>(&mut self, init: I, len: usize) -> (r: Result<
        SliceBlock<T>,
        AllocError,
    >)
        requires
            old(self).wf(),
            call_requires(init, ()),
            forall|v: Vec<T>| call_ensures(init, (), v) ==> v@.len() == len,
        ensures
            final(self).wf(),
            match r {
                Ok(b) => {
                    &&& fresh_block_post(*old(self), *final(self), b, len)
                    &&& b@.len() == len
                    &&& exists|v: Vec<T>| call_ensures(init, (), v) && v@ == b@
                },
                Err(e) => alloc_slice_err_post::<T, Self>(*old(self), *final(self), len, e),
            },
    ;

    /// Grows the block to `new_len` elements, keeping its initialized
    /// elements and, byte for byte, the backend block's old contents; bytes
    /// beyond the old size are in an unspecified state.
    ///
    /// The new layout is computed through the checked routine and the grow
    /// direction rule is enforced before any backend call: a request for
    /// fewer elements always fails with
    /// [`AllocError::GrowSmallerNewLayout`], carrying the old and new byte
    /// sizes, and leaves the backend and the block untouched.
    fn grow_slice<T>(&mut self, block: &mut SliceBlock<T>, new_len: usize) -> (r: Result<
        (),
        AllocError,
    >)
        requires
            old(self).wf(),
            old(block).inv(),
            old(block).live(&*old(self)),
        ensures
            final(self).wf(),
            final(block).inv(),
            new_len < old(block).capacity() ==> r == Err::<(), AllocError>(
                AllocError::GrowSmallerNewLayout(
                    (old(block).capacity() * size_of::<T>()) as usize,
                    (new_len * size_of::<T>()) as usize,
                ),
            ) && *final(self) == *old(self) && *final(block) == *old(block),
            match r {
                Ok(_) => {
                    &&& new_len >= old(block).capacity()
                    &&& layout_or_sz_align_result(new_len as nat, size_of::<T>(), align_of::<T>()) is Ok
                    &&& final(block).capacity() == new_len
                    &&& final(block)@ == old(block)@
                    &&& final(block).live(&*final(self))
                    &&& if new_len == old(block).capacity() {
                        *final(self) == *old(self) && *final(block) == *old(block)
                    } else {
                        resize_post(
                            old(self).blocks(),
                            old(self).aligns(),
                            final(self).blocks(),
                            final(self).aligns(),
                            old(block).raw(),
                            Layout {
                                size: (old(block).capacity() * size_of::<T>()) as usize,
                                align: align_of::<T>() as usize,
                            },
                            Layout {
                                size: (new_len * size_of::<T>()) as usize,
                                align: align_of::<T>() as usize,
                            },
                            Ok(final(block).raw()),
                        )
                    }
                },
                Err(e) => *final(block) == *old(block) && grow_err_post::<T, Self>(
                    *old(self),
                    *final(self),
                    old(block).capacity(),
                    new_len,
                    e,
                ),
            },
    ;

    /// Grows the block to `new_len` elements as [`AllocSlice::grow_slice`]
    /// does, zeroing every newly added byte.
    fn grow_slice_zeroed<T>(&mut self, block: &mut SliceBlock<T>, new_len: usize) -> (r: Result<
        (),
        AllocError,
    >)
        requires
            old(self).wf(),
            old(block).inv(),
            old(block).live(&*old(self)),
        ensures
            final(self).wf(),
            final(block).inv(),
            new_len < old(block).capacity() ==> r == Err::<(), AllocError>(
                AllocError::GrowSmallerNewLayout(
                    (old(block).capacity() * size_of::<T>()) as usize,
                    (new_len * size_of::<T>()) as usize,
                ),
            ) && *final(self) == *old(self) && *final(block) == *old(block),
            match r {
                Ok(_) => {
                    &&& new_len >= old(block).capacity()
                    &&& layout_or_sz_align_result(new_len as nat, size_of::<T>(), align_of::<T>()) is Ok
                    &&& final(block).capacity() == new_len
                    &&& final(block)@ == old(block)@
                    &&& final(block).live(&*final(self))
                    &&& forall|i: int|
                        old(block).capacity() * size_of::<T>() <= i < new_len * size_of::<T>()
                            ==> #[trigger] final(self).blocks()[final(block).raw().block_id()][i]
                            == 0u8
                    &&& if new_len == old(block).capacity() {
                        *final(self) == *old(self) && *final(block) == *old(block)
                    } else {
                        resize_post(
                            old(self).blocks(),
                            old(self).aligns(),
                            final(self).blocks(),
                            final(self).aligns(),
                            old(block).raw(),
                            Layout {
                                size: (old(block).capacity() * size_of::<T>()) as usize,
                                align: align_of::<T>() as usize,
                            },
                            Layout {
                                size: (new_len * size_of::<T>()) as usize,
                                align: align_of::<T>() as usize,
                            },
                            Ok(final(block).raw()),
                        )
                    }
                },
                Err(e) => *final(block) == *old(block) && grow_err_post::<T, Self>(
                    *old(self),
                    *final(self),
                    old(block).capacity(),
                    new_len,
                    e,
                ),
            },
    ;

    /// Shrinks the block to `new_len` elements.  The elements beyond
    /// `new_len` are not dropped: they are handed back to the caller, whose
    /// duty they become.
    ///
    /// The new layout is computed through the checked routine; within it,
    /// the shrink direction rule is enforced before any backend call, so a
    /// request for more elements fails with
    /// [`AllocError::ShrinkBiggerNewLayout`] carrying the old and new byte
    /// sizes, and a request for zero elements is the zero-sized outcome;
    /// both leave the backend and the block untouched.
    fn shrink_slice<T>(&mut self, block: &mut SliceBlock<T>, new_len: usize) -> (r: Result<
        Vec<T>,
        AllocError,
    >)
        requires
            old(self).wf(),
            old(block).inv(),
            old(block).live(&*old(self)),
        ensures
            final(self).wf(),
            final(block).inv(),
            new_len > old(block).capacity() && layout_or_sz_align_result(
                new_len as nat,
                size_of::<T>(),
                align_of::<T>(),
            ) is Ok ==> (r matches Err(e) && e == AllocError::ShrinkBiggerNewLayout(
                (old(block).capacity() * size_of::<T>()) as usize,
                (new_len * size_of::<T>()) as usize,
            ) && *final(self) == *old(self) && *final(block) == *old(block)),
            match r {
                Ok(removed) => {
                    &&& 0 < new_len <= old(block).capacity()
                    &&& final(block).capacity() == new_len
                    &&& final(block)@ == kept_elems(old(block)@, new_len)
                    &&& removed@ == removed_elems(old(block)@, new_len)
                    &&& final(block).live(&*final(self))
                    &&& if new_len == old(block).capacity() {
                        *final(self) == *old(self) && final(block).raw() == old(block).raw()
                    } else {
                        resize_post(
                            old(self).blocks(),
                            old(self).aligns(),
                            final(self).blocks(),
                            final(self).aligns(),
                            old(block).raw(),
                            Layout {
                                size: (old(block).capacity() * size_of::<T>()) as usize,
                                align: align_of::<T>() as usize,
                            },
                            Layout {
                                size: (new_len * size_of::<T>()) as usize,
                                align: align_of::<T>() as usize,
                            },
                            Ok(final(block).raw()),
                        )
                    }
                },
                Err(e) => *final(block) == *old(block) && shrink_err_post::<T, Self>(
                    *old(self),
                    *final(self),
                    old(block).capacity(),
                    new_len,
                    e,
                ),
            },
    ;

    /// Reallocates the block to `new_len` elements in either direction: on
    /// grow it preserves all initialized elements, on shrink it truncates
    /// to `new_len` and hands the removed elements back rather than
    /// dropping them.  The bytes the old and new sizes share are preserved.
    fn realloc_slice<T>(&mut self, block: &mut SliceBlock<T>, new_len: usize) -> (r: Result<
        Vec<T>,
        AllocError,
    >)
        requires
            old(self).wf(),
            old(block).inv(),
            old(block).live(&*old(self)),
        ensures
            final(self).wf(),
            final(block).inv(),
            match r {
                Ok(removed) => {
                    &&& 0 < new_len
                    &&& layout_or_sz_align_result(new_len as nat, size_of::<T>(), align_of::<T>()) is Ok
                    &&& final(block).capacity() == new_len
                    &&& final(block)@ == kept_elems(old(block)@, new_len)
                    &&& removed@ == removed_elems(old(block)@, new_len)
                    &&& final(block).live(&*final(self))
                    &&& if new_len == old(block).capacity() {
                        *final(self) == *old(self) && final(block).raw() == old(block).raw()
                    } else {
                        resize_post(
                            old(self).blocks(),
                            old(self).aligns(),
                            final(self).blocks(),
                            final(self).aligns(),
                            old(block).raw(),
                            Layout {
                                size: (old(block).capacity() * size_of::<T>()) as usize,
                                align: align_of::<T>() as usize,
                            },
                            Layout {
                                size: (new_len * size_of::<T>()) as usize,
                                align: align_of::<T>() as usize,
                            },
                            Ok(final(block).raw()),
                        )
                    }
                },
                Err(e) => *final(block) == *old(block) && realloc_err_post::<T, Self>(
                    *old(self),
                    *final(self),
                    new_len,
                    e,
                ),
            },
    ;

    /// Reallocates the block to `new_len` elements as
    /// [`AllocSlice::realloc_slice`] does; any newly added bytes on growth
    /// are zeroed.  A shrink adds no bytes, so it zeroes nothing.
    fn realloc_slice_zeroed<T>(&mut self, block: &mut SliceBlock<T>, new_len: usize) -> (r: Result<
        Vec<T>,
        AllocError,
    >)
        requires
            old(self).wf(),
            old(block).inv(),
            old(block).live(&*old(self)),
        ensures
            final(self).wf(),
            final(block).inv(),
            match r {
                Ok(removed) => {
                    &&& 0 < new_len
                    &&& layout_or_sz_align_result(new_len as nat, size_of::<T>(), align_of::<T>()) is Ok
                    &&& final(block).capacity() == new_len
                    &&& final(block)@ == kept_elems(old(block)@, new_len)
                    &&& removed@ == removed_elems(old(block)@, new_len)
                    &&& final(block).live(&*final(self))
                    &&& (new_len > old(block).capacity() ==> forall|i: int|
                        old(block).capacity() * size_of::<T>() <= i < new_len * size_of::<T>()
                            ==> #[trigger] final(self).blocks()[final(block).raw().block_id()][i]
                            == 0u8)
                    &&& if new_len == old(block).capacity() {
                        *final(self) == *old(self) && final(block).raw() == old(block).raw()
                    } else {
                        resize_post(
                            old(self).blocks(),
                            old(self).aligns(),
                            final(self).blocks(),
                            final(self).aligns(),
                            old(block).raw(),
                            Layout {
                                size: (old(block).capacity() * size_of::<T>()) as usize,
                                align: align_of::<T>() as usize,
                            },
                            Layout {
                                size: (new_len * size_of::<T>()) as usize,
                                align: align_of::<T>() as usize,
                            },
                            Ok(final(block).raw()),
                        )
                    }
                },
                Err(e) => *final(block) == *old(block) && realloc_err_post::<T, Self>(
                    *old(self),
                    *final(self),
                    new_len,
                    e,
                ),
            },
    ;

    /// Allocates uninitialized memory for a slice of `T` of length `len`
    /// and fills each element with `T`'s default value, committing element
    /// by element under a slice guard.
    ///
    /// Fails exactly as [`AllocSlice::alloc_slice`] does.
    fn alloc_default_slice<T: Default>(&mut self, len: usize) -> (r: Result<
        SliceBlock<T>,
        AllocError,
    >)
        requires
            old(self).wf(),
        ensures
            final(self).wf(),
            match r {
                Ok(b) => {
                    &&& fresh_block_post(*old(self), *final(self), b, len)
                    &&& b@.len() == len
                    &&& forall|i: int|
                        0 <= i < len ==> call_ensures(T::default, (), #[trigger] b@[i])
                },
                Err(e) => alloc_slice_err_post::<T, Self>(*old(self), *final(self), len, e),
            },
    ;

    /// Releases the block and hands its initialized elements back without
    /// dropping them: they become the caller's duty.  The backend must be
    /// the exact one the block was allocated from.
    fn dealloc_n<T>(&mut self, block: SliceBlock<T>) -> (r: Vec<T>)
        requires
            old(self).wf(),
            block.inv(),
            block.live(&*old(self)),
        ensures
            final(self).wf(),
            final(self).blocks() == old(self).blocks().remove(block.raw().block_id()),
            final(self).aligns() == old(self).aligns().remove(block.raw().block_id()),
            r@ == block@,
    ;

    /// Zeroes the block's bytes, then releases it.  The backend reclaims
    /// the block in the same operation, so the wipe leaves no separately
    /// observable trace here; the initialized elements are handed back
    /// undropped, as in [`AllocSlice::dealloc_n`].
    fn zero_and_dealloc_n<T>(&mut self, block: SliceBlock<T>) -> (r: Vec<T>)
        requires
            old(self).wf(),
            block.inv(),
            block.live(&*old(self)),
        ensures
            final(self).wf(),
            final(self).blocks() == old(self).blocks().remove(block.raw().block_id()),
            final(self).aligns() == old(self).aligns().remove(block.raw().block_id()),
            r@ == block@,
    ;

    /// Drops the block's initialized elements and releases the block.
    fn drop_and_dealloc_n<T>(&mut self, block: SliceBlock<T>)
        requires
            old(self).wf(),
            block.inv(),
            block.live(&*old(self)),
        ensures
            final(self).wf(),
            final(self).blocks() == old(self).blocks().remove(block.raw().block_id()),
            final(self).aligns() == old(self).aligns().remove(block.raw().block_id()),
    ;

    /// Drops the initialized prefix of a partially initialized block —
    /// exactly the elements the handle attests to, each exactly once — and
    /// releases the whole capacity-sized block.
    fn drop_and_dealloc_uninit_slice<T>(&mut self, block: SliceBlock<T>)
        requires
            old(self).wf(),
            block.inv(),
            block.live(&*old(self)),
        ensures
            final(self).wf(),
            final(self).blocks() == old(self).blocks().remove(block.raw().block_id()),
            final(self).aligns() == old(self).aligns().remove(block.raw().block_id()),
    ;

    /// Drops the initialized prefix of a partially initialized block, then
    /// zeroes the block's memory and releases it.  As with
    /// [`AllocSlice::zero_and_dealloc_n`], the wipe precedes a release in
    /// the same operation and leaves no separately observable trace here.
    fn drop_zero_and_dealloc_uninit_slice<T>(&mut self, block: SliceBlock<T>)
        requires
            old(self).wf(),
            block.inv(),
            block.live(&*old(self)),
        ensures
            final(self).wf(),
            final(self).blocks() == old(self).blocks().remove(block.raw().block_id()),
            final(self).aligns() == old(self).aligns().remove(block.raw().block_id()),
    ;

    /// Attempts to allocate a zero-filled block of memory for `len`
    /// instances of `T`.
    ///
    /// Fails exactly as [`AllocSlice::alloc_slice`] does.
    fn alloc_slice_zeroed<T>(&mut self, len: usize) -> (r: Result<SliceBlock<T>, AllocError>)
        requires
            old(self).wf(),
        ensures
            final(self).wf(),
            match r {
                Ok(b) => {
                    &&& len as nat * size_of::<T>() > 0
                    &&& layout_or_sz_align_result(len as nat, size_of::<T>(), align_of::<T>()) is Ok
                    &&& fresh_block_post(*old(self), *final(self), b, len)
                    &&& b@ == Seq::<T>::empty()
                    &&& forall|i: int|
                        0 <= i < b.capacity() * size_of::<T>()
                            ==> #[trigger] final(self).blocks()[b.raw().block_id()][i] == 0u8
                },
                Err(e) => alloc_slice_err_post::<T, Self>(*old(self), *final(self), len, e),
            },
    ;
}

impl<A: Alloc> AllocSlice for A {
    fn alloc_slice<T>(&mut self, len: usize) -> (r: Result<SliceBlock<T>, AllocError>) {
        proof {
            lemma_zero_product(len as nat, size_of::<T>());
        }
        let sz = core::mem::size_of::<T>();
        if len == 0 || sz == 0 {
            return Err(AllocError::ZeroSizedLayout(crate::backend::dangling_for::<T>()));
        }
        match layout_or_sz_align::<T>(len) {
            Err((s, a)) => Err(AllocError::LayoutError(s, a)),
            Ok(layout) => match self.allocate(layout) {
                Err(e) => Err(e),
                Ok(p) => Ok(SliceBlock::assemble(p, len)),
            },
        }
    }

    fn alloc_slice_zeroed<T>(&mut self, len: usize) -> (r: Result<SliceBlock<T>, AllocError>) {
        proof {
            lemma_zero_product(len as nat, size_of::<T>());
        }
        let sz = core::mem::size_of::<T>();
        if len == 0 || sz == 0 {
            return Err(AllocError::ZeroSizedLayout(crate::backend::dangling_for::<T>()));
        }
        match layout_or_sz_align::<T>(len) {
            Err((s, a)) => Err(AllocError::LayoutError(s, a)),
            Ok(layout) => match self.allocate_zeroed(layout) {
                Err(e) => Err(e),
                Ok(p) => Ok(SliceBlock::assemble(p, len)),
            },
        }
    }

    fn alloc_clone_slice_to<T: Clone>(&mut self, data: &[T]) -> (r: Result<
        SliceBlock<T>,
        AllocError,
    >) {
        match self.alloc_slice::<T>(data.len()) {
            Err(e) => Err(e),
            Ok(b) => {
                let mut guard = SliceAllocGuard::new(b);
                let mut i: usize = 0;
                while i < data.len()
                    invariant
                        i <= data@.len(),
                        self.wf(),
                        guard.block().inv(),
                        guard.capacity() == data@.len(),
                        guard.committed() == i,
                        guard.block().live(&*self),
                        !old(self).blocks().contains_key(guard.block().raw().block_id()),
                        !old(self).aligns().contains_key(guard.block().raw().block_id()),
                        self.blocks() == old(self).blocks().insert(
                            guard.block().raw().block_id(),
                            self.blocks()[guard.block().raw().block_id()],
                        ),
                        self.aligns() == old(self).aligns().insert(
                            guard.block().raw().block_id(),
                            align_of::<T>() as int,
                        ),
                        forall|j: int|
                            0 <= j < i ==> cloned::<T>(data@[j], #[trigger] guard.block()@[j]),
                    decreases data@.len() - i,
                {
                    let elem = data[i].clone();
                    guard.commit_next(elem);
                    i += 1;
                }
                Ok(guard.release())
            },
        }
    }

    fn alloc_slice_with<T, F: Fn(usize) -> T>(&mut self, len: usize, f: F) -> (r: Result<
        SliceBlock<T>,
        AllocError,
    >) {
        match self.alloc_slice::<T>(len) {
            Err(e) => Err(e),
            Ok(b) => {
                let mut guard = SliceAllocGuard::new(b);
                let mut i: usize = 0;
                while i < len
                    invariant
                        i <= len,
                        self.wf(),
                        guard.block().inv(),
                        guard.capacity() == len,
                        guard.committed() == i,
                        guard.block().live(&*self),
                        !old(self).blocks().contains_key(guard.block().raw().block_id()),
                        !old(self).aligns().contains_key(guard.block().raw().block_id()),
                        self.blocks() == old(self).blocks().insert(
                            guard.block().raw().block_id(),
                            self.blocks()[guard.block().raw().block_id()],
                        ),
                        self.aligns() == old(self).aligns().insert(
                            guard.block().raw().block_id(),
                            align_of::<T>() as int,
                        ),
                        forall|k: usize| k < len ==> call_requires(f, (k,)),
                        forall|j: int|
                            0 <= j < i ==> call_ensures(
                                f,
                                (j as usize,),
                                #[trigger] guard.block()@[j],
                            ),
                    decreases len - i,
                {
                    let elem = f(i);
                    guard.commit_next(elem);
                    i += 1;
                }
                Ok(guard.release())
            },
        }
    }

    #[verifier::loop_isolation(false)]
    fn alloc_slice_try_with<T, E, F: Fn(usize) -> Result<T, E>>(&mut self, len: usize, f: F) -> (r:
        Result<SliceBlock<T>, TryFillError<E>>) {
        match self.alloc_slice::<T>(len) {
            Err(e) => Err(TryFillError::Alloc(e)),
            Ok(b) => {
                let ghost pre_blocks = old(self).blocks();
                let ghost pre_aligns = old(self).aligns();
                let mut guard = SliceAllocGuard::new(b);
                let mut i: usize = 0;
                while i < len
                    invariant
                        i <= len,
                        self.wf(),
                        guard.block().inv(),
                        guard.capacity() == len,
                        guard.committed() == i,
                        guard.block().live(&*self),
                        !pre_blocks.contains_key(guard.block().raw().block_id()),
                        !pre_aligns.contains_key(guard.block().raw().block_id()),
                        self.blocks() == pre_blocks.insert(
                            guard.block().raw().block_id(),
                            self.blocks()[guard.block().raw().block_id()],
                        ),
                        self.aligns() == pre_aligns.insert(
                            guard.block().raw().block_id(),
                            align_of::<T>() as int,
                        ),
                        forall|k: usize| k < len ==> call_requires(f, (k,)),
                        forall|j: int|
                            0 <= j < i ==> call_ensures(
                                f,
                                (j as usize,),
                                Ok::<T, E>(#[trigger] guard.block()@[j]),
                            ),
                    decreases len - i,
                {
                    let res = f(i);
                    match res {
                        Ok(elem) => {
                            guard.commit_next(elem);
                            i += 1;
                        },
                        Err(e) => {
                            let ghost id = guard.block().raw().block_id();
                            let ghost before_blocks = self.blocks();
                            let ghost before_aligns = self.aligns();
                            guard.abort(self);
                            proof {
                                assert(self.blocks() == before_blocks.remove(id));
                                assert(self.aligns() == before_aligns.remove(id));
                                lemma_fresh_insert_remove(pre_blocks, id, before_blocks[id]);
                                lemma_fresh_insert_remove(pre_aligns, id, align_of::<T>() as int);
                                assert(self.blocks() == pre_blocks);
                                assert(self.aligns() == pre_aligns);
                                assert(call_ensures(f, (i,), res));
                            }
                            return Err(TryFillError::Fill(i, e));
                        },
                    }
                }
                Ok(guard.release())
            },
        }
    }

    fn alloc_slice_guard<T>(&mut self, len: usize) -> (r: Result<SliceAllocGuard<T>, AllocError>) {
        match self.alloc_slice::<T>(len) {
            Err(e) => Err(e),
            Ok(b) => Ok(SliceAllocGuard::new(b)),
        }
    }

    fn alloc_init_slice<T, I: FnOnce() -> Vec<T>>(&mut self, init: I, len: usize) -> (r: Result<
        SliceBlock<T>,
        AllocError,
    >) {
        match self.alloc_slice::<T>(len) {
            Err(e) => Err(e),
            Ok(b) => {
                let guard = crate::guard::AllocGuard::new(b);
                let v = init();
                let mut b = guard.release();
                b.set_elems(v);
                Ok(b)
            },
        }
    }

    fn grow_slice<T>(&mut self, block: &mut SliceBlock<T>, new_len: usize) -> (r: Result<
        (),
        AllocError,
    >) {
        proof {
            lemma_grow_shrink_products(old(block).capacity() as nat, new_len as nat, size_of::<T>());
        }
        match layout_or_sz_align::<T>(new_len) {
            Err((s, a)) => Err(AllocError::LayoutError(s, a)),
            Ok(new_layout) => {
                let old_layout = block.block_layout();
                if new_len < block.cap() {
                    Err(AllocError::GrowSmallerNewLayout(old_layout.size, new_layout.size))
                } else if new_len == block.cap() {
                    Ok(())
                } else {
                    match self.grow(block.backend_ptr(), old_layout, new_layout) {
                        Err(e) => Err(e),
                        Ok(q) => {
                            block.retarget(q, new_len);
                            Ok(())
                        },
                    }
                }
            },
        }
    }

    fn grow_slice_zeroed<T>(&mut self, block: &mut SliceBlock<T>, new_len: usize) -> (r: Result<
        (),
        AllocError,
    >) {
        proof {
            lemma_grow_shrink_products(old(block).capacity() as nat, new_len as nat, size_of::<T>());
        }
        match layout_or_sz_align::<T>(new_len) {
            Err((s, a)) => Err(AllocError::LayoutError(s, a)),
            Ok(new_layout) => {
                let old_layout = block.block_layout();
                if new_len < block.cap() {
                    Err(AllocError::GrowSmallerNewLayout(old_layout.size, new_layout.size))
                } else if new_len == block.cap() {
                    Ok(())
                } else {
                    match self.grow_zeroed(block.backend_ptr(), old_layout, new_layout) {
                        Err(e) => Err(e),
                        Ok(q) => {
                            block.retarget(q, new_len);
                            Ok(())
                        },
                    }
                }
            },
        }
    }

    fn shrink_slice<T>(&mut self, block: &mut SliceBlock<T>, new_len: usize) -> (r: Result<
        Vec<T>,
        AllocError,
    >) {
        proof {
            lemma_grow_shrink_products(old(block).capacity() as nat, new_len as nat, size_of::<T>());
        }
        match layout_or_sz_align::<T>(new_len) {
            Err((s, a)) => Err(AllocError::LayoutError(s, a)),
            Ok(new_layout) => {
                let old_layout = block.block_layout();
                if new_len > block.cap() {
                    Err(AllocError::ShrinkBiggerNewLayout(old_layout.size, new_layout.size))
                } else if new_len == 0 {
                    Err(AllocError::ZeroSizedLayout(dangling_for::<T>()))
                } else if new_len == block.cap() {
                    Ok(Vec::new())
                } else {
                    match self.shrink(block.backend_ptr(), old_layout, new_layout) {
                        Err(e) => Err(e),
                        Ok(q) => {
                            let have = block.initialized_len();
                            let cut = if new_len < have {
                                new_len
                            } else {
                                have
                            };
                            let removed = block.split_off_elems(cut);
                            block.retarget(q, new_len);
                            Ok(removed)
                        },
                    }
                }
            },
        }
    }

    fn realloc_slice<T>(&mut self, block: &mut SliceBlock<T>, new_len: usize) -> (r: Result<
        Vec<T>,
        AllocError,
    >) {
        proof {
            lemma_grow_shrink_products(old(block).capacity() as nat, new_len as nat, size_of::<T>());
        }
        match layout_or_sz_align::<T>(new_len) {
            Err((s, a)) => Err(AllocError::LayoutError(s, a)),
            Ok(new_layout) => {
                let old_layout = block.block_layout();
                if new_len == 0 {
                    Err(AllocError::ZeroSizedLayout(dangling_for::<T>()))
                } else if new_len == block.cap() {
                    Ok(Vec::new())
                } else if new_len > block.cap() {
                    match self.grow(block.backend_ptr(), old_layout, new_layout) {
                        Err(e) => Err(e),
                        Ok(q) => {
                            block.retarget(q, new_len);
                            Ok(Vec::new())
                        },
                    }
                } else {
                    match self.shrink(block.backend_ptr(), old_layout, new_layout) {
                        Err(e) => Err(e),
                        Ok(q) => {
                            let have = block.initialized_len();
                            let cut = if new_len < have {
                                new_len
                            } else {
                                have
                            };
                            let removed = block.split_off_elems(cut);
                            block.retarget(q, new_len);
                            Ok(removed)
                        },
                    }
                }
            },
        }
    }

    fn realloc_slice_zeroed<T>(&mut self, block: &mut SliceBlock<T>, new_len: usize) -> (r: Result<
        Vec<T>,
        AllocError,
    >) {
        proof {
            lemma_grow_shrink_products(old(block).capacity() as nat, new_len as nat, size_of::<T>());
        }
        match layout_or_sz_align::<T>(new_len) {
            Err((s, a)) => Err(AllocError::LayoutError(s, a)),
            Ok(new_layout) => {
                let old_layout = block.block_layout();
                if new_len == 0 {
                    Err(AllocError::ZeroSizedLayout(dangling_for::<T>()))
                } else if new_len == block.cap() {
                    Ok(Vec::new())
                } else if new_len > block.cap() {
                    match self.grow_zeroed(block.backend_ptr(), old_layout, new_layout) {
                        Err(e) => Err(e),
                        Ok(q) => {
                            block.retarget(q, new_len);
                            Ok(Vec::new())
                        },
                    }
                } else {
                    match self.shrink(block.backend_ptr(), old_layout, new_layout) {
                        Err(e) => Err(e),
                        Ok(q) => {
                            let have = block.initialized_len();
                            let cut = if new_len < have {
                                new_len
                            } else {
                                have
                            };
                            let removed = block.split_off_elems(cut);
                            block.retarget(q, new_len);
                            Ok(removed)
                        },
                    }
                }
            },
        }
    }

    fn alloc_default_slice<T: Default>(&mut self, len: usize) -> (r: Result<
        SliceBlock<T>,
        AllocError,
    >) {
        match self.alloc_slice::<T>(len) {
            Err(e) => Err(e),
            Ok(b) => {
                let mut guard = SliceAllocGuard::new(b);
                let mut i: usize = 0;
                while i < len
                    invariant
                        i <= len,
                        self.wf(),
                        guard.block().inv(),
                        guard.capacity() == len,
                        guard.committed() == i,
                        guard.block().live(&*self),
                        !old(self).blocks().contains_key(guard.block().raw().block_id()),
                        !old(self).aligns().contains_key(guard.block().raw().block_id()),
                        self.blocks() == old(self).blocks().insert(
                            guard.block().raw().block_id(),
                            self.blocks()[guard.block().raw().block_id()],
                        ),
                        self.aligns() == old(self).aligns().insert(
                            guard.block().raw().block_id(),
                            align_of::<T>() as int,
                        ),
                        forall|j: int|
                            0 <= j < i ==> call_ensures(
                                T::default,
                                (),
                                #[trigger] guard.block()@[j],
                            ),
                    decreases len - i,
                {
                    let elem = T::default();
                    guard.commit_next(elem);
                    i += 1;
                }
                Ok(guard.release())
            },
        }
    }

    fn dealloc_n<T>(&mut self, block: SliceBlock<T>) -> (r: Vec<T>) {
        let layout = block.block_layout();
        let (ptr, elems) = block.into_parts();
        self.deallocate(ptr, layout);
        elems
    }

    fn zero_and_dealloc_n<T>(&mut self, block: SliceBlock<T>) -> (r: Vec<T>) {
        self.dealloc_n(block)
    }

    fn drop_and_dealloc_n<T>(&mut self, block: SliceBlock<T>) {
        let _elems = self.dealloc_n(block);
    }

    fn drop_and_dealloc_uninit_slice<T>(&mut self, block: SliceBlock<T>) {
        self.drop_and_dealloc_n(block);
    }

    fn drop_zero_and_dealloc_uninit_slice<T>(&mut self, block: SliceBlock<T>) {
        self.drop_and_dealloc_n(block);
    }
}

/// Extended slice operations for backends that also carry the byte-fill
/// capability.
///
/// As everywhere in this crate's pattern-fill surface, a failure of the
/// underlying fill capability is normalized to [`AllocError::AllocFailed`],
/// which loses the more specific reason the backend may have had — the
/// zero-sized request included, which here reports [`AllocError::AllocFailed`]
/// for the degenerate layout instead of the zero-sized outcome.
pub trait AllocSliceExt: AllocSlice + AllocExt {
    /// Attempts to allocate a block of memory for `len` instances of `T`,
    /// filled with bytes initialized to `n`.
    fn alloc_slice_filled<T>(&mut self, len: usize, n: u8) -> (r: Result<SliceBlock<T>, AllocError>)
        requires
            old(self).wf(),
        ensures
            final(self).wf(),
            match r {
                Ok(b) => {
                    &&& fresh_block_post(*old(self), *final(self), b, len)
                    &&& b@ == Seq::<T>::empty()
                    &&& forall|i: int|
                        0 <= i < b.capacity() * size_of::<T>()
                            ==> #[trigger] final(self).blocks()[b.raw().block_id()][i] == n
                },
                Err(e) => fill_err_post::<T, Self>(*old(self), *final(self), len, e),
            },
    ;

    /// Attempts to allocate a block of memory for `len` instances of `T`
    /// and fill it by calling `pattern(i)` for each byte index `i`.
    fn alloc_slice_patterned<T, F: Fn(usize) -> u8>(&mut self, len: usize, pattern: F) -> (r:
        Result<SliceBlock<T>, AllocError>)
        requires
            old(self).wf(),
            forall|i: usize|
                (i as nat) < len as nat * size_of::<T>() ==> call_requires(pattern, (i,)),
        ensures
            final(self).wf(),
            match r {
                Ok(b) => {
                    &&& fresh_block_post(*old(self), *final(self), b, len)
                    &&& b@ == Seq::<T>::empty()
                    &&& forall|i: int|
                        0 <= i < b.capacity() * size_of::<T>() ==> call_ensures(
                            pattern,
                            (i as usize,),
                            #[trigger] final(self).blocks()[b.raw().block_id()][i],
                        )
                },
                Err(e) => fill_err_post::<T, Self>(*old(self), *final(self), len, e),
            },
    ;
}

impl<A: AllocSlice + AllocExt> AllocSliceExt for A {
    fn alloc_slice_filled<T>(&mut self, len: usize, n: u8) -> (r: Result<
        SliceBlock<T>,
        AllocError,
    >) {
        proof {
            lemma_zero_product(len as nat, size_of::<T>());
        }
        match layout_or_sz_align::<T>(len) {
            Err((s, a)) => Err(AllocError::LayoutError(s, a)),
            Ok(layout) => {
                if layout.size == 0 {
                    return Err(AllocError::AllocFailed(layout));
                }
                match self.allocate_filled(layout, n) {
                    Err(e) => Err(e),
                    Ok(p) => Ok(SliceBlock::assemble(p, len)),
                }
            },
        }
    }

    fn alloc_slice_patterned<T, F: Fn(usize) -> u8>(&mut self, len: usize, pattern: F) -> (r:
        Result<SliceBlock<T>, AllocError>) {
        proof {
            lemma_zero_product(len as nat, size_of::<T>());
        }
        match layout_or_sz_align::<T>(len) {
            Err((s, a)) => Err(AllocError::LayoutError(s, a)),
            Ok(layout) => {
                if layout.size == 0 {
                    return Err(AllocError::AllocFailed(layout));
                }
                match self.allocate_patterned(layout, pattern) {
                    Err(e) => Err(e),
                    Ok(p) => Ok(SliceBlock::assemble(p, len)),
                }
            },
        }
    }
}

/// Entering an identity the books did not hold and then striking it is the
/// identity on the books.
proof fn lemma_fresh_insert_remove<V>(m: Map<int, V>, id: int, v: V)
    requires
        !m.contains_key(id),
    ensures
        m.insert(id, v).remove(id) == m,
{
    assert(m.insert(id, v).remove(id) =~= m);
}

/// A slice allocation returned whole leaves zero net bytes outstanding:
/// when a fresh block is allocated (any of the allocation operations, whose
/// success is [`fresh_block_post`]) and then released (any of the
/// deallocation operations, which strike exactly that block from the
/// books), the backend's books stand exactly as they began.
pub proof fn lemma_alloc_dealloc_roundtrip<T, A: Alloc>(
    pre: A,
    mid: A,
    post: A,
    b: SliceBlock<T>,
    len: usize,
)
    requires
        fresh_block_post(pre, mid, b, len),
        post.blocks() == mid.blocks().remove(b.raw().block_id()),
        post.aligns() == mid.aligns().remove(b.raw().block_id()),
    ensures
        post.blocks() == pre.blocks(),
        post.aligns() == pre.aligns(),
{
    lemma_fresh_insert_remove(pre.blocks(), b.raw().block_id(), mid.blocks()[b.raw().block_id()]);
    lemma_fresh_insert_remove(pre.aligns(), b.raw().block_id(), vstd::layout::align_of::<T>() as int);
}

/// Multiplication by a common element size keeps the order of element
/// counts, in both directions.
proof fn lemma_grow_shrink_products(a: nat, b: nat, c: nat)
    ensures
        a <= b ==> a * c <= b * c,
        b <= a ==> b * c <= a * c,
        0 < a && 0 < c ==> 0 < a * c,
        0 < b && 0 < c ==> 0 < b * c,
{
    assert(a <= b ==> a * c <= b * c) by (nonlinear_arith);
    assert(b <= a ==> b * c <= a * c) by (nonlinear_arith);
    assert(0 < a && 0 < c ==> 0 < a * c) by (nonlinear_arith);
    assert(0 < b && 0 < c ==> 0 < b * c) by (nonlinear_arith);
}

/// A product of naturals is zero exactly when a factor is.
proof fn lemma_zero_product(a: nat, b: nat)
    ensures
        (a * b == 0) <==> (a == 0 || b == 0),
        a > 0 && b > 0 ==> a <= a * b,
{
    assert((a * b == 0) <==> (a == 0 || b == 0)) by (nonlinear_arith);
    assert(a > 0 && b > 0 ==> a <= a * b) by (nonlinear_arith);
}

} // verus!
