//! The raw backend capability.
//!
//! A backend owns contiguous blocks of bytes and hands them out against
//! validated layouts.  This module models a block by its identity and its
//! byte contents: [`RawPtr`] names an outstanding block (or a dangling,
//! aligned marker for the zero-sized outcome), and the [`Alloc`] trait states
//! over two spec-level maps — block bytes and block alignments — what every
//! backend operation must do.  [`AllocExt`] adds the optional byte-fill
//! capability.  A concrete bookkeeping backend lives in [`crate::tracking`].

use vstd::prelude::*;

verus! {

use vstd::layout::align_of;

use crate::error::AllocError;
use crate::layout::Layout;

/// A pointer produced by a backend: either the identity of an outstanding
/// block, or a dangling, non-dereferenceable marker carrying the alignment it
/// was requested with (the zero-sized outcome).
#[derive(Clone, Copy, Debug, PartialEq, Eq, Structural)]
pub enum RawPtr {
    /// Identity of an outstanding block owned by the backend.
    Block {
        /// The block's identity within its backend.
        id: usize,
    },
    /// A dangling, aligned marker pointer; valid for no reads or writes.
    Dangling {
        /// The alignment the zero-sized request carried.
        align: usize,
    },
}

impl RawPtr {
    /// Whether this pointer names an outstanding block.
    pub open spec fn is_block(self) -> bool {
        self is Block
    }

    /// The named block's identity, as a mathematical integer.
    pub open spec fn block_id(self) -> int {
        self->Block_id as int
    }

    /// The named block's identity, for a pointer known to name a block.
    pub fn unwrap_id(self) -> (r: usize)
        requires
            self.is_block(),
        ensures
            r as int == self.block_id(),
    {
        match self {
            RawPtr::Block { id } => id,
            RawPtr::Dangling { .. } => {
                proof {
                    assert(false);
                }
                0
            },
        }
    }
}

/// The dangling, aligned marker pointer for the element type `T`: the
/// zero-sized outcome of an allocation request with no backing block.
pub fn dangling_for<T>() -> (r: RawPtr)
    ensures
        r is Dangling,
        r->Dangling_align as nat == align_of::<T>(),
{
    RawPtr::Dangling { align: core::mem::align_of::<T>() }
}

/// Whether `p` names an outstanding block of `a` whose size and alignment
/// are exactly those of `layout`.  Every operation on an existing block
/// demands this match; passing anything else to a real allocator would be
/// undefined behavior, so here it is a precondition.
pub open spec fn block_matches(
    blocks: Map<int, Seq<u8>>,
    aligns: Map<int, int>,
    p: RawPtr,
    layout: Layout,
) -> bool {
    &&& p.is_block()
    &&& blocks.contains_key(p.block_id())
    &&& blocks[p.block_id()].len() == layout.size
    &&& aligns[p.block_id()] == layout.align as int
}

/// What a successful allocation must have done to the backend: on success a
/// fresh block of exactly `layout.size` bytes at `layout.align`, everything
/// else untouched; on failure the one permitted error, with the backend's
/// blocks as they were.
pub open spec fn alloc_post(
    pre_blocks: Map<int, Seq<u8>>,
    pre_aligns: Map<int, int>,
    post_blocks: Map<int, Seq<u8>>,
    post_aligns: Map<int, int>,
    layout: Layout,
    r: Result<RawPtr, AllocError>,
) -> bool {
    match r {
        Ok(p) => {
            &&& p.is_block()
            &&& !pre_blocks.contains_key(p.block_id())
            &&& !pre_aligns.contains_key(p.block_id())
            &&& post_blocks == pre_blocks.insert(p.block_id(), post_blocks[p.block_id()])
            &&& post_blocks[p.block_id()].len() == layout.size
            &&& post_aligns == pre_aligns.insert(p.block_id(), layout.align as int)
        },
        Err(e) => {
            &&& e == AllocError::AllocFailed(layout)
            &&& post_blocks == pre_blocks
            &&& post_aligns == pre_aligns
        },
    }
}

/// What a successful reallocation of the block `p` (sized by `old_layout`)
/// to `new_layout` must have done: the result names a block — `p`'s own or a
/// fresh one — holding `new_layout.size` bytes, the bytes shared by both
/// sizes preserved; on failure the one permitted error, the old block kept.
pub open spec fn resize_post(
    pre_blocks: Map<int, Seq<u8>>,
    pre_aligns: Map<int, int>,
    post_blocks: Map<int, Seq<u8>>,
    post_aligns: Map<int, int>,
    p: RawPtr,
    old_layout: Layout,
    new_layout: Layout,
    r: Result<RawPtr, AllocError>,
) -> bool {
    match r {
        Ok(q) => {
            &&& q.is_block()
            &&& (q.block_id() == p.block_id() || (!pre_blocks.contains_key(q.block_id())
                && !pre_aligns.contains_key(q.block_id())))
            &&& post_blocks == pre_blocks.remove(p.block_id()).insert(
                q.block_id(),
                post_blocks[q.block_id()],
            )
            &&& post_blocks[q.block_id()].len() == new_layout.size
            &&& post_aligns == pre_aligns.remove(p.block_id()).insert(
                q.block_id(),
                new_layout.align as int,
            )
            &&& forall|i: int|
                0 <= i < old_layout.size && i < new_layout.size ==> #[trigger] post_blocks[q.block_id()][i]
                    == pre_blocks[p.block_id()][i]
        },
        Err(e) => {
            &&& e == AllocError::AllocFailed(new_layout)
            &&& post_blocks == pre_blocks
            &&& post_aligns == pre_aligns
        },
    }
}

/// The raw backend capability: a pluggable provider of allocate,
/// zero-allocate, grow, shrink and deallocate over validated layouts.
///
/// A backend owns a set of blocks, modelled by two maps: [`Alloc::blocks`],
/// each outstanding block's bytes by identity, and [`Alloc::aligns`], the
/// alignment each block was allocated with.  Every method states over those
/// maps exactly which blocks it creates, resizes or releases.  Thread safety
/// is entirely the implementation's concern; nothing here retains a block
/// beyond one call.
pub trait Alloc: Sized {
    /// Each outstanding block's bytes, by block identity.
    spec fn blocks(&self) -> Map<int, Seq<u8>>;

    /// The alignment each outstanding block was allocated with.
    spec fn aligns(&self) -> Map<int, int>;

    /// The backend's own well-formedness; preserved by every operation.
    spec fn wf(&self) -> bool;

    /// Attempts to allocate a block of memory fitting `layout`, with its
    /// contents in an unspecified state.
    fn allocate(&mut self, layout: Layout) -> (r: Result<RawPtr, AllocError>)
        requires
            old(self).wf(),
            layout.wf(),
            layout.size > 0,
        ensures
            final(self).wf(),
            alloc_post(
                old(self).blocks(),
                old(self).aligns(),
                final(self).blocks(),
                final(self).aligns(),
                layout,
                r,
            ),
    ;

    /// Attempts to allocate a zero-filled block of memory fitting `layout`.
    fn allocate_zeroed(&mut self, layout: Layout) -> (r: Result<RawPtr, AllocError>)
        requires
            old(self).wf(),
            layout.wf(),
            layout.size > 0,
        ensures
            final(self).wf(),
            alloc_post(
                old(self).blocks(),
                old(self).aligns(),
                final(self).blocks(),
                final(self).aligns(),
                layout,
                r,
            ),
            r matches Ok(p) ==> forall|i: int|
                0 <= i < layout.size ==> #[trigger] final(self).blocks()[p.block_id()][i] == 0u8,
    ;

    /// Grows the block `p` of layout `old_layout` to `new_layout`, keeping
    /// its bytes; the bytes beyond the old size are in an unspecified state.
    fn grow(&mut self, p: RawPtr, old_layout: Layout, new_layout: Layout) -> (r: Result<
        RawPtr,
        AllocError,
    >)
        requires
            old(self).wf(),
            block_matches(old(self).blocks(), old(self).aligns(), p, old_layout),
            old_layout.wf(),
            new_layout.wf(),
            0 < old_layout.size <= new_layout.size,
        ensures
            final(self).wf(),
            resize_post(
                old(self).blocks(),
                old(self).aligns(),
                final(self).blocks(),
                final(self).aligns(),
                p,
                old_layout,
                new_layout,
                r,
            ),
    ;

    /// Grows the block `p` of layout `old_layout` to `new_layout`, keeping
    /// its bytes and zeroing every newly added byte.
    fn grow_zeroed(&mut self, p: RawPtr, old_layout: Layout, new_layout: Layout) -> (r: Result<
        RawPtr,
        AllocError,
    >)
        requires
            old(self).wf(),
            block_matches(old(self).blocks(), old(self).aligns(), p, old_layout),
            old_layout.wf(),
            new_layout.wf(),
            0 < old_layout.size <= new_layout.size,
        ensures
            final(self).wf(),
            resize_post(
                old(self).blocks(),
                old(self).aligns(),
                final(self).blocks(),
                final(self).aligns(),
                p,
                old_layout,
                new_layout,
                r,
            ),
            r matches Ok(q) ==> forall|i: int|
                old_layout.size <= i < new_layout.size ==> #[trigger] final(self).blocks()[q.block_id()][i]
                    == 0u8,
    ;

    /// Shrinks the block `p` of layout `old_layout` to `new_layout`, keeping
    /// the bytes that remain in range.
    fn shrink(&mut self, p: RawPtr, old_layout: Layout, new_layout: Layout) -> (r: Result<
        RawPtr,
        AllocError,
    >)
        requires
            old(self).wf(),
            block_matches(old(self).blocks(), old(self).aligns(), p, old_layout),
            old_layout.wf(),
            new_layout.wf(),
            0 < new_layout.size <= old_layout.size,
        ensures
            final(self).wf(),
            resize_post(
                old(self).blocks(),
                old(self).aligns(),
                final(self).blocks(),
                final(self).aligns(),
                p,
                old_layout,
                new_layout,
                r,
            ),
    ;

    /// Releases the block `p`, which must match `layout` exactly.
    fn deallocate(&mut self, p: RawPtr, layout: Layout)
        requires
            old(self).wf(),
            block_matches(old(self).blocks(), old(self).aligns(), p, layout),
        ensures
            final(self).wf(),
            final(self).blocks() == old(self).blocks().remove(p.block_id()),
            final(self).aligns() == old(self).aligns().remove(p.block_id()),
    ;
}

/// The optional byte-fill capability: allocation with every byte set to a
/// constant, or to the value of an index-driven pattern function.
pub trait AllocExt: Alloc {
    /// Attempts to allocate a block fitting `layout` with every byte
    /// initialized to `n`.
    fn allocate_filled(&mut self, layout: Layout, n: u8) -> (r: Result<RawPtr, AllocError>)
        requires
            old(self).wf(),
            layout.wf(),
            layout.size > 0,
        ensures
            final(self).wf(),
            alloc_post(
                old(self).blocks(),
                old(self).aligns(),
                final(self).blocks(),
                final(self).aligns(),
                layout,
                r,
            ),
            r matches Ok(p) ==> forall|i: int|
                0 <= i < layout.size ==> #[trigger] final(self).blocks()[p.block_id()][i] == n,
    ;

    /// Attempts to allocate a block fitting `layout` whose byte `i` is
    /// initialized to `pattern(i)`.
    fn allocate_patterned<F: Fn(usize) -> u8>(&mut self, layout: Layout, pattern: F) -> (r: Result<
        RawPtr,
        AllocError,
    >)
        requires
            old(self).wf(),
            layout.wf(),
            layout.size > 0,
            forall|i: usize| i < layout.size ==> call_requires(pattern, (i,)),
        ensures
            final(self).wf(),
            alloc_post(
                old(self).blocks(),
                old(self).aligns(),
                final(self).blocks(),
                final(self).aligns(),
                layout,
                r,
            ),
            r matches Ok(p) ==> forall|i: int|
                0 <= i < layout.size ==> call_ensures(
                    pattern,
                    (i as usize,),
                    #[trigger] final(self).blocks()[p.block_id()][i],
                ),
    ;
}

} // verus!
