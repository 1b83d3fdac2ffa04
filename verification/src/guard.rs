//! Construction guards.
//!
//! A guard is the scoped owner of a partially initialized allocation while
//! caller-supplied construction code runs.  Filling code commits one element
//! at a time; if construction cannot be completed, [`SliceAllocGuard::abort`]
//! tears the attempt down exactly — the committed elements are dropped, each
//! exactly once, and the full capacity-sized block is returned to its
//! backend, exactly once — so an abandoned fill can neither leak nor
//! double-free.  [`release`](SliceAllocGuard::release) consumes the guard
//! and yields the finished allocation without running any cleanup.
//!
//! This crate's verified functions cannot unwind, so teardown is not a
//! hidden destructor but an explicit operation on every early exit path;
//! the committed count it acts on is tracked continuously all the same.

use vstd::prelude::*;

verus! {

use crate::backend::Alloc;
use crate::block::SliceBlock;

/// The scoped owner of one allocated, not yet fully initialized value.
///
/// If construction of the value is abandoned, [`AllocGuard::abort`] frees
/// the block without destructing its (uninitialized) contents; on
/// [`AllocGuard::release`] the allocation is handed back out with no
/// cleanup run.
pub struct AllocGuard<T> {
    block: SliceBlock<T>,
}

impl<T> AllocGuard<T> {
    /// The guarded allocation.
    pub closed spec fn block(&self) -> SliceBlock<T> {
        self.block
    }

    /// Takes custody of `block` until it is released or aborted.
    pub fn new(block: SliceBlock<T>) -> (r: AllocGuard<T>)
        ensures
            r.block() == block,
    {
        AllocGuard { block }
    }

    /// Consumes the guard and yields the allocation, suppressing cleanup.
    pub fn release(self) -> (r: SliceBlock<T>)
        ensures
            r == self.block(),
    {
        self.block
    }

    /// Frees the guarded block.  The backend must be the exact one the
    /// block was allocated from; the contents are not destructed.
    pub fn abort<A: Alloc>(self, a: &mut A)
        requires
            old(a).wf(),
            self.block().inv(),
            self.block().live(&*old(a)),
        ensures
            final(a).wf(),
            final(a).blocks() == old(a).blocks().remove(self.block().raw().block_id()),
            final(a).aligns() == old(a).aligns().remove(self.block().raw().block_id()),
    {
        let layout = self.block.block_layout();
        let (ptr, _elems) = self.block.into_parts();
        a.deallocate(ptr, layout);
    }
}

/// The scoped owner of a partially initialized slice allocation.
///
/// The guard wraps a block of some capacity and tracks how many elements
/// have been committed; the committed count never exceeds the capacity and
/// never decreases while the guard lives.
pub struct SliceAllocGuard<T> {
    block: SliceBlock<T>,
}

impl<T> SliceAllocGuard<T> {
    /// The guarded allocation, committed prefix included.
    pub closed spec fn block(&self) -> SliceBlock<T> {
        self.block
    }

    /// How many elements have been committed so far.
    pub open spec fn committed(&self) -> nat {
        self.block()@.len()
    }

    /// The guard's capacity, in elements.
    pub open spec fn capacity(&self) -> usize {
        self.block().capacity()
    }

    /// Takes custody of `block` until it is released or aborted; elements
    /// the block already holds count as committed.
    pub fn new(block: SliceBlock<T>) -> (r: SliceAllocGuard<T>)
        ensures
            r.block() == block,
    {
        SliceAllocGuard { block }
    }

    /// How many elements have been committed so far.
    pub fn committed_len(&self) -> (r: usize)
        ensures
            r == self.committed(),
    {
        self.block.initialized_len()
    }

    /// Writes `value` into the next uncommitted slot.  The caller must not
    /// commit more elements than the capacity.
    pub fn commit_next(&mut self, value: T)
        requires
            old(self).block().inv(),
            old(self).committed() < old(self).capacity(),
        ensures
            final(self).block().inv(),
            final(self).block()@ == old(self).block()@.push(value),
            final(self).committed() == old(self).committed() + 1,
            final(self).capacity() == old(self).capacity(),
            final(self).block().raw() == old(self).block().raw(),
    {
        self.block.push_elem(value);
    }

    /// Consumes the guard and yields the completed allocation without
    /// running any destructor.  Filling must have reached the capacity.
    pub fn release(self) -> (r: SliceBlock<T>)
        requires
            self.committed() == self.capacity(),
        ensures
            r == self.block(),
    {
        self.block
    }

    /// Tears the abandoned attempt down: drops exactly the committed
    /// elements (each exactly once, by ownership) and frees the full
    /// capacity-sized block, exactly once.  The backend must be the exact
    /// one the block was allocated from.
    pub fn abort<A: Alloc>(self, a: &mut A)
        requires
            old(a).wf(),
            self.block().inv(),
            self.block().live(&*old(a)),
        ensures
            final(a).wf(),
            final(a).blocks() == old(a).blocks().remove(self.block().raw().block_id()),
            final(a).aligns() == old(a).aligns().remove(self.block().raw().block_id()),
    {
        let layout = self.block.block_layout();
        let (ptr, _elems) = self.block.into_parts();
        a.deallocate(ptr, layout);
    }
}

} // verus!
