//! Validated slice blocks.
//!
//! A [`SliceBlock`] is the handle the slice API hands out for one
//! allocation: the backend pointer, the capacity in elements, and the
//! initialized prefix of element values, which the handle owns.  It carries
//! its length instead of demanding re-validation at every call, and it is
//! constructible only by this crate, so holding one attests that the block
//! was allocated by a backend and has not been released.  Its view is the
//! sequence of initialized elements.

use vstd::prelude::*;

verus! {

use vstd::layout::{align_of, layout_for_type_is_valid, size_of, valid_layout};

use crate::backend::{Alloc, RawPtr};
use crate::layout::Layout;

/// A validated handle to one slice allocation: `cap` elements of backing
/// store, of which the first `elems.len()` are initialized and owned here.
#[derive(Debug)]
pub struct SliceBlock<T> {
    ptr: RawPtr,
    elems: Vec<T>,
    cap: usize,
}

impl<T> View for SliceBlock<T> {
    type V = Seq<T>;

    /// The initialized prefix, in order.
    closed spec fn view(&self) -> Seq<T> {
        self.elems@
    }
}

impl<T> SliceBlock<T> {
    /// The backend pointer this handle was assembled around.
    pub closed spec fn raw(&self) -> RawPtr {
        self.ptr
    }

    /// The capacity, in elements.
    pub closed spec fn capacity(&self) -> usize {
        self.cap
    }

    /// The handle's own consistency: a real block of a nonzero-sized
    /// element type, never more initialized elements than capacity, and a
    /// total byte size that is a valid layout.
    pub open spec fn inv(&self) -> bool {
        &&& self.raw().is_block()
        &&& 0 < self.capacity()
        &&& 0 < size_of::<T>()
        &&& self@.len() <= self.capacity()
        &&& self.capacity() * size_of::<T>() <= usize::MAX
        &&& valid_layout((self.capacity() * size_of::<T>()) as usize, align_of::<T>() as usize)
    }

    /// Whether this handle matches an outstanding block of the backend `a`:
    /// same identity, exactly the handle's byte size, the element type's
    /// alignment.
    pub open spec fn live<A: Alloc>(&self, a: &A) -> bool {
        &&& a.blocks().contains_key(self.raw().block_id())
        &&& a.blocks()[self.raw().block_id()].len() == self.capacity() * size_of::<T>()
        &&& a.aligns()[self.raw().block_id()] == align_of::<T>() as int
    }

    /// The backend pointer this handle was assembled around.
    pub fn backend_ptr(&self) -> (r: RawPtr)
        ensures
            r == self.raw(),
    {
        self.ptr
    }

    /// The capacity, in elements.
    pub fn cap(&self) -> (r: usize)
        ensures
            r == self.capacity(),
    {
        self.cap
    }

    /// How many elements are initialized.
    pub fn initialized_len(&self) -> (r: usize)
        ensures
            r == self@.len(),
    {
        self.elems.len()
    }

    /// The initialized elements, in order.
    pub fn elems(&self) -> (r: &Vec<T>)
        ensures
            r@ == self@,
    {
        &self.elems
    }

    /// The layout this block was allocated with, reconstructed from the
    /// capacity and the element type, trusting the handle's attestation.
    pub fn block_layout(&self) -> (r: Layout)
        requires
            self.inv(),
        ensures
            r.size == self.capacity() * size_of::<T>(),
            r.align == align_of::<T>(),
            r.wf(),
            0 < r.size,
    {
        layout_for_type_is_valid::<T>();
        proof {
            let c = self.capacity() as nat;
            assert(c * size_of::<T>() > 0) by (nonlinear_arith)
                requires
                    0 < c,
                    0 < size_of::<T>(),
            ;
        }
        Layout { size: self.cap * core::mem::size_of::<T>(), align: core::mem::align_of::<T>() }
    }

    /// Wraps a backend pointer as an uninitialized block of `cap` elements.
    pub(crate) fn assemble(ptr: RawPtr, cap: usize) -> (r: SliceBlock<T>)
        requires
            ptr.is_block(),
            0 < cap,
            0 < size_of::<T>(),
            cap * size_of::<T>() <= usize::MAX,
            valid_layout((cap * size_of::<T>()) as usize, align_of::<T>() as usize),
        ensures
            r.raw() == ptr,
            r.capacity() == cap,
            r@ =~= Seq::<T>::empty(),
            r.inv(),
    {
        SliceBlock { ptr, elems: Vec::new(), cap }
    }

    /// Appends one initialized element.
    pub(crate) fn push_elem(&mut self, v: T)
        requires
            old(self).inv(),
            old(self)@.len() < old(self).capacity(),
        ensures
            final(self).inv(),
            final(self)@ == old(self)@.push(v),
            final(self).raw() == old(self).raw(),
            final(self).capacity() == old(self).capacity(),
    {
        self.elems.push(v);
    }

    /// Replaces the initialized prefix wholesale.
    pub(crate) fn set_elems(&mut self, v: Vec<T>)
        requires
            old(self).inv(),
            v@.len() <= old(self).capacity(),
        ensures
            final(self).inv(),
            final(self)@ == v@,
            final(self).raw() == old(self).raw(),
            final(self).capacity() == old(self).capacity(),
    {
        self.elems = v;
    }

    /// Points the handle at a reallocated block of `cap` elements, keeping
    /// the initialized elements.
    pub(crate) fn retarget(&mut self, ptr: RawPtr, cap: usize)
        requires
            old(self).inv(),
            ptr.is_block(),
            0 < cap,
            old(self)@.len() <= cap,
            cap * size_of::<T>() <= usize::MAX,
            valid_layout((cap * size_of::<T>()) as usize, align_of::<T>() as usize),
        ensures
            final(self).inv(),
            final(self)@ == old(self)@,
            final(self).raw() == ptr,
            final(self).capacity() == cap,
    {
        self.ptr = ptr;
        self.cap = cap;
    }

    /// Splits off and returns the initialized elements from `at` onward.
    pub(crate) fn split_off_elems(&mut self, at: usize) -> (r: Vec<T>)
        requires
            old(self).inv(),
            at <= old(self)@.len(),
        ensures
            final(self).inv(),
            final(self)@ == old(self)@.subrange(0, at as int),
            r@ == old(self)@.subrange(at as int, old(self)@.len() as int),
            final(self).raw() == old(self).raw(),
            final(self).capacity() == old(self).capacity(),
    {
        self.elems.split_off(at)
    }

    /// Takes the handle apart into the backend pointer and the initialized
    /// elements; the attestation it carried ends here.
    pub(crate) fn into_parts(self) -> (r: (RawPtr, Vec<T>))
        ensures
            r.0 == self.raw(),
            r.1@ == self@,
    {
        let SliceBlock { ptr, elems, cap: _ } = self;
        (ptr, elems)
    }
}

} // verus!
