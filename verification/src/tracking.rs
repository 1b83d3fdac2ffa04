//! A bookkeeping backend.
//!
//! [`TrackingAlloc`] implements the raw capability by recording every
//! outstanding block — its bytes and its alignment — in ordinary owned
//! storage, together with a running count of outstanding bytes.  It serves as
//! the reference implementation of the [`Alloc`] and [`AllocExt`] contracts
//! and as a harness for leak accounting: after a matched sequence of
//! allocations and deallocations, [`TrackingAlloc::live_bytes`] is zero.

use vstd::prelude::*;

verus! {

use crate::backend::{Alloc, AllocExt, RawPtr};
use crate::error::AllocError;
use crate::layout::Layout;

/// The bytes a slot holds: none once freed.
spec fn slot_bytes(s: Option<(Vec<u8>, usize)>) -> Seq<u8> {
    match s {
        Some(b) => b.0@,
        None => Seq::empty(),
    }
}

/// The alignment a slot was allocated with.
spec fn slot_align(s: Option<(Vec<u8>, usize)>) -> int {
    match s {
        Some(b) => b.1 as int,
        None => 0,
    }
}

/// Total bytes held across all slots.
spec fn sum_bytes(s: Seq<Option<(Vec<u8>, usize)>>) -> nat
    decreases s.len(),
{
    if s.len() == 0 {
        0
    } else {
        sum_bytes(s.drop_last()) + slot_bytes(s.last()).len()
    }
}

proof fn lemma_sum_push(s: Seq<Option<(Vec<u8>, usize)>>, x: Option<(Vec<u8>, usize)>)
    ensures
        sum_bytes(s.push(x)) == sum_bytes(s) + slot_bytes(x).len(),
{
    assert(s.push(x).drop_last() =~= s);
    assert(s.push(x).last() == x);
}

proof fn lemma_sum_update(s: Seq<Option<(Vec<u8>, usize)>>, i: int, x: Option<(Vec<u8>, usize)>)
    requires
        0 <= i < s.len(),
    ensures
        sum_bytes(s.update(i, x)) + slot_bytes(s[i]).len() == sum_bytes(s) + slot_bytes(x).len(),
    decreases s.len(),
{
    if i == s.len() - 1 {
        assert(s.update(i, x).drop_last() =~= s.drop_last());
        assert(s.update(i, x).last() == x);
    } else {
        lemma_sum_update(s.drop_last(), i, x);
        assert(s.update(i, x).drop_last() =~= s.drop_last().update(i, x));
        assert(s.update(i, x).last() == s.last());
    }
}

proof fn lemma_sum_zero_iff_all_free(s: Seq<Option<(Vec<u8>, usize)>>)
    requires
        forall|i: int| 0 <= i < s.len() && s[i] is Some ==> slot_bytes(#[trigger] s[i]).len() > 0,
    ensures
        (sum_bytes(s) == 0) <==> (forall|i: int| 0 <= i < s.len() ==> !(#[trigger] s[i] is Some)),
    decreases s.len(),
{
    if s.len() > 0 {
        lemma_sum_zero_iff_all_free(s.drop_last());
        assert(s.last() == s[s.len() - 1]);
        assert(forall|i: int| 0 <= i < s.len() - 1 ==> s.drop_last()[i] == #[trigger] s[i]);
    }
}

/// A backend that honors every request from ordinary owned storage and keeps
/// exact books: each outstanding block's bytes and alignment, and the total
/// number of outstanding bytes.  Block identities are never reused.
pub struct TrackingAlloc {
    /// One slot per allocation ever made; freed slots stay as `None`.
    slots: Vec<Option<(Vec<u8>, usize)>>,
    /// Total bytes across live slots.
    outstanding: usize,
}

/// A fresh byte vector of length `len` with every byte set to `b`.
fn filled_bytes(len: usize, b: u8) -> (r: Vec<u8>)
    ensures
        r@.len() == len,
        forall|i: int| 0 <= i < len ==> r@[i] == b,
{
    let mut v: Vec<u8> = Vec::new();
    let mut i: usize = 0;
    while i < len
        invariant
            i <= len,
            v@.len() == i,
            forall|j: int| 0 <= j < i ==> v@[j] == b,
        decreases len - i,
    {
        v.push(b);
        i += 1;
    }
    v
}

impl TrackingAlloc {
    /// A backend with no outstanding blocks.
    pub fn new() -> (r: TrackingAlloc)
        ensures
            r.wf(),
            r.blocks() =~= Map::<int, Seq<u8>>::empty(),
            r.aligns() =~= Map::<int, int>::empty(),
    {
        TrackingAlloc { slots: Vec::new(), outstanding: 0 }
    }

    /// The total number of bytes currently outstanding; zero exactly when
    /// every block ever allocated has been returned.
    pub fn live_bytes(&self) -> (r: usize)
        requires
            self.wf(),
        ensures
            (r == 0) <==> (forall|id: int| !self.blocks().contains_key(id)),
    {
        proof {
            lemma_sum_zero_iff_all_free(self.slots@);
            if self.outstanding == 0 {
                assert forall|id: int| !self.blocks().contains_key(id) by {
                    if 0 <= id < self.slots@.len() {
                        assert(!(self.slots@[id] is Some));
                    }
                }
            } else {
                let i = choose|i: int| 0 <= i < self.slots@.len() && self.slots@[i] is Some;
                assert(self.blocks().contains_key(i));
            }
        }
        self.outstanding
    }

    /// The bytes of the outstanding block `id`, or nothing if no such
    /// block is outstanding.
    pub fn block_bytes(&self, id: usize) -> (r: Option<&Vec<u8>>)
        ensures
            match r {
                Some(b) => self.blocks().contains_key(id as int) && b@ == self.blocks()[id as int],
                None => !self.blocks().contains_key(id as int),
            },
    {
        if id >= self.slots.len() {
            return None;
        }
        match &self.slots[id] {
            Some(s) => Some(&s.0),
            None => None,
        }
    }

    /// Places a fresh block; the books must have room for its bytes.
    fn insert_slot(&mut self, bytes: Vec<u8>, align: usize) -> (r: RawPtr)
        requires
            old(self).wf(),
            bytes@.len() > 0,
            old(self).outstanding + bytes@.len() <= usize::MAX,
        ensures
            final(self).wf(),
            r.is_block(),
            !old(self).blocks().contains_key(r.block_id()),
            final(self).blocks() == old(self).blocks().insert(r.block_id(), bytes@),
            final(self).aligns() == old(self).aligns().insert(r.block_id(), align as int),
    {
        let id = self.slots.len();
        let ghost pre = self.slots@;
        let ghost entry: Option<(Vec<u8>, usize)> = Some((bytes, align));
        let n = bytes.len();
        self.slots.push(Some((bytes, align)));
        self.outstanding = self.outstanding + n;
        proof {
            lemma_sum_push(pre, entry);
            assert(final(self).blocks() =~= old(self).blocks().insert(
                id as int,
                slot_bytes(entry),
            ));
            assert(final(self).aligns() =~= old(self).aligns().insert(id as int, align as int));
        }
        RawPtr::Block { id }
    }

    /// Strikes the block `id` from the books.
    fn remove_slot(&mut self, id: usize)
        requires
            old(self).wf(),
            old(self).blocks().contains_key(id as int),
        ensures
            final(self).wf(),
            final(self).blocks() == old(self).blocks().remove(id as int),
            final(self).aligns() == old(self).aligns().remove(id as int),
            final(self).outstanding == old(self).outstanding - old(self).blocks()[id as int].len(),
    {
        let freed: usize = match &self.slots[id] {
            Some(s) => s.0.len(),
            None => {
                proof {
                    assert(false);
                }
                0
            },
        };
        proof {
            lemma_sum_update(self.slots@, id as int, None);
        }
        self.slots[id] = None;
        self.outstanding = self.outstanding - freed;
        proof {
            assert(final(self).blocks() =~= old(self).blocks().remove(id as int));
            assert(final(self).aligns() =~= old(self).aligns().remove(id as int));
        }
    }

    /// Books a fresh block holding exactly `bytes`, or reports that the
    /// books cannot count that many further bytes.
    fn place(&mut self, layout: Layout, bytes: Vec<u8>) -> (r: Result<RawPtr, AllocError>)
        requires
            old(self).wf(),
            bytes@.len() == layout.size,
            layout.size > 0,
        ensures
            final(self).wf(),
            crate::backend::alloc_post(
                old(self).blocks(),
                old(self).aligns(),
                final(self).blocks(),
                final(self).aligns(),
                layout,
                r,
            ),
            r matches Ok(p) ==> final(self).blocks()[p.block_id()] == bytes@,
    {
        match self.outstanding.checked_add(layout.size) {
            None => Err(AllocError::AllocFailed(layout)),
            Some(_) => Ok(self.insert_slot(bytes, layout.align)),
        }
    }

    /// Reads byte `i` of the live block `id`.
    fn read_byte(&self, id: usize, i: usize) -> (r: u8)
        requires
            self.wf(),
            self.blocks().contains_key(id as int),
            i < self.blocks()[id as int].len(),
        ensures
            r == self.blocks()[id as int][i as int],
    {
        match &self.slots[id] {
            Some(s) => s.0[i],
            None => {
                proof {
                    assert(false);
                }
                0
            },
        }
    }
}

impl Alloc for TrackingAlloc {
    closed spec fn blocks(&self) -> Map<int, Seq<u8>> {
        Map::new(
            |i: int| 0 <= i < self.slots@.len() && self.slots@[i] is Some,
            |i: int| slot_bytes(self.slots@[i]),
        )
    }

    closed spec fn aligns(&self) -> Map<int, int> {
        Map::new(
            |i: int| 0 <= i < self.slots@.len() && self.slots@[i] is Some,
            |i: int| slot_align(self.slots@[i]),
        )
    }

    closed spec fn wf(&self) -> bool {
        &&& self.outstanding as nat == sum_bytes(self.slots@)
        &&& forall|i: int|
            0 <= i < self.slots@.len() && self.slots@[i] is Some ==> slot_bytes(
                #[trigger] self.slots@[i],
            ).len() > 0
    }

    fn allocate(&mut self, layout: Layout) -> (r: Result<RawPtr, AllocError>) {
        let bytes = filled_bytes(layout.size, 0);
        self.place(layout, bytes)
    }

    fn allocate_zeroed(&mut self, layout: Layout) -> (r: Result<RawPtr, AllocError>) {
        let bytes = filled_bytes(layout.size, 0);
        self.place(layout, bytes)
    }

    fn grow(&mut self, p: RawPtr, old_layout: Layout, new_layout: Layout) -> (r: Result<
        RawPtr,
        AllocError,
    >) {
        self.grow_zeroed(p, old_layout, new_layout)
    }

    fn grow_zeroed(&mut self, p: RawPtr, old_layout: Layout, new_layout: Layout) -> (r: Result<
        RawPtr,
        AllocError,
    >) {
        let id = p.unwrap_id();
        match self.outstanding.checked_add(new_layout.size) {
            None => Err(AllocError::AllocFailed(new_layout)),
            Some(_) => {
                let mut bytes: Vec<u8> = Vec::new();
                let mut i: usize = 0;
                while i < old_layout.size
                    invariant
                        self.wf(),
                        self.blocks().contains_key(id as int),
                        self.blocks()[id as int].len() == old_layout.size,
                        i <= old_layout.size,
                        bytes@.len() == i,
                        forall|j: int| 0 <= j < i ==> bytes@[j] == self.blocks()[id as int][j],
                    decreases old_layout.size - i,
                {
                    let b = self.read_byte(id, i);
                    bytes.push(b);
                    i += 1;
                }
                while i < new_layout.size
                    invariant
                        self.wf(),
                        self.blocks().contains_key(id as int),
                        self.blocks()[id as int].len() == old_layout.size,
                        old_layout.size <= i <= new_layout.size,
                        bytes@.len() == i,
                        forall|j: int|
                            0 <= j < old_layout.size && j < i ==> bytes@[j]
                                == self.blocks()[id as int][j],
                        forall|j: int| old_layout.size <= j < i ==> bytes@[j] == 0u8,
                    decreases new_layout.size - i,
                {
                    bytes.push(0);
                    i += 1;
                }
                self.remove_slot(id);
                let q = self.insert_slot(bytes, new_layout.align);
                Ok(q)
            },
        }
    }

    fn shrink(&mut self, p: RawPtr, old_layout: Layout, new_layout: Layout) -> (r: Result<
        RawPtr,
        AllocError,
    >) {
        let id = p.unwrap_id();
        let mut bytes: Vec<u8> = Vec::new();
        let mut i: usize = 0;
        while i < new_layout.size
            invariant
                self.wf(),
                self.blocks().contains_key(id as int),
                new_layout.size <= self.blocks()[id as int].len(),
                i <= new_layout.size,
                bytes@.len() == i,
                forall|j: int| 0 <= j < i ==> bytes@[j] == self.blocks()[id as int][j],
            decreases new_layout.size - i,
        {
            let b = self.read_byte(id, i);
            bytes.push(b);
            i += 1;
        }
        self.remove_slot(id);
        let q = self.insert_slot(bytes, new_layout.align);
        Ok(q)
    }

    fn deallocate(&mut self, p: RawPtr, _layout: Layout) {
        let id = p.unwrap_id();
        self.remove_slot(id);
    }
}

impl AllocExt for TrackingAlloc {
    fn allocate_filled(&mut self, layout: Layout, n: u8) -> (r: Result<RawPtr, AllocError>) {
        let bytes = filled_bytes(layout.size, n);
        self.place(layout, bytes)
    }

    fn allocate_patterned<F: Fn(usize) -> u8>(&mut self, layout: Layout, pattern: F) -> (r: Result<
        RawPtr,
        AllocError,
    >) {
        let mut bytes: Vec<u8> = Vec::new();
        let mut i: usize = 0;
        while i < layout.size
            invariant
                i <= layout.size,
                bytes@.len() == i,
                forall|k: usize| k < layout.size ==> call_requires(pattern, (k,)),
                forall|j: int| 0 <= j < i ==> call_ensures(pattern, (j as usize,), bytes@[j]),
            decreases layout.size - i,
        {
            let b = pattern(i);
            bytes.push(b);
            i += 1;
        }
        self.place(layout, bytes)
    }
}

} // verus!
