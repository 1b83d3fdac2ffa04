//! Marker traits.

use vstd::prelude::*;

verus! {

/// Marker trait for types whose memory representation can be duplicated
/// without violating soundness or causing double frees.
///
/// Here the blanket implementation covers exactly the `Copy` types; the
/// compiler already vouches for those, so the marker carries no obligation
/// of its own.
pub trait UnsizedCopy {

}

impl<T: Copy> UnsizedCopy for T {

}

/// Marker trait for types that carry no pointee metadata: a pointer to such
/// a type is thin.  Every sized type qualifies.
pub trait Thin {

}

impl<T: Sized> Thin for T {

}

} // verus!
