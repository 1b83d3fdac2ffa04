//! A layer for allocating, growing, shrinking and deallocating typed memory
//! blocks and slices on top of a minimal raw capability (allocate /
//! zero-allocate / grow / shrink / deallocate given explicit size and
//! alignment pairs) supplied by a pluggable backend.
//!
//! The layer reconciles three concerns: checked per-element layout arithmetic
//! ([`layout`]), partial-failure safety through construction guards
//! ([`guard`]), and a uniform, direction-checked grow/shrink contract layered
//! over heterogeneous backends ([`external_alloc`]).  Every operation that can
//! fail reports one of the closed set of [`error::AllocError`] outcomes.
//!
//! The backend capability itself is the [`backend::Alloc`] trait; the slice
//! API over it lives in [`alloc_slice`], handing out the validated,
//! length-carrying handles of [`block`].  [`tracking::TrackingAlloc`] is the
//! bookkeeping backend that implements the capability and doubles as a leak
//! accounting harness.

pub mod alloc_slice;
pub mod backend;
pub mod block;
pub mod error;
pub mod external_alloc;
pub mod guard;
pub mod layout;
pub mod marker;
pub mod tracking;
pub mod type_props;
