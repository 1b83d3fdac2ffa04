//! The error taxonomy.
//!
//! Every fallible operation in this crate returns one of the [`AllocError`]
//! variants; this closed vocabulary is the sole channel for failure, and no
//! operation aborts the process on its own.  Three kinds of outcome live
//! here: misuse errors ([`AllocError::GrowSmallerNewLayout`],
//! [`AllocError::ShrinkBiggerNewLayout`], [`AllocError::LayoutError`],
//! [`AllocError::UnsupportedOperation`]), deterministic given the inputs;
//! the resource error [`AllocError::AllocFailed`], which depends on the
//! backend's environment; and the degenerate success
//! [`AllocError::ZeroSizedLayout`], which callers special-case rather than
//! propagate unexamined.  Each variant has a stable human-readable
//! rendering, produced by [`AllocError::message`] and pinned down, character
//! for character, by [`AllocError::message_spec`].

use vstd::prelude::*;

verus! {

use vstd::string::StringExecFns;

use crate::backend::RawPtr;
use crate::layout::Layout;

/// Errors for allocation operations.
#[derive(Clone, Copy, Debug, PartialEq, Eq, Structural)]
pub enum AllocError {
    /// A basic arithmetic operation overflowed.
    ArithmeticOverflow,
    /// The layout computed with the given size and alignment is invalid.
    LayoutError(usize, usize),
    /// The given layout was zero-sized.  The contained pointer is dangling
    /// and aligned for the requested alignment.
    ///
    /// This can, in many cases, be considered a success.
    ZeroSizedLayout(RawPtr),
    /// The backend failed to allocate using the given layout.
    AllocFailed(Layout),
    /// Attempted to grow to a smaller layout.
    GrowSmallerNewLayout(usize, usize),
    /// Attempted to shrink to a larger layout.
    ShrinkBiggerNewLayout(usize, usize),
    /// An operation unsupported by the allocator was attempted.
    UnsupportedOperation(UOp),
    /// Resize-in-place was found to be impossible.  The backend supports
    /// resizing in place, but the attempt failed.
    CannotResizeInPlace,
    /// A size of zero was requested for a resize-in-place operation.
    ///
    /// Same as [`AllocError::ZeroSizedLayout`], but without the pointer,
    /// which is useless for in-place operations.
    ResizeInPlaceZeroSized,
}

/// An unsupported operation.
#[derive(Clone, Copy, Debug, PartialEq, Eq, Structural)]
pub enum UOp {
    /// A shrink-in-place operation.
    ShrinkInPlace,
    /// A reallocation operation with a different alignment from the original
    /// allocation, carrying the old and the new alignment.
    ReallocDiffAlign(usize, usize),
}

/// The single decimal digit `d` (at most 9), as a one-character string.
pub open spec fn digit_str(d: nat) -> Seq<char> {
    if d == 0 {
        "0"@
    } else if d == 1 {
        "1"@
    } else if d == 2 {
        "2"@
    } else if d == 3 {
        "3"@
    } else if d == 4 {
        "4"@
    } else if d == 5 {
        "5"@
    } else if d == 6 {
        "6"@
    } else if d == 7 {
        "7"@
    } else if d == 8 {
        "8"@
    } else {
        "9"@
    }
}

/// The usual decimal rendering of `n`: most significant digit first, no
/// leading zero except for `n == 0` itself.
pub open spec fn dec_seq(n: nat) -> Seq<char>
    decreases n,
{
    if n < 10 {
        digit_str(n)
    } else {
        dec_seq(n / 10) + digit_str(n % 10)
    }
}

/// Appends the decimal rendering of `n` to `out`.
pub fn push_decimal(n: usize, out: &mut String)
    ensures
        final(out)@ == old(out)@ + dec_seq(n as nat),
    decreases n,
{
    if n >= 10 {
        push_decimal(n / 10, out);
    }
    let d: usize = n % 10;
    match d {
        0 => out.append("0"),
        1 => out.append("1"),
        2 => out.append("2"),
        3 => out.append("3"),
        4 => out.append("4"),
        5 => out.append("5"),
        6 => out.append("6"),
        7 => out.append("7"),
        8 => out.append("8"),
        _ => out.append("9"),
    }
    proof {
        if n >= 10 {
            assert((old(out)@ + dec_seq((n / 10) as nat)) + digit_str((n % 10) as nat) =~= old(
                out,
            )@ + dec_seq(n as nat));
        } else {
            assert(old(out)@ + digit_str(n as nat) =~= old(out)@ + dec_seq(n as nat));
        }
    }
}

impl UOp {
    /// The stable rendering of this operation, character for character.
    pub open spec fn message_spec(self) -> Seq<char> {
        match self {
            UOp::ShrinkInPlace => "shrink in place"@,
            UOp::ReallocDiffAlign(old_align, new_align) => "realloc diff align from "@ + dec_seq(
                old_align as nat,
            ) + " to "@ + dec_seq(new_align as nat),
        }
    }

    /// Renders this operation as its stable human-readable text.
    pub fn message(&self) -> (r: String)
        ensures
            r@ == self.message_spec(),
    {
        let mut out = String::new();
        match self {
            UOp::ShrinkInPlace => {
                out.append("shrink in place");
            },
            UOp::ReallocDiffAlign(old_align, new_align) => {
                out.append("realloc diff align from ");
                push_decimal(*old_align, &mut out);
                out.append(" to ");
                push_decimal(*new_align, &mut out);
            },
        }
        out
    }
}

impl AllocError {
    /// The stable rendering of this error, character for character.
    pub open spec fn message_spec(self) -> Seq<char> {
        match self {
            AllocError::ArithmeticOverflow => "arithmetic overflow"@,
            AllocError::LayoutError(sz, align) => "computed invalid layout: size: "@ + dec_seq(
                sz as nat,
            ) + ", align: "@ + dec_seq(align as nat),
            AllocError::ZeroSizedLayout(_) => "zero-sized layout was given"@,
            AllocError::AllocFailed(l) => "allocation failed for layout: size: "@ + dec_seq(
                l.size as nat,
            ) + ", align: "@ + dec_seq(l.align as nat),
            AllocError::GrowSmallerNewLayout(old_size, new_size) => "attempted to grow from a size of "@
                + dec_seq(old_size as nat) + " to a smaller size of "@ + dec_seq(new_size as nat),
            AllocError::ShrinkBiggerNewLayout(old_size, new_size) => "attempted to shrink from a size of "@
                + dec_seq(old_size as nat) + " to a larger size of "@ + dec_seq(new_size as nat),
            AllocError::UnsupportedOperation(op) => "unsupported operation: attempted to "@
                + op.message_spec(),
            AllocError::CannotResizeInPlace => "cannot resize in place"@,
            AllocError::ResizeInPlaceZeroSized => "zero-sized resize in place was requested"@,
        }
    }

    /// Renders this error as its stable human-readable text.
    pub fn message(&self) -> (r: String)
        ensures
            r@ == self.message_spec(),
    {
        let mut out = String::new();
        match self {
            AllocError::ArithmeticOverflow => {
                out.append("arithmetic overflow");
            },
            AllocError::LayoutError(sz, align) => {
                out.append("computed invalid layout: size: ");
                push_decimal(*sz, &mut out);
                out.append(", align: ");
                push_decimal(*align, &mut out);
            },
            AllocError::ZeroSizedLayout(_) => {
                out.append("zero-sized layout was given");
            },
            AllocError::AllocFailed(l) => {
                out.append("allocation failed for layout: size: ");
                push_decimal(l.size, &mut out);
                out.append(", align: ");
                push_decimal(l.align, &mut out);
            },
            AllocError::GrowSmallerNewLayout(old_size, new_size) => {
                out.append("attempted to grow from a size of ");
                push_decimal(*old_size, &mut out);
                out.append(" to a smaller size of ");
                push_decimal(*new_size, &mut out);
            },
            AllocError::ShrinkBiggerNewLayout(old_size, new_size) => {
                out.append("attempted to shrink from a size of ");
                push_decimal(*old_size, &mut out);
                out.append(" to a larger size of ");
                push_decimal(*new_size, &mut out);
            },
            AllocError::UnsupportedOperation(op) => {
                out.append("unsupported operation: attempted to ");
                let tail = op.message();
                out.append(tail.as_str());
            },
            AllocError::CannotResizeInPlace => {
                out.append("cannot resize in place");
            },
            AllocError::ResizeInPlaceZeroSized => {
                out.append("zero-sized resize in place was requested");
            },
        }
        out
    }
}

} // verus!
