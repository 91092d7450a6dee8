//! The ways in which reading or writing a box can fail.

use vstd::prelude::*;

verus! {

/// Why a box could not be read or written.
#[derive(Debug, Clone, Copy, PartialEq, Eq, Structural)]
pub enum Error {
    /// Fewer bytes are at hand than a declared length or a fixed field asks for.
    Truncated,
    /// A child box claims more bytes than its container has left.
    MalformedChild,
    /// A length does not fit the fixed-width field that has to carry it.
    PayloadTooLarge,
    /// An internal invariant was violated; not recoverable.
    Defect,
}

} // verus!
