//! The failure conditions a container can report.

use vstd::prelude::*;

verus! {

/// The two ways a container operation can be refused.
///
/// Both are contract violations on the caller's side; an operation that
/// reports either one has not mutated the container at all.
#[derive(Clone, Copy, Debug, PartialEq, Eq, Structural)]
pub enum Error {
    /// The operation would need more than the fixed number of slots.
    CapacityExceeded,
    /// A supplied index or range is inconsistent with the current length.
    IndexOutOfBounds,
}

} // verus!
