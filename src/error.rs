use vstd::prelude::*;

verus! {

/// Why a checked selection was refused.
#[derive(Clone, Copy, Debug, PartialEq, Eq, Structural)]
pub enum SelectError {
    /// An index is not below the container's length.
    OutOfBounds,
    /// The same index was requested twice for exclusive access.
    DuplicateIndex,
    /// A lazily checked source produced an index that was already handed out.
    AliasingViolation,
}

} // verus!
