use vstd::prelude::*;

verus! {

/// Why a cursor operation failed.
#[derive(Debug, Clone, Copy, PartialEq, Eq)]
pub enum CursorError {
    /// The requested range, or the seek target, lies beyond the end of the
    /// source. Nothing was read and the cursor is as it was.
    OutOfBounds,
    /// The host could not read the requested range. The window is empty and
    /// the position is as it was.
    ChunkLoadFailed,
}

} // verus!
