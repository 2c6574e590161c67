//! A buffering cursor over a large byte source that can only be read in
//! bounded ranges.
//!
//! The cursor performs no I/O. A decode either completes from the cached
//! window, or reports the range that the host has to read before the call is
//! repeated; the host hands the bytes (or the failure) to
//! [`PartialLoadCursor::load_chunk`].

pub mod error;
pub mod step;
pub mod endian;
pub mod model;
pub mod cursor;
pub mod run;
pub mod laws;

pub use error::CursorError;
pub use step::Step;
pub use cursor::{DropReport, PartialLoadCursor, DEFAULT_CHUNK_SIZE};
