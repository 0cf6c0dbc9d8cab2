//! Demultiplexer errors.

use vstd::prelude::*;

verus! {

/// Why a `push` into the demultiplexer failed.  The error is fatal to the
/// current call only; the caller may resume with the next buffer.
#[derive(Clone, Copy, PartialEq, Eq, Debug, Structural)]
pub enum DemuxError {
    /// A packet did not start with the 0x47 sync byte.
    InvalidSyncByte { expected: u8, found: u8 },
    /// A packet ended before the structure being parsed was complete, or a
    /// declared length did not fit the surrounding structure.
    NotEnoughData,
}

impl DemuxError {
    /// A short description, usable where the error is logged or printed.
    pub fn describe(&self) -> (r: &'static str)
    {
        match self {
            DemuxError::InvalidSyncByte { .. } => "invalid sync_byte",
            DemuxError::NotEnoughData => "not enough data",
        }
    }
}

} // verus!
