//! Live-video ingest and low-latency delivery core.
//!
//! The library demultiplexes MPEG-TS into elementary streams, decodes the
//! codec configuration records, re-packages access units as fragmented
//! ISO-BMFF segments, and maintains the segment ring behind an LL-HLS
//! manifest.  Every function here carries a contract checked by Verus;
//! transport and HTTP plumbing live outside the library.

pub mod clock;
pub mod codec;
pub mod fmp4;
pub mod hls;
pub mod options;
pub mod reader;
pub mod session;
pub mod text;
pub mod ts;

use vstd::prelude::*;

verus! {

/// Ticks per second of the 90 kHz MPEG-TS clock domain.
pub const HZ: u32 = 90_000;

/// One full turn of the 33-bit PCR/PTS/DTS clock: 2^33 ticks.
pub const PCR_CYCLE: u64 = 8_589_934_592;

} // verus!
