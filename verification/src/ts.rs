//! MPEG-TS (ISO/IEC 13818-1) demultiplexing: 188-byte packet framing,
//! PAT/PMT section parsing, PES reassembly, and typed demux events.

pub mod demux;
pub mod demuxer;
pub mod error;
pub mod packet_header;
pub mod pat;
pub mod pes_header;
pub mod pid;
pub mod pid_map;
pub mod pmt;
pub mod stream_type;

use vstd::prelude::*;

verus! {

/// Every MPEG-TS packet starts with this byte.
pub const SYNC_BYTE: u8 = 0x47;

/// Size in bytes of one MPEG-TS packet.
pub const SIZE: usize = 188;

} // verus!
