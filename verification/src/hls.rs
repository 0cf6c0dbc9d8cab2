//! LL-HLS delivery: the ring of segments and partials, and manifest
//! generation.

pub mod segment_store;
