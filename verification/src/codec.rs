//! Codec-layer parsing: NAL units and emulation prevention, AAC
//! configuration, and the H.264/H.265 decoder configuration records.

pub mod aac;
pub mod h264;
pub mod h265;
pub mod nal;
