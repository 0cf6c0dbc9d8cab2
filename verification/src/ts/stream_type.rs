//! Elementary stream types from the ISO/IEC 13818-1 registry.

use vstd::prelude::*;

verus! {

/// A stream type, with its eight-bit registry value kept for unknown codes.
#[derive(Clone, Copy, PartialEq, Eq, Debug, Structural)]
pub enum StreamType {
    PrivateData,
    AAC,
    H264,
    H265,
    AV1,
    OPUS,
    SCTE35,
    Unknown(u8),
}

impl StreamType {
    pub fn is_video(&self) -> (r: bool)
        ensures
            r == (self is H264 || self is H265 || self is AV1),
    {
        match self {
            StreamType::H264 => true,
            StreamType::H265 => true,
            StreamType::AV1 => true,
            _ => false,
        }
    }

    pub fn is_audio(&self) -> (r: bool)
        ensures
            r == (self is AAC || self is OPUS),
    {
        match self {
            StreamType::AAC => true,
            StreamType::OPUS => true,
            _ => false,
        }
    }
}

/// The stream type denoted by an eight-bit registry value.
pub open spec fn spec_stream_type_from(d: u8) -> StreamType {
    if d == 0x06 {
        StreamType::PrivateData
    } else if d == 0x0F {
        StreamType::AAC
    } else if d == 0x1B {
        StreamType::H264
    } else if d == 0x24 {
        StreamType::H265
    } else if d == 0x86 {
        StreamType::SCTE35
    } else if d == 0x9c {
        StreamType::OPUS
    } else if d == 0x9f {
        StreamType::AV1
    } else {
        StreamType::Unknown(d)
    }
}

/// The eight-bit registry value of a stream type.
pub open spec fn spec_stream_type_value(st: StreamType) -> u8 {
    match st {
        StreamType::PrivateData => 0x06,
        StreamType::AAC => 0x0F,
        StreamType::H264 => 0x1B,
        StreamType::H265 => 0x24,
        StreamType::SCTE35 => 0x86,
        StreamType::OPUS => 0x9c,
        StreamType::AV1 => 0x9f,
        StreamType::Unknown(d) => d,
    }
}

impl From<u8> for StreamType {
    fn from(d: u8) -> (r: Self)
        ensures
            r == spec_stream_type_from(d),
    {
        match d {
            0x06 => StreamType::PrivateData,
            0x0F => StreamType::AAC,
            0x1B => StreamType::H264,
            0x24 => StreamType::H265,
            0x86 => StreamType::SCTE35,
            0x9c => StreamType::OPUS,
            0x9f => StreamType::AV1,
            _ => StreamType::Unknown(d),
        }
    }
}

impl vstd::std_specs::convert::FromSpecImpl<u8> for StreamType {
    open spec fn obeys_from_spec() -> bool {
        true
    }

    open spec fn from_spec(d: u8) -> StreamType {
        spec_stream_type_from(d)
    }
}

impl From<StreamType> for u8 {
    fn from(st: StreamType) -> (r: u8)
        ensures
            r == spec_stream_type_value(st),
    {
        match st {
            StreamType::PrivateData => 0x06,
            StreamType::AAC => 0x0F,
            StreamType::H264 => 0x1B,
            StreamType::H265 => 0x24,
            StreamType::SCTE35 => 0x86,
            StreamType::OPUS => 0x9c,
            StreamType::AV1 => 0x9f,
            StreamType::Unknown(d) => d,
        }
    }
}

impl vstd::std_specs::convert::FromSpecImpl<StreamType> for u8 {
    open spec fn obeys_from_spec() -> bool {
        true
    }

    open spec fn from_spec(st: StreamType) -> u8 {
        spec_stream_type_value(st)
    }
}

} // verus!
