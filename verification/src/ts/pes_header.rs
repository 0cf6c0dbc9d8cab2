//! The PES packet header: stream id, declared size, and the 33-bit
//! presentation and decoding timestamps.

use vstd::prelude::*;
use crate::reader::{spec_read_be, spec_read_u8, Cursor};
use crate::ts::error::DemuxError;

verus! {

/// The PES stream id, folded to its audio or video sub-number.
#[derive(Clone, Copy, PartialEq, Eq, Debug, Structural)]
pub enum StreamId {
    Audio(u8),
    Video(u8),
    Unknown(u8),
}

/// The stream id denoted by the PES stream-id byte: 0xC0..0xDF are audio,
/// 0xE0..0xEF video.
pub open spec fn spec_stream_id_from(v: u8) -> StreamId {
    if 0xC0 <= v && v <= 0xDF {
        StreamId::Audio((v % 32) as u8)
    } else if 0xE0 <= v && v <= 0xEF {
        StreamId::Video((v % 16) as u8)
    } else {
        StreamId::Unknown(v)
    }
}

impl From<u8> for StreamId {
    fn from(v: u8) -> (r: Self)
        ensures
            r == spec_stream_id_from(v),
    {
        if 0xC0 <= v && v <= 0xDF {
            StreamId::Audio(v % 32)
        } else if 0xE0 <= v && v <= 0xEF {
            StreamId::Video(v % 16)
        } else {
            StreamId::Unknown(v)
        }
    }
}

impl vstd::std_specs::convert::FromSpecImpl<u8> for StreamId {
    open spec fn obeys_from_spec() -> bool {
        true
    }

    open spec fn from_spec(v: u8) -> StreamId {
        spec_stream_id_from(v)
    }
}

/// The parsed PES header.
#[derive(Clone, Copy, PartialEq, Eq, Debug, Structural)]
pub struct PesHeader {
    pub header_size: usize,
    pub stream_id: StreamId,
    pub size: usize,
    pub pts: Option<u64>,
    pub dts: Option<u64>,
}

/// The 33-bit timestamp packed into five bytes: 3 bits, a marker, 15 bits,
/// a marker, 15 bits, a marker.
pub open spec fn spec_read_timestamp(s: Seq<u8>, pos: int) -> Option<(u64, int)> {
    match spec_read_u8(s, pos) {
        None => None,
        Some((b0, p1)) => match spec_read_be(s, p1, 2) {
            None => None,
            Some((v1, p2)) => match spec_read_be(s, p2, 2) {
                None => None,
                Some((v2, p3)) => Some(
                    (
                        (((b0 / 2) % 8) as u64 * 0x4000_0000 + ((v1 / 2) % 0x8000) as u64 * 0x8000
                            + ((v2 / 2) % 0x8000) as u64) as u64,
                        p3,
                    ),
                ),
            },
        },
    }
}

/// Mirror of the PES header parse: start code 0x000001, stream id,
/// declared length, the flag bytes, and the optional PTS/DTS.  A malformed
/// start code or an optional-field length shorter than the timestamps it
/// announces is a parse failure.
pub open spec fn spec_parse_pes_header(s: Seq<u8>, pos: int) -> Option<(PesHeader, int)> {
    match spec_read_be(s, pos, 3) {
        None => None,
        Some((start_code, p1)) => {
            if start_code != 1 {
                None
            } else {
                match spec_read_u8(s, p1) {
                    None => None,
                    Some((sid, p2)) => match spec_read_be(s, p2, 2) {
                        None => None,
                        Some((pes_length, p3)) => {
                            if p3 + 1 > s.len() {
                                None
                            } else {
                                match spec_read_u8(s, p3 + 1) {
                                    None => None,
                                    Some((flags, p4)) => match spec_read_u8(s, p4) {
                                        None => None,
                                        Some((optional, p5)) => {
                                            let pts_dts_flags = (flags / 64) % 4;
                                            if pts_dts_flags == 2 || pts_dts_flags == 3 {
                                                spec_parse_pes_timestamps(
                                                    s,
                                                    p5,
                                                    pts_dts_flags,
                                                    optional as int,
                                                    spec_stream_id_from(sid),
                                                    pes_length as int,
                                                )
                                            } else {
                                                Some(
                                                    (
                                                        PesHeader {
                                                            header_size: (9 + optional) as usize,
                                                            stream_id: spec_stream_id_from(sid),
                                                            size: pes_length as usize,
                                                            pts: None,
                                                            dts: None,
                                                        },
                                                        p5,
                                                    ),
                                                )
                                            }
                                        },
                                    },
                                }
                            }
                        },
                    },
                }
            }
        },
    }
}

/// Mirror of the optional PTS/DTS reads.
pub open spec fn spec_parse_pes_timestamps(
    s: Seq<u8>,
    pos: int,
    pts_dts_flags: u8,
    optional: int,
    stream_id: StreamId,
    pes_length: int,
) -> Option<(PesHeader, int)> {
    match spec_read_timestamp(s, pos) {
        None => None,
        Some((pts, p6)) => {
            if optional < 5 {
                None
            } else if pts_dts_flags == 3 {
                match spec_read_timestamp(s, p6) {
                    None => None,
                    Some((dts, p7)) => {
                        if optional < 10 {
                            None
                        } else {
                            Some(
                                (
                                    PesHeader {
                                        header_size: (9 + optional - 10) as usize,
                                        stream_id,
                                        size: pes_length as usize,
                                        pts: Some(pts),
                                        dts: Some(dts),
                                    },
                                    p7,
                                ),
                            )
                        }
                    },
                }
            } else {
                Some(
                    (
                        PesHeader {
                            header_size: (9 + optional - 5) as usize,
                            stream_id,
                            size: pes_length as usize,
                            pts: Some(pts),
                            dts: None,
                        },
                        p6,
                    ),
                )
            }
        },
    }
}

impl PesHeader {
    /// Parse a PES header at the cursor.  The cursor is left right after
    /// the timestamps; unread optional header bytes are accounted for in
    /// `header_size` but not consumed.
    pub fn try_new(reader: &mut Cursor) -> (r: Result<PesHeader, DemuxError>)
        requires
            old(reader).wf(),
        ensures
            final(reader).data == old(reader).data,
            final(reader).wf(),
            match spec_parse_pes_header(old(reader).data@, old(reader).pos as int) {
                Some((h, p)) => r == Ok::<PesHeader, DemuxError>(h) && final(reader).pos == p,
                None => r == Err::<PesHeader, DemuxError>(DemuxError::NotEnoughData),
            },
    {
        let start_code = match reader.read_be(3) {
            Some(v) => v,
            None => {
                return Err(DemuxError::NotEnoughData);
            },
        };
        if start_code != 1 {
            return Err(DemuxError::NotEnoughData);
        }
        let sid = match reader.read_u8() {
            Some(b) => b,
            None => {
                return Err(DemuxError::NotEnoughData);
            },
        };
        let stream_id = StreamId::from(sid);
        let pes_length = match reader.read_be(2) {
            Some(v) => v as usize,
            None => {
                return Err(DemuxError::NotEnoughData);
            },
        };
        // The first, fixed flag byte of the optional header.
        if !reader.skip(1) {
            return Err(DemuxError::NotEnoughData);
        }
        let flags = match reader.read_u8() {
            Some(b) => b,
            None => {
                return Err(DemuxError::NotEnoughData);
            },
        };
        let optional = match reader.read_u8() {
            Some(b) => b,
            None => {
                return Err(DemuxError::NotEnoughData);
            },
        };
        let pts_dts_flags = (flags / 64) % 4;
        let mut pts: Option<u64> = None;
        let mut dts: Option<u64> = None;
        let mut optional_remaining: usize = optional as usize;
        if pts_dts_flags == 2 || pts_dts_flags == 3 {
            match Self::read_pts(reader) {
                Some(v) => {
                    pts = Some(v);
                },
                None => {
                    return Err(DemuxError::NotEnoughData);
                },
            }
            if optional_remaining < 5 {
                return Err(DemuxError::NotEnoughData);
            }
            optional_remaining = optional_remaining - 5;
            if pts_dts_flags == 3 {
                match Self::read_pts(reader) {
                    Some(v) => {
                        dts = Some(v);
                    },
                    None => {
                        return Err(DemuxError::NotEnoughData);
                    },
                }
                if optional_remaining < 5 {
                    return Err(DemuxError::NotEnoughData);
                }
                optional_remaining = optional_remaining - 5;
            }
        }
        Ok(
            PesHeader {
                header_size: 9 + optional_remaining,
                stream_id,
                size: pes_length,
                pts,
                dts,
            },
        )
    }

    /// Read one packed 33-bit PES timestamp.
    pub fn read_pts(reader: &mut Cursor) -> (r: Option<u64>)
        requires
            old(reader).wf(),
        ensures
            final(reader).data == old(reader).data,
            final(reader).wf(),
            match spec_read_timestamp(old(reader).data@, old(reader).pos as int) {
                Some((v, p)) => r == Some(v) && v < 0x2_0000_0000 && final(reader).pos == p,
                None => r is None && final(reader).pos == old(reader).pos,
            },
    {
        let save = reader.pos;
        let b0 = match reader.read_u8() {
            Some(b) => b,
            None => {
                return None;
            },
        };
        let v1 = match reader.read_be(2) {
            Some(v) => v,
            None => {
                reader.pos = save;
                return None;
            },
        };
        let v2 = match reader.read_be(2) {
            Some(v) => v,
            None => {
                reader.pos = save;
                return None;
            },
        };
        Some(
            ((b0 / 2) % 8) as u64 * 0x4000_0000 + ((v1 / 2) % 0x8000) * 0x8000 + ((v2 / 2)
                % 0x8000),
        )
    }
}

} // verus!
