//! The Program Map Table: the PCR PID and the elementary-stream map.

use vstd::prelude::*;
use crate::reader::{spec_read_be, spec_read_u8, Cursor};
use crate::ts::error::DemuxError;
use crate::ts::pid::{spec_pid_from, Pid};
use crate::ts::pid_map::{spec_insert, PidMap};
use crate::ts::stream_type::{spec_stream_type_from, StreamType};

verus! {

/// The parsed PMT.  `streams` maps each elementary PID to its stream type,
/// in the order the section listed them; a repeated PID keeps the later
/// entry.
#[derive(Clone, Debug)]
pub struct PMT {
    pub table_id: u8,
    pub program_number: u16,
    pub pcr_pid: Pid,
    pub streams: PidMap<StreamType>,
}

/// Mirror of the elementary-stream loop.  `remain` counts the section
/// bytes left; each entry spends five bytes plus its descriptor length.
/// A descriptor running past the counted bytes is a parse failure.
pub open spec fn spec_parse_pmt_streams(
    s: Seq<u8>,
    pos: int,
    remain: int,
    acc: Seq<(Pid, StreamType)>,
) -> Option<(Seq<(Pid, StreamType)>, int)>
    decreases remain,
{
    if remain <= 0 {
        Some((acc, pos))
    } else {
        match spec_read_u8(s, pos) {
            None => None,
            Some((st, p1)) => match spec_read_be(s, p1, 2) {
                None => None,
                Some((pv, p2)) => match spec_read_be(s, p2, 2) {
                    None => None,
                    Some((ilv, p3)) => {
                        let info_length = ilv % 1024;
                        if p3 + info_length > s.len() {
                            None
                        } else if 5 + info_length > remain {
                            None
                        } else {
                            spec_parse_pmt_streams(
                                s,
                                p3 + info_length,
                                remain - 5 - info_length,
                                spec_insert(
                                    acc,
                                    spec_pid_from((pv % 8192) as u16),
                                    spec_stream_type_from(st),
                                ),
                            )
                        }
                    },
                },
            },
        }
    }
}

/// Mirror of the PMT parse.
pub open spec fn spec_parse_pmt(s: Seq<u8>, pos: int) -> Option<
    (Pid, Seq<(Pid, StreamType)>, int),
> {
    match spec_read_u8(s, pos) {
        None => None,
        Some((_table_id, p1)) => match spec_read_be(s, p1, 2) {
            None => None,
            Some((sl, p2)) => {
                let section_length = sl % 4096;
                match spec_read_be(s, p2, 2) {
                    None => None,
                    Some((_program_number, p3)) => match spec_read_u8(s, p3) {
                        None => None,
                        Some((reserved, p4)) => {
                            if (reserved / 64) % 4 != 3 {
                                None
                            } else if p4 + 2 > s.len() {
                                None
                            } else {
                                match spec_read_be(s, p4 + 2, 2) {
                                    None => None,
                                    Some((pcrv, p5)) => match spec_read_be(s, p5, 2) {
                                        None => None,
                                        Some((pil, p6)) => {
                                            let program_info_length = pil % 4096;
                                            if p6 + program_info_length > s.len() {
                                                None
                                            } else if section_length < 13 + program_info_length {
                                                None
                                            } else {
                                                match spec_parse_pmt_streams(
                                                    s,
                                                    p6 + program_info_length,
                                                    section_length - 13 - program_info_length,
                                                    Seq::empty(),
                                                ) {
                                                    None => None,
                                                    Some((streams, pend)) => Some(
                                                        (
                                                            spec_pid_from((pcrv % 8192) as u16),
                                                            streams,
                                                            pend,
                                                        ),
                                                    ),
                                                }
                                            }
                                        },
                                    },
                                }
                            }
                        },
                    },
                }
            },
        },
    }
}

impl PMT {
    /// Parse a PMT section at the cursor.
    pub fn try_new(reader: &mut Cursor) -> (r: Result<PMT, DemuxError>)
        requires
            old(reader).wf(),
        ensures
            final(reader).data == old(reader).data,
            final(reader).wf(),
            match spec_parse_pmt(old(reader).data@, old(reader).pos as int) {
                Some((pcr_pid, streams, p)) => r matches Ok(pmt) && pmt.pcr_pid == pcr_pid
                    && pmt.streams@ == streams && pmt.streams.wf() && final(reader).pos == p,
                None => r == Err::<PMT, DemuxError>(DemuxError::NotEnoughData),
            },
    {
        let table_id = match reader.read_u8() {
            Some(b) => b,
            None => {
                return Err(DemuxError::NotEnoughData);
            },
        };
        let section_length = match reader.read_be(2) {
            Some(v) => (v % 4096) as u16,
            None => {
                return Err(DemuxError::NotEnoughData);
            },
        };
        let program_number = match reader.read_be(2) {
            Some(v) => v as u16,
            None => {
                return Err(DemuxError::NotEnoughData);
            },
        };
        let reserved = match reader.read_u8() {
            Some(b) => b,
            None => {
                return Err(DemuxError::NotEnoughData);
            },
        };
        if (reserved / 64) % 4 != 3 {
            return Err(DemuxError::NotEnoughData);
        }
        // Section number and last section number.
        if !reader.skip(2) {
            return Err(DemuxError::NotEnoughData);
        }
        let pcr_pid = match reader.read_be(2) {
            Some(v) => Pid::from((v % 8192) as u16),
            None => {
                return Err(DemuxError::NotEnoughData);
            },
        };
        let program_info_length = match reader.read_be(2) {
            Some(v) => (v % 4096) as usize,
            None => {
                return Err(DemuxError::NotEnoughData);
            },
        };
        if !reader.skip(program_info_length) {
            return Err(DemuxError::NotEnoughData);
        }
        if (section_length as usize) < 13 + program_info_length {
            return Err(DemuxError::NotEnoughData);
        }
        let mut remain: usize = section_length as usize - 13 - program_info_length;
        let ghost s = reader.data@;
        let ghost pos0 = reader.pos as int;
        let ghost remain0 = remain as int;
        let mut streams: PidMap<StreamType> = PidMap::new();
        proof {
            assert(spec_parse_pmt(s, old(reader).pos as int) == (
            match spec_parse_pmt_streams(s, pos0, remain0, Seq::empty()) {
                None => None,
                Some((out, pend)) => Some((pcr_pid, out, pend)),
            }));
        }
        while remain > 0
            invariant
                reader.wf(),
                reader.data == old(reader).data,
                reader.data@ == s,
                streams.wf(),
                spec_parse_pmt(s, old(reader).pos as int) == (
                match spec_parse_pmt_streams(s, pos0, remain0, Seq::empty()) {
                    None => None,
                    Some((out, pend)) => Some((pcr_pid, out, pend)),
                }),
                match spec_parse_pmt_streams(s, reader.pos as int, remain as int, streams@) {
                    Some((out, pend)) => spec_parse_pmt_streams(s, pos0, remain0, Seq::empty())
                        == Some((out, pend)),
                    None => spec_parse_pmt_streams(s, pos0, remain0, Seq::empty()) is None,
                },
            decreases remain,
        {
            let stream_type = match reader.read_u8() {
                Some(b) => StreamType::from(b),
                None => {
                    return Err(DemuxError::NotEnoughData);
                },
            };
            let pid = match reader.read_be(2) {
                Some(v) => Pid::from((v % 8192) as u16),
                None => {
                    return Err(DemuxError::NotEnoughData);
                },
            };
            let info_length = match reader.read_be(2) {
                Some(v) => (v % 1024) as usize,
                None => {
                    return Err(DemuxError::NotEnoughData);
                },
            };
            if !reader.skip(info_length) {
                return Err(DemuxError::NotEnoughData);
            }
            if 5 + info_length > remain {
                return Err(DemuxError::NotEnoughData);
            }
            streams.insert(pid, stream_type);
            remain = remain - 5 - info_length;
        }
        Ok(PMT { table_id, program_number, pcr_pid, streams })
    }
}

} // verus!
