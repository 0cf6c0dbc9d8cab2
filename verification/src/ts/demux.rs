//! A table-only demultiplexer: it discovers the PAT and PMT and validates
//! PES headers, without reassembling payloads or emitting events.

use vstd::prelude::*;
use crate::reader::Cursor;
use crate::ts::error::DemuxError;
use crate::ts::packet_header::{spec_parse_packet_header, PacketHeader};
use crate::ts::pat::{spec_parse_pat, PAT};
use crate::ts::pes_header::{spec_parse_pes_header, PesHeader};
use crate::ts::pid::Pid;
use crate::ts::pid_map::{spec_find, PidMap};
use crate::ts::pmt::{spec_parse_pmt, PMT};
use crate::ts::stream_type::StreamType;
use crate::ts::{SIZE, SYNC_BYTE};

verus! {

/// Specification view of the table-only demultiplexer.
#[verifier::ext_equal]
pub struct DemuxView {
    pub pmt_pid: Option<Pid>,
    pub pcr_pid: Option<Pid>,
    pub streams: Seq<(Pid, StreamType)>,
}

/// Outcome of one packet on the table-only demultiplexer: the successor
/// state, or the error together with the state the failure left behind.
pub enum DemuxStep {
    Next(DemuxView),
    Stop(DemuxView, DemuxError),
}

/// Mirror of one packet: sync byte, header, PAT and PMT discovery, and a
/// PES-header validation on known elementary PIDs.
pub open spec fn spec_demux_step(st: DemuxView, chunk: Seq<u8>) -> DemuxStep {
    if chunk.len() < 1 {
        DemuxStep::Stop(st, DemuxError::NotEnoughData)
    } else if chunk[0] != SYNC_BYTE {
        DemuxStep::Stop(st, DemuxError::InvalidSyncByte { expected: SYNC_BYTE, found: chunk[0] })
    } else {
        match spec_parse_packet_header(chunk, 1) {
            None => DemuxStep::Stop(st, DemuxError::NotEnoughData),
            Some((h, pos)) => {
                let has_payload = h.adaptation_control is PayloadOnly || h.adaptation_control
                    is AdaptationFieldAndPayload;
                let after_pat = if h.pid == Pid::PAT {
                    let pos1 = if has_payload {
                        pos + 1
                    } else {
                        pos
                    };
                    if pos1 > chunk.len() {
                        None
                    } else {
                        match spec_parse_pat(chunk, pos1) {
                            None => None,
                            Some((progs, pend)) => {
                                if st.pmt_pid is None {
                                    if progs.len() == 0 {
                                        None
                                    } else {
                                        Some(
                                            (
                                                DemuxView {
                                                    pmt_pid: Some(progs[0].program_pid),
                                                    ..st
                                                },
                                                pend,
                                            ),
                                        )
                                    }
                                } else {
                                    Some((st, pend))
                                }
                            },
                        }
                    }
                } else {
                    Some((st, pos))
                };
                match after_pat {
                    None => DemuxStep::Stop(st, DemuxError::NotEnoughData),
                    Some((st2, pos2)) => {
                        let after_pmt = if st2.pmt_pid == Some(h.pid) {
                            let pos3 = if has_payload {
                                pos2 + 1
                            } else {
                                pos2
                            };
                            if pos3 > chunk.len() {
                                None
                            } else {
                                match spec_parse_pmt(chunk, pos3) {
                                    None => None,
                                    Some((pcr_pid, streams, pend)) => Some(
                                        (
                                            DemuxView {
                                                pcr_pid: Some(pcr_pid),
                                                streams: if st2.streams.len() == 0 {
                                                    streams
                                                } else {
                                                    st2.streams
                                                },
                                                ..st2
                                            },
                                            pend,
                                        ),
                                    ),
                                }
                            }
                        } else {
                            Some((st2, pos2))
                        };
                        match after_pmt {
                            None => DemuxStep::Stop(st2, DemuxError::NotEnoughData),
                            Some((st3, pos4)) => {
                                if spec_find(st3.streams, h.pid) is Some && has_payload
                                    && h.pusi {
                                    match spec_parse_pes_header(chunk, pos4) {
                                        None => DemuxStep::Stop(st3, DemuxError::NotEnoughData),
                                        Some(_) => DemuxStep::Next(st3),
                                    }
                                } else {
                                    DemuxStep::Next(st3)
                                }
                            },
                        }
                    },
                }
            },
        }
    }
}

/// Mirror of a whole push over the 188-byte packets of `s` from index `k`.
pub open spec fn spec_demux_push(st: DemuxView, s: Seq<u8>, k: int) -> DemuxStep
    decreases s.len() / 188 - k,
{
    if k < 0 || k >= s.len() / 188 {
        DemuxStep::Next(st)
    } else {
        match spec_demux_step(st, s.subrange(188 * k, 188 * k + 188)) {
            DemuxStep::Stop(st1, e) => DemuxStep::Stop(st1, e),
            DemuxStep::Next(st1) => spec_demux_push(st1, s, k + 1),
        }
    }
}

/// The table-only demultiplexer.
pub struct Demux {
    pub last_counter: u8,
    pub pmt_pid: Option<Pid>,
    pub pcr_pid: Option<Pid>,
    pub streams: PidMap<StreamType>,
}

impl Demux {
    pub open spec fn wf(self) -> bool {
        self.streams.wf()
    }

    pub open spec fn view(self) -> DemuxView {
        DemuxView { pmt_pid: self.pmt_pid, pcr_pid: self.pcr_pid, streams: self.streams@ }
    }

    pub fn new() -> (r: Demux)
        ensures
            r.wf(),
            r@.pmt_pid is None,
            r@.pcr_pid is None,
            r@.streams.len() == 0,
    {
        Demux { last_counter: 0, pmt_pid: None, pcr_pid: None, streams: PidMap::new() }
    }

    /// Walk one packet, as `spec_demux_step` describes.
    #[verifier::rlimit(60)]
    fn push_packet(&mut self, chunk: &Vec<u8>) -> (r: Result<(), DemuxError>)
        requires
            old(self).wf(),
        ensures
            final(self).wf(),
            final(self).last_counter == old(self).last_counter,
            match spec_demux_step(old(self)@, chunk@) {
                DemuxStep::Next(st) => r is Ok && final(self)@ == st,
                DemuxStep::Stop(st, e) => r == Err::<(), DemuxError>(e) && final(self)@ == st,
            },
    {
        let mut reader = Cursor::new(chunk);
        let sync_byte = match reader.read_u8() {
            Some(b) => b,
            None => {
                return Err(DemuxError::NotEnoughData);
            },
        };
        if sync_byte != SYNC_BYTE {
            return Err(DemuxError::InvalidSyncByte { expected: SYNC_BYTE, found: sync_byte });
        }
        let header = match PacketHeader::try_new(&mut reader) {
            Ok(h) => h,
            Err(e) => {
                return Err(e);
            },
        };
        let has_payload = header.adaptation_control.has_payload();
        if header.pid == Pid::PAT {
            if has_payload {
                if !reader.skip(1) {
                    return Err(DemuxError::NotEnoughData);
                }
            }
            let pat = match PAT::try_new(&mut reader) {
                Ok(p) => p,
                Err(e) => {
                    return Err(e);
                },
            };
            if self.pmt_pid.is_none() {
                if pat.programs.len() == 0 {
                    return Err(DemuxError::NotEnoughData);
                }
                self.pmt_pid = Some(pat.programs[0].program_pid);
            }
        }
        let is_pmt_pid = match self.pmt_pid {
            Some(p) => p == header.pid,
            None => false,
        };
        if is_pmt_pid {
            if has_payload {
                if !reader.skip(1) {
                    return Err(DemuxError::NotEnoughData);
                }
            }
            let pmt = match PMT::try_new(&mut reader) {
                Ok(p) => p,
                Err(e) => {
                    return Err(e);
                },
            };
            self.pcr_pid = Some(pmt.pcr_pid);
            if self.streams.is_empty() {
                self.streams = pmt.streams;
            }
        }
        if self.streams.contains_key(header.pid) {
            if has_payload && header.pusi {
                match PesHeader::try_new(&mut reader) {
                    Ok(_) => {},
                    Err(e) => {
                        return Err(e);
                    },
                }
            }
        }
        Ok(())
    }

    /// Push a buffer of whole 188-byte packets, stopping at the first
    /// malformed one.
    pub fn push(&mut self, buf: &Vec<u8>) -> (r: Result<(), DemuxError>)
        requires
            old(self).wf(),
        ensures
            final(self).wf(),
            match spec_demux_push(old(self)@, buf@, 0) {
                DemuxStep::Next(st) => r is Ok && final(self)@ == st,
                DemuxStep::Stop(st, e) => r == Err::<(), DemuxError>(e) && final(self)@ == st,
            },
    {
        let n = buf.len() / SIZE;
        let mut k: usize = 0;
        while k < n
            invariant
                self.wf(),
                k <= n,
                n == buf@.len() / 188,
                buf@.len() <= usize::MAX,
                spec_demux_push(old(self)@, buf@, 0) == spec_demux_push(self@, buf@, k as int),
            decreases n - k,
        {
            proof {
                assert(188 * (k + 1) <= 188 * (buf@.len() / 188) <= buf@.len());
            }
            let chunk = crate::ts::demuxer::copy_range(buf, SIZE * k, SIZE);
            let ghost pre = self@;
            match self.push_packet(&chunk) {
                Ok(()) => {},
                Err(e) => {
                    proof {
                        assert(spec_demux_push(pre, buf@, k as int) == DemuxStep::Stop(self@, e));
                    }
                    return Err(e);
                },
            }
            proof {
                assert(spec_demux_push(pre, buf@, k as int) == spec_demux_push(
                    self@,
                    buf@,
                    k + 1,
                ));
            }
            k = k + 1;
        }
        Ok(())
    }
}

} // verus!
