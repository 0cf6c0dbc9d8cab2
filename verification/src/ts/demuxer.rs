//! The stateful MPEG-TS demultiplexer: packet framing, table discovery,
//! continuity tracking, PES reassembly, and the event queue.
//!
//! Every state change of `push` is pinned by `spec_push`, a
//! specification-level mirror of the packet walk over the demuxer's view.

use vstd::prelude::*;
use crate::reader::Cursor;
use crate::ts::error::DemuxError;
use crate::ts::packet_header::{spec_parse_packet_header, PacketHeader};
use crate::ts::pat::{spec_parse_pat, PAT};
use crate::ts::pes_header::{spec_parse_pes_header, PesHeader, StreamId};
use crate::ts::pid::Pid;
use crate::ts::pid_map::{spec_find, spec_insert, PidMap};
use crate::ts::pmt::{spec_parse_pmt, PMT};
use crate::ts::stream_type::StreamType;
use crate::ts::{SIZE, SYNC_BYTE};

verus! {

/// One elementary stream being reassembled: the pending bytes and the PES
/// header fields they were opened with.
#[derive(Clone, Debug)]
pub struct PesBuffer {
    pub buffer: Vec<u8>,
    pub stream_id: StreamId,
    pub pts: Option<u64>,
    pub dts: Option<u64>,
}

/// Specification view of a `PesBuffer`.
#[verifier::ext_equal]
pub struct PesBufferView {
    pub buffer: Seq<u8>,
    pub stream_id: StreamId,
    pub pts: Option<u64>,
    pub dts: Option<u64>,
}

impl View for PesBuffer {
    type V = PesBufferView;

    open spec fn view(&self) -> PesBufferView {
        PesBufferView {
            buffer: self.buffer@,
            stream_id: self.stream_id,
            pts: self.pts,
            dts: self.dts,
        }
    }
}

/// A demultiplexed event, in the order the packets produced it.
#[derive(Clone, Debug)]
pub enum DemuxerEvent {
    /// The elementary-stream map, emitted once, on the first complete PMT.
    StreamDetails(PidMap<StreamType>),
    /// A completed video PES payload with its PTS and DTS.
    Video(StreamType, Vec<u8>, Option<u64>, Option<u64>),
    /// A completed audio PES payload with its PTS.
    Audio(StreamType, Vec<u8>, Option<u64>),
    /// A program clock reference from an adaptation field.
    ClockRef(u64),
}

/// Specification view of a `DemuxerEvent`.
#[verifier::ext_equal]
pub enum DemuxerEventView {
    StreamDetails(Seq<(Pid, StreamType)>),
    Video(StreamType, Seq<u8>, Option<u64>, Option<u64>),
    Audio(StreamType, Seq<u8>, Option<u64>),
    ClockRef(u64),
}

impl View for DemuxerEvent {
    type V = DemuxerEventView;

    open spec fn view(&self) -> DemuxerEventView {
        match self {
            DemuxerEvent::StreamDetails(m) => DemuxerEventView::StreamDetails(m@),
            DemuxerEvent::Video(st, d, pts, dts) => DemuxerEventView::Video(*st, d@, *pts, *dts),
            DemuxerEvent::Audio(st, d, pts) => DemuxerEventView::Audio(*st, d@, *pts),
            DemuxerEvent::ClockRef(pcr) => DemuxerEventView::ClockRef(*pcr),
        }
    }
}

/// Specification view of the program map kept by the demuxer.
#[verifier::ext_equal]
pub struct PmtView {
    pub pcr_pid: Pid,
    pub streams: Seq<(Pid, StreamType)>,
}

/// Specification view of the whole demuxer state.
#[verifier::ext_equal]
pub struct DemuxerView {
    pub pmt_pid: Option<Pid>,
    pub pcr_pid: Option<Pid>,
    pub pmt: Option<PmtView>,
    pub continuity: Seq<(Pid, u8)>,
    pub packets: Seq<(Pid, PesBufferView)>,
    pub queue: Seq<DemuxerEventView>,
}

/// The views of a packet-buffer entry list.
pub open spec fn pes_buffer_views(s: Seq<(Pid, PesBuffer)>) -> Seq<(Pid, PesBufferView)> {
    s.map_values(|e: (Pid, PesBuffer)| (e.0, e.1@))
}

/// The views of an event list.
pub open spec fn event_views(s: Seq<DemuxerEvent>) -> Seq<DemuxerEventView> {
    s.map_values(|e: DemuxerEvent| e@)
}

proof fn lemma_pbv_find(s: Seq<(Pid, PesBuffer)>, pid: Pid)
    ensures
        spec_find(pes_buffer_views(s), pid) == match spec_find(s, pid) {
            None => None::<PesBufferView>,
            Some(pb) => Some(pb@),
        },
    decreases s.len(),
{
    if s.len() > 0 {
        assert(pes_buffer_views(s)[0] == (s[0].0, s[0].1@));
        assert(pes_buffer_views(s).drop_first() =~= pes_buffer_views(s.drop_first()));
        lemma_pbv_find(s.drop_first(), pid);
    } else {
        assert(pes_buffer_views(s).len() == 0);
    }
}

proof fn lemma_pbv_index_of(s: Seq<(Pid, PesBuffer)>, pid: Pid)
    ensures
        crate::ts::pid_map::spec_index_of(pes_buffer_views(s), pid)
            == crate::ts::pid_map::spec_index_of(s, pid),
    decreases s.len(),
{
    if s.len() > 0 {
        assert(pes_buffer_views(s)[0] == (s[0].0, s[0].1@));
        assert(pes_buffer_views(s).drop_first() =~= pes_buffer_views(s.drop_first()));
        lemma_pbv_index_of(s.drop_first(), pid);
    } else {
        assert(pes_buffer_views(s).len() == 0);
    }
}

proof fn lemma_pbv_insert(s: Seq<(Pid, PesBuffer)>, pid: Pid, pb: PesBuffer)
    ensures
        pes_buffer_views(spec_insert(s, pid, pb)) =~= spec_insert(pes_buffer_views(s), pid, pb@),
{
    lemma_pbv_index_of(s, pid);
    match crate::ts::pid_map::spec_index_of(s, pid) {
        None => {
            assert(pes_buffer_views(s.push((pid, pb))) =~= pes_buffer_views(s).push((pid, pb@)));
        },
        Some(i) => {
            crate::ts::pid_map::lemma_index_of_range(s, pid);
            assert(pes_buffer_views(s.remove(i)) =~= pes_buffer_views(s).remove(i));
            assert(pes_buffer_views(s.remove(i).push((pid, pb))) =~= pes_buffer_views(
                s.remove(i),
            ).push((pid, pb@)));
        },
    }
}

/// What one packet does to the demuxer: the successor state (with any
/// events appended to the queue) or the error that stops the push.
pub enum StepResult {
    Next(DemuxerView),
    Stop(DemuxerView, DemuxError),
}

impl StepResult {
    pub open spec fn state(self) -> DemuxerView {
        match self {
            StepResult::Next(st) => st,
            StepResult::Stop(st, _) => st,
        }
    }

    pub open spec fn error(self) -> Option<DemuxError> {
        match self {
            StepResult::Next(_) => None,
            StepResult::Stop(_, e) => Some(e),
        }
    }
}

/// Whether the PMT, once seen, lists this PID as an elementary stream.
pub open spec fn spec_has_stream(st: DemuxerView, pid: Pid) -> bool {
    match st.pmt {
        Some(pmt) => spec_find(pmt.streams, pid) is Some,
        None => false,
    }
}

/// The continuity-counter update: the tracker always resynchronizes to
/// the counter the packet carried, so one violation warns once and the
/// following in-order packets pass.
pub open spec fn spec_check_continuity(cont: Seq<(Pid, u8)>, pid: Pid, cc: u8) -> Seq<(Pid, u8)> {
    spec_insert(cont, pid, cc)
}

/// Whether a packet arrived in order: the first packet on a PID always
/// does; afterwards the counter must advance by one modulo 16.
pub open spec fn spec_continuity_ok(cont: Seq<(Pid, u8)>, pid: Pid, cc: u8) -> bool {
    match spec_find(cont, pid) {
        Some(last) => cc == (if last < 0x0f {
            (last + 1) as u8
        } else {
            0u8
        }),
        None => true,
    }
}

/// The flush of a pending PES buffer when a new payload unit starts: an
/// audio or video event carrying the buffered bytes, or nothing for an
/// unknown stream id.
pub open spec fn spec_flush_event(
    stream_type: StreamType,
    pb: PesBufferView,
) -> Option<DemuxerEventView> {
    match pb.stream_id {
        StreamId::Audio(_) => Some(DemuxerEventView::Audio(stream_type, pb.buffer, pb.pts)),
        StreamId::Video(_) => Some(
            DemuxerEventView::Video(stream_type, pb.buffer, pb.pts, pb.dts),
        ),
        StreamId::Unknown(_) => None,
    }
}

/// Mirror of the PES-payload handling of one packet, from position `pos`
/// in the chunk: flush on a payload-unit start, parse the new header, and
/// append the remaining chunk bytes to the open buffer.
pub open spec fn spec_step_payload(
    st: DemuxerView,
    chunk: Seq<u8>,
    pos: int,
    h: PacketHeader,
) -> StepResult {
    let st1 = DemuxerView { continuity: spec_check_continuity(st.continuity, h.pid, h.continuity_counter), ..st };
    if h.adaptation_control is PayloadOnly || h.adaptation_control is AdaptationFieldAndPayload {
        if h.pusi {
            let flushed = match spec_find(st1.packets, h.pid) {
                Some(pb) => {
                    if pb.buffer.len() != 0 {
                        let stream_type = match st1.pmt {
                            Some(pmt) => spec_find(pmt.streams, h.pid)->Some_0,
                            None => StreamType::Unknown(0),
                        };
                        match spec_flush_event(stream_type, pb) {
                            Some(ev) => DemuxerView { queue: st1.queue.push(ev), ..st1 },
                            None => st1,
                        }
                    } else {
                        st1
                    }
                },
                None => st1,
            };
            match spec_parse_pes_header(chunk, pos) {
                None => StepResult::Stop(flushed, DemuxError::NotEnoughData),
                Some((ph, p2)) => {
                    let opened = DemuxerView {
                        packets: spec_insert(
                            flushed.packets,
                            h.pid,
                            PesBufferView {
                                buffer: chunk.subrange(p2, chunk.len() as int),
                                stream_id: ph.stream_id,
                                pts: ph.pts,
                                dts: ph.dts,
                            },
                        ),
                        ..flushed
                    };
                    StepResult::Next(opened)
                },
            }
        } else {
            match spec_find(st1.packets, h.pid) {
                Some(pb) => StepResult::Next(
                    DemuxerView {
                        packets: spec_insert(
                            st1.packets,
                            h.pid,
                            PesBufferView {
                                buffer: pb.buffer + chunk.subrange(pos, chunk.len() as int),
                                ..pb
                            },
                        ),
                        ..st1
                    },
                ),
                None => StepResult::Next(st1),
            }
        }
    } else {
        StepResult::Next(st1)
    }
}

/// Mirror of the PMT handling of one packet.
pub open spec fn spec_step_pmt(st: DemuxerView, chunk: Seq<u8>, pos: int, h: PacketHeader) -> (
    StepResult,
    int,
) {
    let pos1 = if h.adaptation_control is PayloadOnly || h.adaptation_control
        is AdaptationFieldAndPayload {
        pos + 1
    } else {
        pos
    };
    if pos1 > chunk.len() {
        (StepResult::Stop(st, DemuxError::NotEnoughData), pos1)
    } else {
        match spec_parse_pmt(chunk, pos1) {
            None => (StepResult::Stop(st, DemuxError::NotEnoughData), pos1),
            Some((pcr_pid, streams, pend)) => {
                let st1 = DemuxerView { pcr_pid: Some(pcr_pid), ..st };
                let st2 = if st1.pmt is None {
                    DemuxerView {
                        pmt: Some(PmtView { pcr_pid, streams }),
                        queue: st1.queue.push(DemuxerEventView::StreamDetails(streams)),
                        ..st1
                    }
                } else {
                    st1
                };
                (StepResult::Next(st2), pend)
            },
        }
    }
}

/// Mirror of the PAT handling of one packet.
pub open spec fn spec_step_pat(st: DemuxerView, chunk: Seq<u8>, pos: int, h: PacketHeader) -> (
    StepResult,
    int,
) {
    let pos1 = if h.adaptation_control is PayloadOnly || h.adaptation_control
        is AdaptationFieldAndPayload {
        pos + 1
    } else {
        pos
    };
    if pos1 > chunk.len() {
        (StepResult::Stop(st, DemuxError::NotEnoughData), pos1)
    } else {
        match spec_parse_pat(chunk, pos1) {
            None => (StepResult::Stop(st, DemuxError::NotEnoughData), pos1),
            Some((progs, pend)) => {
                if st.pmt_pid is None {
                    if progs.len() == 0 {
                        (StepResult::Stop(st, DemuxError::NotEnoughData), pend)
                    } else {
                        (
                            StepResult::Next(
                                DemuxerView { pmt_pid: Some(progs[0].program_pid), ..st },
                            ),
                            pend,
                        )
                    }
                } else {
                    (StepResult::Next(st), pend)
                }
            },
        }
    }
}

/// Mirror of one 188-byte packet: sync check, header, clock reference,
/// tables, and PES payload.
pub open spec fn spec_step(st: DemuxerView, chunk: Seq<u8>) -> StepResult {
    if chunk.len() < 1 {
        StepResult::Stop(st, DemuxError::NotEnoughData)
    } else if chunk[0] != SYNC_BYTE {
        StepResult::Stop(
            st,
            DemuxError::InvalidSyncByte { expected: SYNC_BYTE, found: chunk[0] },
        )
    } else {
        match spec_parse_packet_header(chunk, 1) {
            None => StepResult::Stop(st, DemuxError::NotEnoughData),
            Some((h, pos)) => {
                let st1 = match h.pcr {
                    Some(pcr) => DemuxerView {
                        queue: st.queue.push(DemuxerEventView::ClockRef(pcr)),
                        ..st
                    },
                    None => st,
                };
                let after_pat = if h.pid == Pid::PAT {
                    spec_step_pat(st1, chunk, pos, h)
                } else {
                    (StepResult::Next(st1), pos)
                };
                match after_pat.0 {
                    StepResult::Stop(st2, e) => StepResult::Stop(st2, e),
                    StepResult::Next(st2) => {
                        let after_pmt = if st2.pmt_pid == Some(h.pid) {
                            spec_step_pmt(st2, chunk, after_pat.1, h)
                        } else {
                            (StepResult::Next(st2), after_pat.1)
                        };
                        match after_pmt.0 {
                            StepResult::Stop(st3, e) => StepResult::Stop(st3, e),
                            StepResult::Next(st3) => {
                                if spec_has_stream(st3, h.pid) {
                                    spec_step_payload(st3, chunk, after_pmt.1, h)
                                } else {
                                    StepResult::Next(st3)
                                }
                            },
                        }
                    },
                }
            },
        }
    }
}

/// Mirror of a whole push: the packets of `s` from index `k` on, each 188
/// bytes, applied in order until one fails.
pub open spec fn spec_push(st: DemuxerView, s: Seq<u8>, k: int) -> StepResult
    decreases s.len() / 188 - k,
{
    if k < 0 || k >= s.len() / 188 {
        StepResult::Next(st)
    } else {
        match spec_step(st, s.subrange(188 * k, 188 * k + 188)) {
            StepResult::Stop(st1, e) => StepResult::Stop(st1, e),
            StepResult::Next(st1) => spec_push(st1, s, k + 1),
        }
    }
}

/// A push never mis-reports a sync error: from any state reached after
/// the earlier packets (each of which stepped the machine forward), a
/// packet whose first byte is not 0x47 stops the push with exactly
/// `InvalidSyncByte`, the state untouched by the bad packet; and a sync
/// error is the only error that names the sync byte.
pub proof fn lemma_push_sync_byte(st: DemuxerView, s: Seq<u8>, k: int)
    requires
        0 <= k < s.len() / 188,
        s.subrange(188 * k, 188 * k + 188)[0] != SYNC_BYTE,
    ensures
        spec_push(st, s, k) == StepResult::Stop(
            st,
            DemuxError::InvalidSyncByte {
                expected: SYNC_BYTE,
                found: s.subrange(188 * k, 188 * k + 188)[0],
            },
        ),
{
}

/// Conversely, a well-formed packet never raises the sync error: every
/// failure of the header, section or PES parses is `NotEnoughData`.
pub proof fn lemma_step_error_kinds(st: DemuxerView, chunk: Seq<u8>)
    requires
        chunk.len() >= 1,
        chunk[0] == SYNC_BYTE,
    ensures
        spec_step(st, chunk).error() matches Some(e) ==> e == DemuxError::NotEnoughData,
{
}

/// The stateful demultiplexer.
pub struct Demuxer {
    pub pmt_pid: Option<Pid>,
    pub pcr_pid: Option<Pid>,
    pub pmt: Option<PMT>,
    pub return_queue: Vec<DemuxerEvent>,
    pub continutiy_check: PidMap<u8>,
    pub packets: PidMap<PesBuffer>,
}

impl Demuxer {
    pub open spec fn wf(self) -> bool {
        &&& self.continutiy_check.wf()
        &&& self.packets.wf()
        &&& match self.pmt {
            Some(pmt) => pmt.streams.wf(),
            None => true,
        }
    }

    pub open spec fn view(self) -> DemuxerView {
        DemuxerView {
            pmt_pid: self.pmt_pid,
            pcr_pid: self.pcr_pid,
            pmt: match self.pmt {
                Some(pmt) => Some(PmtView { pcr_pid: pmt.pcr_pid, streams: pmt.streams@ }),
                None => None,
            },
            continuity: self.continutiy_check@,
            packets: pes_buffer_views(self.packets@),
            queue: event_views(self.return_queue@),
        }
    }

    pub fn new() -> (r: Demuxer)
        ensures
            r.wf(),
            r@.pmt_pid is None,
            r@.pcr_pid is None,
            r@.pmt is None,
            r@.continuity.len() == 0,
            r@.packets.len() == 0,
            r@.queue.len() == 0,
    {
        let r = Demuxer {
            pmt_pid: None,
            pcr_pid: None,
            pmt: None,
            return_queue: Vec::new(),
            continutiy_check: PidMap::new(),
            packets: PidMap::new(),
        };
        proof {
            assert(pes_buffer_views(r.packets@) =~= Seq::<(Pid, PesBufferView)>::empty());
            assert(event_views(r.return_queue@) =~= Seq::<DemuxerEventView>::empty());
        }
        r
    }

    /// Whether the PMT, once seen, lists this PID.
    pub fn has_stream(&self, pid: &Pid) -> (r: bool)
        ensures
            r == spec_has_stream(self@, *pid),
    {
        match &self.pmt {
            Some(pmt) => pmt.streams.contains_key(*pid),
            None => false,
        }
    }

    /// Track the per-PID continuity counter: the received counter is
    /// stored, and the result reports whether the packet arrived in
    /// order (the first packet on a PID always does).
    pub fn check_continutiy(&mut self, packet_header: &PacketHeader) -> (r: bool)
        requires
            old(self).wf(),
        ensures
            final(self).wf(),
            final(self)@ == (DemuxerView {
                continuity: spec_check_continuity(
                    old(self)@.continuity,
                    packet_header.pid,
                    packet_header.continuity_counter,
                ),
                ..old(self)@
            }),
            spec_find(final(self)@.continuity, packet_header.pid) == Some(
                packet_header.continuity_counter,
            ),
            r == spec_continuity_ok(
                old(self)@.continuity,
                packet_header.pid,
                packet_header.continuity_counter,
            ),
    {
        let pid = packet_header.pid;
        let ok = match self.continutiy_check.get(pid) {
            Some(last) => {
                let expected: u8 = if *last < 0x0f {
                    *last + 1
                } else {
                    0
                };
                packet_header.continuity_counter == expected
            },
            None => true,
        };
        self.continutiy_check.insert(pid, packet_header.continuity_counter);
        proof {
            assert(self@ =~= DemuxerView {
                continuity: spec_check_continuity(
                    old(self)@.continuity,
                    pid,
                    packet_header.continuity_counter,
                ),
                ..old(self)@
            });
        }
        ok
    }

    /// Process one 188-byte packet, exactly as `spec_step` describes.
    #[verifier::rlimit(100)]
    #[verifier::spinoff_prover]
    pub fn push_packet(&mut self, chunk: &Vec<u8>) -> (r: Result<(), DemuxError>)
        requires
            old(self).wf(),
        ensures
            final(self).wf(),
            match spec_step(old(self)@, chunk@) {
                StepResult::Next(st) => r is Ok && final(self)@ == st,
                StepResult::Stop(st, e) => r == Err::<(), DemuxError>(e) && final(self)@ == st,
            },
    {
        let ghost st0 = self@;
        let mut reader = Cursor::new(chunk);
        let sync_byte = match reader.read_u8() {
            Some(b) => b,
            None => {
                return Err(DemuxError::NotEnoughData);
            },
        };
        if sync_byte != SYNC_BYTE {
            return Err(DemuxError::InvalidSyncByte { expected: SYNC_BYTE, found: sync_byte });
        }
        let header = match PacketHeader::try_new(&mut reader) {
            Ok(h) => h,
            Err(e) => {
                return Err(e);
            },
        };
        // The clock reference, before any table handling.
        if let Some(pcr) = header.pcr {
            self.return_queue.push(DemuxerEvent::ClockRef(pcr));
        }
        let ghost st1 = (match header.pcr {
            Some(pcr) => DemuxerView {
                queue: st0.queue.push(DemuxerEventView::ClockRef(pcr)),
                ..st0
            },
            None => st0,
        });
        proof {
            assert(event_views(self.return_queue@) =~= st1.queue);
            assert(self@ =~= st1);
        }

        let ghost pos_a = spec_parse_packet_header(chunk@, 1)->Some_0.1;
        if header.pid == Pid::PAT {
            if header.adaptation_control.has_payload() {
                if !reader.skip(1) {
                    return Err(DemuxError::NotEnoughData);
                }
            }
            let pat = match PAT::try_new(&mut reader) {
                Ok(p) => p,
                Err(e) => {
                    return Err(e);
                },
            };
            if self.pmt_pid.is_none() {
                if pat.programs.len() == 0 {
                    return Err(DemuxError::NotEnoughData);
                }
                self.pmt_pid = Some(pat.programs[0].program_pid);
            }
        }
        let ghost after_pat = (if header.pid == Pid::PAT {
            spec_step_pat(st1, chunk@, pos_a, header)
        } else {
            (StepResult::Next(st1), pos_a)
        });
        let ghost st2 = after_pat.0->Next_0;
        proof {
            assert(after_pat.0 is Next);
            assert(self@ =~= st2);
            assert(reader.pos == after_pat.1);
        }

        let is_pmt_pid = match self.pmt_pid {
            Some(p) => p == header.pid,
            None => false,
        };
        if is_pmt_pid {
            if header.adaptation_control.has_payload() {
                if !reader.skip(1) {
                    return Err(DemuxError::NotEnoughData);
                }
            }
            let pmt = match PMT::try_new(&mut reader) {
                Ok(p) => p,
                Err(e) => {
                    return Err(e);
                },
            };
            self.pcr_pid = Some(pmt.pcr_pid);
            if self.pmt.is_none() {
                let details = pmt.streams.duplicate();
                self.return_queue.push(DemuxerEvent::StreamDetails(details));
                self.pmt = Some(pmt);
            }
        }
        let ghost after_pmt = (if st2.pmt_pid == Some(header.pid) {
            spec_step_pmt(st2, chunk@, after_pat.1, header)
        } else {
            (StepResult::Next(st2), after_pat.1)
        });
        let ghost st3 = after_pmt.0->Next_0;
        proof {
            assert(after_pmt.0 is Next);
            if st2.pmt_pid == Some(header.pid) && st2.pmt is None {
                assert(event_views(self.return_queue@) =~= st3.queue);
            }
            assert(self@ =~= st3);
            assert(reader.pos == after_pmt.1);
        }

        if self.has_stream(&header.pid) {
            let _in_order = self.check_continutiy(&header);
            let ghost st4 = (DemuxerView {
                continuity: spec_check_continuity(
                    st3.continuity,
                    header.pid,
                    header.continuity_counter,
                ),
                ..st3
            });
            proof {
                assert(self@ =~= st4);
            }
            if header.adaptation_control.has_payload() {
                if header.pusi {
                    let mut flush_event: Option<DemuxerEvent> = None;
                    proof {
                        lemma_pbv_find(self.packets@, header.pid);
                    }
                    match self.packets.get(header.pid) {
                        Some(pb) => {
                            if pb.buffer.len() != 0 {
                                let stream_type = match &self.pmt {
                                    Some(pmt) => match pmt.streams.get(header.pid) {
                                        Some(st) => *st,
                                        None => StreamType::Unknown(0),
                                    },
                                    None => StreamType::Unknown(0),
                                };
                                match pb.stream_id {
                                    StreamId::Audio(_) => {
                                        flush_event = Some(
                                            DemuxerEvent::Audio(
                                                stream_type,
                                                clone_bytes(&pb.buffer),
                                                pb.pts,
                                            ),
                                        );
                                    },
                                    StreamId::Video(_) => {
                                        flush_event = Some(
                                            DemuxerEvent::Video(
                                                stream_type,
                                                clone_bytes(&pb.buffer),
                                                pb.pts,
                                                pb.dts,
                                            ),
                                        );
                                    },
                                    StreamId::Unknown(_) => {},
                                }
                            }
                        },
                        None => {},
                    }
                    if let Some(ev) = flush_event {
                        self.return_queue.push(ev);
                    }
                    let ghost st5 = (match spec_find(st4.packets, header.pid) {
                        Some(pbv) => {
                            if pbv.buffer.len() != 0 {
                                let stream_type = (match st4.pmt {
                                    Some(pmt) => spec_find(pmt.streams, header.pid)->Some_0,
                                    None => StreamType::Unknown(0),
                                });
                                match spec_flush_event(stream_type, pbv) {
                                    Some(ev) => DemuxerView { queue: st4.queue.push(ev), ..st4 },
                                    None => st4,
                                }
                            } else {
                                st4
                            }
                        },
                        None => st4,
                    });
                    proof {
                        assert(event_views(self.return_queue@) =~= st5.queue);
                        assert(self@ =~= st5);
                    }
                    let pes_header = match PesHeader::try_new(&mut reader) {
                        Ok(h) => h,
                        Err(e) => {
                            return Err(e);
                        },
                    };
                    let rest = reader.read_remaining();
                    let pb = PesBuffer {
                        buffer: rest,
                        stream_id: pes_header.stream_id,
                        pts: pes_header.pts,
                        dts: pes_header.dts,
                    };
                    proof {
                        lemma_pbv_insert(self.packets@, header.pid, pb);
                    }
                    self.packets.insert(header.pid, pb);
                } else {
                    let mut rest = reader.read_remaining();
                    proof {
                        lemma_pbv_find(self.packets@, header.pid);
                    }
                    let ghost packets0 = self.packets@;
                    match self.packets.take(header.pid) {
                        Some(mut pb) => {
                            pb.buffer.append(&mut rest);
                            proof {
                                crate::ts::pid_map::lemma_remove_key_absent(
                                    self.packets@,
                                    header.pid,
                                );
                                lemma_pbv_insert(packets0, header.pid, pb);
                            }
                            self.packets.insert(header.pid, pb);
                            proof {
                                assert(self.packets@ =~= crate::ts::pid_map::spec_insert(
                                    packets0,
                                    header.pid,
                                    pb,
                                ));
                            }
                        },
                        None => {},
                    }
                }
            }
        }
        Ok(())
    }

    /// Push a buffer of whole 188-byte packets.  On success the queued
    /// events are drained and returned; on the first bad packet the call
    /// stops with its error and keeps the events queued so far.
    pub fn push(&mut self, buf: &Vec<u8>) -> (r: Result<Vec<DemuxerEvent>, DemuxError>)
        requires
            old(self).wf(),
        ensures
            final(self).wf(),
            match spec_push(old(self)@, buf@, 0) {
                StepResult::Next(st) => r matches Ok(events) && event_views(events@) == st.queue
                    && final(self)@ == (DemuxerView {
                    queue: Seq::<DemuxerEventView>::empty(),
                    ..st
                }),
                StepResult::Stop(st, e) => r == Err::<Vec<DemuxerEvent>, DemuxError>(e)
                    && final(self)@ == st,
            },
    {
        let n = buf.len() / SIZE;
        let mut k: usize = 0;
        proof {
            assert(n == buf@.len() / 188);
        }
        while k < n
            invariant
                self.wf(),
                k <= n,
                n == buf@.len() / 188,
                buf@.len() <= usize::MAX,
                spec_push(old(self)@, buf@, 0) == spec_push(self@, buf@, k as int),
            decreases n - k,
        {
            proof {
                assert(188 * (k + 1) <= 188 * (buf@.len() / 188) <= buf@.len());
            }
            let chunk = copy_range(buf, SIZE * k, SIZE);
            let ghost pre = self@;
            match self.push_packet(&chunk) {
                Ok(()) => {},
                Err(e) => {
                    proof {
                        assert(spec_push(pre, buf@, k as int) == StepResult::Stop(self@, e));
                    }
                    return Err(e);
                },
            }
            proof {
                assert(spec_push(pre, buf@, k as int) == spec_push(self@, buf@, k + 1));
            }
            k = k + 1;
        }
        let mut events: Vec<DemuxerEvent> = Vec::new();
        core::mem::swap(&mut events, &mut self.return_queue);
        proof {
            assert(event_views(self.return_queue@) =~= Seq::<DemuxerEventView>::empty());
        }
        Ok(events)
    }
}

/// Copy the `len` bytes of `v` starting at `start` into a fresh vector.
pub fn copy_range(v: &Vec<u8>, start: usize, len: usize) -> (r: Vec<u8>)
    requires
        start + len <= v@.len(),
    ensures
        r@ == v@.subrange(start as int, start + len),
{
    let mut out: Vec<u8> = Vec::new();
    let mut i: usize = 0;
    let vlen = v.len();
    proof {
        assert(out@ =~= v@.subrange(start as int, start as int));
    }
    while i < len
        invariant
            i <= len,
            start + len <= vlen,
            vlen == v@.len(),
            out@ == v@.subrange(start as int, start + i),
        decreases len - i,
    {
        let b = v[start + i];
        out.push(b);
        proof {
            assert(v@.subrange(start as int, start + i + 1) =~= v@.subrange(
                start as int,
                start + i,
            ).push(b));
        }
        i = i + 1;
    }
    out
}

/// Copy a byte vector.
fn clone_bytes(v: &Vec<u8>) -> (r: Vec<u8>)
    ensures
        r@ == v@,
{
    let mut out: Vec<u8> = Vec::new();
    let mut i: usize = 0;
    while i < v.len()
        invariant
            i <= v@.len(),
            out@ == v@.subrange(0, i as int),
        decreases v@.len() - i,
    {
        let b = v[i];
        out.push(b);
        proof {
            assert(v@.subrange(0, i + 1) =~= v@.subrange(0, i as int).push(b));
        }
        i = i + 1;
    }
    proof {
        assert(v@.subrange(0, v@.len() as int) =~= v@);
    }
    out
}

} // verus!
