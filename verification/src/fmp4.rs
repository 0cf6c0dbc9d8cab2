//! The fMP4 fragmenter's clock and segmentation logic: PCR recovery and
//! wrap-safe timeline translation, the paired-sample rule for video
//! access units, and the keyframe-driven partial and segment boundaries.

pub mod boxes;

use vstd::prelude::*;
use crate::codec::h264::{unit_views, Unit, UnitType, UnitView};
use crate::hls::segment_store::SegmentStore;
use crate::{HZ, PCR_CYCLE};

verus! {

/// The wrap-safe delta `(x - y + PCR_CYCLE) mod PCR_CYCLE` on the 33-bit
/// clock.
pub open spec fn spec_pcr_delta(x: int, y: int) -> int {
    ((x - y) + PCR_CYCLE) % (PCR_CYCLE as int)
}

/// The wrap-safe delta always lands inside one clock cycle, and it is the
/// plain difference whenever `y` is at most `x` and `x` has not wrapped
/// past half a cycle beyond `y`.
pub proof fn lemma_pcr_delta(x: int, y: int)
    requires
        0 <= x < PCR_CYCLE,
        0 <= y < PCR_CYCLE,
    ensures
        0 <= spec_pcr_delta(x, y) < PCR_CYCLE,
        y <= x < y + PCR_CYCLE / 2 ==> spec_pcr_delta(x, y) == x - y,
{
    if y <= x {
        assert(0 <= x - y < PCR_CYCLE);
        assert((x - y) + PCR_CYCLE == 1 * (PCR_CYCLE as int) + (x - y));
        assert(((x - y) + PCR_CYCLE) % (PCR_CYCLE as int) == x - y) by {
            vstd::arithmetic::div_mod::lemma_mod_multiples_vanish(1, x - y, PCR_CYCLE as int);
        }
    } else {
        assert(0 <= (x - y) + PCR_CYCLE < PCR_CYCLE);
        assert(((x - y) + PCR_CYCLE) % (PCR_CYCLE as int) == (x - y) + PCR_CYCLE) by {
            vstd::arithmetic::div_mod::lemma_small_mod(
                ((x - y) + PCR_CYCLE) as nat,
                PCR_CYCLE as nat,
            );
        }
    }
}

/// Compute the wrap-safe delta on 33-bit clock values.
pub fn pcr_delta(x: u64, y: u64) -> (r: u64)
    requires
        x < PCR_CYCLE,
        y < PCR_CYCLE,
    ensures
        r == spec_pcr_delta(x as int, y as int),
        r < PCR_CYCLE,
{
    proof {
        lemma_pcr_delta(x as int, y as int);
    }
    if x >= y {
        proof {
            assert(((x - y) + PCR_CYCLE) % (PCR_CYCLE as int) == x - y) by {
                vstd::arithmetic::div_mod::lemma_mod_multiples_vanish(
                    1,
                    x as int - y as int,
                    PCR_CYCLE as int,
                );
            }
        }
        x - y
    } else {
        (x + PCR_CYCLE) - y
    }
}

/// One video access unit waiting in the paired-sample pipeline: its
/// keyframe flag, the retained length-prefixed slices, its translated
/// timestamp, its composition offset, and its program date-time.
pub struct VideoSlot {
    pub keyframe: bool,
    pub content: Vec<u8>,
    pub timestamp: u64,
    pub cts: u64,
    pub program_date_time: u64,
}

/// Specification view of a slot.
#[verifier::ext_equal]
pub struct VideoSlotView {
    pub keyframe: bool,
    pub content: Seq<u8>,
    pub timestamp: u64,
    pub cts: u64,
    pub program_date_time: u64,
}

impl View for VideoSlot {
    type V = VideoSlotView;

    open spec fn view(&self) -> VideoSlotView {
        VideoSlotView {
            keyframe: self.keyframe,
            content: self.content@,
            timestamp: self.timestamp,
            cts: self.cts,
            program_date_time: self.program_date_time,
        }
    }
}

/// The retained slices of an access unit: IDR and non-IDR picture units,
/// each length-prefixed with a 32-bit count of its serialized bytes.
pub open spec fn spec_au_content(units: Seq<UnitView>) -> Seq<u8>
    decreases units.len(),
{
    if units.len() == 0 {
        Seq::empty()
    } else {
        let rest = spec_au_content(units.drop_first());
        let u = units[0];
        if u.kind == UnitType::IdrPicture || u.kind == UnitType::NonIdrPicture {
            let bytes = crate::codec::h264::spec_unit_bytes(u);
            crate::codec::h265::spec_u32_be(bytes.len() as u32) + bytes + rest
        } else {
            rest
        }
    }
}

/// Whether any retained unit is an IDR picture.
pub open spec fn spec_au_keyframe(units: Seq<UnitView>) -> bool {
    exists|i: int| 0 <= i < units.len() && units[i].kind == UnitType::IdrPicture
}

/// Assemble an access unit: keep the IDR and non-IDR picture units,
/// length-prefix each, and report whether a keyframe is among them.
#[verifier::loop_isolation(false)]
#[verifier::rlimit(60)]
pub fn assemble_access_unit(units: &Vec<Unit>) -> (r: (Vec<u8>, bool))
    requires
        forall|i: int| 0 <= i < units@.len() ==> (#[trigger] units@[i])@.wf(),
        forall|i: int|
            0 <= i < units@.len() ==> (#[trigger] units@[i])@.data.len() + 1 <= u32::MAX,
    ensures
        r.0@ == spec_au_content(unit_views(units@)),
        r.1 == spec_au_keyframe(unit_views(units@)),
{
    let mut content: Vec<u8> = Vec::new();
    let mut keyframe = false;
    let n = units.len();
    let mut i: usize = n;
    proof {
        assert(unit_views(units@).skip(n as int) =~= Seq::<UnitView>::empty());
    }
    // Build from the back so the specification's front-based recursion
    // lines up with each prepend.
    let ghost uv = unit_views(units@);
    let mut tail: Vec<u8> = Vec::new();
    while i > 0
        invariant
            i <= n,
            n == units@.len(),
            tail@ == spec_au_content(uv.skip(i as int)),
            keyframe == (exists|j: int|
                i <= j < units@.len() && uv[j].kind == UnitType::IdrPicture),
        decreases i,
    {
        i = i - 1;
        proof {
            assert(uv[i as int] == units@[i as int]@);
            assert(uv.skip(i as int)[0] == uv[i as int]);
            assert(uv.skip(i as int).drop_first() =~= uv.skip(i + 1));
        }
        let u = &units[i];
        let is_idr = u.kind == UnitType::IdrPicture;
        let is_pic = is_idr || u.kind == UnitType::NonIdrPicture;
        if is_pic {
            let bytes = u.to_bytes();
            let mut piece: Vec<u8> = Vec::new();
            crate::codec::h265::push_u32_be(&mut piece, bytes.len() as u32);
            crate::codec::h264::append_bytes(&mut piece, &bytes);
            crate::codec::h264::append_bytes(&mut piece, &tail);
            proof {
                assert(piece@ =~= spec_au_content(uv.skip(i as int)));
            }
            tail = piece;
        }
        if is_idr {
            keyframe = true;
        }
        proof {
            if !is_pic {
                assert(tail@ =~= spec_au_content(uv.skip(i as int)));
            }
        }
    }
    proof {
        assert(uv.skip(0) =~= uv);
    }
    (tail, keyframe)
}

/// The fragmenter's clock and pairing state.
pub struct Mp4fWriter {
    pub latest_pcr_value: Option<u64>,
    pub latest_pcr_timestamp_90khz: u64,
    pub latest_pcr_datetime: Option<u64>,
    pub partial_begin_timestamp: Option<u32>,
    pub part_duration: u32,
    pub initialization_segment_dispatched: bool,
    pub current_video: Option<VideoSlot>,
    pub next_video: Option<VideoSlot>,
}

impl Mp4fWriter {
    pub fn new(part_duration: u32) -> (r: Mp4fWriter)
        ensures
            r.latest_pcr_value is None,
            r.latest_pcr_timestamp_90khz == 0,
            r.latest_pcr_datetime is None,
            r.partial_begin_timestamp is None,
            r.part_duration == part_duration,
            !r.initialization_segment_dispatched,
            r.current_video is None,
            r.next_video is None,
    {
        Mp4fWriter {
            latest_pcr_value: None,
            latest_pcr_timestamp_90khz: 0,
            latest_pcr_datetime: None,
            partial_begin_timestamp: None,
            part_duration,
            initialization_segment_dispatched: false,
            current_video: None,
            next_video: None,
        }
    }

    /// Fold a new program clock reference into the recovered timeline:
    /// the reading is shifted one second into the past, the monotonic
    /// 90 kHz timestamp advances by the wrap-safe delta, and the wall
    /// clock anchor advances by the same span (the first reading anchors
    /// one second before `now_nanos`).
    pub fn handle_pcr(&mut self, pcr: u64, now_nanos: u64)
        requires
            pcr < PCR_CYCLE,
            old(self).latest_pcr_value matches Some(v) ==> v < PCR_CYCLE,
            old(self).latest_pcr_timestamp_90khz <= u64::MAX - PCR_CYCLE,
            old(self).latest_pcr_datetime matches Some(d) ==> d <= u64::MAX
                - 0x200_0000_0000_0000,
            now_nanos <= u64::MAX - 0x200_0000_0000_0000,
        ensures
            ({
                let pcr_value = spec_pcr_delta(pcr as int, HZ as int);
                &&& final(self).latest_pcr_value == Some(pcr_value as u64)
                &&& pcr_value < PCR_CYCLE
                &&& (match old(self).latest_pcr_value {
                    Some(last) => {
                        let diff = spec_pcr_delta(pcr_value, last as int);
                        &&& final(self).latest_pcr_timestamp_90khz
                            == old(self).latest_pcr_timestamp_90khz + diff
                        &&& (old(self).latest_pcr_datetime matches Some(d)
                            ==> final(self).latest_pcr_datetime
                            == Some((d + diff * 100000 / 9) as u64))
                    },
                    None => {
                        &&& final(self).latest_pcr_timestamp_90khz == old(
                            self,
                        ).latest_pcr_timestamp_90khz
                        &&& (old(self).latest_pcr_datetime is None
                            ==> final(self).latest_pcr_datetime == Some(
                            (if now_nanos >= 1000000000 {
                                (now_nanos - 1000000000) as u64
                            } else {
                                0u64
                            }),
                        ))
                    },
                })
                &&& final(self).partial_begin_timestamp == old(self).partial_begin_timestamp
                &&& final(self).part_duration == old(self).part_duration
                &&& final(self).initialization_segment_dispatched
                    == old(self).initialization_segment_dispatched
                &&& final(self).current_video == old(self).current_video
                &&& final(self).next_video == old(self).next_video
            }),
    {
        proof {
            lemma_pcr_delta(pcr as int, HZ as int);
        }
        let pcr_value = pcr_delta(pcr, HZ as u64);
        match self.latest_pcr_value {
            Some(last) => {
                proof {
                    lemma_pcr_delta(pcr_value as int, last as int);
                }
                let diff = pcr_delta(pcr_value, last);
                self.latest_pcr_timestamp_90khz = self.latest_pcr_timestamp_90khz + diff;
                match self.latest_pcr_datetime {
                    Some(d) => {
                        proof {
                            assert(diff * 100000 / 9 < 0x200_0000_0000_0000);
                        }
                        self.latest_pcr_datetime = Some(d + diff * 100000 / 9);
                    },
                    None => {},
                }
            },
            None => {
                match self.latest_pcr_datetime {
                    Some(_) => {},
                    None => {
                        if now_nanos >= 1000000000 {
                            self.latest_pcr_datetime = Some(now_nanos - 1000000000);
                        } else {
                            self.latest_pcr_datetime = Some(0);
                        }
                    },
                }
            },
        }
        self.latest_pcr_value = Some(pcr_value);
    }

    /// Fold a clock reference in, anchoring the first reading on the
    /// machine's wall clock.  The clock reading is outside influence, so
    /// only its presence is promised: the recovered value and timestamp
    /// behave exactly as in `handle_pcr`, and after the first reading a
    /// date-time anchor is set to some in-range instant.
    pub fn handle_pcr_now(&mut self, pcr: u64)
        requires
            pcr < PCR_CYCLE,
            old(self).latest_pcr_value matches Some(v) ==> v < PCR_CYCLE,
            old(self).latest_pcr_timestamp_90khz <= u64::MAX - PCR_CYCLE,
            old(self).latest_pcr_datetime matches Some(d) ==> d <= u64::MAX
                - 0x200_0000_0000_0000,
        ensures
            ({
                let pcr_value = spec_pcr_delta(pcr as int, HZ as int);
                &&& final(self).latest_pcr_value == Some(pcr_value as u64)
                &&& (match old(self).latest_pcr_value {
                    Some(last) => {
                        let diff = spec_pcr_delta(pcr_value, last as int);
                        &&& final(self).latest_pcr_timestamp_90khz == old(
                            self,
                        ).latest_pcr_timestamp_90khz + diff
                        &&& (old(self).latest_pcr_datetime matches Some(d)
                            ==> final(self).latest_pcr_datetime
                            == Some((d + diff * 100000 / 9) as u64))
                    },
                    None => {
                        &&& final(self).latest_pcr_timestamp_90khz
                            == old(self).latest_pcr_timestamp_90khz
                        &&& (old(self).latest_pcr_datetime is None ==> {
                            &&& final(self).latest_pcr_datetime matches Some(d)
                            &&& d <= u64::MAX - 0x200_0000_0000_0000
                        })
                    },
                })
                &&& final(self).partial_begin_timestamp == old(self).partial_begin_timestamp
                &&& final(self).part_duration == old(self).part_duration
                &&& final(self).initialization_segment_dispatched
                    == old(self).initialization_segment_dispatched
                &&& final(self).current_video == old(self).current_video
                &&& final(self).next_video == old(self).next_video
            }),
    {
        let raw = crate::clock::now_unix_nanos();
        let now_nanos: u64 = if raw <= 0 {
            0
        } else if raw >= (u64::MAX - 0x200_0000_0000_0000) as i128 {
            u64::MAX - 0x200_0000_0000_0000
        } else {
            raw as u64
        };
        self.handle_pcr(pcr, now_nanos);
    }

    /// Translate a 33-bit decode timestamp onto the recovered monotonic
    /// timeline.  Returns nothing until a clock reference was seen.
    pub fn translate_timestamp(&self, dts: u64) -> (r: Option<u64>)
        requires
            dts < PCR_CYCLE,
            self.latest_pcr_timestamp_90khz <= u64::MAX - PCR_CYCLE,
            self.latest_pcr_value matches Some(v) ==> v < PCR_CYCLE,
        ensures
            match self.latest_pcr_value {
                Some(v) => r == Some(
                    (spec_pcr_delta(dts as int, v as int)
                        + self.latest_pcr_timestamp_90khz) as u64,
                ),
                None => r is None,
            },
    {
        match self.latest_pcr_value {
            Some(v) => {
                proof {
                    lemma_pcr_delta(dts as int, v as int);
                }
                Some(pcr_delta(dts, v) + self.latest_pcr_timestamp_90khz)
            },
            None => None,
        }
    }

    /// Push an assembled access unit through the paired-sample pipeline:
    /// the new unit takes the `next` slot, and the unit that held
    /// `current` comes back, to be emitted with a duration running to
    /// the new unit's timestamp.
    pub fn push_video_slot(&mut self, slot: Option<VideoSlot>) -> (r: Option<VideoSlot>)
        ensures
            final(self).next_video is None,
            final(self).current_video == slot,
            r == old(self).current_video,
            final(self).latest_pcr_value == old(self).latest_pcr_value,
            final(self).latest_pcr_timestamp_90khz == old(self).latest_pcr_timestamp_90khz,
            final(self).latest_pcr_datetime == old(self).latest_pcr_datetime,
            final(self).partial_begin_timestamp == old(self).partial_begin_timestamp,
            final(self).part_duration == old(self).part_duration,
            final(self).initialization_segment_dispatched
                == old(self).initialization_segment_dispatched,
    {
        let emitted = self.current_video.take();
        self.current_video = slot;
        self.next_video = None;
        emitted
    }

    /// Drive the keyframe-driven partial and segment boundaries, exactly
    /// as the store commands describe: an overdue open partial is first
    /// closed at the computed boundary; a keyframe then always completes
    /// the front segment and opens a new one at its timestamp.
    #[verifier::rlimit(100)]
    #[verifier::spinoff_prover]
    pub fn process_segments(
        &mut self,
        store: &mut SegmentStore,
        has_keyframe: bool,
        begin_timestamp: u32,
        program_date_time: u64,
    )
        requires
            old(store).wf(),
            old(store).media_sequence + old(store).segments@.len() + 1 <= usize::MAX,
        ensures
            final(store).wf(),
            final(store).media_sequence >= old(store).media_sequence,
            final(store).windows_size == old(store).windows_size,
            final(store).init_segment == old(store).init_segment,
            final(self).latest_pcr_value == old(self).latest_pcr_value,
            final(self).latest_pcr_timestamp_90khz == old(self).latest_pcr_timestamp_90khz,
            final(self).latest_pcr_datetime == old(self).latest_pcr_datetime,
            final(self).part_duration == old(self).part_duration,
            final(self).initialization_segment_dispatched == old(
                self,
            ).initialization_segment_dispatched,
            final(self).current_video == old(self).current_video,
            final(self).next_video == old(self).next_video,
            ({
                let overdue = (match old(self).partial_begin_timestamp {
                    Some(pb) => {
                        let diff = (begin_timestamp - pb + 0x1_0000_0000) % 0x1_0000_0000;
                        if has_keyframe {
                            old(self).part_duration < diff
                        } else {
                            old(self).part_duration <= diff
                        }
                    },
                    None => false,
                });
                let boundary = spec_boundary(
                    begin_timestamp,
                    old(self).partial_begin_timestamp->Some_0,
                    old(self).part_duration,
                );
                if has_keyframe {
                    &&& final(self).partial_begin_timestamp == Some(begin_timestamp)
                    &&& final(store).media_sequence + final(store).segments@.len() == old(
                        store,
                    ).media_sequence + old(store).segments@.len() + 1
                    &&& final(store).segments@.len() > 0
                    &&& final(store).segments@[0]@ =~= crate::hls::segment_store::spec_fresh_segment(
                        begin_timestamp,
                        true,
                        program_date_time,
                    )
                    &&& (old(store).segments@.len() > 0 ==> {
                        let front1 = (if overdue && old(store).segments@[0]@.partials.len() > 0 {
                            crate::hls::segment_store::SegmentView {
                                partials: crate::hls::segment_store::spec_close_partials(
                                    old(store).segments@[0]@.partials,
                                    boundary,
                                ).push(
                                    crate::hls::segment_store::spec_open_partial(boundary, false),
                                ),
                                ..old(store).segments@[0]@
                            }
                        } else {
                            old(store).segments@[0]@
                        });
                        &&& final(store).published
                        &&& (final(store).segments@.len() > 1 ==> final(store).segments@[1]@
                            == crate::hls::segment_store::spec_complete_segment(
                            front1,
                            begin_timestamp,
                        ))
                    })
                } else {
                    &&& final(store).media_sequence + final(store).segments@.len() == old(
                        store,
                    ).media_sequence + old(store).segments@.len()
                    &&& (overdue ==> final(self).partial_begin_timestamp == Some(boundary))
                    &&& (!overdue ==> final(self).partial_begin_timestamp == old(
                        self,
                    ).partial_begin_timestamp && final(store).segments@ == old(store).segments@)
                    &&& ((overdue && old(store).segments@.len() > 0 && old(
                        store,
                    ).segments@[0]@.partials.len() > 0) ==> crate::hls::segment_store::seg_views(
                        final(store).segments@,
                    ) =~= crate::hls::segment_store::seg_views(old(store).segments@).update(
                        0,
                        crate::hls::segment_store::SegmentView {
                            partials: crate::hls::segment_store::spec_close_partials(
                                old(store).segments@[0]@.partials,
                                boundary,
                            ).push(crate::hls::segment_store::spec_open_partial(boundary, false)),
                            ..old(store).segments@[0]@
                        },
                    ))
                }
            }),
    {
        if has_keyframe {
            let ghost pre_store = *store;
            match self.partial_begin_timestamp {
                Some(partial_begin) => {
                    let part_diff = crate::fmp4::wrap_diff32(begin_timestamp, partial_begin);
                    if self.part_duration < part_diff {
                        let delta = part_diff - self.part_duration;
                        let partial_begin_timestamp = if delta <= begin_timestamp {
                            begin_timestamp - delta
                        } else {
                            (((begin_timestamp as u64 + 0x1_0000_0000) - delta as u64)) as u32
                        };
                        proof {
                            if delta <= begin_timestamp {
                                vstd::arithmetic::div_mod::lemma_mod_multiples_vanish(
                                    1,
                                    begin_timestamp - delta,
                                    0x1_0000_0000,
                                );
                            } else {
                                vstd::arithmetic::div_mod::lemma_small_mod(
                                    (begin_timestamp - delta + 0x1_0000_0000) as nat,
                                    0x1_0000_0000 as nat,
                                );
                            }
                            assert(partial_begin_timestamp == spec_boundary(
                                begin_timestamp,
                                partial_begin,
                                self.part_duration,
                            ));
                        }
                        self.partial_begin_timestamp = Some(partial_begin_timestamp);
                        store.continuous_partial(partial_begin_timestamp, false);
                        proof {
                            if pre_store.segments@.len() > 0
                                && pre_store.segments@[0]@.partials.len() > 0 {
                                assert(crate::hls::segment_store::seg_views(
                                    store.segments@,
                                )[0] == store.segments@[0]@);
                                assert(crate::hls::segment_store::seg_views(
                                    pre_store.segments@,
                                )[0] == pre_store.segments@[0]@);
                            }
                        }
                    }
                },
                None => {},
            }
            self.partial_begin_timestamp = Some(begin_timestamp);
            store.continuous_segment(begin_timestamp, true, program_date_time);
        } else {
            match self.partial_begin_timestamp {
                Some(partial_begin) => {
                    let part_diff = crate::fmp4::wrap_diff32(begin_timestamp, partial_begin);
                    if self.part_duration <= part_diff {
                        let delta = part_diff - self.part_duration;
                        let partial_begin_timestamp = if delta <= begin_timestamp {
                            begin_timestamp - delta
                        } else {
                            (((begin_timestamp as u64 + 0x1_0000_0000) - delta as u64)) as u32
                        };
                        proof {
                            if delta <= begin_timestamp {
                                vstd::arithmetic::div_mod::lemma_mod_multiples_vanish(
                                    1,
                                    begin_timestamp - delta,
                                    0x1_0000_0000,
                                );
                            } else {
                                vstd::arithmetic::div_mod::lemma_small_mod(
                                    (begin_timestamp - delta + 0x1_0000_0000) as nat,
                                    0x1_0000_0000 as nat,
                                );
                            }
                            assert(partial_begin_timestamp == spec_boundary(
                                begin_timestamp,
                                partial_begin,
                                self.part_duration,
                            ));
                        }
                        self.partial_begin_timestamp = Some(partial_begin_timestamp);
                        store.continuous_partial(partial_begin_timestamp, false);
                    }
                },
                None => {},
            }
        }
    }
}

/// The boundary an overdue partial is closed at: the begin timestamp
/// pulled back by the amount the partial overran its target.
pub open spec fn spec_boundary(begin: u32, pb: u32, pd: u32) -> u32 {
    let diff = (begin - pb + 0x1_0000_0000) % 0x1_0000_0000;
    ((begin - (diff - pd) + 0x1_0000_0000) % 0x1_0000_0000) as u32
}

/// The 32-bit wrapping difference used on truncated timeline values.
pub fn wrap_diff32(a: u32, b: u32) -> (r: u32)
    ensures
        r == (a - b + 0x1_0000_0000) % 0x1_0000_0000,
{
    if a >= b {
        a - b
    } else {
        proof {
            assert((a - b + 0x1_0000_0000) % 0x1_0000_0000 == a - b + 0x1_0000_0000) by {
                vstd::arithmetic::div_mod::lemma_small_mod(
                    (a - b + 0x1_0000_0000) as nat,
                    0x1_0000_0000 as nat,
                );
            }
        }
        (0xFFFF_FFFF - b) + a + 1
    }
}


/// The retained slices of an H.265 access unit: IDR and trailing-R
/// slices, each length-prefixed with a 32-bit count.
pub open spec fn spec_hevc_au_content(units: Seq<crate::codec::h265::UnitView>) -> Seq<u8>
    decreases units.len(),
{
    if units.len() == 0 {
        Seq::empty()
    } else {
        let rest = spec_hevc_au_content(units.drop_first());
        let u = units[0];
        if u.kind == crate::codec::h265::NaluType::NaluTypeSliceIdr || u.kind
            == crate::codec::h265::NaluType::NaluTypeSliceTrailR {
            let bytes = crate::codec::h265::spec_unit_bytes(u);
            crate::codec::h265::spec_u32_be(bytes.len() as u32) + bytes + rest
        } else {
            rest
        }
    }
}

/// Whether any retained H.265 unit is an IDR slice.
pub open spec fn spec_hevc_au_keyframe(units: Seq<crate::codec::h265::UnitView>) -> bool {
    exists|i: int|
        0 <= i < units.len() && units[i].kind == crate::codec::h265::NaluType::NaluTypeSliceIdr
}

/// Assemble an H.265 access unit: keep the IDR and trailing-R slices,
/// length-prefix each, and report whether a keyframe is among them.
#[verifier::loop_isolation(false)]
#[verifier::rlimit(60)]
pub fn assemble_hevc_access_unit(units: &Vec<crate::codec::h265::Unit>) -> (r: (Vec<u8>, bool))
    requires
        forall|i: int| 0 <= i < units@.len() ==> (#[trigger] units@[i])@.wf(),
        forall|i: int|
            0 <= i < units@.len() ==> (#[trigger] units@[i])@.data.len() + 2 <= u32::MAX,
    ensures
        r.0@ == spec_hevc_au_content(crate::codec::h265::unit_views(units@)),
        r.1 == spec_hevc_au_keyframe(crate::codec::h265::unit_views(units@)),
{
    let mut keyframe = false;
    let n = units.len();
    let mut i: usize = n;
    let ghost uv = crate::codec::h265::unit_views(units@);
    proof {
        assert(uv.skip(n as int) =~= Seq::<crate::codec::h265::UnitView>::empty());
    }
    let mut tail: Vec<u8> = Vec::new();
    while i > 0
        invariant
            i <= n,
            n == units@.len(),
            tail@ == spec_hevc_au_content(uv.skip(i as int)),
            keyframe == (exists|j: int|
                i <= j < units@.len() && uv[j].kind
                    == crate::codec::h265::NaluType::NaluTypeSliceIdr),
        decreases i,
    {
        i = i - 1;
        proof {
            assert(uv[i as int] == units@[i as int]@);
            assert(uv.skip(i as int)[0] == uv[i as int]);
            assert(uv.skip(i as int).drop_first() =~= uv.skip(i + 1));
        }
        let u = &units[i];
        let is_idr = u.kind == crate::codec::h265::NaluType::NaluTypeSliceIdr;
        let is_pic = is_idr || u.kind == crate::codec::h265::NaluType::NaluTypeSliceTrailR;
        if is_pic {
            let bytes = u.to_bytes();
            let mut piece: Vec<u8> = Vec::new();
            crate::codec::h265::push_u32_be(&mut piece, bytes.len() as u32);
            crate::codec::h264::append_bytes(&mut piece, &bytes);
            crate::codec::h264::append_bytes(&mut piece, &tail);
            proof {
                assert(piece@ =~= spec_hevc_au_content(uv.skip(i as int)));
            }
            tail = piece;
        }
        if is_idr {
            keyframe = true;
        }
        proof {
            if !is_pic {
                assert(tail@ =~= spec_hevc_au_content(uv.skip(i as int)));
            }
        }
    }
    proof {
        assert(uv.skip(0) =~= uv);
    }
    (tail, keyframe)
}

} // verus!
