//! The segment store: a live window of segments with their partials, a
//! bounded tail of evicted segments, and the manifest built from them.

use vstd::prelude::*;
use std::collections::VecDeque;
use crate::clock::rfc3339_of;
use crate::text::{spec_dec, spec_seconds6, ticks_to_seconds6, u64_to_string};
use crate::PCR_CYCLE;

verus! {

broadcast use vstd::std_specs::vecdeque::group_vec_dequeue_axioms;

/// One partial segment: its bytes, its start, and its end once closed.
/// It is independent when it begins at a keyframe.
pub struct PartialSegment {
    pub data: Vec<u8>,
    pub begin_pts: u32,
    pub end_pts: Option<u32>,
    pub key_frame: bool,
}

/// Specification view of a partial segment.
#[verifier::ext_equal]
pub struct PartialView {
    pub data: Seq<u8>,
    pub begin_pts: u32,
    pub end_pts: Option<u32>,
    pub key_frame: bool,
}

impl View for PartialSegment {
    type V = PartialView;

    open spec fn view(&self) -> PartialView {
        PartialView {
            data: self.data@,
            begin_pts: self.begin_pts,
            end_pts: self.end_pts,
            key_frame: self.key_frame,
        }
    }
}

/// The wrap-safe duration in 90 kHz ticks from `begin` to `end`.
pub open spec fn spec_duration_ticks(begin: u32, end: u32) -> u64 {
    (((end - begin) + PCR_CYCLE) % PCR_CYCLE as int) as u64
}

/// A partial list with its last entry closed at `end`; an empty list is
/// unchanged.
pub open spec fn spec_close_partials(partials: Seq<PartialView>, end: u32) -> Seq<PartialView> {
    if partials.len() > 0 {
        partials.update(
            partials.len() - 1,
            PartialView { end_pts: Some(end), ..partials.last() },
        )
    } else {
        partials
    }
}

/// A partial list with `data` appended to its last entry.
pub open spec fn spec_append_last(partials: Seq<PartialView>, data: Seq<u8>) -> Seq<PartialView> {
    if partials.len() > 0 {
        partials.update(
            partials.len() - 1,
            PartialView { data: partials.last().data + data, ..partials.last() },
        )
    } else {
        partials
    }
}

/// A fresh open partial.
pub open spec fn spec_open_partial(begin: u32, key_frame: bool) -> PartialView {
    PartialView { data: Seq::empty(), begin_pts: begin, end_pts: None, key_frame }
}

/// A segment completed at `end`: its end set and its trailing partial
/// closed there.
pub open spec fn spec_complete_segment(sv: SegmentView, end: u32) -> SegmentView {
    SegmentView { end_pts: Some(end), partials: spec_close_partials(sv.partials, end), ..sv }
}

/// A fresh segment as admission opens it.
pub open spec fn spec_fresh_segment(begin: u32, key_frame: bool, pdt: u64) -> SegmentView {
    SegmentView {
        partials: seq![spec_open_partial(begin, key_frame)],
        begin_pts: begin,
        end_pts: None,
        key_frame,
        program_datetime: pdt,
        data: Seq::empty(),
    }
}

impl PartialSegment {
    pub fn new(begin_pts: u32, key_frame: bool) -> (r: PartialSegment)
        ensures
            r@ == (PartialView { data: Seq::empty(), begin_pts, end_pts: None, key_frame }),
    {
        PartialSegment { data: Vec::new(), begin_pts, end_pts: None, key_frame }
    }

    pub fn push(&mut self, data: &Vec<u8>)
        ensures
            final(self)@ == (PartialView { data: old(self)@.data + data@, ..old(self)@ }),
    {
        crate::codec::h264::append_bytes(&mut self.data, data);
    }

    /// The bytes, once the partial is complete.
    pub fn payload(&self) -> (r: Option<Vec<u8>>)
        ensures
            match r {
                Some(v) => self@.end_pts is Some && v@ == self@.data,
                None => self@.end_pts is None,
            },
    {
        if self.end_pts.is_some() {
            Some(crate::ts::demuxer::copy_range(&self.data, 0, self.data.len()))
        } else {
            None
        }
    }

    pub fn complete(&mut self, end_pts: u32)
        ensures
            final(self)@ == (PartialView { end_pts: Some(end_pts), ..old(self)@ }),
    {
        self.end_pts = Some(end_pts);
    }

    pub fn is_independant(&self) -> (r: bool)
        ensures
            r == self@.key_frame,
    {
        self.key_frame
    }

    /// The wrap-safe duration, once complete.
    pub fn duration(&self) -> (r: Option<u64>)
        ensures
            match r {
                Some(d) => self@.end_pts matches Some(e) && d == spec_duration_ticks(
                    self@.begin_pts,
                    e,
                ),
                None => self@.end_pts is None,
            },
    {
        match self.end_pts {
            Some(end_pts) => {
                if end_pts >= self.begin_pts {
                    Some((end_pts - self.begin_pts) as u64 % PCR_CYCLE)
                } else {
                    Some(
                        ((end_pts as u64 + PCR_CYCLE) - self.begin_pts as u64) % PCR_CYCLE,
                    )
                }
            },
            None => None,
        }
    }
}

/// One segment: its partials, bounds, keyframe flag, program date-time
/// (nanoseconds since the Unix epoch), and the buffered bytes.
pub struct Segment {
    pub partials: Vec<PartialSegment>,
    pub begin_pts: u32,
    pub end_pts: Option<u32>,
    pub key_frame: bool,
    pub program_datetime: u64,
    pub data: Vec<u8>,
}

/// Specification view of a segment.
#[verifier::ext_equal]
pub struct SegmentView {
    pub partials: Seq<PartialView>,
    pub begin_pts: u32,
    pub end_pts: Option<u32>,
    pub key_frame: bool,
    pub program_datetime: u64,
    pub data: Seq<u8>,
}

impl View for Segment {
    type V = SegmentView;

    open spec fn view(&self) -> SegmentView {
        SegmentView {
            partials: self.partials@.map_values(|p: PartialSegment| p@),
            begin_pts: self.begin_pts,
            end_pts: self.end_pts,
            key_frame: self.key_frame,
            program_datetime: self.program_datetime,
            data: self.data@,
        }
    }
}

impl Segment {
    /// A fresh segment, opened with one partial at the same start.
    pub fn new(begin_pts: u32, key_frame: bool, program_datetime: u64) -> (r: Segment)
        ensures
            r@.begin_pts == begin_pts,
            r@.end_pts is None,
            r@.key_frame == key_frame,
            r@.program_datetime == program_datetime,
            r@.data == Seq::<u8>::empty(),
            r@.partials =~= seq![
                PartialView {
                    data: Seq::empty(),
                    begin_pts,
                    end_pts: None::<u32>,
                    key_frame,
                },
            ],
    {
        let mut partials: Vec<PartialSegment> = Vec::new();
        partials.push(PartialSegment::new(begin_pts, key_frame));
        Segment { partials, begin_pts, end_pts: None, key_frame, program_datetime, data: Vec::new() }
    }

    pub fn is_complete(&self) -> (r: bool)
        ensures
            r == (self@.end_pts is Some),
    {
        self.end_pts.is_some()
    }

    /// Close the segment: set its end and close its trailing partial.
    pub fn complete(&mut self, end_pts: u32)
        ensures
            final(self)@.end_pts == Some(end_pts),
            final(self)@.begin_pts == old(self)@.begin_pts,
            final(self)@.key_frame == old(self)@.key_frame,
            final(self)@.program_datetime == old(self)@.program_datetime,
            final(self)@.data == old(self)@.data,
            old(self)@.partials.len() > 0 ==> final(self)@.partials =~= old(
                self,
            )@.partials.update(
                old(self)@.partials.len() - 1,
                PartialView {
                    end_pts: Some(end_pts),
                    ..old(self)@.partials.last()
                },
            ),
            old(self)@.partials.len() == 0 ==> final(self)@.partials == old(self)@.partials,
            final(self)@ == spec_complete_segment(old(self)@, end_pts),
    {
        self.end_pts = Some(end_pts);
        self.complete_partial(end_pts);
        proof {
            assert(self@ =~= spec_complete_segment(old(self)@, end_pts));
        }
    }

    /// Close the trailing partial.
    pub fn complete_partial(&mut self, end_pts: u32)
        ensures
            final(self)@.end_pts == old(self)@.end_pts,
            final(self)@.begin_pts == old(self)@.begin_pts,
            final(self)@.key_frame == old(self)@.key_frame,
            final(self)@.program_datetime == old(self)@.program_datetime,
            final(self)@.data == old(self)@.data,
            old(self)@.partials.len() > 0 ==> final(self)@.partials =~= old(
                self,
            )@.partials.update(
                old(self)@.partials.len() - 1,
                PartialView {
                    end_pts: Some(end_pts),
                    ..old(self)@.partials.last()
                },
            ),
            old(self)@.partials.len() == 0 ==> final(self)@.partials == old(self)@.partials,
    {
        let n = self.partials.len();
        if n > 0 {
            let mut last = self.partials.remove(n - 1);
            last.complete(end_pts);
            self.partials.push(last);
            proof {
                assert(self.partials@.map_values(|p: PartialSegment| p@) =~= old(
                    self,
                )@.partials.update(
                    old(self)@.partials.len() - 1,
                    PartialView {
                        end_pts: Some(end_pts),
                        ..old(self)@.partials.last()
                    },
                ));
            }
        }
    }

    /// Append bytes to the segment and to its trailing partial.
    pub fn push(&mut self, data: &Vec<u8>)
        ensures
            final(self)@.end_pts == old(self)@.end_pts,
            final(self)@.begin_pts == old(self)@.begin_pts,
            final(self)@.key_frame == old(self)@.key_frame,
            final(self)@.program_datetime == old(self)@.program_datetime,
            final(self)@.data == old(self)@.data + data@,
            old(self)@.partials.len() > 0 ==> final(self)@.partials =~= old(
                self,
            )@.partials.update(
                old(self)@.partials.len() - 1,
                PartialView {
                    data: old(self)@.partials.last().data + data@,
                    ..old(self)@.partials.last()
                },
            ),
            old(self)@.partials.len() == 0 ==> final(self)@.partials == old(self)@.partials,
    {
        crate::codec::h264::append_bytes(&mut self.data, data);
        let n = self.partials.len();
        if n > 0 {
            let mut last = self.partials.remove(n - 1);
            last.push(data);
            self.partials.push(last);
            proof {
                assert(self.partials@.map_values(|p: PartialSegment| p@) =~= old(
                    self,
                )@.partials.update(
                    old(self)@.partials.len() - 1,
                    PartialView {
                        data: old(self)@.partials.last().data + data@,
                        ..old(self)@.partials.last()
                    },
                ));
            }
        }
    }

    /// The wrap-safe duration, once complete.
    pub fn duration(&self) -> (r: Option<u64>)
        ensures
            match r {
                Some(d) => self@.end_pts matches Some(e) && d == spec_duration_ticks(
                    self@.begin_pts,
                    e,
                ),
                None => self@.end_pts is None,
            },
    {
        match self.end_pts {
            Some(end_pts) => {
                if end_pts >= self.begin_pts {
                    Some((end_pts - self.begin_pts) as u64 % PCR_CYCLE)
                } else {
                    Some(
                        ((end_pts as u64 + PCR_CYCLE) - self.begin_pts as u64) % PCR_CYCLE,
                    )
                }
            },
            None => None,
        }
    }

    /// Open a new partial.
    pub fn new_partial(&mut self, begin_pts: u32, key_frame: bool)
        ensures
            final(self)@ == (SegmentView {
                partials: old(self)@.partials.push(
                    PartialView { data: Seq::empty(), begin_pts, end_pts: None, key_frame },
                ),
                ..old(self)@
            }),
    {
        self.partials.push(PartialSegment::new(begin_pts, key_frame));
        proof {
            assert(self@ =~= (SegmentView {
                partials: old(self)@.partials.push(
                    PartialView { data: Seq::empty(), begin_pts, end_pts: None, key_frame },
                ),
                ..old(self)@
            }));
        }
    }
}

/// The views of a segment list.
pub open spec fn seg_views(s: Seq<Segment>) -> Seq<SegmentView> {
    s.map_values(|g: Segment| g@)
}

/// One line of the manifest, before rendering.  `Inf` stands for the
/// `#EXTINF` tag together with its segment URI line.
#[derive(Clone, Copy, PartialEq, Eq, Debug, Structural)]
pub enum ManifestLine {
    Header,
    Version(u64),
    TargetDuration(u64),
    PartInf(u32),
    ServerControl(u32),
    PlaylistTypeVod,
    AllowCache,
    InitMap,
    MediaSequence(u64),
    Blank,
    ProgramDateTime(u64),
    Part { duration: u64, msn: u64, index: u64, independent: bool },
    PreloadHint { msn: u64, index: u64, independent: bool },
    Inf { duration: u64, msn: u64 },
}

/// The part and preload-hint lines of one segment's partials.
pub open spec fn spec_partial_lines(partials: Seq<PartialView>, msn: u64, i: int) -> Seq<
    ManifestLine,
>
    decreases partials.len() - i,
{
    if i < 0 || i >= partials.len() {
        Seq::empty()
    } else {
        seq![spec_partial_line(partials[i], msn, i)] + spec_partial_lines(partials, msn, i + 1)
    }
}

/// The line of one partial: a part entry once complete, a preload hint
/// until then.
pub open spec fn spec_partial_line(p: PartialView, msn: u64, i: int) -> ManifestLine {
    match p.end_pts {
        Some(e) => ManifestLine::Part {
            duration: spec_duration_ticks(p.begin_pts, e),
            msn,
            index: i as u64,
            independent: p.key_frame,
        },
        None => ManifestLine::PreloadHint { msn, index: i as u64, independent: p.key_frame },
    }
}

/// Each position of the partial-line list carries that partial's line.
proof fn lemma_partial_lines_index(partials: Seq<PartialView>, msn: u64, k: int)
    requires
        0 <= k <= partials.len(),
    ensures
        forall|j: int|
            0 <= j < partials.len() - k ==> #[trigger] spec_partial_lines(partials, msn, k)[j]
                == spec_partial_line(partials[j + k], msn, j + k),
    decreases partials.len() - k,
{
    lemma_partial_lines_len(partials, msn, k);
    if k < partials.len() {
        lemma_partial_lines_index(partials, msn, k + 1);
        lemma_partial_lines_len(partials, msn, k + 1);
        let rest = spec_partial_lines(partials, msn, k + 1);
        let head = spec_partial_line(partials[k], msn, k);
        assert forall|j: int| 0 <= j < partials.len() - k implies #[trigger] spec_partial_lines(
            partials,
            msn,
            k,
        )[j] == spec_partial_line(partials[j + k], msn, j + k) by {
            if j == 0 {
                assert((seq![head] + rest)[0] == head);
            } else {
                assert((seq![head] + rest)[j] == rest[j - 1]);
                assert(rest[j - 1] == spec_partial_line(partials[(j - 1) + (k + 1)], msn, (j - 1)
                    + (k + 1)));
            }
        }
    }
}

/// The lines of one segment: its program date-time, its partials when the
/// segment is close enough to the live edge, and its `#EXTINF` entry once
/// complete.
pub open spec fn spec_segment_lines(seg: SegmentView, msn: u64, include_parts: bool) -> Seq<
    ManifestLine,
> {
    seq![ManifestLine::Blank, ManifestLine::ProgramDateTime(seg.program_datetime)] + (
    if include_parts {
        spec_partial_lines(seg.partials, msn, 0)
    } else {
        Seq::empty()
    }) + (match seg.end_pts {
        Some(e) => seq![
            ManifestLine::Inf {
                duration: spec_duration_ticks(seg.begin_pts, e),
                msn,
            },
        ],
        None => Seq::empty(),
    })
}

/// The per-segment lines, oldest first.  The segment list keeps its
/// newest entry at the front, so position `k` from the oldest is index
/// `len - 1 - k`; in low-latency mode the last four segments list their
/// partials.
pub open spec fn spec_body_lines(segs: Seq<SegmentView>, ms: u64, ll: bool, k: int) -> Seq<
    ManifestLine,
>
    decreases segs.len() - k,
{
    if k < 0 || k >= segs.len() {
        Seq::empty()
    } else {
        spec_segment_lines(segs[segs.len() - 1 - k], (ms + k) as u64, ll && k + 4 >= segs.len())
            + spec_body_lines(segs, ms, ll, k + 1)
    }
}

/// The largest complete-segment duration, floored at one second.
pub open spec fn spec_target_ticks(segs: Seq<SegmentView>, i: int) -> u64
    decreases segs.len() - i,
{
    if i < 0 || i >= segs.len() {
        90000
    } else {
        let rest = spec_target_ticks(segs, i + 1);
        match segs[i].end_pts {
            Some(e) => {
                if spec_duration_ticks(segs[i].begin_pts, e) > rest {
                    spec_duration_ticks(segs[i].begin_pts, e)
                } else {
                    rest
                }
            },
            None => rest,
        }
    }
}

/// The fixed manifest header.
pub open spec fn spec_header_lines(
    segs: Seq<SegmentView>,
    ms: u64,
    ll: bool,
    is_live: bool,
    has_init: bool,
    part_duration: u32,
) -> Seq<ManifestLine> {
    seq![
        ManifestLine::Header,
        ManifestLine::Version(9),
        ManifestLine::TargetDuration(((spec_target_ticks(segs, 0) + 89999) / 90000) as u64),
    ] + (if ll {
        seq![ManifestLine::PartInf(part_duration), ManifestLine::ServerControl(part_duration)]
    } else {
        Seq::empty()
    }) + (if !is_live {
        seq![ManifestLine::PlaylistTypeVod, ManifestLine::AllowCache]
    } else {
        Seq::empty()
    }) + (if has_init {
        seq![ManifestLine::InitMap]
    } else {
        Seq::empty()
    }) + seq![ManifestLine::MediaSequence(ms)]
}

/// The whole manifest, as lines.
pub open spec fn spec_manifest_lines(
    segs: Seq<SegmentView>,
    ms: u64,
    ll: bool,
    is_live: bool,
    has_init: bool,
    part_duration: u32,
) -> Seq<ManifestLine> {
    spec_header_lines(segs, ms, ll, is_live, has_init, part_duration) + spec_body_lines(
        segs,
        ms,
        ll,
        0,
    )
}

/// How many `#EXTINF` entries a line list holds.
pub open spec fn count_inf(lines: Seq<ManifestLine>) -> int
    decreases lines.len(),
{
    if lines.len() == 0 {
        0
    } else {
        (if lines[0] is Inf {
            1int
        } else {
            0int
        }) + count_inf(lines.drop_first())
    }
}

/// How many media-sequence tags a line list holds.
pub open spec fn count_ms(lines: Seq<ManifestLine>) -> int
    decreases lines.len(),
{
    if lines.len() == 0 {
        0
    } else {
        (if lines[0] is MediaSequence {
            1int
        } else {
            0int
        }) + count_ms(lines.drop_first())
    }
}

/// How many of the segments from position `k` (oldest first) are
/// complete.
pub open spec fn count_complete_from(segs: Seq<SegmentView>, k: int) -> int
    decreases segs.len() - k,
{
    if k < 0 || k >= segs.len() {
        0
    } else {
        (if segs[segs.len() - 1 - k].end_pts is Some {
            1int
        } else {
            0int
        }) + count_complete_from(segs, k + 1)
    }
}

proof fn lemma_count_concat(a: Seq<ManifestLine>, b: Seq<ManifestLine>)
    ensures
        count_inf(a + b) == count_inf(a) + count_inf(b),
        count_ms(a + b) == count_ms(a) + count_ms(b),
    decreases a.len(),
{
    if a.len() == 0 {
        assert(a + b =~= b);
    } else {
        assert((a + b).drop_first() =~= a.drop_first() + b);
        assert((a + b)[0] == a[0]);
        lemma_count_concat(a.drop_first(), b);
    }
}

proof fn lemma_count_single(l: ManifestLine)
    ensures
        count_inf(seq![l]) == (if l is Inf {
            1int
        } else {
            0int
        }),
        count_ms(seq![l]) == (if l is MediaSequence {
            1int
        } else {
            0int
        }),
{
    assert(seq![l].drop_first() =~= Seq::<ManifestLine>::empty());
    assert(count_inf(Seq::<ManifestLine>::empty()) == 0);
    assert(count_ms(Seq::<ManifestLine>::empty()) == 0);
    assert(seq![l][0] == l);
}

proof fn lemma_partial_lines_counts(partials: Seq<PartialView>, msn: u64, i: int)
    ensures
        count_inf(spec_partial_lines(partials, msn, i)) == 0,
        count_ms(spec_partial_lines(partials, msn, i)) == 0,
    decreases partials.len() - i,
{
    if !(i < 0 || i >= partials.len()) {
        lemma_partial_lines_counts(partials, msn, i + 1);
        let p = partials[i];
        let line = (match p.end_pts {
            Some(e) => ManifestLine::Part {
                duration: spec_duration_ticks(p.begin_pts, e),
                msn,
                index: i as u64,
                independent: p.key_frame,
            },
            None => ManifestLine::PreloadHint { msn, index: i as u64, independent: p.key_frame },
        });
        lemma_count_single(line);
        lemma_count_concat(seq![line], spec_partial_lines(partials, msn, i + 1));
    }
}

proof fn lemma_segment_lines_counts(seg: SegmentView, msn: u64, include_parts: bool)
    ensures
        count_inf(spec_segment_lines(seg, msn, include_parts)) == (if seg.end_pts is Some {
            1int
        } else {
            0int
        }),
        count_ms(spec_segment_lines(seg, msn, include_parts)) == 0,
{
    let head = seq![ManifestLine::Blank, ManifestLine::ProgramDateTime(seg.program_datetime)];
    let parts = (if include_parts {
        spec_partial_lines(seg.partials, msn, 0)
    } else {
        Seq::<ManifestLine>::empty()
    });
    let tail = (match seg.end_pts {
        Some(e) => seq![
            ManifestLine::Inf { duration: spec_duration_ticks(seg.begin_pts, e), msn },
        ],
        None => Seq::<ManifestLine>::empty(),
    });
    lemma_partial_lines_counts(seg.partials, msn, 0);
    assert(count_inf(head) == 0 && count_ms(head) == 0) by {
        assert(head.drop_first() =~= seq![ManifestLine::ProgramDateTime(seg.program_datetime)]);
        lemma_count_single(ManifestLine::ProgramDateTime(seg.program_datetime));
        assert(head[0] == ManifestLine::Blank);
    }
    match seg.end_pts {
        Some(e) => {
            lemma_count_single(ManifestLine::Inf {
                duration: spec_duration_ticks(seg.begin_pts, e),
                msn,
            });
        },
        None => {},
    }
    lemma_count_concat(head, parts);
    lemma_count_concat(head + parts, tail);
}

proof fn lemma_body_lines_counts(segs: Seq<SegmentView>, ms: u64, ll: bool, k: int)
    ensures
        count_inf(spec_body_lines(segs, ms, ll, k)) == count_complete_from(segs, k),
        count_ms(spec_body_lines(segs, ms, ll, k)) == 0,
    decreases segs.len() - k,
{
    if !(k < 0 || k >= segs.len()) {
        lemma_body_lines_counts(segs, ms, ll, k + 1);
        lemma_segment_lines_counts(
            segs[segs.len() - 1 - k],
            (ms + k) as u64,
            ll && k + 4 >= segs.len(),
        );
        lemma_count_concat(
            spec_segment_lines(segs[segs.len() - 1 - k], (ms + k) as u64, ll && k + 4
                >= segs.len()),
            spec_body_lines(segs, ms, ll, k + 1),
        );
    }
}

/// The manifest carries the store's media sequence exactly once, and one
/// `#EXTINF` entry for each complete live segment.
pub proof fn lemma_manifest_invariant(
    segs: Seq<SegmentView>,
    ms: u64,
    ll: bool,
    is_live: bool,
    has_init: bool,
    part_duration: u32,
)
    ensures
        count_inf(spec_manifest_lines(segs, ms, ll, is_live, has_init, part_duration))
            == count_complete_from(segs, 0),
        count_ms(spec_manifest_lines(segs, ms, ll, is_live, has_init, part_duration)) == 1,
        spec_manifest_lines(segs, ms, ll, is_live, has_init, part_duration).contains(
            ManifestLine::MediaSequence(ms),
        ),
    {
    let header = spec_header_lines(segs, ms, ll, is_live, has_init, part_duration);
    let body = spec_body_lines(segs, ms, ll, 0);
    lemma_body_lines_counts(segs, ms, ll, 0);
    // The header is a concrete concatenation; count its tags piecewise.
    let a = seq![
        ManifestLine::Header,
        ManifestLine::Version(9),
        ManifestLine::TargetDuration(((spec_target_ticks(segs, 0) + 89999) / 90000) as u64),
    ];
    let b = (if ll {
        seq![ManifestLine::PartInf(part_duration), ManifestLine::ServerControl(part_duration)]
    } else {
        Seq::<ManifestLine>::empty()
    });
    let c = (if !is_live {
        seq![ManifestLine::PlaylistTypeVod, ManifestLine::AllowCache]
    } else {
        Seq::<ManifestLine>::empty()
    });
    let d = (if has_init {
        seq![ManifestLine::InitMap]
    } else {
        Seq::<ManifestLine>::empty()
    });
    let e = seq![ManifestLine::MediaSequence(ms)];
    assert(count_inf(a) == 0 && count_ms(a) == 0) by {
        reveal_with_fuel(count_inf, 4);
        reveal_with_fuel(count_ms, 4);
        assert(a.drop_first().drop_first() =~= seq![
            ManifestLine::TargetDuration(((spec_target_ticks(segs, 0) + 89999) / 90000) as u64),
        ]);
        assert(a.drop_first().drop_first().drop_first() =~= Seq::<ManifestLine>::empty());
    }
    assert(count_inf(b) == 0 && count_ms(b) == 0) by {
        reveal_with_fuel(count_inf, 3);
        reveal_with_fuel(count_ms, 3);
        if ll {
            assert(b.drop_first() =~= seq![ManifestLine::ServerControl(part_duration)]);
            assert(b.drop_first().drop_first() =~= Seq::<ManifestLine>::empty());
        }
    }
    assert(count_inf(c) == 0 && count_ms(c) == 0) by {
        reveal_with_fuel(count_inf, 3);
        reveal_with_fuel(count_ms, 3);
        if !is_live {
            assert(c.drop_first() =~= seq![ManifestLine::AllowCache]);
            assert(c.drop_first().drop_first() =~= Seq::<ManifestLine>::empty());
        }
    }
    assert(count_inf(d) == 0 && count_ms(d) == 0) by {
        if has_init {
            lemma_count_single(ManifestLine::InitMap);
        }
    }
    lemma_count_single(ManifestLine::MediaSequence(ms));
    lemma_count_concat(a, b);
    lemma_count_concat(a + b, c);
    lemma_count_concat((a + b) + c, d);
    lemma_count_concat(((a + b) + c) + d, e);
    assert(header =~= (((a + b) + c) + d) + e);
    lemma_count_concat(header, body);
    assert(header[header.len() - 1] == ManifestLine::MediaSequence(ms));
    assert(spec_manifest_lines(segs, ms, ll, is_live, has_init, part_duration)[header.len()
        - 1] == ManifestLine::MediaSequence(ms));
}

/// The store: the init segment, the live window (newest segment at the
/// front), and a bounded tail of evicted segments.
pub struct SegmentStore {
    pub init_segment: Vec<u8>,
    pub media_sequence: usize,
    pub published: bool,
    pub windows_size: Option<usize>,
    pub part_duration: u32,
    pub low_latency_mode: bool,
    pub version: usize,
    pub is_live: bool,
    pub manifest_body: Option<String>,
    pub segments: VecDeque<Segment>,
    pub outdated: VecDeque<Segment>,
}

impl SegmentStore {
    /// The live window and the outdated tail never exceed the configured
    /// size, which is at least one segment.
    pub open spec fn wf(self) -> bool {
        match self.windows_size {
            Some(w) => self.segments@.len() <= w && self.outdated@.len() <= w && w >= 1,
            None => true,
        }
    }

    /// The segment holding media sequence number `msn`, if any: the live
    /// window indexes from the oldest at the back; older numbers address
    /// the outdated tail from its newest end.
    pub open spec fn spec_segment_at(self, msn: int) -> Option<SegmentView> {
        if self.media_sequence <= msn < self.media_sequence + self.segments@.len() {
            Some(seg_views(self.segments@)[self.segments@.len() - 1 - (msn
                - self.media_sequence)])
        } else if msn < self.media_sequence && self.media_sequence <= msn + self.segments@.len()
            && self.media_sequence - msn <= self.outdated@.len() {
            Some(seg_views(self.outdated@)[self.outdated@.len() - (self.media_sequence - msn)])
        } else {
            None
        }
    }

    pub fn new(part_duration: u32, window_size: usize) -> (r: SegmentStore)
        requires
            window_size >= 1,
        ensures
            r.wf(),
            r.media_sequence == 0,
            r.segments@.len() == 0,
            r.outdated@.len() == 0,
            r.windows_size == Some(window_size),
            r.part_duration == part_duration,
            r.init_segment@ == Seq::<u8>::empty(),
            !r.published,
            r.version == 9,
            !r.low_latency_mode,
            r.is_live,
            r.manifest_body is None,
    {
        SegmentStore {
            init_segment: Vec::new(),
            media_sequence: 0,
            published: false,
            windows_size: Some(window_size),
            part_duration,
            low_latency_mode: false,
            version: 9,
            is_live: true,
            manifest_body: None,
            segments: VecDeque::new(),
            outdated: VecDeque::new(),
        }
    }

    /// The init segment, once one was set.
    pub fn init_segment_ready(&self) -> (r: Option<Vec<u8>>)
        ensures
            match r {
                Some(v) => self.init_segment@.len() != 0 && v@ == self.init_segment@,
                None => self.init_segment@.len() == 0,
            },
    {
        if self.init_segment.len() != 0 {
            Some(crate::ts::demuxer::copy_range(&self.init_segment, 0, self.init_segment.len()))
        } else {
            None
        }
    }

    pub fn set_init_segment(&mut self, data: Vec<u8>)
        ensures
            *final(self) == (SegmentStore { init_segment: data, ..*old(self) }),
    {
        self.init_segment = data;
    }

    /// Close the trailing partial of the front segment at `end_pts`,
    /// regenerate the manifest from that state, and open a new partial
    /// there.  With no live segment (or none with a partial) nothing
    /// changes.
    #[verifier::rlimit(100)]
    #[verifier::spinoff_prover]
    pub fn continuous_partial(&mut self, end_pts: u32, key_frame: bool)
        requires
            old(self).wf(),
            old(self).media_sequence + old(self).segments@.len() <= usize::MAX,
        ensures
            final(self).wf(),
            final(self).media_sequence == old(self).media_sequence,
            final(self).segments@.len() == old(self).segments@.len(),
            final(self).outdated@ == old(self).outdated@,
            final(self).windows_size == old(self).windows_size,
            final(self).part_duration == old(self).part_duration,
            final(self).low_latency_mode == old(self).low_latency_mode,
            final(self).is_live == old(self).is_live,
            final(self).version == old(self).version,
            final(self).published == old(self).published,
            final(self).init_segment == old(self).init_segment,
            (old(self).segments@.len() > 0 && old(self).segments@[0]@.partials.len() > 0) ==> {
                &&& seg_views(final(self).segments@) =~= seg_views(old(self).segments@).update(
                    0,
                    SegmentView {
                        partials: spec_close_partials(
                            old(self).segments@[0]@.partials,
                            end_pts,
                        ).push(spec_open_partial(end_pts, key_frame)),
                        ..old(self).segments@[0]@
                    },
                )
                &&& final(self).manifest_body matches Some(b) && b@ == spec_render_lines(
                    spec_manifest_lines(
                        seg_views(old(self).segments@).update(
                            0,
                            SegmentView {
                                partials: spec_close_partials(
                                    old(self).segments@[0]@.partials,
                                    end_pts,
                                ),
                                ..old(self).segments@[0]@
                            },
                        ),
                        old(self).media_sequence as u64,
                        old(self).low_latency_mode,
                        old(self).is_live,
                        old(self).init_segment@.len() > 0,
                        old(self).part_duration,
                    ),
                )
            },
            (old(self).segments@.len() == 0 || old(self).segments@[0]@.partials.len() == 0) ==> {
                &&& final(self).segments@ == old(self).segments@
                &&& final(self).manifest_body == old(self).manifest_body
            },
    {
        if self.segments.len() > 0 {
            let mut front = match self.segments.pop_front() {
                Some(s) => s,
                None => {
                    proof {
                        assert(false);
                    }
                    return ;
                },
            };
            if front.partials.len() > 0 {
                front.complete_partial(end_pts);
                self.segments.push_front(front);
                proof {
                    assert(seg_views(self.segments@) =~= seg_views(old(self).segments@).update(
                        0,
                        SegmentView {
                            partials: spec_close_partials(
                                old(self).segments@[0]@.partials,
                                end_pts,
                            ),
                            ..old(self).segments@[0]@
                        },
                    ));
                }
                self.generate_manfiest();
                let mut front = match self.segments.pop_front() {
                    Some(s) => s,
                    None => {
                        proof {
                            assert(false);
                        }
                        return ;
                    },
                };
                front.new_partial(end_pts, key_frame);
                self.segments.push_front(front);
                proof {
                    assert(seg_views(self.segments@) =~= seg_views(old(self).segments@).update(
                        0,
                        SegmentView {
                            partials: spec_close_partials(
                                old(self).segments@[0]@.partials,
                                end_pts,
                            ).push(spec_open_partial(end_pts, key_frame)),
                            ..old(self).segments@[0]@
                        },
                    ));
                }
            } else {
                self.segments.push_front(front);
                proof {
                    assert(self.segments@ =~= old(self).segments@);
                }
            }
        }
    }

    /// Complete the front segment at `end_pts` (its end set and trailing
    /// partial closed), regenerate the manifest from that state, then
    /// open a fresh segment there and evict down to the window size.
    /// Each eviction moves the oldest live segment to the outdated tail
    /// and advances the media sequence by exactly one; the completed
    /// segment sits behind the fresh one, or in the tail when the window
    /// holds a single segment.
    #[verifier::rlimit(100)]
    #[verifier::spinoff_prover]
    pub fn continuous_segment(&mut self, end_pts: u32, key_frame: bool, program_datetime: u64)
        requires
            old(self).wf(),
            old(self).media_sequence + old(self).segments@.len() + 1 <= usize::MAX,
        ensures
            final(self).wf(),
            final(self).windows_size == old(self).windows_size,
            final(self).part_duration == old(self).part_duration,
            final(self).low_latency_mode == old(self).low_latency_mode,
            final(self).is_live == old(self).is_live,
            final(self).version == old(self).version,
            final(self).init_segment == old(self).init_segment,
            final(self).media_sequence >= old(self).media_sequence,
            final(self).media_sequence + final(self).segments@.len() == old(self).media_sequence
                + old(self).segments@.len() + 1,
            final(self).segments@.len() > 0,
            final(self).segments@[0]@ =~= spec_fresh_segment(end_pts, key_frame, program_datetime),
            old(self).segments@.len() == 0 ==> {
                &&& final(self).published == old(self).published
                &&& final(self).manifest_body == old(self).manifest_body
                &&& final(self).media_sequence == old(self).media_sequence
            },
            old(self).segments@.len() > 0 ==> {
                &&& final(self).published
                &&& (final(self).segments@.len() > 1 ==> final(self).segments@[1]@
                    == spec_complete_segment(old(self).segments@[0]@, end_pts))
                &&& (final(self).segments@.len() == 1 ==> final(self).outdated@.len() > 0
                    && final(self).outdated@.last()@ == spec_complete_segment(
                    old(self).segments@[0]@,
                    end_pts,
                ))
                &&& final(self).manifest_body matches Some(b) && b@ == spec_render_lines(
                    spec_manifest_lines(
                        seg_views(old(self).segments@).update(
                            0,
                            spec_complete_segment(old(self).segments@[0]@, end_pts),
                        ),
                        old(self).media_sequence as u64,
                        old(self).low_latency_mode,
                        old(self).is_live,
                        old(self).init_segment@.len() > 0,
                        old(self).part_duration,
                    ),
                )
            },
    {
        if self.segments.len() > 0 {
            let mut front = match self.segments.pop_front() {
                Some(s) => s,
                None => {
                    proof {
                        assert(false);
                    }
                    return ;
                },
            };
            self.published = true;
            front.complete(end_pts);
            self.segments.push_front(front);
            proof {
                assert(seg_views(self.segments@) =~= seg_views(old(self).segments@).update(
                    0,
                    spec_complete_segment(old(self).segments@[0]@, end_pts),
                ));
                assert(self.segments@[0]@ == spec_complete_segment(
                    old(self).segments@[0]@,
                    end_pts,
                ));
            }
            self.generate_manfiest();
        }
        self.new_segment(end_pts, key_frame, program_datetime);
    }

    /// Push a fresh segment at the front and evict down to the window.
    #[verifier::loop_isolation(false)]
    #[verifier::rlimit(100)]
    #[verifier::spinoff_prover]
    fn new_segment(&mut self, begin_pts: u32, key_frame: bool, program_datetime: u64)
        requires
            old(self).wf(),
            old(self).media_sequence + old(self).segments@.len() + 1 <= usize::MAX,
        ensures
            final(self).wf(),
            final(self).windows_size == old(self).windows_size,
            final(self).part_duration == old(self).part_duration,
            final(self).low_latency_mode == old(self).low_latency_mode,
            final(self).is_live == old(self).is_live,
            final(self).version == old(self).version,
            final(self).init_segment == old(self).init_segment,
            final(self).manifest_body == old(self).manifest_body,
            final(self).media_sequence >= old(self).media_sequence,
            final(self).media_sequence + final(self).segments@.len() == old(self).media_sequence
                + old(self).segments@.len() + 1,
            final(self).segments@.len() > 0,
            final(self).segments@[0]@ =~= spec_fresh_segment(begin_pts, key_frame, program_datetime),
            final(self).published == old(self).published,
            old(self).segments@.len() > 0 ==> {
                &&& (final(self).segments@.len() > 1 ==> final(self).segments@[1]
                    == old(self).segments@[0])
                &&& (final(self).segments@.len() == 1 ==> final(self).outdated@.len() > 0
                    && final(self).outdated@.last() == old(self).segments@[0])
            },
            old(self).segments@.len() == 0 ==> final(self).media_sequence
                == old(self).media_sequence,
    {
        let ghost old_front: Segment = if old(self).segments@.len() > 0 {
            old(self).segments@[0]
        } else {
            old(self).segments@[0]
        };
        self.segments.push_front(Segment::new(begin_pts, key_frame, program_datetime));
        match self.windows_size {
            Some(window_size) => {
                while window_size < self.segments.len()
                    invariant
                        self.windows_size == old(self).windows_size,
                        self.published == old(self).published,
                        self.manifest_body == old(self).manifest_body,
                        self.init_segment == old(self).init_segment,
                        self.part_duration == old(self).part_duration,
                        self.low_latency_mode == old(self).low_latency_mode,
                        self.is_live == old(self).is_live,
                        self.version == old(self).version,
                        self.segments@.len() > 0,
                        self.segments@[0]@ =~= spec_fresh_segment(
                            begin_pts,
                            key_frame,
                            program_datetime,
                        ),
                        self.media_sequence >= old(self).media_sequence,
                        self.media_sequence + self.segments@.len() == old(self).media_sequence
                            + old(self).segments@.len() + 1,
                        self.media_sequence + self.segments@.len() <= usize::MAX,
                        old(self).segments@.len() > 0 ==> {
                            &&& (self.segments@.len() > 1 ==> self.segments@[1] == old_front)
                            &&& (self.segments@.len() == 1 ==> self.outdated@.len() > 0
                                && self.outdated@.last() == old_front)
                        },
                        old(self).segments@.len() == 0 ==> self.media_sequence == old(
                            self,
                        ).media_sequence,
                    decreases self.segments@.len(),
                {
                    match self.segments.pop_back() {
                        Some(last_segment) => {
                            self.outdated.push_back(last_segment);
                            self.media_sequence = self.media_sequence + 1;
                        },
                        None => {
                            proof {
                                assert(false);
                            }
                        },
                    }
                }
                while window_size < self.outdated.len()
                    invariant
                        self.windows_size == old(self).windows_size,
                        self.published == old(self).published,
                        self.manifest_body == old(self).manifest_body,
                        self.init_segment == old(self).init_segment,
                        self.part_duration == old(self).part_duration,
                        self.low_latency_mode == old(self).low_latency_mode,
                        self.is_live == old(self).is_live,
                        self.version == old(self).version,
                        self.segments@.len() > 0,
                        self.segments@[0]@ =~= spec_fresh_segment(
                            begin_pts,
                            key_frame,
                            program_datetime,
                        ),
                        self.media_sequence >= old(self).media_sequence,
                        self.media_sequence + self.segments@.len() == old(self).media_sequence
                            + old(self).segments@.len() + 1,
                        self.segments@.len() <= window_size,
                        old(self).segments@.len() > 0 ==> {
                            &&& (self.segments@.len() > 1 ==> self.segments@[1] == old_front)
                            &&& (self.segments@.len() == 1 ==> self.outdated@.len() > 0
                                && self.outdated@.last() == old_front)
                        },
                        old(self).segments@.len() == 0 ==> self.media_sequence == old(
                            self,
                        ).media_sequence,
                    decreases self.outdated@.len(),
                {
                    let _ = self.outdated.pop_front();
                }
            },
            None => {},
        }
    }

    /// Append fragment bytes to the front segment's buffer and to its
    /// open trailing partial; everything else is untouched.  A no-op
    /// while no segment is live.
    pub fn push(&mut self, data: &Vec<u8>)
        requires
            old(self).wf(),
        ensures
            final(self).wf(),
            final(self).media_sequence == old(self).media_sequence,
            final(self).outdated@ == old(self).outdated@,
            final(self).windows_size == old(self).windows_size,
            final(self).part_duration == old(self).part_duration,
            final(self).low_latency_mode == old(self).low_latency_mode,
            final(self).is_live == old(self).is_live,
            final(self).version == old(self).version,
            final(self).published == old(self).published,
            final(self).init_segment == old(self).init_segment,
            final(self).manifest_body == old(self).manifest_body,
            old(self).segments@.len() > 0 ==> seg_views(final(self).segments@) =~= seg_views(
                old(self).segments@,
            ).update(
                0,
                SegmentView {
                    data: old(self).segments@[0]@.data + data@,
                    partials: spec_append_last(old(self).segments@[0]@.partials, data@),
                    ..old(self).segments@[0]@
                },
            ),
            old(self).segments@.len() == 0 ==> final(self).segments@ == old(self).segments@,
    {
        if self.segments.len() > 0 {
            let mut front = match self.segments.pop_front() {
                Some(s) => s,
                None => {
                    proof {
                        assert(false);
                    }
                    return ;
                },
            };
            front.push(data);
            self.segments.push_front(front);
            proof {
                assert(seg_views(self.segments@) =~= seg_views(old(self).segments@).update(
                    0,
                    SegmentView {
                        data: old(self).segments@[0]@.data + data@,
                        partials: spec_append_last(old(self).segments@[0]@.partials, data@),
                        ..old(self).segments@[0]@
                    },
                ));
            }
        }
    }

    /// Whether `msn` falls in the live window.
    pub fn in_range(&self, msn: usize) -> (r: bool)
        ensures
            r == (self.media_sequence <= msn && msn < self.media_sequence
                + self.segments@.len()),
    {
        self.media_sequence <= msn && msn - self.media_sequence < self.segments.len()
    }

    /// Whether `msn` falls in the outdated tail behind the window.
    pub fn in_outdated(&self, msn: usize) -> (r: bool)
        ensures
            r == (msn < self.media_sequence && self.media_sequence <= msn
                + self.segments@.len()),
    {
        self.media_sequence > msn && self.segments.len() >= self.media_sequence - msn
    }

    /// The segment with the given media sequence number, exactly when
    /// the number falls in the live window or in the kept tail.
    pub fn segment(&self, msn: usize) -> (r: Option<&Segment>)
        ensures
            match self.spec_segment_at(msn as int) {
                Some(sv) => r matches Some(seg) && seg@ == sv,
                None => r is None,
            },
    {
        if self.in_range(msn) {
            let index = self.segments.len() - 1 - (msn - self.media_sequence);
            proof {
                assert(seg_views(self.segments@)[index as int] == self.segments@[index as int]@);
            }
            Some(&self.segments[index])
        } else if self.in_outdated(msn) {
            let back_offset = self.media_sequence - msn;
            if back_offset <= self.outdated.len() {
                let index = self.outdated.len() - back_offset;
                proof {
                    assert(seg_views(self.outdated@)[index as int]
                        == self.outdated@[index as int]@);
                }
                Some(&self.outdated[index])
            } else {
                None
            }
        } else {
            None
        }
    }

    /// The bytes of one complete partial, addressed by media sequence
    /// number and partial index; nothing for an unknown segment, an
    /// index out of range, or a partial still open.
    pub fn partial(&self, msn: usize, part: usize) -> (r: Option<Vec<u8>>)
        ensures
            match self.spec_segment_at(msn as int) {
                Some(sv) => {
                    if part < sv.partials.len() && sv.partials[part as int].end_pts is Some {
                        r matches Some(v) && v@ == sv.partials[part as int].data
                    } else {
                        r is None
                    }
                },
                None => r is None,
            },
    {
        match self.segment(msn) {
            Some(seg) => {
                if part < seg.partials.len() {
                    proof {
                        assert(seg@.partials[part as int] == seg.partials@[part as int]@);
                    }
                    seg.partials[part].payload()
                } else {
                    None
                }
            },
            None => None,
        }
    }

    /// A streamed-segment response: the bytes buffered so far and
    /// whether the segment is already complete.  An incomplete segment's
    /// reader stays subscribed outside the library and receives each
    /// later push and the completion.
    pub fn segment_response(&self, msn: usize) -> (r: Option<(Vec<u8>, bool)>)
        ensures
            match self.spec_segment_at(msn as int) {
                Some(sv) => r matches Some(resp) && resp.0@ == sv.data && resp.1 == (sv.end_pts
                    is Some),
                None => r is None,
            },
    {
        match self.segment(msn) {
            Some(seg) => {
                let bytes = crate::ts::demuxer::copy_range(&seg.data, 0, seg.data.len());
                proof {
                    assert(seg.data@.subrange(0, seg.data@.len() as int) =~= seg.data@);
                }
                Some((bytes, seg.is_complete()))
            },
            None => None,
        }
    }

    /// The cached manifest, once the first segment was published.
    pub fn get_manifest_text(&self) -> (r: Option<&String>)
        ensures
            match r {
                Some(b) => self.published && self.manifest_body == Some(*b),
                None => !self.published || self.manifest_body is None,
            },
    {
        if self.published {
            match &self.manifest_body {
                Some(b) => Some(b),
                None => None,
            }
        } else {
            None
        }
    }

    /// Rebuild and cache the manifest text from the current state.
    pub fn generate_manfiest(&mut self)
        requires
            old(self).media_sequence + old(self).segments@.len() <= usize::MAX,
        ensures
            *final(self) == (SegmentStore {
                manifest_body: Some(final(self).manifest_body->Some_0),
                ..*old(self)
            }),
            final(self).manifest_body matches Some(b) && b@ == spec_render_lines(
                spec_manifest_lines(
                    seg_views(old(self).segments@),
                    old(self).media_sequence as u64,
                    old(self).low_latency_mode,
                    old(self).is_live,
                    old(self).init_segment@.len() > 0,
                    old(self).part_duration,
                ),
            ),
    {
        let lines = self.manifest_lines();
        let body = render_lines(&lines);
        self.manifest_body = Some(body);
    }

    /// Build the manifest lines from the current state.
    #[verifier::loop_isolation(false)]
    #[verifier::rlimit(100)]
    #[verifier::spinoff_prover]
    fn manifest_lines(&self) -> (r: Vec<ManifestLine>)
        requires
            self.media_sequence + self.segments@.len() <= usize::MAX,
        ensures
            r@ == spec_manifest_lines(
                seg_views(self.segments@),
                self.media_sequence as u64,
                self.low_latency_mode,
                self.is_live,
                self.init_segment@.len() > 0,
                self.part_duration,
            ),
    {
        let ghost segs = seg_views(self.segments@);
        let mut lines: Vec<ManifestLine> = Vec::new();
        lines.push(ManifestLine::Header);
        lines.push(ManifestLine::Version(9));
        lines.push(ManifestLine::TargetDuration((self.target_ticks() + 89999) / 90000));
        if self.low_latency_mode {
            lines.push(ManifestLine::PartInf(self.part_duration));
            lines.push(ManifestLine::ServerControl(self.part_duration));
        }
        if !self.is_live {
            lines.push(ManifestLine::PlaylistTypeVod);
            lines.push(ManifestLine::AllowCache);
        }
        if self.init_segment.len() > 0 {
            lines.push(ManifestLine::InitMap);
        }
        lines.push(ManifestLine::MediaSequence(self.media_sequence as u64));
        proof {
            assert(lines@ =~= spec_header_lines(
                segs,
                self.media_sequence as u64,
                self.low_latency_mode,
                self.is_live,
                self.init_segment@.len() > 0,
                self.part_duration,
            ));
        }
        let n = self.segments.len();
        let mut k: usize = 0;
        while k < n
            invariant
                k <= n,
                n == segs.len(),
                lines@ == spec_header_lines(
                    segs,
                    self.media_sequence as u64,
                    self.low_latency_mode,
                    self.is_live,
                    self.init_segment@.len() > 0,
                    self.part_duration,
                ) + spec_body_lines(segs, self.media_sequence as u64, self.low_latency_mode, 0)
                    .take(
                    spec_body_lines(segs, self.media_sequence as u64, self.low_latency_mode, 0).len()
                        - spec_body_lines(
                        segs,
                        self.media_sequence as u64,
                        self.low_latency_mode,
                        k as int,
                    ).len(),
                ),
            decreases n - k,
        {
            let seg = &self.segments[n - 1 - k];
            let msn = self.media_sequence + k;
            let include_parts = self.low_latency_mode && n - k <= 4;
            let ghost pre_lines = lines@;
            lines.push(ManifestLine::Blank);
            lines.push(ManifestLine::ProgramDateTime(seg.program_datetime));
            if include_parts {
                let m = seg.partials.len();
                let mut i: usize = 0;
                while i < m
                    invariant
                        i <= m,
                        m == segs[n - 1 - k as int].partials.len(),
                        seg == self.segments@[n - 1 - k as int],
                        lines@ == pre_lines + seq![
                            ManifestLine::Blank,
                            ManifestLine::ProgramDateTime(
                                segs[n - 1 - k as int].program_datetime,
                            ),
                        ] + spec_partial_lines(
                            segs[n - 1 - k as int].partials,
                            (self.media_sequence + k) as u64,
                            0,
                        ).take(
                            spec_partial_lines(
                                segs[n - 1 - k as int].partials,
                                (self.media_sequence + k) as u64,
                                0,
                            ).len() - spec_partial_lines(
                                segs[n - 1 - k as int].partials,
                                (self.media_sequence + k) as u64,
                                i as int,
                            ).len(),
                        ),
                    decreases m - i,
                {
                    proof {
                        lemma_partial_lines_len(
                            segs[n - 1 - k as int].partials,
                            (self.media_sequence + k) as u64,
                            i as int,
                        );
                        lemma_partial_lines_len(
                            segs[n - 1 - k as int].partials,
                            (self.media_sequence + k) as u64,
                            i + 1,
                        );
                        lemma_partial_lines_len(
                            segs[n - 1 - k as int].partials,
                            (self.media_sequence + k) as u64,
                            0,
                        );
                    }
                    let p = &seg.partials[i];
                    match p.duration() {
                        Some(d) => {
                            lines.push(
                                ManifestLine::Part {
                                    duration: d,
                                    msn: msn as u64,
                                    index: i as u64,
                                    independent: p.is_independant(),
                                },
                            );
                        },
                        None => {
                            lines.push(
                                ManifestLine::PreloadHint {
                                    msn: msn as u64,
                                    index: i as u64,
                                    independent: p.is_independant(),
                                },
                            );
                        },
                    }
                    proof {
                        let parts = segs[n - 1 - k as int].partials;
                        let mm = (self.media_sequence + k) as u64;
                        let full = spec_partial_lines(parts, mm, 0);
                        lemma_partial_lines_take(parts, mm, 0, i as int);
                        lemma_partial_lines_take(parts, mm, 0, i + 1);
                        lemma_partial_lines_index(parts, mm, 0);
                        assert(full[i as int] == spec_partial_line(parts[i as int], mm, i as int));
                        assert(full.take(i + 1) =~= full.take(i as int).push(full[i as int]));
                        assert(segs[n - 1 - k as int] == self.segments@[n - 1 - k as int]@);
                        assert(parts[i as int] == self.segments@[n - 1 - k as int]@.partials[i as int]);
                        assert(lines@ =~= pre_lines + seq![
                            ManifestLine::Blank,
                            ManifestLine::ProgramDateTime(
                                segs[n - 1 - k as int].program_datetime,
                            ),
                        ] + full.take(full.len() - spec_partial_lines(parts, mm, i + 1).len()));
                    }
                    i = i + 1;
                }
                proof {
                    lemma_partial_lines_len(
                        segs[n - 1 - k as int].partials,
                        (self.media_sequence + k) as u64,
                        m as int,
                    );
                    lemma_partial_lines_len(
                        segs[n - 1 - k as int].partials,
                        (self.media_sequence + k) as u64,
                        0,
                    );
                    let parts = segs[n - 1 - k as int].partials;
                    let mm = (self.media_sequence + k) as u64;
                    let full = spec_partial_lines(parts, mm, 0);
                    assert(full.take(full.len() as int) =~= full);
                }
            }
            match seg.duration() {
                Some(d) => {
                    lines.push(ManifestLine::Inf { duration: d, msn: msn as u64 });
                },
                None => {},
            }
            proof {
                let mm = (self.media_sequence + k) as u64;
                let sl = spec_segment_lines(
                    segs[n - 1 - k as int],
                    mm,
                    self.low_latency_mode && k + 4 >= n,
                );
                assert(lines@ =~= pre_lines + sl);
                lemma_body_lines_step(segs, self.media_sequence as u64, self.low_latency_mode, k as int);
            }
            k = k + 1;
        }
        proof {
            lemma_body_lines_len(segs, self.media_sequence as u64, self.low_latency_mode, 0);
            let body = spec_body_lines(segs, self.media_sequence as u64, self.low_latency_mode, 0);
            assert(body.take(body.len() as int) =~= body);
        }
        lines
    }

    /// The largest complete-segment duration, floored at one second.
    #[verifier::loop_isolation(false)]
    fn target_ticks(&self) -> (r: u64)
        ensures
            r == spec_target_ticks(seg_views(self.segments@), 0),
            r >= 90000,
            r < 90000 + 0x2_0000_0000,
    {
        let ghost segs = seg_views(self.segments@);
        let n = self.segments.len();
        let mut best: u64 = 90000;
        let mut i: usize = n;
        proof {
            lemma_target_bound(segs, n as int);
        }
        while i > 0
            invariant
                i <= n,
                n == segs.len(),
                n == self.segments@.len(),
                best == spec_target_ticks(segs, i as int),
                90000 <= best < 90000 + 0x2_0000_0000,
            decreases i,
        {
            i = i - 1;
            proof {
                assert(segs[i as int] == self.segments@[i as int]@);
            }
            match self.segments[i].duration() {
                Some(d) => {
                    proof {
                        assert(d < PCR_CYCLE);
                    }
                    if d > best {
                        best = d;
                    }
                },
                None => {},
            }
            proof {
                lemma_target_bound(segs, i as int);
            }
        }
        best
    }
}

proof fn lemma_target_bound(segs: Seq<SegmentView>, i: int)
    ensures
        90000 <= spec_target_ticks(segs, i) < 90000 + 0x2_0000_0000,
    decreases segs.len() - i,
{
    if !(i < 0 || i >= segs.len()) {
        lemma_target_bound(segs, i + 1);
    }
}

proof fn lemma_partial_lines_len(partials: Seq<PartialView>, msn: u64, i: int)
    ensures
        0 <= i <= partials.len() ==> spec_partial_lines(partials, msn, i).len() == partials.len()
            - i,
    decreases partials.len() - i,
{
    if 0 <= i < partials.len() {
        lemma_partial_lines_len(partials, msn, i + 1);
    }
}

proof fn lemma_partial_lines_take(partials: Seq<PartialView>, msn: u64, i: int, j: int)
    requires
        0 <= i <= j <= partials.len(),
    ensures
        spec_partial_lines(partials, msn, i).take(j - i) + spec_partial_lines(partials, msn, j)
            =~= spec_partial_lines(partials, msn, i),
    decreases j - i,
{
    lemma_partial_lines_len(partials, msn, i);
    lemma_partial_lines_len(partials, msn, j);
    if i < j {
        lemma_partial_lines_take(partials, msn, i + 1, j);
        lemma_partial_lines_len(partials, msn, i + 1);
        assert(spec_partial_lines(partials, msn, i).take(j - i).drop_first()
            =~= spec_partial_lines(partials, msn, i + 1).take(j - (i + 1)));
    }
}

proof fn lemma_body_lines_len(segs: Seq<SegmentView>, ms: u64, ll: bool, k: int)
    ensures
        spec_body_lines(segs, ms, ll, k).len() >= 0,
{
}

/// One step of the body build: the lines up to position `k + 1` are the
/// lines up to `k` plus that segment's lines.
proof fn lemma_body_lines_step(segs: Seq<SegmentView>, ms: u64, ll: bool, k: int)
    requires
        0 <= k < segs.len(),
    ensures
        spec_body_lines(segs, ms, ll, 0).take(
            spec_body_lines(segs, ms, ll, 0).len() - spec_body_lines(segs, ms, ll, k).len(),
        ) + spec_segment_lines(segs[segs.len() - 1 - k], (ms + k) as u64, ll && k + 4 >= segs.len())
            =~= spec_body_lines(segs, ms, ll, 0).take(
            spec_body_lines(segs, ms, ll, 0).len() - spec_body_lines(segs, ms, ll, k + 1).len(),
        ),
{
    lemma_body_lines_prefix(segs, ms, ll, 0, k);
    lemma_body_lines_prefix(segs, ms, ll, 0, k + 1);
}

/// The body from `i` is the body from `i` up to `j`, then the body from
/// `j`.
proof fn lemma_body_lines_prefix(segs: Seq<SegmentView>, ms: u64, ll: bool, i: int, j: int)
    requires
        0 <= i <= j <= segs.len(),
    ensures
        spec_body_lines(segs, ms, ll, i).take(
            spec_body_lines(segs, ms, ll, i).len() - spec_body_lines(segs, ms, ll, j).len(),
        ) =~= spec_body_concat(segs, ms, ll, i, j),
        spec_body_lines(segs, ms, ll, i) =~= spec_body_concat(segs, ms, ll, i, j)
            + spec_body_lines(segs, ms, ll, j),
        spec_body_lines(segs, ms, ll, i).len() >= spec_body_lines(segs, ms, ll, j).len(),
    decreases j - i,
{
    if i < j {
        lemma_body_lines_prefix(segs, ms, ll, i + 1, j);
        let head = spec_segment_lines(segs[segs.len() - 1 - i], (ms + i) as u64, ll && i + 4
            >= segs.len());
        assert(spec_body_lines(segs, ms, ll, i) =~= head + spec_body_lines(segs, ms, ll, i + 1));
        assert(spec_body_concat(segs, ms, ll, i, j) =~= head + spec_body_concat(
            segs,
            ms,
            ll,
            i + 1,
            j,
        ));
    } else {
        assert(spec_body_concat(segs, ms, ll, i, j) =~= Seq::<ManifestLine>::empty());
    }
}

/// The per-segment lines for positions `i` up to `j`.
pub open spec fn spec_body_concat(segs: Seq<SegmentView>, ms: u64, ll: bool, i: int, j: int) -> Seq<
    ManifestLine,
>
    decreases j - i,
{
    if i >= j {
        Seq::empty()
    } else {
        spec_segment_lines(segs[segs.len() - 1 - i], (ms + i) as u64, ll && i + 4 >= segs.len())
            + spec_body_concat(segs, ms, ll, i + 1, j)
    }
}


/// The highest tick count the duration renderer accepts; every wrap-safe
/// duration lies below it.
pub open spec fn spec_render_ticks(t: u64) -> Seq<char> {
    if t < 0x1_0000_0000_0000 {
        spec_seconds6(t as int)
    } else {
        spec_seconds6(0)
    }
}

/// The text of one manifest line.
pub open spec fn spec_render_line(l: ManifestLine) -> Seq<char> {
    match l {
        ManifestLine::Header => "#EXTM3U\n"@,
        ManifestLine::Version(v) => "#EXT-X-VERSION:"@ + spec_dec(v as int) + "\n"@,
        ManifestLine::TargetDuration(d) => "#EXT-X-TARGETDURATION:"@ + spec_dec(d as int)
            + "\n"@,
        ManifestLine::PartInf(pd) => "#EXT-X-PART-INF:PART-TARGET="@ + spec_render_ticks(
            pd as u64,
        ) + "\n"@,
        ManifestLine::ServerControl(pd) => "#EXT-X-SERVER-CONTROL:CAN-BLOCK-RELOAD=YES,PART-HOLD-BACK="@
            + spec_render_ticks((pd as u64 * 3 + pd as u64 / 1000) as u64) + "\n"@,
        ManifestLine::PlaylistTypeVod => "#EXT-X-PLAYLIST-TYPE:VOD\n"@,
        ManifestLine::AllowCache => "#EXT-X-ALLOW-CACHE:YES\n"@,
        ManifestLine::InitMap => "#EXT-X-MAP:URI=\"init.mp4\"\n"@,
        ManifestLine::MediaSequence(v) => "#EXT-X-MEDIA-SEQUENCE:"@ + spec_dec(v as int)
            + "\n"@,
        ManifestLine::Blank => "\n"@,
        ManifestLine::ProgramDateTime(n) => "#EXT-X-PROGRAM-DATE-TIME:"@ + rfc3339_of(n as int)
            + "\n"@,
        ManifestLine::Part { duration, msn, index, independent } => "#EXT-X-PART:DURATION="@
            + spec_render_ticks(duration) + ",URI=\"part.m4s?msn="@ + spec_dec(msn as int)
            + "&part="@ + spec_dec(index as int) + "\""@ + (if independent {
            ",INDEPENDENT=YES"@
        } else {
            Seq::<char>::empty()
        }) + "\n"@,
        ManifestLine::PreloadHint { msn, index, independent } => "#EXT-X-PRELOAD-HINT:TYPE=PART,URI=\"part.m4s?msn="@
            + spec_dec(msn as int) + "&part="@ + spec_dec(index as int) + "\""@ + (
        if independent {
            ",INDEPENDENT=YES"@
        } else {
            Seq::<char>::empty()
        }) + "\n"@,
        ManifestLine::Inf { duration, msn } => "#EXTINF:"@ + spec_render_ticks(duration) + "\n"@
            + "segment.m4s?msn="@ + spec_dec(msn as int) + "\n"@,
    }
}

/// The text of a line list.
pub open spec fn spec_render_lines(lines: Seq<ManifestLine>) -> Seq<char>
    decreases lines.len(),
{
    if lines.len() == 0 {
        Seq::empty()
    } else {
        spec_render_line(lines[0]) + spec_render_lines(lines.drop_first())
    }
}

/// Render a duration in ticks, with implausibly large values rendered as
/// zero.
fn render_ticks(t: u64) -> (r: String)
    ensures
        r@ == spec_render_ticks(t),
{
    if t < 0x1_0000_0000_0000 {
        ticks_to_seconds6(t)
    } else {
        ticks_to_seconds6(0)
    }
}

/// Render one manifest line.
fn render_line(l: &ManifestLine) -> (r: String)
    ensures
        r@ == spec_render_line(*l),
{
    let mut s = String::new();
    match l {
        ManifestLine::Header => {
            s.append("#EXTM3U\n");
        },
        ManifestLine::Version(v) => {
            s.append("#EXT-X-VERSION:");
            s.append(u64_to_string(*v).as_str());
            s.append("\n");
        },
        ManifestLine::TargetDuration(d) => {
            s.append("#EXT-X-TARGETDURATION:");
            s.append(u64_to_string(*d).as_str());
            s.append("\n");
        },
        ManifestLine::PartInf(pd) => {
            s.append("#EXT-X-PART-INF:PART-TARGET=");
            s.append(render_ticks(*pd as u64).as_str());
            s.append("\n");
        },
        ManifestLine::ServerControl(pd) => {
            s.append("#EXT-X-SERVER-CONTROL:CAN-BLOCK-RELOAD=YES,PART-HOLD-BACK=");
            s.append(render_ticks(*pd as u64 * 3 + *pd as u64 / 1000).as_str());
            s.append("\n");
        },
        ManifestLine::PlaylistTypeVod => {
            s.append("#EXT-X-PLAYLIST-TYPE:VOD\n");
        },
        ManifestLine::AllowCache => {
            s.append("#EXT-X-ALLOW-CACHE:YES\n");
        },
        ManifestLine::InitMap => {
            s.append("#EXT-X-MAP:URI=\"init.mp4\"\n");
        },
        ManifestLine::MediaSequence(v) => {
            s.append("#EXT-X-MEDIA-SEQUENCE:");
            s.append(u64_to_string(*v).as_str());
            s.append("\n");
        },
        ManifestLine::Blank => {
            s.append("\n");
        },
        ManifestLine::ProgramDateTime(n) => {
            s.append("#EXT-X-PROGRAM-DATE-TIME:");
            s.append(crate::clock::format_rfc3339(*n).as_str());
            s.append("\n");
        },
        ManifestLine::Part { duration, msn, index, independent } => {
            s.append("#EXT-X-PART:DURATION=");
            s.append(render_ticks(*duration).as_str());
            s.append(",URI=\"part.m4s?msn=");
            s.append(u64_to_string(*msn).as_str());
            s.append("&part=");
            s.append(u64_to_string(*index).as_str());
            s.append("\"");
            if *independent {
                s.append(",INDEPENDENT=YES");
            }
            s.append("\n");
        },
        ManifestLine::PreloadHint { msn, index, independent } => {
            s.append("#EXT-X-PRELOAD-HINT:TYPE=PART,URI=\"part.m4s?msn=");
            s.append(u64_to_string(*msn).as_str());
            s.append("&part=");
            s.append(u64_to_string(*index).as_str());
            s.append("\"");
            if *independent {
                s.append(",INDEPENDENT=YES");
            }
            s.append("\n");
        },
        ManifestLine::Inf { duration, msn } => {
            s.append("#EXTINF:");
            s.append(render_ticks(*duration).as_str());
            s.append("\n");
            s.append("segment.m4s?msn=");
            s.append(u64_to_string(*msn).as_str());
            s.append("\n");
        },
    }
    proof {
        assert(s@ =~= spec_render_line(*l));
    }
    s
}

/// Render a whole line list.
fn render_lines(lines: &Vec<ManifestLine>) -> (r: String)
    ensures
        r@ == spec_render_lines(lines@),
{
    let mut out = String::new();
    let mut i: usize = 0;
    let n = lines.len();
    proof {
        assert(lines@.skip(0) =~= lines@);
        assert(out@ + spec_render_lines(lines@.skip(0)) =~= spec_render_lines(lines@));
    }
    while i < n
        invariant
            i <= n,
            n == lines@.len(),
            spec_render_lines(lines@) == out@ + spec_render_lines(lines@.skip(i as int)),
        decreases n - i,
    {
        let piece = render_line(&lines[i]);
        proof {
            let rest = lines@.skip(i as int);
            assert(rest[0] == lines@[i as int]);
            assert(rest.skip(1) =~= lines@.skip(i + 1));
            assert((out@ + piece@) + spec_render_lines(lines@.skip(i + 1)) =~= out@
                + spec_render_lines(rest));
        }
        out.append(piece.as_str());
        i = i + 1;
    }
    proof {
        assert(lines@.skip(n as int) =~= Seq::<ManifestLine>::empty());
        assert(out@ + spec_render_lines(Seq::<ManifestLine>::empty()) =~= out@);
    }
    out
}

} // verus!
