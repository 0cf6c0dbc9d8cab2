//! NAL units: emulation prevention (EBSP to RBSP and back) and Annex-B
//! framing.

use vstd::prelude::*;

verus! {

/// Strip emulation-prevention bytes: each `00 00 03` contributes `00 00`
/// and the `03` is dropped; every other byte is copied.
pub open spec fn spec_ebsp_to_rbsp(s: Seq<u8>) -> Seq<u8>
    decreases s.len(),
{
    if s.len() == 0 {
        Seq::empty()
    } else if s.len() >= 3 && s[0] == 0 && s[1] == 0 && s[2] == 3 {
        seq![0u8, 0u8] + spec_ebsp_to_rbsp(s.skip(3))
    } else {
        seq![s[0]] + spec_ebsp_to_rbsp(s.skip(1))
    }
}

/// Insert emulation-prevention bytes: with `zeros` zero bytes already
/// emitted just before, a byte of value three or less gets an `03` escape
/// when two zeros precede it.
pub open spec fn spec_rbsp_to_ebsp(r: Seq<u8>, zeros: int) -> Seq<u8>
    decreases r.len(),
{
    if r.len() == 0 {
        Seq::empty()
    } else if zeros >= 2 && r[0] <= 3 {
        seq![3u8, r[0]] + spec_rbsp_to_ebsp(
            r.skip(1),
            if r[0] == 0 {
                1int
            } else {
                0int
            },
        )
    } else {
        seq![r[0]] + spec_rbsp_to_ebsp(
            r.skip(1),
            if r[0] == 0 {
                zeros + 1
            } else {
                0int
            },
        )
    }
}

/// `zeros` zero bytes.
pub open spec fn spec_zeros(n: int) -> Seq<u8>
    decreases n,
{
    if n <= 0 {
        Seq::empty()
    } else {
        seq![0u8] + spec_zeros(n - 1)
    }
}

/// One copy step of the stripper.
proof fn lemma_ebsp_step_copy(s: Seq<u8>)
    requires
        s.len() > 0,
        !(s.len() >= 3 && s[0] == 0 && s[1] == 0 && s[2] == 3),
    ensures
        spec_ebsp_to_rbsp(s) == seq![s[0]] + spec_ebsp_to_rbsp(s.skip(1)),
{
}

/// One escape step of the stripper.
proof fn lemma_ebsp_step_escape(s: Seq<u8>)
    requires
        s.len() >= 3,
        s[0] == 0,
        s[1] == 0,
        s[2] == 3,
    ensures
        spec_ebsp_to_rbsp(s) == seq![0u8, 0u8] + spec_ebsp_to_rbsp(s.skip(3)),
{
}

/// All bytes of `spec_zeros` are zero.
proof fn lemma_zeros_all(n: int)
    ensures
        spec_zeros(n).len() == (if n <= 0 {
            0int
        } else {
            n
        }),
        forall|i: int| 0 <= i < spec_zeros(n).len() ==> spec_zeros(n)[i] == 0,
    decreases n,
{
    if n > 0 {
        lemma_zeros_all(n - 1);
    }
}

/// The stripper copies a short run of zeros when no escape pattern can
/// start inside it.
proof fn lemma_ebsp_through_zeros(z: int, t: Seq<u8>)
    requires
        0 <= z <= 2,
        t.len() > 0,
        t[0] != 0,
        z == 2 ==> t[0] != 3,
    ensures
        spec_ebsp_to_rbsp(spec_zeros(z) + t) == spec_zeros(z) + spec_ebsp_to_rbsp(t),
    decreases z,
{
    lemma_zeros_all(z);
    if z == 0 {
        assert(spec_zeros(0) + t =~= t);
        assert(spec_zeros(0) + spec_ebsp_to_rbsp(t) =~= spec_ebsp_to_rbsp(t));
    } else {
        let s = spec_zeros(z) + t;
        lemma_zeros_all(z - 1);
        assert(s.skip(1) =~= spec_zeros(z - 1) + t);
        lemma_ebsp_step_copy(s);
        lemma_ebsp_through_zeros(z - 1, t);
        assert(seq![0u8] + (spec_zeros(z - 1) + spec_ebsp_to_rbsp(t)) =~= spec_zeros(z)
            + spec_ebsp_to_rbsp(t));
    }
}

/// Stripping undoes insertion: decoding the escaped form of any payload,
/// behind any run of up to two zeros that the encoder state accounts for,
/// gives the zeros and the payload back.
pub proof fn lemma_rbsp_round_trip_at(r: Seq<u8>, zeros: int)
    requires
        0 <= zeros <= 2,
    ensures
        spec_ebsp_to_rbsp(spec_zeros(zeros) + spec_rbsp_to_ebsp(r, zeros)) == spec_zeros(zeros)
            + r,
    decreases r.len(),
{
    lemma_zeros_all(zeros);
    let lhs = spec_zeros(zeros) + spec_rbsp_to_ebsp(r, zeros);
    if r.len() == 0 {
        assert(lhs =~= spec_zeros(zeros));
        assert(spec_zeros(zeros) + r =~= spec_zeros(zeros));
        if zeros > 0 {
            // The stripper copies the bare zeros one by one.
            lemma_ebsp_step_copy(spec_zeros(zeros));
            lemma_zeros_all(zeros - 1);
            assert(spec_zeros(zeros).skip(1) =~= spec_zeros(zeros - 1));
            if zeros == 2 {
                lemma_ebsp_step_copy(spec_zeros(1));
                assert(spec_zeros(1).skip(1) =~= spec_zeros(0));
            }
            assert(spec_ebsp_to_rbsp(spec_zeros(zeros)) =~= spec_zeros(zeros));
        }
    } else {
        let r0 = r[0];
        let rest = r.skip(1);
        if zeros == 2 && r0 <= 3 {
            let z1 = if r0 == 0 {
                1int
            } else {
                0int
            };
            assert(lhs =~= seq![0u8, 0u8, 3u8, r0] + spec_rbsp_to_ebsp(rest, z1));
            lemma_ebsp_step_escape(lhs);
            assert(lhs.skip(3) =~= seq![r0] + spec_rbsp_to_ebsp(rest, z1));
            lemma_rbsp_round_trip_at(rest, z1);
            if r0 == 0 {
                assert(lhs.skip(3) =~= spec_zeros(1) + spec_rbsp_to_ebsp(rest, 1));
                assert(seq![0u8, 0u8] + (spec_zeros(1) + rest) =~= spec_zeros(2) + r);
            } else {
                let tail = seq![r0] + spec_rbsp_to_ebsp(rest, 0);
                lemma_ebsp_step_copy(tail);
                assert(tail.skip(1) =~= spec_zeros(0) + spec_rbsp_to_ebsp(rest, 0));
                assert(spec_zeros(0) + rest =~= rest);
                assert(seq![0u8, 0u8] + (seq![r0] + rest) =~= spec_zeros(2) + r);
            }
        } else if r0 == 0 {
            // zeros below two: the zero is copied and joins the pending run.
            assert(lhs =~= spec_zeros(zeros + 1) + spec_rbsp_to_ebsp(rest, zeros + 1));
            lemma_rbsp_round_trip_at(rest, zeros + 1);
            lemma_zeros_all(zeros + 1);
            assert(spec_zeros(zeros + 1) + rest =~= spec_zeros(zeros) + r);
        } else {
            // A non-zero byte: copied, and it ends the zero run.
            let tail = seq![r0] + spec_rbsp_to_ebsp(rest, 0);
            assert(lhs =~= spec_zeros(zeros) + tail);
            lemma_ebsp_through_zeros(zeros, tail);
            lemma_ebsp_step_copy(tail);
            assert(tail.skip(1) =~= spec_zeros(0) + spec_rbsp_to_ebsp(rest, 0));
            lemma_rbsp_round_trip_at(rest, 0);
            assert(spec_zeros(0) + rest =~= rest);
            assert(spec_zeros(zeros) + (seq![r0] + rest) =~= spec_zeros(zeros) + r);
        }
    }
}

/// Escaping then stripping is the identity on any payload.
pub proof fn lemma_rbsp_round_trip(r: Seq<u8>)
    ensures
        spec_ebsp_to_rbsp(spec_rbsp_to_ebsp(r, 0)) == r,
{
    lemma_rbsp_round_trip_at(r, 0);
    assert(spec_zeros(0) + spec_rbsp_to_ebsp(r, 0) =~= spec_rbsp_to_ebsp(r, 0));
    assert(spec_zeros(0) + r =~= r);
}

/// On well-formed inputs (those the escape encoder can produce),
/// stripping is injective.
pub proof fn lemma_ebsp_injective(e1: Seq<u8>, e2: Seq<u8>)
    requires
        exists|r1: Seq<u8>| e1 == spec_rbsp_to_ebsp(r1, 0),
        exists|r2: Seq<u8>| e2 == spec_rbsp_to_ebsp(r2, 0),
        spec_ebsp_to_rbsp(e1) == spec_ebsp_to_rbsp(e2),
    ensures
        e1 == e2,
{
    let r1 = choose|r1: Seq<u8>| e1 == spec_rbsp_to_ebsp(r1, 0);
    let r2 = choose|r2: Seq<u8>| e2 == spec_rbsp_to_ebsp(r2, 0);
    lemma_rbsp_round_trip(r1);
    lemma_rbsp_round_trip(r2);
}

/// Strip emulation-prevention bytes from an escaped payload.
pub fn ebsp_to_rbsp(data: &Vec<u8>) -> (r: Vec<u8>)
    ensures
        r@ == spec_ebsp_to_rbsp(data@),
{
    let mut out: Vec<u8> = Vec::new();
    let mut pos: usize = 0;
    let n = data.len();
    proof {
        assert(data@.skip(0) =~= data@);
        assert(out@ + spec_ebsp_to_rbsp(data@.skip(0)) =~= spec_ebsp_to_rbsp(data@));
    }
    while pos < n
        invariant
            pos <= n,
            n == data@.len(),
            spec_ebsp_to_rbsp(data@) == out@ + spec_ebsp_to_rbsp(data@.skip(pos as int)),
        decreases data@.len() - pos,
    {
        let ghost rest = data@.skip(pos as int);
        if n - pos >= 3 && data[pos] == 0 && data[pos + 1] == 0 && data[pos + 2] == 3 {
            proof {
                assert(rest.len() >= 3 && rest[0] == 0 && rest[1] == 0 && rest[2] == 3);
                assert(rest.skip(3) =~= data@.skip(pos + 3));
                assert((out@ + seq![0u8, 0u8]) + spec_ebsp_to_rbsp(data@.skip(pos + 3)) =~= out@
                    + spec_ebsp_to_rbsp(rest));
            }
            out.push(0);
            out.push(0);
            pos = pos + 3;
        } else {
            let b = data[pos];
            proof {
                assert(rest[0] == b);
                assert(!(rest.len() >= 3 && rest[0] == 0 && rest[1] == 0 && rest[2] == 3));
                assert(rest.skip(1) =~= data@.skip(pos + 1));
                assert((out@ + seq![b]) + spec_ebsp_to_rbsp(data@.skip(pos + 1)) =~= out@
                    + spec_ebsp_to_rbsp(rest));
            }
            out.push(b);
            pos = pos + 1;
        }
    }
    proof {
        assert(data@.skip(data@.len() as int) =~= Seq::<u8>::empty());
        assert(out@ + spec_ebsp_to_rbsp(Seq::<u8>::empty()) =~= out@);
    }
    out
}

/// Escape a raw payload with emulation-prevention bytes.
pub fn rbsp_to_ebsp(data: &Vec<u8>) -> (r: Vec<u8>)
    ensures
        r@ == spec_rbsp_to_ebsp(data@, 0),
{
    let mut out: Vec<u8> = Vec::new();
    let mut pos: usize = 0;
    let mut zeros: usize = 0;
    let n = data.len();
    proof {
        assert(data@.skip(0) =~= data@);
        assert(out@ + spec_rbsp_to_ebsp(data@.skip(0), 0) =~= spec_rbsp_to_ebsp(data@, 0));
    }
    while pos < n
        invariant
            pos <= n,
            n == data@.len(),
            zeros <= 2,
            spec_rbsp_to_ebsp(data@, 0) == out@ + spec_rbsp_to_ebsp(
                data@.skip(pos as int),
                zeros as int,
            ),
        decreases data@.len() - pos,
    {
        let ghost rest = data@.skip(pos as int);
        let b = data[pos];
        proof {
            assert(rest[0] == b);
            assert(rest.skip(1) =~= data@.skip(pos + 1));
        }
        if zeros >= 2 && b <= 3 {
            proof {
                assert((out@ + seq![3u8, b]) + spec_rbsp_to_ebsp(
                    data@.skip(pos + 1),
                    if b == 0 {
                        1int
                    } else {
                        0int
                    },
                ) =~= out@ + spec_rbsp_to_ebsp(rest, zeros as int));
            }
            out.push(3);
            out.push(b);
            zeros = if b == 0 {
                1
            } else {
                0
            };
        } else {
            proof {
                assert((out@ + seq![b]) + spec_rbsp_to_ebsp(
                    data@.skip(pos + 1),
                    if b == 0 {
                        zeros + 1
                    } else {
                        0int
                    },
                ) =~= out@ + spec_rbsp_to_ebsp(rest, zeros as int));
            }
            out.push(b);
            zeros = if b == 0 {
                if zeros < 2 {
                    zeros + 1
                } else {
                    2
                }
            } else {
                0
            };
        }
        pos = pos + 1;
    }
    proof {
        assert(data@.skip(data@.len() as int) =~= Seq::<u8>::empty());
        assert(out@ + spec_rbsp_to_ebsp(Seq::<u8>::empty(), zeros as int) =~= out@);
    }
    out
}

/// Stripping never lengthens a payload.
pub proof fn lemma_ebsp_len(s: Seq<u8>)
    ensures
        spec_ebsp_to_rbsp(s).len() <= s.len(),
    decreases s.len(),
{
    if s.len() == 0 {
    } else if s.len() >= 3 && s[0] == 0 && s[1] == 0 && s[2] == 3 {
        lemma_ebsp_len(s.skip(3));
    } else {
        lemma_ebsp_len(s.skip(1));
    }
}

/// Position of the next three-byte start code `00 00 01` at or after `i`.
pub open spec fn spec_next_start(s: Seq<u8>, i: int) -> Option<int>
    decreases s.len() - i,
{
    if i < 0 || i + 3 > s.len() {
        None
    } else if s[i] == 0 && s[i + 1] == 0 && s[i + 2] == 1 {
        Some(i)
    } else {
        spec_next_start(s, i + 1)
    }
}

pub proof fn lemma_next_start_range(s: Seq<u8>, i: int)
    requires
        spec_next_start(s, i) is Some,
    ensures
        i <= spec_next_start(s, i)->Some_0,
        spec_next_start(s, i)->Some_0 + 3 <= s.len(),
    decreases s.len() - i,
{
    if !(i < 0 || i + 3 > s.len()) && !(s[i] == 0 && s[i + 1] == 0 && s[i + 2] == 1) {
        lemma_next_start_range(s, i + 1);
    }
}

/// The Annex-B units of `s` from content position `pos` on: each unit
/// runs to the next start code, with one preceding zero (a four-byte
/// start code) trimmed; empty spans are dropped.
pub open spec fn spec_units_from(s: Seq<u8>, pos: int) -> Seq<Seq<u8>>
    decreases s.len() - pos,
    via spec_units_from_decreases
{
    if pos < 0 || pos > s.len() {
        Seq::empty()
    } else {
        match spec_next_start(s, pos) {
            None => {
                if pos < s.len() {
                    seq![s.subrange(pos, s.len() as int)]
                } else {
                    Seq::empty()
                }
            },
            Some(j) => {
                let end = if j > pos && s[j - 1] == 0 {
                    j - 1
                } else {
                    j
                };
                if end > pos {
                    seq![s.subrange(pos, end)] + spec_units_from(s, j + 3)
                } else {
                    spec_units_from(s, j + 3)
                }
            },
        }
    }
}

#[via_fn]
proof fn spec_units_from_decreases(s: Seq<u8>, pos: int) {
    if !(pos < 0 || pos > s.len()) {
        match spec_next_start(s, pos) {
            Some(j) => {
                lemma_next_start_range(s, pos);
            },
            None => {},
        }
    }
}

/// The Annex-B units of a byte stream: everything before the first start
/// code is discarded.
pub open spec fn spec_annexb_units(s: Seq<u8>) -> Seq<Seq<u8>> {
    match spec_next_start(s, 0) {
        None => Seq::empty(),
        Some(j) => spec_units_from(s, j + 3),
    }
}

/// Every split unit is non-empty.
pub proof fn lemma_units_from_nonempty(s: Seq<u8>, pos: int)
    ensures
        forall|i: int|
            0 <= i < spec_units_from(s, pos).len() ==> (#[trigger] spec_units_from(s, pos)[i]).len()
                >= 1,
    decreases s.len() - pos,
{
    if !(pos < 0 || pos > s.len()) {
        match spec_next_start(s, pos) {
            None => {},
            Some(j) => {
                lemma_next_start_range(s, pos);
                lemma_units_from_nonempty(s, j + 3);
                let end = if j > pos && s[j - 1] == 0 {
                    j - 1
                } else {
                    j
                };
                if end > pos {
                    let whole = seq![s.subrange(pos, end)] + spec_units_from(s, j + 3);
                    assert forall|i: int| 0 <= i < whole.len() implies (#[trigger] whole[i]).len()
                        >= 1 by {
                        if i == 0 {
                            assert(whole[0] == s.subrange(pos, end));
                        } else {
                            assert(whole[i] == spec_units_from(s, j + 3)[i - 1]);
                        }
                    }
                }
            },
        }
    }
}

pub proof fn lemma_annexb_units_nonempty(s: Seq<u8>)
    ensures
        forall|i: int|
            0 <= i < spec_annexb_units(s).len() ==> (#[trigger] spec_annexb_units(s)[i]).len() >= 1,
{
    match spec_next_start(s, 0) {
        None => {},
        Some(j) => {
            lemma_next_start_range(s, 0);
            lemma_units_from_nonempty(s, j + 3);
        },
    }
}

/// The views of a list of byte vectors.
pub open spec fn byte_views(s: Seq<Vec<u8>>) -> Seq<Seq<u8>> {
    s.map_values(|v: Vec<u8>| v@)
}

/// Find the next three-byte start code at or after `from`.
pub fn find_start(data: &Vec<u8>, from: usize) -> (r: Option<usize>)
    requires
        from <= data@.len(),
    ensures
        match spec_next_start(data@, from as int) {
            Some(j) => r == Some(j as usize),
            None => r is None,
        },
    {
    let n = data.len();
    let mut j = from;
    loop
        invariant
            from <= j <= n,
            n == data@.len(),
            spec_next_start(data@, from as int) == spec_next_start(data@, j as int),
        decreases n - j,
    {
        if n - j < 3 {
            return None;
        }
        if data[j] == 0 && data[j + 1] == 0 && data[j + 2] == 1 {
            return Some(j);
        }
        j = j + 1;
    }
}

/// Split an Annex-B byte stream into its raw NAL unit spans.
#[verifier::loop_isolation(false)]
pub fn annexb_split(data: &Vec<u8>) -> (r: Vec<Vec<u8>>)
    ensures
        byte_views(r@) == spec_annexb_units(data@),
{
    let mut out: Vec<Vec<u8>> = Vec::new();
    let n = data.len();
    let first = match find_start(data, 0) {
        Some(j) => j,
        None => {
            proof {
                assert(byte_views(out@) =~= spec_annexb_units(data@));
            }
            return out;
        },
    };
    proof {
        lemma_next_start_range(data@, 0);
    }
    let mut pos: usize = first + 3;
    proof {
        assert(byte_views(out@) + spec_units_from(data@, pos as int) =~= spec_annexb_units(
            data@,
        ));
    }
    loop
        invariant
            pos <= data@.len(),
            spec_annexb_units(data@) == byte_views(out@) + spec_units_from(data@, pos as int),
        decreases data@.len() - pos,
    {
        match find_start(data, pos) {
            None => {
                if pos < data.len() {
                    let span = crate::ts::demuxer::copy_range(data, pos, data.len() - pos);
                    proof {
                        assert(byte_views(out@.push(span)) =~= byte_views(out@).push(span@));
                        assert(byte_views(out@).push(span@) =~= byte_views(out@) + seq![span@]);
                    }
                    out.push(span);
                }
                proof {
                    assert(byte_views(out@) =~= spec_annexb_units(data@));
                }
                return out;
            },
            Some(j) => {
                proof {
                    lemma_next_start_range(data@, pos as int);
                }
                let end = if j > pos && data[j - 1] == 0 {
                    j - 1
                } else {
                    j
                };
                if end > pos {
                    let span = crate::ts::demuxer::copy_range(data, pos, end - pos);
                    proof {
                        assert(byte_views(out@.push(span)) =~= byte_views(out@).push(span@));
                        assert(byte_views(out@).push(span@) =~= byte_views(out@) + seq![span@]);
                        assert((byte_views(out@) + seq![span@]) + spec_units_from(
                            data@,
                            j + 3,
                        ) =~= byte_views(out@) + (seq![span@] + spec_units_from(data@, j + 3)));
                    }
                    out.push(span);
                }
                pos = j + 3;
            },
        }
    }
}

} // verus!
