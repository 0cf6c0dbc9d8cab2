//! Byte- and bit-granular readers over in-memory buffers.
//!
//! Every read has a specification-level mirror over `Seq<u8>`, so that the
//! parsers built on top can state exactly which bytes produced which value.

use vstd::prelude::*;

verus! {

/// The value of a byte string read as a big-endian integer.
pub open spec fn be_value(s: Seq<u8>) -> nat
    decreases s.len(),
{
    if s.len() == 0 {
        0
    } else {
        (be_value(s.drop_last()) * 256 + s.last()) as nat
    }
}

/// 256^n, the exclusive upper bound of an n-byte big-endian value.
pub open spec fn pow256(n: nat) -> nat
    decreases n,
{
    if n == 0 {
        1
    } else {
        256 * pow256((n - 1) as nat)
    }
}

pub proof fn lemma_be_value_bound(s: Seq<u8>)
    ensures
        be_value(s) < pow256(s.len()),
    decreases s.len(),
{
    if s.len() > 0 {
        lemma_be_value_bound(s.drop_last());
    }
}

/// Big-endian read of `n` bytes at `pos`: the value and the next position,
/// or `None` when fewer than `n` bytes remain.
pub open spec fn spec_read_be(s: Seq<u8>, pos: int, n: int) -> Option<(nat, int)> {
    if 0 <= pos && 0 <= n && pos + n <= s.len() {
        Some((be_value(s.subrange(pos, pos + n)), pos + n))
    } else {
        None
    }
}

/// Single-byte read at `pos`: the byte and the next position.
pub open spec fn spec_read_u8(s: Seq<u8>, pos: int) -> Option<(u8, int)> {
    if 0 <= pos && pos + 1 <= s.len() {
        Some((s[pos], pos + 1))
    } else {
        None
    }
}

/// A cursor over a borrowed byte buffer; reads advance `pos`.
pub struct Cursor<'a> {
    pub data: &'a Vec<u8>,
    pub pos: usize,
}

impl<'a> Cursor<'a> {
    pub open spec fn wf(self) -> bool {
        self.pos <= self.data@.len()
    }

    /// Bytes not yet consumed.
    pub open spec fn spec_remaining(self) -> int {
        self.data@.len() - self.pos
    }

    pub fn new(data: &'a Vec<u8>) -> (r: Cursor<'a>)
        ensures
            r.wf(),
            r.data@ == data@,
            r.pos == 0,
    {
        Cursor { data, pos: 0 }
    }

    pub fn remaining(&self) -> (r: usize)
        requires
            self.wf(),
        ensures
            r == self.spec_remaining(),
    {
        self.data.len() - self.pos
    }

    /// Read one byte.  Fails exactly when the buffer is exhausted.
    pub fn read_u8(&mut self) -> (r: Option<u8>)
        requires
            old(self).wf(),
        ensures
            final(self).data == old(self).data,
            final(self).wf(),
            match spec_read_u8(old(self).data@, old(self).pos as int) {
                Some((v, p)) => r == Some(v) && final(self).pos == p,
                None => r is None && final(self).pos == old(self).pos,
            },
    {
        if self.pos < self.data.len() {
            let b = self.data[self.pos];
            self.pos = self.pos + 1;
            Some(b)
        } else {
            None
        }
    }

    /// Read `n <= 8` bytes as a big-endian integer.
    pub fn read_be(&mut self, n: usize) -> (r: Option<u64>)
        requires
            old(self).wf(),
            n <= 8,
        ensures
            final(self).data == old(self).data,
            final(self).wf(),
            match spec_read_be(old(self).data@, old(self).pos as int, n as int) {
                Some((v, p)) => r == Some(v as u64) && v <= u64::MAX && final(self).pos == p,
                None => r is None && final(self).pos == old(self).pos,
            },
    {
        if n > self.data.len() - self.pos {
            return None;
        }
        let mut acc: u64 = 0;
        let mut i: usize = 0;
        proof {
            assert(self.data@.subrange(self.pos as int, self.pos as int) =~= Seq::<u8>::empty());
            lemma_pow256_le(n as nat);
        }
        while i < n
            invariant
                self.wf(),
                self.data == old(self).data,
                self.pos == old(self).pos,
                i <= n,
                n <= 8,
                self.pos + n <= self.data@.len(),
                self.pos + n <= usize::MAX,
                acc == be_value(self.data@.subrange(self.pos as int, self.pos + i)),
                acc < pow256(i as nat),
                pow256(n as nat) <= 0x1_0000_0000_0000_0000,
            decreases n - i,
        {
            let b = self.data[self.pos + i];
            proof {
                let s0 = self.data@.subrange(self.pos as int, self.pos + i);
                let s1 = self.data@.subrange(self.pos as int, self.pos + i + 1);
                assert(s1.drop_last() =~= s0);
                assert(s1.last() == b);
                lemma_pow256_mono((i + 1) as nat, n as nat);
                assert(pow256((i + 1) as nat) == 256 * pow256(i as nat));
                assert(acc * 256 + b < pow256((i + 1) as nat));
            }
            acc = acc * 256 + (b as u64);
            i = i + 1;
        }
        proof {
            lemma_be_value_bound(self.data@.subrange(self.pos as int, self.pos + n));
        }
        self.pos = self.pos + n;
        Some(acc)
    }

    /// Skip `n` bytes.  Fails exactly when fewer than `n` remain.
    pub fn skip(&mut self, n: usize) -> (r: bool)
        requires
            old(self).wf(),
        ensures
            final(self).data == old(self).data,
            final(self).wf(),
            if old(self).pos + n <= old(self).data@.len() {
                r == true && final(self).pos == old(self).pos + n
            } else {
                r == false && final(self).pos == old(self).pos
            },
    {
        if n <= self.data.len() - self.pos {
            self.pos = self.pos + n;
            true
        } else {
            false
        }
    }

    /// Copy all remaining bytes out of the cursor.
    pub fn read_remaining(&mut self) -> (r: Vec<u8>)
        requires
            old(self).wf(),
        ensures
            final(self).data == old(self).data,
            final(self).wf(),
            final(self).pos == final(self).data@.len(),
            r@ == old(self).data@.subrange(old(self).pos as int, old(self).data@.len() as int),
    {
        let mut out: Vec<u8> = Vec::new();
        while self.pos < self.data.len()
            invariant
                self.wf(),
                self.data == old(self).data,
                old(self).pos <= self.pos,
                out@ == self.data@.subrange(old(self).pos as int, self.pos as int),
            decreases self.data@.len() - self.pos,
        {
            let b = self.data[self.pos];
            out.push(b);
            proof {
                assert(self.data@.subrange(old(self).pos as int, self.pos + 1) =~= self.data@
                    .subrange(old(self).pos as int, self.pos as int).push(b));
            }
            self.pos = self.pos + 1;
        }
        proof {
            assert(out@ =~= self.data@.subrange(old(self).pos as int, self.data@.len() as int));
        }
        out
    }
}

/// 2^n.
pub open spec fn pow2n(n: nat) -> nat
    decreases n,
{
    if n == 0 {
        1
    } else {
        2 * pow2n((n - 1) as nat)
    }
}

pub proof fn lemma_pow2n_mono(a: nat, b: nat)
    requires
        a <= b,
    ensures
        pow2n(a) <= pow2n(b),
    decreases b,
{
    if a < b && b > 0 {
        lemma_pow2n_mono(a, (b - 1) as nat);
    }
}

pub proof fn lemma_pow2n_31()
    ensures
        pow2n(31) == 0x8000_0000,
{
    reveal_with_fuel(pow2n, 32);
}

pub proof fn lemma_pow2n_le64(n: nat)
    requires
        n <= 64,
    ensures
        pow2n(n) <= 0x1_0000_0000_0000_0000,
{
    assert(pow2n(64) == 0x1_0000_0000_0000_0000) by {
        reveal_with_fuel(pow2n, 65);
    }
    lemma_pow2n_mono(n, 64);
}

/// The bit at MSB-first position `i` of a byte string.
pub open spec fn bit_at(s: Seq<u8>, i: int) -> bool {
    (s[i / 8] as nat / pow2n((7 - i % 8) as nat)) % 2 == 1
}

/// The value of the `n` bits starting at MSB-first position `from`.
pub open spec fn bits_value(s: Seq<u8>, from: int, n: int) -> nat
    decreases n,
{
    if n <= 0 {
        0
    } else {
        (bits_value(s, from, n - 1) * 2 + (if bit_at(s, from + n - 1) {
            1nat
        } else {
            0nat
        })) as nat
    }
}

pub proof fn lemma_bits_value_bound(s: Seq<u8>, from: int, n: int)
    requires
        n >= 0,
    ensures
        bits_value(s, from, n) < pow2n(n as nat),
    decreases n,
{
    if n > 0 {
        lemma_bits_value_bound(s, from, n - 1);
    }
}

/// Position of the first 1-bit at or after `from`, if any.
pub open spec fn spec_first_one(s: Seq<u8>, from: int) -> Option<int>
    decreases 8 * s.len() - from,
{
    if from < 0 || from >= 8 * s.len() {
        None
    } else if bit_at(s, from) {
        Some(from)
    } else {
        spec_first_one(s, from + 1)
    }
}

pub proof fn lemma_first_one_range(s: Seq<u8>, from: int)
    requires
        spec_first_one(s, from) is Some,
    ensures
        from <= spec_first_one(s, from)->Some_0 < 8 * s.len(),
    decreases 8 * s.len() - from,
{
    if !(from < 0 || from >= 8 * s.len()) && !bit_at(s, from) {
        lemma_first_one_range(s, from + 1);
    }
}

/// Unsigned Exp-Golomb read: `k` leading zeros, a 1, then `k` suffix bits
/// give `2^k - 1 + suffix`.  Fails at end of stream or when `k > 31`.
pub open spec fn spec_read_ue(s: Seq<u8>, from: int) -> Option<(u64, int)> {
    match spec_first_one(s, from) {
        None => None,
        Some(p) => {
            let k = p - from;
            if k > 31 {
                None
            } else if p + 1 + k <= 8 * s.len() {
                Some((((pow2n(k as nat) - 1 + bits_value(s, p + 1, k)) as u64), p + 1 + k))
            } else {
                None
            }
        },
    }
}

/// Signed Exp-Golomb: the unsigned code `v` maps to 0, 1, -1, 2, -2, ...
pub open spec fn spec_ue_to_se(v: u64) -> int {
    if v % 2 == 0 {
        -((v / 2) as int)
    } else {
        ((v + 1) / 2) as int
    }
}

pub open spec fn spec_read_se(s: Seq<u8>, from: int) -> Option<(i64, int)> {
    match spec_read_ue(s, from) {
        None => None,
        Some((v, p)) => Some((spec_ue_to_se(v) as i64, p)),
    }
}

/// An MSB-first bit reader over an owned buffer (typically an RBSP).
pub struct BitReader {
    pub data: Vec<u8>,
    pub bit: usize,
}

impl BitReader {
    pub open spec fn wf(self) -> bool {
        self.bit <= 8 * self.data@.len() && 8 * self.data@.len() <= usize::MAX
    }

    pub fn new(data: Vec<u8>) -> (r: BitReader)
        requires
            data@.len() <= usize::MAX / 8,
        ensures
            r.wf(),
            r.data@ == data@,
            r.bit == 0,
    {
        BitReader { data, bit: 0 }
    }

    /// Read a single bit.  Fails exactly at end of stream.
    pub fn read_bit(&mut self) -> (r: Option<bool>)
        requires
            old(self).wf(),
        ensures
            final(self).data == old(self).data,
            final(self).wf(),
            if old(self).bit < 8 * old(self).data@.len() {
                r == Some(bit_at(old(self).data@, old(self).bit as int)) && final(self).bit
                    == old(self).bit + 1
            } else {
                r is None && final(self).bit == old(self).bit
            },
    {
        if self.bit < 8 * self.data.len() {
            let byte = self.data[self.bit / 8];
            let off = 7 - (self.bit % 8);
            let div: u32 = pow2_table(off);
            proof {
                lemma_pow2n_mono(0, off as nat);
            }
            let b = (byte as u32 / div) % 2 == 1;
            self.bit = self.bit + 1;
            Some(b)
        } else {
            None
        }
    }

    /// Read `n <= 64` bits as an unsigned big-endian value.
    pub fn read_bits(&mut self, n: usize) -> (r: Option<u64>)
        requires
            old(self).wf(),
            n <= 64,
        ensures
            final(self).data == old(self).data,
            final(self).wf(),
            if old(self).bit + n <= 8 * old(self).data@.len() {
                r == Some(bits_value(old(self).data@, old(self).bit as int, n as int) as u64)
                    && bits_value(old(self).data@, old(self).bit as int, n as int) <= u64::MAX
                    && final(self).bit == old(self).bit + n
            } else {
                r is None && final(self).bit == old(self).bit
            },
    {
        if n > 8 * self.data.len() - self.bit {
            return None;
        }
        let start = self.bit;
        let mut acc: u64 = 0;
        let mut i: usize = 0;
        proof {
            lemma_pow2n_le64(n as nat);
        }
        while i < n
            invariant
                self.wf(),
                self.data == old(self).data,
                start == old(self).bit,
                self.bit == start + i,
                i <= n,
                n <= 64,
                start + n <= 8 * self.data@.len(),
                acc == bits_value(self.data@, start as int, i as int),
                acc < pow2n(i as nat),
                pow2n(n as nat) <= 0x1_0000_0000_0000_0000,
            decreases n - i,
        {
            let b = match self.read_bit() {
                Some(b) => b,
                None => {
                    proof {
                        assert(false);
                    }
                    false
                },
            };
            proof {
                lemma_pow2n_mono((i + 1) as nat, n as nat);
                assert(pow2n((i + 1) as nat) == 2 * pow2n(i as nat));
                assert(bits_value(self.data@, start as int, i + 1) == bits_value(
                    self.data@,
                    start as int,
                    i as int,
                ) * 2 + (if bit_at(self.data@, start + i) {
                    1nat
                } else {
                    0nat
                }));
            }
            acc = acc * 2 + (if b {
                1u64
            } else {
                0u64
            });
            i = i + 1;
        }
        proof {
            lemma_bits_value_bound(self.data@, start as int, n as int);
        }
        Some(acc)
    }

    /// Skip `n` bits.  Fails exactly when fewer than `n` remain.
    pub fn seek_bits(&mut self, n: usize) -> (r: bool)
        requires
            old(self).wf(),
        ensures
            final(self).data == old(self).data,
            final(self).wf(),
            if old(self).bit + n <= 8 * old(self).data@.len() {
                r == true && final(self).bit == old(self).bit + n
            } else {
                r == false && final(self).bit == old(self).bit
            },
    {
        if n <= 8 * self.data.len() - self.bit {
            self.bit = self.bit + n;
            true
        } else {
            false
        }
    }

    /// Read an unsigned Exp-Golomb code.
    pub fn read_ue(&mut self) -> (r: Option<u64>)
        requires
            old(self).wf(),
        ensures
            final(self).data == old(self).data,
            final(self).wf(),
            match spec_read_ue(old(self).data@, old(self).bit as int) {
                Some((v, p)) => r == Some(v) && v < 0x1_0000_0000 && final(self).bit == p,
                None => r is None && final(self).bit == old(self).bit,
            },
    {
        let start = self.bit;
        let mut k: usize = 0;
        loop
            invariant_except_break
                self.bit == start + k,
                spec_first_one(self.data@, start as int) == spec_first_one(
                    self.data@,
                    self.bit as int,
                ),
            invariant
                self.wf(),
                self.data == old(self).data,
                start == old(self).bit,
            ensures
                self.bit == start + k + 1,
                spec_first_one(self.data@, start as int) == Some((start + k) as int),
            decreases 8 * self.data@.len() - self.bit,
        {
            match self.read_bit() {
                None => {
                    self.bit = start;
                    return None;
                },
                Some(true) => {
                    break;
                },
                Some(false) => {
                    k = k + 1;
                },
            }
        }
        // The 1-bit sat at position start + k.
        proof {
            lemma_first_one_range(self.data@, start as int);
        }
        if k > 31 {
            self.bit = start;
            return None;
        }
        let suffix = match self.read_bits(k) {
            Some(s) => s,
            None => {
                self.bit = start;
                return None;
            },
        };
        proof {
            lemma_bits_value_bound(self.data@, start + k + 1, k as int);
            lemma_pow2n_mono(k as nat, 31);
            lemma_pow2n_31();
        }
        Some(pow2_table64(k) - 1 + suffix)
    }

    /// Read a signed Exp-Golomb code.
    pub fn read_se(&mut self) -> (r: Option<i64>)
        requires
            old(self).wf(),
        ensures
            final(self).data == old(self).data,
            final(self).wf(),
            match spec_read_se(old(self).data@, old(self).bit as int) {
                Some((v, p)) => r == Some(v) && final(self).bit == p,
                None => r is None && final(self).bit == old(self).bit,
            },
    {
        match self.read_ue() {
            None => None,
            Some(v) => {
                if v % 2 == 0 {
                    Some(-((v / 2) as i64))
                } else {
                    Some(((v + 1) / 2) as i64)
                }
            },
        }
    }
}

/// 2^off for off < 8, as an executable table.
pub fn pow2_table(off: usize) -> (r: u32)
    requires
        off < 8,
    ensures
        r == pow2n(off as nat),
{
    proof {
        reveal_with_fuel(pow2n, 9);
    }
    match off {
        0 => 1,
        1 => 2,
        2 => 4,
        3 => 8,
        4 => 16,
        5 => 32,
        6 => 64,
        _ => 128,
    }
}

/// 2^k for k <= 31, as an executable doubling loop.
pub fn pow2_table64(k: usize) -> (r: u64)
    requires
        k <= 31,
    ensures
        r == pow2n(k as nat),
{
    let mut r: u64 = 1;
    let mut i: usize = 0;
    proof {
        lemma_pow2n_mono(k as nat, 31);
        lemma_pow2n_31();
    }
    while i < k
        invariant
            i <= k,
            k <= 31,
            r == pow2n(i as nat),
            pow2n(k as nat) <= 0x8000_0000,
        decreases k - i,
    {
        proof {
            lemma_pow2n_mono((i + 1) as nat, k as nat);
        }
        r = r * 2;
        i = i + 1;
    }
    r
}

pub proof fn lemma_pow256_mono(a: nat, b: nat)
    requires
        a <= b,
    ensures
        pow256(a) <= pow256(b),
    decreases b,
{
    if a < b && b > 0 {
        lemma_pow256_mono(a, (b - 1) as nat);
    }
}

pub proof fn lemma_pow256_le(n: nat)
    requires
        n <= 8,
    ensures
        pow256(n) <= 0x1_0000_0000_0000_0000,
{
    assert(pow256(8) == 0x1_0000_0000_0000_0000) by {
        reveal_with_fuel(pow256, 9);
    }
    lemma_pow256_mono(n, 8);
}

} // verus!
