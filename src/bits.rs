use vstd::arithmetic::power2::{lemma2_to64, lemma_pow2_strictly_increases, lemma_pow2_unfold, pow2};
use vstd::prelude::*;

verus! {

/// The bit at position `i` of `s`, counting from the most significant bit of the first byte.
pub open spec fn bit_at(s: Seq<u8>, i: int) -> nat {
    ((s[i / 8] >> ((7 - i % 8) as u8)) & 1u8) as nat
}

/// The unsigned number held by the `n` bits of `s` that start at bit `pos`, most significant
/// bit first.
pub open spec fn bits_value(s: Seq<u8>, pos: int, n: nat) -> nat
    decreases n,
{
    if n == 0 {
        0
    } else {
        2 * bits_value(s, pos, (n - 1) as nat) + bit_at(s, pos + n - 1)
    }
}

/// A reader of bit fields over a byte slice. It never reads at or past its limit, a bit
/// position inside the slice.
pub struct BitReader<'a> {
    data: &'a [u8],
    pos: usize,
    limit: usize,
}

impl<'a> BitReader<'a> {
    /// The bytes being read.
    pub closed spec fn bytes(&self) -> Seq<u8> {
        self.data@
    }

    /// The position of the next bit to read.
    pub closed spec fn pos(&self) -> nat {
        self.pos as nat
    }

    /// The position of the first bit that may not be read.
    pub closed spec fn limit(&self) -> nat {
        self.limit as nat
    }

    pub closed spec fn wf(&self) -> bool {
        &&& self.pos <= self.limit
        &&& self.limit <= self.data@.len() * 8
    }

    /// A reader over the bytes `start .. end` of `data`.
    pub fn new(data: &'a [u8], start: usize, end: usize) -> (r: BitReader<'a>)
        requires
            start <= end <= data@.len(),
            end * 8 <= usize::MAX,
        ensures
            r.wf(),
            r.bytes() == data@,
            r.pos() == start * 8,
            r.limit() == end * 8,
    {
        BitReader { data, pos: start * 8, limit: end * 8 }
    }

    pub fn position(&self) -> (r: usize)
        ensures
            r == self.pos(),
    {
        self.pos
    }

    /// The number of bits left before the limit.
    pub fn remaining(&self) -> (r: usize)
        requires
            self.wf(),
        ensures
            r == self.limit() - self.pos(),
    {
        self.limit - self.pos
    }

    /// Reads an `n`-bit field, most significant bit first.
    pub fn read(&mut self, n: u32) -> (r: u32)
        requires
            old(self).wf(),
            n <= 24,
            old(self).pos() + n <= old(self).limit(),
        ensures
            final(self).wf(),
            final(self).bytes() == old(self).bytes(),
            final(self).limit() == old(self).limit(),
            final(self).pos() == old(self).pos() + n,
            r as nat == bits_value(old(self).bytes(), old(self).pos() as int, n as nat),
            r < pow2(n as nat),
    {
        let ghost start = self.pos as int;
        let mut v: u32 = 0;
        let mut k: u32 = 0;
        proof {
            lemma2_to64();
        }
        while k < n
            invariant
                self.data@ == old(self).data@,
                self.limit == old(self).limit,
                self.limit <= self.data@.len() * 8,
                start == old(self).pos,
                self.pos == start + k,
                k <= n <= 24,
                start + n <= self.limit,
                v as nat == bits_value(self.data@, start, k as nat),
                v < pow2(k as nat),
            decreases n - k,
        {
            let p = self.pos;
            let byte = self.data[p / 8];
            let bit = (byte >> ((7 - p % 8) as u8)) & 1u8;
            proof {
                lemma_pow2_unfold((k + 1) as nat);
                lemma_pow2_strictly_increases(k as nat, 24);
                lemma2_to64();
                assert(bit <= 1) by (bit_vector)
                    requires
                        bit == (byte >> ((7 - p % 8) as u8)) & 1u8,
                ;
            }
            v = v * 2 + bit as u32;
            self.pos = p + 1;
            k = k + 1;
        }
        v
    }
}

} // verus!
