use vstd::prelude::*;

verus! {

/// The most bytes that a frame may look back into earlier frames' main data.
pub const MAX_RESERVOIR_BYTES: usize = 511;

/// Room for the main data of one frame: the look-back plus the largest frame.
pub const MAIN_DATA_CAPACITY: usize = 2048;

/// The last `MAX_RESERVOIR_BYTES` bytes of `s`, or all of it when it is shorter.
pub open spec fn keep_tail(s: Seq<u8>) -> Seq<u8> {
    if s.len() > MAX_RESERVOIR_BYTES {
        s.subrange(s.len() - MAX_RESERVOIR_BYTES, s.len() as int)
    } else {
        s
    }
}

/// Main-data bytes of earlier frames, kept for frames that begin their granule data there.
pub struct BitReservoir {
    buf: [u8; 511],
    len: usize,
}

impl View for BitReservoir {
    type V = Seq<u8>;

    closed spec fn view(&self) -> Seq<u8> {
        self.buf@.subrange(0, self.len as int)
    }
}

impl BitReservoir {
    pub closed spec fn wf(&self) -> bool {
        self.len <= MAX_RESERVOIR_BYTES
    }

    pub proof fn lemma_bounded(&self)
        requires
            self.wf(),
        ensures
            self@.len() <= MAX_RESERVOIR_BYTES,
    {
    }

    /// An empty reservoir.
    pub fn new() -> (r: BitReservoir)
        ensures
            r.wf(),
            r@ == Seq::<u8>::empty(),
    {
        let r = BitReservoir { buf: [0u8; 511], len: 0 };
        assert(r@ =~= Seq::<u8>::empty());
        r
    }

    /// The number of bytes held.
    pub fn len(&self) -> (r: usize)
        requires
            self.wf(),
        ensures
            r == self@.len(),
    {
        self.len
    }

    /// Writes to the front of `out` the last `take` bytes held, followed by `md`, and
    /// returns how many bytes that is.
    pub fn assemble(&self, take: usize, md: &[u8], out: &mut [u8; 2048]) -> (n: usize)
        requires
            self.wf(),
            take <= self@.len(),
            md@.len() <= MAIN_DATA_CAPACITY - MAX_RESERVOIR_BYTES,
        ensures
            n == take + md@.len(),
            final(out)@.subrange(0, n as int) == self@.subrange(self@.len() - take, self@.len() as int)
                + md@,
    {
        let start = self.len - take;
        let mut k: usize = 0;
        while k < take
            invariant
                self.wf(),
                start + take == self.len,
                k <= take,
                out@.len() == MAIN_DATA_CAPACITY,
                forall|j: int| 0 <= j < k ==> out@[j] == self.buf@[start + j],
            decreases take - k,
        {
            out[k] = self.buf[start + k];
            k = k + 1;
        }
        let mut m: usize = 0;
        while m < md.len()
            invariant
                self.wf(),
                start + take == self.len,
                m <= md@.len() <= MAIN_DATA_CAPACITY - MAX_RESERVOIR_BYTES,
                out@.len() == MAIN_DATA_CAPACITY,
                forall|j: int| 0 <= j < take ==> out@[j] == self.buf@[start + j],
                forall|j: int| 0 <= j < m ==> out@[take + j] == md@[j],
            decreases md@.len() - m,
        {
            out[take + m] = md[m];
            m = m + 1;
        }
        let n = take + md.len();
        assert(out@.subrange(0, n as int) =~= self@.subrange(self@.len() - take, self@.len() as int)
            + md@);
        n
    }

    /// Keeps the last bytes of `data[from .. to]`, as many as the reservoir holds, in place of
    /// what it held.
    pub fn refill(&mut self, data: &[u8; 2048], from: usize, to: usize)
        requires
            from <= to <= MAIN_DATA_CAPACITY,
        ensures
            final(self).wf(),
            final(self)@ == keep_tail(data@.subrange(from as int, to as int)),
    {
        let start = if to - from > MAX_RESERVOIR_BYTES {
            to - MAX_RESERVOIR_BYTES
        } else {
            from
        };
        let count = to - start;
        let mut k: usize = 0;
        while k < count
            invariant
                start + count == to,
                to <= MAIN_DATA_CAPACITY,
                count <= MAX_RESERVOIR_BYTES,
                k <= count,
                self.buf@.len() == MAX_RESERVOIR_BYTES,
                forall|j: int| 0 <= j < k ==> self.buf@[j] == data@[start + j],
            decreases count - k,
        {
            self.buf[k] = data[start + k];
            k = k + 1;
        }
        self.len = count;
        assert(self@ =~= keep_tail(data@.subrange(from as int, to as int)));
    }
}

} // verus!
