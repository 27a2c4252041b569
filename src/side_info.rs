use vstd::prelude::*;

use crate::bits::{BitReader, bits_value};
use crate::header::FrameHeader;
use vstd::arithmetic::power2::lemma2_to64;

verus! {

/// The side information of one granule of one channel, as transmitted. Fields that the
/// granule's block mode does not transmit are zero.
#[derive(Clone, Copy, Debug, PartialEq, Eq)]
pub struct GranuleInfo {
    pub part2_3_length: u32,
    pub big_values: u32,
    pub global_gain: u32,
    pub scalefac_compress: u32,
    pub window_switching: bool,
    pub block_type: u32,
    pub mixed_block: bool,
    pub table_select: [u32; 3],
    pub subblock_gain: [u32; 3],
    pub region0_count: u32,
    pub region1_count: u32,
    pub preflag: bool,
    pub scalefac_scale: bool,
    pub count1_table: bool,
}

impl GranuleInfo {
    /// Every field is zero or false.
    pub open spec fn zeroed(self) -> bool {
        &&& self.part2_3_length == 0
        &&& self.big_values == 0
        &&& self.global_gain == 0
        &&& self.scalefac_compress == 0
        &&& !self.window_switching
        &&& self.block_type == 0
        &&& !self.mixed_block
        &&& self.table_select[0] == 0 && self.table_select[1] == 0 && self.table_select[2] == 0
        &&& self.subblock_gain[0] == 0 && self.subblock_gain[1] == 0 && self.subblock_gain[2] == 0
        &&& self.region0_count == 0
        &&& self.region1_count == 0
        &&& !self.preflag
        &&& !self.scalefac_scale
        &&& !self.count1_table
    }

    /// A record with every field zero.
    pub fn empty() -> (r: GranuleInfo)
        ensures
            r.zeroed(),
    {
        GranuleInfo {
            part2_3_length: 0,
            big_values: 0,
            global_gain: 0,
            scalefac_compress: 0,
            window_switching: false,
            block_type: 0,
            mixed_block: false,
            table_select: [0u32, 0u32, 0u32],
            subblock_gain: [0u32, 0u32, 0u32],
            region0_count: 0,
            region1_count: 0,
            preflag: false,
            scalefac_scale: false,
            count1_table: false,
        }
    }
}

/// The side information of a frame. `granules[gr * channel_count + ch]` holds granule `gr`
/// of channel `ch`; entries past `granule_count * channel_count` are unused.
#[derive(Clone, Copy, Debug, PartialEq, Eq)]
pub struct SideInfo {
    /// How many bytes before this frame's main data its granule data begins.
    pub main_data_begin: u32,
    pub private_bits: u32,
    /// The scale-factor selection flags of each channel (MPEG-1 only).
    pub scfsi: [u32; 2],
    pub granules: [GranuleInfo; 4],
    pub granule_count: usize,
    pub channel_count: usize,
}

impl SideInfo {
    /// Every field is zero, and so is every granule record.
    pub open spec fn zeroed(self) -> bool {
        &&& self.main_data_begin == 0
        &&& self.private_bits == 0
        &&& self.scfsi[0] == 0 && self.scfsi[1] == 0
        &&& forall|j: int| 0 <= j < 4 ==> (#[trigger] self.granules[j]).zeroed()
        &&& self.granule_count == 0
        &&& self.channel_count == 0
    }

    /// Side information of no granule.
    pub fn empty() -> (r: SideInfo)
        ensures
            r.zeroed(),
    {
        let g = GranuleInfo::empty();
        SideInfo {
            main_data_begin: 0,
            private_bits: 0,
            scfsi: [0u32, 0u32],
            granules: [g, g, g, g],
            granule_count: 0,
            channel_count: 0,
        }
    }
}

/// The `n`-bit field at bit `p` of `s`.
pub open spec fn field(s: Seq<u8>, p: int, n: nat) -> u32 {
    bits_value(s, p, n) as u32
}

/// The bit at `p` is set.
pub open spec fn flag(s: Seq<u8>, p: int) -> bool {
    bits_value(s, p, 1) == 1
}

/// Bits of one granule record: 59, or 63 with the lower sampling rates.
pub open spec fn record_bits(lsf: bool) -> int {
    if lsf {
        63
    } else {
        59
    }
}

/// Bits before the first granule record: main_data_begin, the private bits and, for
/// MPEG-1, the selection flags.
pub open spec fn head_bits(lsf: bool, mono: bool) -> int {
    if lsf {
        if mono {
            9
        } else {
            10
        }
    } else {
        if mono {
            18
        } else {
            20
        }
    }
}

pub open spec fn granule_count_spec(lsf: bool) -> int {
    if lsf {
        1
    } else {
        2
    }
}

pub open spec fn channel_count_spec(mono: bool) -> int {
    if mono {
        1
    } else {
        2
    }
}

/// Where record `k` starts, for side information at bit `base`.
pub open spec fn record_pos(base: int, lsf: bool, mono: bool, k: int) -> int {
    base + head_bits(lsf, mono) + k * record_bits(lsf)
}

/// Bit at which a record's window-switching flag stands, relative to the record.
pub open spec fn switch_offset(lsf: bool) -> int {
    if lsf {
        38
    } else {
        33
    }
}

/// `g` holds the record that starts at bit `p` of `s`.
pub open spec fn granule_matches(g: GranuleInfo, s: Seq<u8>, p: int, lsf: bool) -> bool {
    let q = p + switch_offset(lsf);
    let t = q + 23;
    &&& g.part2_3_length == field(s, p, 12)
    &&& g.big_values == field(s, p + 12, 9)
    &&& g.global_gain == field(s, p + 21, 8)
    &&& g.scalefac_compress == field(s, p + 29, if lsf { 9 } else { 4 })
    &&& g.window_switching == flag(s, q)
    &&& (if g.window_switching {
        &&& g.block_type == field(s, q + 1, 2)
        &&& g.mixed_block == flag(s, q + 3)
        &&& g.table_select[0] == field(s, q + 4, 5)
        &&& g.table_select[1] == field(s, q + 9, 5)
        &&& g.table_select[2] == 0
        &&& g.subblock_gain[0] == field(s, q + 14, 3)
        &&& g.subblock_gain[1] == field(s, q + 17, 3)
        &&& g.subblock_gain[2] == field(s, q + 20, 3)
        &&& g.region0_count == 0
        &&& g.region1_count == 0
    } else {
        &&& g.block_type == 0
        &&& !g.mixed_block
        &&& g.table_select[0] == field(s, q + 1, 5)
        &&& g.table_select[1] == field(s, q + 6, 5)
        &&& g.table_select[2] == field(s, q + 11, 5)
        &&& g.subblock_gain[0] == 0
        &&& g.subblock_gain[1] == 0
        &&& g.subblock_gain[2] == 0
        &&& g.region0_count == field(s, q + 16, 4)
        &&& g.region1_count == field(s, q + 20, 3)
    })
    &&& (if lsf {
        &&& !g.preflag
        &&& g.scalefac_scale == flag(s, t)
        &&& g.count1_table == flag(s, t + 1)
    } else {
        &&& g.preflag == flag(s, t)
        &&& g.scalefac_scale == flag(s, t + 1)
        &&& g.count1_table == flag(s, t + 2)
    })
}

/// The record at bit `p` has no forbidden value: at most 288 big values, and a block type
/// other than 0 when window switching is on.
pub open spec fn granule_ok(s: Seq<u8>, p: int, lsf: bool) -> bool {
    let q = p + switch_offset(lsf);
    &&& field(s, p + 12, 9) <= 288
    &&& (flag(s, q) ==> field(s, q + 1, 2) != 0)
}

/// Every granule record of the side information at bit `base` is acceptable.
pub open spec fn side_info_ok(s: Seq<u8>, base: int, lsf: bool, mono: bool) -> bool {
    forall|k: int|
        0 <= k < granule_count_spec(lsf) * channel_count_spec(mono) ==> #[trigger] granule_ok(
            s,
            record_pos(base, lsf, mono, k),
            lsf,
        )
}

/// `si` holds the side information at bit `base` of `s`.
pub open spec fn side_info_matches(si: SideInfo, s: Seq<u8>, base: int, lsf: bool, mono: bool) -> bool {
    &&& si.granule_count == granule_count_spec(lsf)
    &&& si.channel_count == channel_count_spec(mono)
    &&& si.main_data_begin == field(s, base, if lsf { 8 } else { 9 })
    &&& forall|k: int|
        0 <= k < granule_count_spec(lsf) * channel_count_spec(mono) ==> granule_matches(
            #[trigger] si.granules[k],
            s,
            record_pos(base, lsf, mono, k),
            lsf,
        )
}

/// Bits of granule data that the records from `k` on announce, for side information at
/// bit `base` of `s`.
pub open spec fn granule_bits_from(s: Seq<u8>, base: int, lsf: bool, mono: bool, k: int) -> nat
    decreases 4 - k,
{
    if k < 0 || k >= 4 || k >= granule_count_spec(lsf) * channel_count_spec(mono) {
        0
    } else {
        field(s, record_pos(base, lsf, mono, k), 12) as nat + granule_bits_from(
            s,
            base,
            lsf,
            mono,
            k + 1,
        )
    }
}

/// The number of bits of granule data that the side information announces in all.
pub(crate) fn granule_data_bits(si: &SideInfo, Ghost(s): Ghost<Seq<u8>>, Ghost(base): Ghost<int>, lsf: bool, mono: bool) -> (r: usize)
    requires
        side_info_matches(*si, s, base, lsf, mono),
        forall|j: int| 0 <= j < 4 ==> (#[trigger] si.granules[j]).part2_3_length < 4096,
    ensures
        r == granule_bits_from(s, base, lsf, mono, 0),
        r <= 16384,
{
    let count = si.granule_count * si.channel_count;
    let mut acc: usize = 0;
    let mut k: usize = 0;
    while k < count
        invariant
            side_info_matches(*si, s, base, lsf, mono),
            count == granule_count_spec(lsf) * channel_count_spec(mono),
            count <= 4,
            k <= count,
            acc <= k * 4096,
            forall|j: int| 0 <= j < 4 ==> (#[trigger] si.granules[j]).part2_3_length < 4096,
            acc + granule_bits_from(s, base, lsf, mono, k as int) == granule_bits_from(
                s,
                base,
                lsf,
                mono,
                0,
            ),
        decreases count - k,
    {
        assert(granule_matches(si.granules[k as int], s, record_pos(base, lsf, mono, k as int), lsf));
        acc = acc + si.granules[k].part2_3_length as usize;
        k = k + 1;
    }
    assert(acc <= 16384) by (nonlinear_arith)
        requires
            acc <= k * 4096,
            k <= 4,
    ;
    acc
}

/// Reads one granule record.
fn read_granule(r: &mut BitReader, lsf: bool) -> (g: GranuleInfo)
    requires
        old(r).wf(),
        old(r).pos() + record_bits(lsf) <= old(r).limit(),
    ensures
        final(r).wf(),
        final(r).bytes() == old(r).bytes(),
        final(r).limit() == old(r).limit(),
        final(r).pos() == old(r).pos() + record_bits(lsf),
        granule_matches(g, old(r).bytes(), old(r).pos() as int, lsf),
        g.part2_3_length < 4096,
        !lsf ==> g.scalefac_compress < 16,
{
    let part2_3_length = r.read(12);
    proof {
        lemma2_to64();
    }
    let big_values = r.read(9);
    let global_gain = r.read(8);
    let scalefac_compress = r.read(if lsf { 9 } else { 4 });
    let window_switching = r.read(1) == 1;
    let mut block_type: u32 = 0;
    let mut mixed_block = false;
    let mut table_select: [u32; 3] = [0u32, 0u32, 0u32];
    let mut subblock_gain: [u32; 3] = [0u32, 0u32, 0u32];
    let mut region0_count: u32 = 0;
    let mut region1_count: u32 = 0;
    if window_switching {
        block_type = r.read(2);
        mixed_block = r.read(1) == 1;
        let t0 = r.read(5);
        let t1 = r.read(5);
        let s0 = r.read(3);
        let s1 = r.read(3);
        let s2 = r.read(3);
        table_select = [t0, t1, 0u32];
        subblock_gain = [s0, s1, s2];
    } else {
        let t0 = r.read(5);
        let t1 = r.read(5);
        let t2 = r.read(5);
        table_select = [t0, t1, t2];
        region0_count = r.read(4);
        region1_count = r.read(3);
    }
    let preflag = if lsf {
        false
    } else {
        r.read(1) == 1
    };
    let scalefac_scale = r.read(1) == 1;
    let count1_table = r.read(1) == 1;
    GranuleInfo {
        part2_3_length,
        big_values,
        global_gain,
        scalefac_compress,
        window_switching,
        block_type,
        mixed_block,
        table_select,
        subblock_gain,
        region0_count,
        region1_count,
        preflag,
        scalefac_scale,
        count1_table,
    }
}

/// Reads the side information that starts at byte `start` of `w` for a frame with header
/// `h`. Returns `None` exactly when a granule record holds a forbidden value.
pub fn read_side_info(w: &[u8], start: usize, h: &FrameHeader) -> (r: Option<SideInfo>)
    requires
        start + h.side_info_len_spec() <= w@.len(),
        (start + h.side_info_len_spec()) * 8 <= usize::MAX,
    ensures
        r.is_some() == side_info_ok(w@, start * 8, h.lsf(), h.mono()),
        r matches Some(si) ==> side_info_matches(si, w@, start * 8, h.lsf(), h.mono()),
        r matches Some(si) ==> forall|j: int|
            0 <= j < 4 ==> (#[trigger] si.granules[j]).part2_3_length < 4096 && (!h.lsf()
                ==> si.granules[j].scalefac_compress < 16),
{
    let lsf = h.is_lsf();
    let mono = h.is_mono();
    let n = h.side_info_len();
    let ghost base = start * 8;
    let mut r = BitReader::new(w, start, start + n);
    let main_data_begin = r.read(if lsf { 8 } else { 9 });
    let private_bits = r.read(
        if lsf {
            if mono {
                1
            } else {
                2
            }
        } else {
            if mono {
                5
            } else {
                3
            }
        },
    );
    let mut scfsi: [u32; 2] = [0u32, 0u32];
    if !lsf {
        let s0 = r.read(4);
        let s1 = if mono {
            0u32
        } else {
            r.read(4)
        };
        scfsi = [s0, s1];
    }
    let ngr: usize = if lsf {
        1
    } else {
        2
    };
    let nch: usize = if mono {
        1
    } else {
        2
    };
    let count = ngr * nch;
    let empty = GranuleInfo::empty();
    let mut granules: [GranuleInfo; 4] = [empty, empty, empty, empty];
    let mut k: usize = 0;
    while k < count
        invariant
            r.wf(),
            r.bytes() == w@,
            r.limit() == (start + n) * 8,
            n == h.side_info_len_spec(),
            lsf == h.lsf(),
            mono == h.mono(),
            ngr == granule_count_spec(lsf),
            nch == channel_count_spec(mono),
            count == ngr * nch,
            k <= count,
            r.pos() == record_pos(base, lsf, mono, k as int),
            base == start * 8,
            forall|j: int|
                0 <= j < k ==> granule_matches(
                    #[trigger] granules[j],
                    w@,
                    record_pos(base, lsf, mono, j),
                    lsf,
                ) && granule_ok(w@, record_pos(base, lsf, mono, j), lsf),
            forall|j: int|
                0 <= j < 4 ==> (#[trigger] granules[j]).part2_3_length < 4096 && (!lsf
                    ==> granules[j].scalefac_compress < 16),
        decreases count - k,
    {
        proof {
            if lsf {
                assert(record_pos(base, lsf, mono, k + 1) == r.pos() + 63);
            } else {
                assert(record_pos(base, lsf, mono, k + 1) == r.pos() + 59);
            }
        }
        let g = read_granule(&mut r, lsf);
        if g.big_values > 288 || (g.window_switching && g.block_type == 0) {
            proof {
                assert(!granule_ok(w@, record_pos(base, lsf, mono, k as int), lsf));
            }
            return None;
        }
        granules[k] = g;
        k = k + 1;
    }
    let si = SideInfo {
        main_data_begin,
        private_bits,
        scfsi,
        granules,
        granule_count: ngr,
        channel_count: nch,
    };
    assert(side_info_ok(w@, base, lsf, mono)) by {
        assert forall|j: int|
            0 <= j < granule_count_spec(lsf) * channel_count_spec(mono) implies #[trigger] granule_ok(
            w@,
            record_pos(base, lsf, mono, j),
            lsf,
        ) by {
            assert(granule_matches(granules[j], w@, record_pos(base, lsf, mono, j), lsf));
        }
    }
    Some(si)
}

} // verus!
