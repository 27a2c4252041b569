use vstd::prelude::*;

use crate::bits::{bits_value, BitReader};
use crate::side_info::GranuleInfo;

verus! {

/// The scale factors of one MPEG-1 granule of one channel. `long[sfb]` serves long blocks
/// (and the long part of mixed blocks); `short[sfb * 3 + window]` serves short blocks.
#[derive(Clone, Copy, Debug, PartialEq, Eq)]
pub struct ScaleFactors {
    pub long: [u32; 22],
    pub short: [u32; 39],
}

/// Width of the scale factors of the lower bands, by `scalefac_compress`.
pub open spec fn slen1(sfc: u32) -> nat {
    if sfc < 4 {
        0
    } else if sfc == 4 {
        3
    } else if sfc < 8 {
        1
    } else if sfc < 11 {
        2
    } else if sfc < 14 {
        3
    } else {
        4
    }
}

/// Width of the scale factors of the upper bands, by `scalefac_compress`.
pub open spec fn slen2(sfc: u32) -> nat {
    if sfc < 4 {
        sfc as nat
    } else if sfc < 8 {
        (sfc - 4) as nat
    } else if sfc < 14 {
        ((sfc - 8) % 3 + 1) as nat
    } else {
        ((sfc - 14) + 2) as nat
    }
}

/// The granule uses short blocks, alone or after two long subbands.
pub open spec fn short_blocks(g: GranuleInfo) -> bool {
    g.window_switching && g.block_type == 2
}

/// The group of long scale-factor bands that one selection flag covers.
pub open spec fn band_group(k: int) -> int {
    if k < 6 {
        0
    } else if k < 11 {
        1
    } else if k < 16 {
        2
    } else {
        3
    }
}

/// Long band `k` of granule `gr` repeats granule 0's scale factor instead of sending one.
pub open spec fn long_copied(gr: int, scfsi: u32, k: int) -> bool {
    gr == 1 && (scfsi >> ((3 - band_group(k)) as u32)) & 1u32 == 1
}

/// The bits sent for long band `k`.
pub open spec fn long_width(sfc: u32, gr: int, scfsi: u32, k: int) -> nat {
    if long_copied(gr, scfsi, k) {
        0
    } else if k < 11 {
        slen1(sfc)
    } else {
        slen2(sfc)
    }
}

/// Where long band `k`'s scale factor starts, relative to the first.
pub open spec fn long_offset(sfc: u32, gr: int, scfsi: u32, k: int) -> nat
    decreases k,
{
    if k <= 0 {
        0
    } else {
        long_offset(sfc, gr, scfsi, k - 1) + long_width(sfc, gr, scfsi, k - 1)
    }
}

/// Fields sent for short blocks: 36 (12 bands, three windows), or 35 with mixed blocks
/// (8 long bands, then bands 3 to 11 of three windows).
pub open spec fn short_count(mixed: bool) -> int {
    if mixed {
        35
    } else {
        36
    }
}

/// The bits of short-block field `j`: the first 18 (17 when mixed) use the lower width.
pub open spec fn short_width(sfc: u32, mixed: bool, j: int) -> nat {
    if j < (if mixed { 17int } else { 18int }) {
        slen1(sfc)
    } else {
        slen2(sfc)
    }
}

pub open spec fn short_offset(sfc: u32, mixed: bool, j: int) -> nat
    decreases j,
{
    if j <= 0 {
        0
    } else {
        short_offset(sfc, mixed, j - 1) + short_width(sfc, mixed, j - 1)
    }
}

/// The bits of scale factors that granule `g` sends (its part 2).
pub open spec fn part2_bits(g: GranuleInfo, gr: int, scfsi: u32) -> nat {
    if short_blocks(g) {
        short_offset(g.scalefac_compress, g.mixed_block, short_count(g.mixed_block))
    } else {
        long_offset(g.scalefac_compress, gr, scfsi, 21)
    }
}

/// `sf` holds the scale factors that granule `gr` with side information `g` sends at bit
/// `p` of `s`, with `prev` those of granule 0 of the same channel.
pub open spec fn scale_factors_match(
    sf: ScaleFactors,
    s: Seq<u8>,
    p: int,
    g: GranuleInfo,
    gr: int,
    scfsi: u32,
    prev: ScaleFactors,
) -> bool {
    let sfc = g.scalefac_compress;
    if !short_blocks(g) {
        &&& forall|k: int|
            0 <= k < 21 ==> #[trigger] sf.long[k] == (if long_copied(gr, scfsi, k) {
                prev.long[k]
            } else {
                bits_value(s, p + long_offset(sfc, gr, scfsi, k), long_width(sfc, gr, scfsi, k))
                    as u32
            })
        &&& sf.long[21] == 0
        &&& forall|j: int| 0 <= j < 39 ==> #[trigger] sf.short[j] == 0
    } else if g.mixed_block {
        &&& forall|k: int|
            0 <= k < 8 ==> #[trigger] sf.long[k] == bits_value(
                s,
                p + short_offset(sfc, true, k),
                short_width(sfc, true, k),
            ) as u32
        &&& forall|k: int| 8 <= k < 22 ==> #[trigger] sf.long[k] == 0
        &&& forall|j: int| 0 <= j < 9 ==> #[trigger] sf.short[j] == 0
        &&& forall|j: int|
            9 <= j < 36 ==> #[trigger] sf.short[j] == bits_value(
                s,
                p + short_offset(sfc, true, j - 1),
                short_width(sfc, true, j - 1),
            ) as u32
        &&& forall|j: int| 36 <= j < 39 ==> #[trigger] sf.short[j] == 0
    } else {
        &&& forall|k: int| 0 <= k < 22 ==> #[trigger] sf.long[k] == 0
        &&& forall|j: int|
            0 <= j < 36 ==> #[trigger] sf.short[j] == bits_value(
                s,
                p + short_offset(sfc, false, j),
                short_width(sfc, false, j),
            ) as u32
        &&& forall|j: int| 36 <= j < 39 ==> #[trigger] sf.short[j] == 0
    }
}

fn slen(sfc: u32, upper: bool) -> (r: u32)
    requires
        sfc < 16,
    ensures
        r == (if upper { slen2(sfc) } else { slen1(sfc) }),
        r <= 4,
{
    if !upper {
        if sfc < 4 {
            0
        } else if sfc == 4 {
            3
        } else if sfc < 8 {
            1
        } else if sfc < 11 {
            2
        } else if sfc < 14 {
            3
        } else {
            4
        }
    } else {
        if sfc < 4 {
            sfc
        } else if sfc < 8 {
            sfc - 4
        } else if sfc < 14 {
            (sfc - 8) % 3 + 1
        } else {
            sfc - 12
        }
    }
}

proof fn lemma_long_offset_bound(sfc: u32, gr: int, scfsi: u32, k: int)
    requires
        0 <= k,
        sfc < 16,
    ensures
        long_offset(sfc, gr, scfsi, k) <= 4 * k,
    decreases k,
{
    if k > 0 {
        lemma_long_offset_bound(sfc, gr, scfsi, k - 1);
    }
}

proof fn lemma_short_offset_bound(sfc: u32, mixed: bool, j: int)
    requires
        0 <= j,
        sfc < 16,
    ensures
        short_offset(sfc, mixed, j) <= 4 * j,
    decreases j,
{
    if j > 0 {
        lemma_short_offset_bound(sfc, mixed, j - 1);
    }
}

proof fn lemma_long_offset_mono(sfc: u32, gr: int, scfsi: u32, k1: int, k2: int)
    requires
        k1 <= k2,
    ensures
        long_offset(sfc, gr, scfsi, k1) <= long_offset(sfc, gr, scfsi, k2),
    decreases k2 - k1,
{
    if k1 < k2 {
        lemma_long_offset_mono(sfc, gr, scfsi, k1, k2 - 1);
    }
}

proof fn lemma_short_offset_mono(sfc: u32, mixed: bool, j1: int, j2: int)
    requires
        j1 <= j2,
    ensures
        short_offset(sfc, mixed, j1) <= short_offset(sfc, mixed, j2),
    decreases j2 - j1,
{
    if j1 < j2 {
        lemma_short_offset_mono(sfc, mixed, j1, j2 - 1);
    }
}

/// The number of bits of scale factors that granule `gr` with side information `g` sends.
pub fn part2_length(g: &GranuleInfo, gr: usize, scfsi: u32) -> (r: usize)
    requires
        g.scalefac_compress < 16,
    ensures
        r == part2_bits(*g, gr as int, scfsi),
        r <= 144,
{
    let sfc = g.scalefac_compress;
    let mut total: usize = 0;
    if g.window_switching && g.block_type == 2 {
        let mixed = g.mixed_block;
        let n: usize = if mixed {
            35
        } else {
            36
        };
        let bound: usize = if mixed {
            17
        } else {
            18
        };
        let mut j: usize = 0;
        while j < n
            invariant
                sfc < 16,
                j <= n == short_count(mixed),
                bound == (if mixed { 17int } else { 18int }),
                total == short_offset(sfc, mixed, j as int),
                total <= 4 * j,
            decreases n - j,
        {
            total = total + slen(sfc, j >= bound) as usize;
            j = j + 1;
        }
    } else {
        let mut k: usize = 0;
        while k < 21
            invariant
                sfc < 16,
                k <= 21,
                total == long_offset(sfc, gr as int, scfsi, k as int),
                total <= 4 * k,
            decreases 21 - k,
        {
            let grp: u32 = if k < 6 {
                0
            } else if k < 11 {
                1
            } else if k < 16 {
                2
            } else {
                3
            };
            let copied = gr == 1 && (scfsi >> (3 - grp)) & 1u32 == 1;
            if !copied {
                total = total + slen(sfc, k >= 11) as usize;
            }
            k = k + 1;
        }
    }
    total
}

fn read_long(r: &mut BitReader, sfc: u32, gr: usize, scfsi: u32, prev: &ScaleFactors) -> (sf: ScaleFactors)
    requires
        old(r).wf(),
        sfc < 16,
        old(r).pos() + long_offset(sfc, gr as int, scfsi, 21) <= old(r).limit(),
    ensures
        final(r).wf(),
        final(r).bytes() == old(r).bytes(),
        final(r).limit() == old(r).limit(),
        final(r).pos() == old(r).pos() + long_offset(sfc, gr as int, scfsi, 21),
        forall|k: int|
            0 <= k < 21 ==> #[trigger] sf.long[k] == (if long_copied(gr as int, scfsi, k) {
                prev.long[k]
            } else {
                bits_value(
                    old(r).bytes(),
                    old(r).pos() as int + long_offset(sfc, gr as int, scfsi, k),
                    long_width(sfc, gr as int, scfsi, k),
                ) as u32
            }),
        sf.long[21] == 0,
        forall|j: int| 0 <= j < 39 ==> #[trigger] sf.short[j] == 0,
{
    let ghost p = r.pos() as int;
    let ghost s = r.bytes();
    let mut sf = ScaleFactors { long: [0u32; 22], short: [0u32; 39] };
    let mut k: usize = 0;
    while k < 21
        invariant
            r.wf(),
            r.bytes() == s,
            r.limit() == old(r).limit(),
            s == old(r).bytes(),
            p == old(r).pos(),
            sfc < 16,
            k <= 21,
            r.pos() == p + long_offset(sfc, gr as int, scfsi, k as int),
            p + long_offset(sfc, gr as int, scfsi, 21) <= r.limit(),
            forall|i: int|
                0 <= i < k ==> #[trigger] sf.long[i] == (if long_copied(gr as int, scfsi, i) {
                    prev.long[i]
                } else {
                    bits_value(
                        s,
                        p + long_offset(sfc, gr as int, scfsi, i),
                        long_width(sfc, gr as int, scfsi, i),
                    ) as u32
                }),
            sf.long[21] == 0,
            forall|j: int| 0 <= j < 39 ==> #[trigger] sf.short[j] == 0,
        decreases 21 - k,
    {
        proof {
            lemma_long_offset_mono(sfc, gr as int, scfsi, k + 1, 21);
        }
        let grp: u32 = if k < 6 {
            0
        } else if k < 11 {
            1
        } else if k < 16 {
            2
        } else {
            3
        };
        let copied = gr == 1 && (scfsi >> (3 - grp)) & 1u32 == 1;
        if copied {
            sf.long[k] = prev.long[k];
        } else {
            let w = slen(sfc, k >= 11);
            let v = r.read(w);
            sf.long[k] = v;
        }
        k = k + 1;
    }
    sf
}

fn read_short(r: &mut BitReader, sfc: u32, mixed: bool) -> (sf: ScaleFactors)
    requires
        old(r).wf(),
        sfc < 16,
        old(r).pos() + short_offset(sfc, mixed, short_count(mixed)) <= old(r).limit(),
    ensures
        final(r).wf(),
        final(r).bytes() == old(r).bytes(),
        final(r).limit() == old(r).limit(),
        final(r).pos() == old(r).pos() + short_offset(sfc, mixed, short_count(mixed)),
        mixed ==> forall|k: int|
            0 <= k < 8 ==> #[trigger] sf.long[k] == bits_value(
                old(r).bytes(),
                old(r).pos() as int + short_offset(sfc, true, k),
                short_width(sfc, true, k),
            ) as u32,
        mixed ==> forall|k: int| 8 <= k < 22 ==> #[trigger] sf.long[k] == 0,
        mixed ==> forall|j: int| 0 <= j < 9 ==> #[trigger] sf.short[j] == 0,
        mixed ==> forall|j: int|
            9 <= j < 36 ==> #[trigger] sf.short[j] == bits_value(
                old(r).bytes(),
                old(r).pos() as int + short_offset(sfc, true, j - 1),
                short_width(sfc, true, j - 1),
            ) as u32,
        !mixed ==> forall|k: int| 0 <= k < 22 ==> #[trigger] sf.long[k] == 0,
        !mixed ==> forall|j: int|
            0 <= j < 36 ==> #[trigger] sf.short[j] == bits_value(
                old(r).bytes(),
                old(r).pos() as int + short_offset(sfc, false, j),
                short_width(sfc, false, j),
            ) as u32,
        forall|j: int| 36 <= j < 39 ==> #[trigger] sf.short[j] == 0,
{
    let ghost p = r.pos() as int;
    let ghost s = r.bytes();
    let mut sf = ScaleFactors { long: [0u32; 22], short: [0u32; 39] };
    let n: usize = if mixed {
        35
    } else {
        36
    };
    let bound: usize = if mixed {
        17
    } else {
        18
    };
    let mut j: usize = 0;
    while j < n
        invariant
            r.wf(),
            r.bytes() == s,
            r.limit() == old(r).limit(),
            s == old(r).bytes(),
            p == old(r).pos(),
            sfc < 16,
            j <= n == short_count(mixed),
            bound == (if mixed { 17int } else { 18int }),
            r.pos() == p + short_offset(sfc, mixed, j as int),
            p + short_offset(sfc, mixed, n as int) <= r.limit(),
            mixed ==> forall|k: int|
                0 <= k < 8 && k < j ==> #[trigger] sf.long[k] == bits_value(
                    s,
                    p + short_offset(sfc, true, k),
                    short_width(sfc, true, k),
                ) as u32,
            mixed ==> forall|k: int| (8 <= k < 22 || j <= k < 22) ==> #[trigger] sf.long[k] == 0,
            mixed ==> forall|i: int| 0 <= i < 9 ==> #[trigger] sf.short[i] == 0,
            mixed ==> forall|i: int|
                9 <= i < 36 && i <= j ==> #[trigger] sf.short[i] == bits_value(
                    s,
                    p + short_offset(sfc, true, i - 1),
                    short_width(sfc, true, i - 1),
                ) as u32,
            mixed ==> forall|i: int| 9 <= i < 39 && i > j ==> #[trigger] sf.short[i] == 0,
            !mixed ==> forall|k: int| 0 <= k < 22 ==> #[trigger] sf.long[k] == 0,
            !mixed ==> forall|i: int|
                0 <= i < 36 && i < j ==> #[trigger] sf.short[i] == bits_value(
                    s,
                    p + short_offset(sfc, false, i),
                    short_width(sfc, false, i),
                ) as u32,
            !mixed ==> forall|i: int| j <= i < 39 ==> #[trigger] sf.short[i] == 0,
        decreases n - j,
    {
        proof {
            lemma_short_offset_mono(sfc, mixed, j + 1, n as int);
        }
        let w = slen(sfc, j >= bound);
        let v = r.read(w);
        if mixed {
            if j < 8 {
                sf.long[j] = v;
            } else {
                sf.short[j + 1] = v;
            }
        } else {
            sf.short[j] = v;
        }
        j = j + 1;
    }
    sf
}

/// Reads the scale factors of granule `gr` (0 or 1) of one channel of an MPEG-1 frame, with
/// `scfsi` the channel's selection flags and `prev` its scale factors from granule 0.
/// Returns `None`, reading nothing, when fewer bits remain than the granule sends.
pub fn read_scale_factors(
    r: &mut BitReader,
    g: &GranuleInfo,
    gr: usize,
    scfsi: u32,
    prev: &ScaleFactors,
) -> (res: Option<ScaleFactors>)
    requires
        old(r).wf(),
        g.scalefac_compress < 16,
    ensures
        final(r).wf(),
        final(r).bytes() == old(r).bytes(),
        final(r).limit() == old(r).limit(),
        res.is_some() == (old(r).pos() + part2_bits(*g, gr as int, scfsi) <= old(r).limit()),
        res is None ==> final(r).pos() == old(r).pos(),
        res matches Some(sf) ==> final(r).pos() == old(r).pos() + part2_bits(*g, gr as int, scfsi)
            && scale_factors_match(sf, old(r).bytes(), old(r).pos() as int, *g, gr as int, scfsi, *prev),
{
    let need = part2_length(g, gr, scfsi);
    if need > r.remaining() {
        return None;
    }
    if g.window_switching && g.block_type == 2 {
        Some(read_short(r, g.scalefac_compress, g.mixed_block))
    } else {
        Some(read_long(r, g.scalefac_compress, gr, scfsi, prev))
    }
}

/// The block layout of a granule for scale factors: 0 long, 1 short, 2 mixed.
pub open spec fn layout(g: GranuleInfo) -> int {
    if !short_blocks(g) {
        0
    } else if g.mixed_block {
        2
    } else {
        1
    }
}

/// For the lower sampling rates: which of the six partition tables `scalefac_compress`
/// selects, `intensity_right` telling the right channel of an intensity-stereo frame.
pub open spec fn lsf_table(sfc: u32, intensity_right: bool) -> int {
    if !intensity_right {
        if sfc < 400 {
            0
        } else if sfc < 500 {
            1
        } else {
            2
        }
    } else {
        let x = sfc / 2;
        if x < 180 {
            3
        } else if x < 244 {
            4
        } else {
            5
        }
    }
}

/// The width of the scale factors of partition `i` (0 to 3).
pub open spec fn lsf_slen(sfc: u32, intensity_right: bool, i: int) -> nat {
    let t = lsf_table(sfc, intensity_right);
    let x: int = if !intensity_right {
        if t == 0 {
            sfc as int
        } else if t == 1 {
            sfc - 400
        } else {
            sfc - 500
        }
    } else {
        if t == 3 {
            (sfc / 2) as int
        } else if t == 4 {
            sfc / 2 - 180
        } else {
            sfc / 2 - 244
        }
    };
    let r: int = if t == 0 {
        if i == 0 {
            (x / 16) / 5
        } else if i == 1 {
            (x / 16) % 5
        } else if i == 2 {
            (x % 16) / 4
        } else {
            x % 4
        }
    } else if t == 1 {
        if i == 0 {
            (x / 4) / 5
        } else if i == 1 {
            (x / 4) % 5
        } else if i == 2 {
            x % 4
        } else {
            0
        }
    } else if t == 3 {
        if i == 0 {
            x / 36
        } else if i == 1 {
            (x % 36) / 6
        } else if i == 2 {
            (x % 36) % 6
        } else {
            0
        }
    } else if t == 4 {
        if i == 0 {
            (x % 64) / 16
        } else if i == 1 {
            (x % 16) / 4
        } else if i == 2 {
            x % 4
        } else {
            0
        }
    } else {
        if i == 0 {
            x / 3
        } else if i == 1 {
            x % 3
        } else {
            0
        }
    };
    r as nat
}

/// How many scale factors partition `i` holds, by table and layout.
pub open spec fn lsf_part_count(t: int, kind: int, i: int) -> int {
    let row: (int, int, int, int) = if t == 0 {
        if kind == 0 { (6, 5, 5, 5) } else if kind == 1 { (9, 9, 9, 9) } else { (6, 9, 9, 9) }
    } else if t == 1 {
        if kind == 0 { (6, 5, 7, 3) } else if kind == 1 { (9, 9, 12, 6) } else { (6, 9, 12, 6) }
    } else if t == 2 {
        if kind == 0 { (11, 10, 0, 0) } else if kind == 1 { (18, 18, 0, 0) } else { (15, 18, 0, 0) }
    } else if t == 3 {
        if kind == 0 { (7, 7, 7, 0) } else if kind == 1 { (12, 12, 12, 0) } else { (6, 15, 12, 0) }
    } else if t == 4 {
        if kind == 0 { (6, 6, 6, 3) } else if kind == 1 { (12, 9, 9, 6) } else { (6, 12, 9, 6) }
    } else {
        if kind == 0 { (8, 8, 5, 0) } else if kind == 1 { (15, 12, 9, 0) } else { (6, 18, 9, 0) }
    };
    if i == 0 {
        row.0
    } else if i == 1 {
        row.1
    } else if i == 2 {
        row.2
    } else {
        row.3
    }
}

/// Scale factors sent: 21 for long blocks, 36 for short, 33 for mixed.
pub open spec fn lsf_count(kind: int) -> int {
    if kind == 0 {
        21
    } else if kind == 1 {
        36
    } else {
        33
    }
}

/// The width of the `j`-th scale factor sent.
pub open spec fn lsf_width(sfc: u32, ir: bool, kind: int, j: int) -> nat {
    let t = lsf_table(sfc, ir);
    let c0 = lsf_part_count(t, kind, 0);
    let c1 = c0 + lsf_part_count(t, kind, 1);
    let c2 = c1 + lsf_part_count(t, kind, 2);
    if j < c0 {
        lsf_slen(sfc, ir, 0)
    } else if j < c1 {
        lsf_slen(sfc, ir, 1)
    } else if j < c2 {
        lsf_slen(sfc, ir, 2)
    } else {
        lsf_slen(sfc, ir, 3)
    }
}

pub open spec fn lsf_offset(sfc: u32, ir: bool, kind: int, j: int) -> nat
    decreases j,
{
    if j <= 0 {
        0
    } else {
        lsf_offset(sfc, ir, kind, j - 1) + lsf_width(sfc, ir, kind, j - 1)
    }
}

/// `sf` holds the scale factors that a granule with side information `g` sends at bit `p`
/// of `s`, at the lower sampling rates, and zero where none is sent.
pub open spec fn lsf_scale_factors_match(sf: ScaleFactors, s: Seq<u8>, p: int, g: GranuleInfo, ir: bool) -> bool {
    let kind = layout(g);
    let sfc = g.scalefac_compress;
    &&& forall|k: int|
        0 <= k < 22 ==> #[trigger] sf.long[k] == (if kind == 0 && k < 21 || kind == 2 && k < 6 {
            bits_value(s, p + lsf_offset(sfc, ir, kind, k), lsf_width(sfc, ir, kind, k)) as u32
        } else {
            0
        })
    &&& forall|k: int|
        0 <= k < 39 ==> #[trigger] sf.short[k] == (if kind == 1 && k < 36 {
            bits_value(s, p + lsf_offset(sfc, ir, kind, k), lsf_width(sfc, ir, kind, k)) as u32
        } else if kind == 2 && 9 <= k < 36 {
            bits_value(s, p + lsf_offset(sfc, ir, kind, k - 3), lsf_width(sfc, ir, kind, k - 3))
                as u32
        } else {
            0
        })
}

/// At the lower sampling rates `preflag` is not sent: the largest values of
/// `scalefac_compress` set it, outside the right channel of intensity stereo.
pub open spec fn lsf_preflag_spec(sfc: u32, ir: bool) -> bool {
    !ir && sfc >= 500
}

pub fn lsf_preflag(sfc: u32, intensity_right: bool) -> (r: bool)
    ensures
        r == lsf_preflag_spec(sfc, intensity_right),
{
    !intensity_right && sfc >= 500
}

fn lsf_slens(sfc: u32, ir: bool) -> (r: (usize, [u32; 4]))
    requires
        sfc < 512,
    ensures
        r.0 == lsf_table(sfc, ir),
        forall|i: int| 0 <= i < 4 ==> #[trigger] r.1[i] == lsf_slen(sfc, ir, i) && r.1[i] <= 5,
{
    if !ir {
        if sfc < 400 {
            (0, [(sfc / 16) / 5, (sfc / 16) % 5, (sfc % 16) / 4, sfc % 4])
        } else if sfc < 500 {
            let x = sfc - 400;
            (1, [(x / 4) / 5, (x / 4) % 5, x % 4, 0])
        } else {
            let x = sfc - 500;
            (2, [x / 3, x % 3, 0, 0])
        }
    } else {
        let x = sfc / 2;
        if x < 180 {
            (3, [x / 36, (x % 36) / 6, (x % 36) % 6, 0])
        } else if x < 244 {
            let y = x - 180;
            (4, [(y % 64) / 16, (y % 16) / 4, y % 4, 0])
        } else {
            let y = x - 244;
            (5, [y / 3, y % 3, 0, 0])
        }
    }
}

fn lsf_counts(t: usize, kind: usize) -> (r: [usize; 4])
    requires
        t < 6,
        kind < 3,
    ensures
        forall|i: int| 0 <= i < 4 ==> #[trigger] r[i] == lsf_part_count(t as int, kind as int, i),
        r[0] + r[1] + r[2] + r[3] == lsf_count(kind as int),
{
    if t == 0 {
        if kind == 0 { [6, 5, 5, 5] } else if kind == 1 { [9, 9, 9, 9] } else { [6, 9, 9, 9] }
    } else if t == 1 {
        if kind == 0 { [6, 5, 7, 3] } else if kind == 1 { [9, 9, 12, 6] } else { [6, 9, 12, 6] }
    } else if t == 2 {
        if kind == 0 { [11, 10, 0, 0] } else if kind == 1 { [18, 18, 0, 0] } else { [15, 18, 0, 0] }
    } else if t == 3 {
        if kind == 0 { [7, 7, 7, 0] } else if kind == 1 { [12, 12, 12, 0] } else { [6, 15, 12, 0] }
    } else if t == 4 {
        if kind == 0 { [6, 6, 6, 3] } else if kind == 1 { [12, 9, 9, 6] } else { [6, 12, 9, 6] }
    } else {
        if kind == 0 { [8, 8, 5, 0] } else if kind == 1 { [15, 12, 9, 0] } else { [6, 18, 9, 0] }
    }
}

proof fn lemma_lsf_offset_mono(sfc: u32, ir: bool, kind: int, j1: int, j2: int)
    requires
        j1 <= j2,
    ensures
        lsf_offset(sfc, ir, kind, j1) <= lsf_offset(sfc, ir, kind, j2),
    decreases j2 - j1,
{
    if j1 < j2 {
        lemma_lsf_offset_mono(sfc, ir, kind, j1, j2 - 1);
    }
}

/// Reads the scale factors of one granule of one channel of an MPEG-2 or MPEG-2.5 frame,
/// `intensity_right` telling the right channel of an intensity-stereo frame. Returns `None`,
/// reading nothing, when fewer bits remain than the granule sends.
pub fn read_scale_factors_lsf(r: &mut BitReader, g: &GranuleInfo, intensity_right: bool) -> (res:
    Option<ScaleFactors>)
    requires
        old(r).wf(),
        g.scalefac_compress < 512,
    ensures
        final(r).wf(),
        final(r).bytes() == old(r).bytes(),
        final(r).limit() == old(r).limit(),
        res.is_some() == (old(r).pos() + lsf_offset(
            g.scalefac_compress,
            intensity_right,
            layout(*g),
            lsf_count(layout(*g)),
        ) <= old(r).limit()),
        res is None ==> final(r).pos() == old(r).pos(),
        res matches Some(sf) ==> final(r).pos() == old(r).pos() + lsf_offset(
            g.scalefac_compress,
            intensity_right,
            layout(*g),
            lsf_count(layout(*g)),
        ) && lsf_scale_factors_match(sf, old(r).bytes(), old(r).pos() as int, *g, intensity_right),
{
    let sfc = g.scalefac_compress;
    let ir = intensity_right;
    let kind: usize = if !(g.window_switching && g.block_type == 2) {
        0
    } else if g.mixed_block {
        2
    } else {
        1
    };
    let (t, slens) = lsf_slens(sfc, ir);
    let counts = lsf_counts(t, kind);
    let n = counts[0] + counts[1] + counts[2] + counts[3];
    let b0 = counts[0];
    let b1 = b0 + counts[1];
    let b2 = b1 + counts[2];
    let ghost kd = kind as int;
    // The total width, to test it against what remains.
    let mut total: usize = 0;
    let mut j: usize = 0;
    while j < n
        invariant
            n == lsf_count(kd),
            kd == layout(*g),
            j <= n,
            b0 == lsf_part_count(t as int, kd, 0),
            b1 == b0 + lsf_part_count(t as int, kd, 1),
            b2 == b1 + lsf_part_count(t as int, kd, 2),
            t == lsf_table(sfc, ir),
            forall|i: int| 0 <= i < 4 ==> #[trigger] slens[i] == lsf_slen(sfc, ir, i) && slens[i] <= 5,
            total == lsf_offset(sfc, ir, kd, j as int),
            total <= 5 * j,
        decreases n - j,
    {
        let w = if j < b0 {
            slens[0]
        } else if j < b1 {
            slens[1]
        } else if j < b2 {
            slens[2]
        } else {
            slens[3]
        };
        total = total + w as usize;
        j = j + 1;
    }
    if total > r.remaining() {
        return None;
    }
    let ghost p = r.pos() as int;
    let ghost s = r.bytes();
    let mut sf = ScaleFactors { long: [0u32; 22], short: [0u32; 39] };
    let mut j: usize = 0;
    while j < n
        invariant
            r.wf(),
            r.bytes() == s,
            r.limit() == old(r).limit(),
            s == old(r).bytes(),
            p == old(r).pos(),
            n == lsf_count(kd),
            kd == layout(*g),
            kind == kd,
            j <= n,
            b0 == lsf_part_count(t as int, kd, 0),
            b1 == b0 + lsf_part_count(t as int, kd, 1),
            b2 == b1 + lsf_part_count(t as int, kd, 2),
            t == lsf_table(sfc, ir),
            forall|i: int| 0 <= i < 4 ==> #[trigger] slens[i] == lsf_slen(sfc, ir, i) && slens[i] <= 5,
            r.pos() == p + lsf_offset(sfc, ir, kd, j as int),
            p + lsf_offset(sfc, ir, kd, n as int) <= r.limit(),
            forall|k: int|
                0 <= k < 22 ==> #[trigger] sf.long[k] == (if (kd == 0 && k < 21 || kd == 2 && k < 6)
                    && k < j {
                    bits_value(s, p + lsf_offset(sfc, ir, kd, k), lsf_width(sfc, ir, kd, k)) as u32
                } else {
                    0
                }),
            forall|k: int|
                0 <= k < 39 ==> #[trigger] sf.short[k] == (if kd == 1 && k < 36 && k < j {
                    bits_value(s, p + lsf_offset(sfc, ir, kd, k), lsf_width(sfc, ir, kd, k)) as u32
                } else if kd == 2 && 9 <= k < 36 && k - 3 < j {
                    bits_value(s, p + lsf_offset(sfc, ir, kd, k - 3), lsf_width(sfc, ir, kd, k - 3))
                        as u32
                } else {
                    0
                }),
        decreases n - j,
    {
        proof {
            lemma_lsf_offset_mono(sfc, ir, kd, j + 1, n as int);
        }
        let w = if j < b0 {
            slens[0]
        } else if j < b1 {
            slens[1]
        } else if j < b2 {
            slens[2]
        } else {
            slens[3]
        };
        let v = r.read(w);
        if kind == 0 || (kind == 2 && j < 6) {
            sf.long[j] = v;
        } else if kind == 1 {
            sf.short[j] = v;
        } else {
            sf.short[j + 3] = v;
        }
        j = j + 1;
    }
    Some(sf)
}

} // verus!
