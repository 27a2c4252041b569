use vstd::prelude::*;

use crate::scale_factors::ScaleFactors;
use crate::side_info::GranuleInfo;

verus! {

/// The offsets that `preflag` adds to the scale factors of the long bands.
pub open spec fn pretab(sfb: int) -> int {
    if sfb < 11 || sfb == 21 {
        0
    } else if sfb < 15 {
        1
    } else if sfb < 17 {
        2
    } else if sfb < 20 {
        3
    } else {
        2
    }
}

/// How many quarter powers of two one unit of scale factor weighs: 2, or 4 with
/// `scalefac_scale`.
pub open spec fn scale_step(g: GranuleInfo) -> int {
    if g.scalefac_scale {
        4
    } else {
        2
    }
}

/// The gain of long band `sfb`, in quarter powers of two: a line `x` of the band has the
/// magnitude `|x|^(4/3) * 2^(e / 4)`.
pub open spec fn long_exponent_spec(g: GranuleInfo, sf: ScaleFactors, sfb: int) -> int {
    g.global_gain as int - 210 - scale_step(g) * (sf.long[sfb] as int + if g.preflag {
        pretab(sfb)
    } else {
        0
    })
}

/// The gain of window `w` of short band `sfb`, in quarter powers of two, with the window's
/// subblock gain counting eight quarters per unit.
pub open spec fn short_exponent_spec(g: GranuleInfo, sf: ScaleFactors, sfb: int, w: int) -> int {
    g.global_gain as int - 210 - 8 * g.subblock_gain[w] as int - scale_step(g) * sf.short[sfb * 3
        + w] as int
}

fn pretab_at(sfb: usize) -> (r: i64)
    requires
        sfb < 22,
    ensures
        r == pretab(sfb as int),
{
    if sfb < 11 || sfb == 21 {
        0
    } else if sfb < 15 {
        1
    } else if sfb < 17 {
        2
    } else if sfb < 20 {
        3
    } else {
        2
    }
}

/// The gain exponent of long band `sfb` of a granule.
pub fn long_exponent(g: &GranuleInfo, sf: &ScaleFactors, sfb: usize) -> (r: i64)
    requires
        sfb < 22,
    ensures
        r == long_exponent_spec(*g, *sf, sfb as int),
{
    let step: i64 = if g.scalefac_scale {
        4
    } else {
        2
    };
    let boost: i64 = if g.preflag {
        pretab_at(sfb)
    } else {
        0
    };
    g.global_gain as i64 - 210 - step * (sf.long[sfb] as i64 + boost)
}

/// The gain exponent of window `w` of short band `sfb` of a granule.
pub fn short_exponent(g: &GranuleInfo, sf: &ScaleFactors, sfb: usize, w: usize) -> (r: i64)
    requires
        sfb < 13,
        w < 3,
    ensures
        r == short_exponent_spec(*g, *sf, sfb as int, w as int),
{
    let step: i64 = if g.scalefac_scale {
        4
    } else {
        2
    };
    g.global_gain as i64 - 210 - 8 * (g.subblock_gain[w] as i64) - step * (sf.short[sfb * 3
        + w] as i64)
}

} // verus!
