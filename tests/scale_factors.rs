use nanomp3::bits::BitReader;
use nanomp3::scale_factors::{
    lsf_preflag, part2_length, read_scale_factors, read_scale_factors_lsf, ScaleFactors,
};
use nanomp3::side_info::GranuleInfo;

fn put_bits(buf: &mut [u8], pos: usize, n: usize, v: u32) {
    for k in 0..n {
        if (v >> (n - 1 - k)) & 1 == 1 {
            let p = pos + k;
            buf[p / 8] |= 0x80 >> (p % 8);
        }
    }
}

fn granule(sfc: u32, window_switching: bool, block_type: u32, mixed_block: bool) -> GranuleInfo {
    GranuleInfo {
        part2_3_length: 0,
        big_values: 0,
        global_gain: 0,
        scalefac_compress: sfc,
        window_switching,
        block_type,
        mixed_block,
        table_select: [0; 3],
        subblock_gain: [0; 3],
        region0_count: 0,
        region1_count: 0,
        preflag: false,
        scalefac_scale: false,
        count1_table: false,
    }
}

fn zero() -> ScaleFactors {
    ScaleFactors { long: [0; 22], short: [0; 39] }
}

#[test]
fn long_block_scale_factors() {
    // scalefac_compress 15: four bits for bands 0 to 10, three for bands 11 to 20.
    let mut data = [0u8; 16];
    let mut pos = 0;
    for k in 0..21u32 {
        let w = if k < 11 { 4 } else { 3 };
        put_bits(&mut data, pos, w, (k + 3) % (1 << w));
        pos += w;
    }
    assert_eq!(pos, 74);
    let g = granule(15, false, 0, false);
    assert_eq!(part2_length(&g, 0, 0), 74);
    let mut r = BitReader::new(&data, 0, 16);
    let sf = read_scale_factors(&mut r, &g, 0, 0, &zero()).unwrap();
    assert_eq!(r.position(), 74);
    for k in 0..21u32 {
        let w = if k < 11 { 4 } else { 3 };
        assert_eq!(sf.long[k as usize], (k + 3) % (1 << w));
    }
    assert_eq!(sf.long[21], 0);
    assert!(sf.short.iter().all(|&v| v == 0));
}

#[test]
fn second_granule_copies_selected_bands() {
    // Flags 1010: bands 0 to 5 and 11 to 15 repeat granule 0.
    let mut prev = zero();
    for k in 0..22 {
        prev.long[k] = 9;
    }
    let mut data = [0u8; 8];
    let mut pos = 0;
    for _ in 6..11 {
        put_bits(&mut data, pos, 4, 5);
        pos += 4;
    }
    for _ in 16..21 {
        put_bits(&mut data, pos, 3, 2);
        pos += 3;
    }
    let g = granule(15, false, 0, false);
    assert_eq!(part2_length(&g, 1, 0b1010), 35);
    let mut r = BitReader::new(&data, 0, 8);
    let sf = read_scale_factors(&mut r, &g, 1, 0b1010, &prev).unwrap();
    assert_eq!(r.position(), 35);
    for k in 0..21 {
        let expect = match k {
            0..=5 | 11..=15 => 9,
            6..=10 => 5,
            _ => 2,
        };
        assert_eq!(sf.long[k], expect);
    }
    // The same flags on granule 0 copy nothing.
    assert_eq!(part2_length(&g, 0, 0b1010), 74);
}

#[test]
fn short_block_scale_factors() {
    // scalefac_compress 4: three bits for the first 18 fields, none for the rest.
    let mut data = [0u8; 8];
    for j in 0..18 {
        put_bits(&mut data, 3 * j, 3, (j % 8) as u32);
    }
    let g = granule(4, true, 2, false);
    assert_eq!(part2_length(&g, 0, 0), 54);
    let mut r = BitReader::new(&data, 0, 8);
    let sf = read_scale_factors(&mut r, &g, 0, 0, &zero()).unwrap();
    assert_eq!(r.position(), 54);
    for j in 0..39 {
        assert_eq!(sf.short[j], if j < 18 { (j % 8) as u32 } else { 0 });
    }
    assert!(sf.long.iter().all(|&v| v == 0));
}

#[test]
fn mixed_block_scale_factors() {
    // scalefac_compress 9: two bits for every field; 8 long bands, then short bands 3 to 11.
    let mut data = [0u8; 9];
    for j in 0..35 {
        put_bits(&mut data, 2 * j, 2, (j % 4) as u32);
    }
    let g = granule(9, true, 2, true);
    assert_eq!(part2_length(&g, 0, 0), 70);
    let mut r = BitReader::new(&data, 0, 9);
    let sf = read_scale_factors(&mut r, &g, 0, 0, &zero()).unwrap();
    assert_eq!(r.position(), 70);
    for k in 0..8 {
        assert_eq!(sf.long[k], (k % 4) as u32);
    }
    for i in 0..39 {
        let expect = if (9..36).contains(&i) { ((i - 1) % 4) as u32 } else { 0 };
        assert_eq!(sf.short[i], expect);
    }
}

#[test]
fn too_few_bits_reads_nothing() {
    let data = [0xFFu8; 9];
    let g = granule(15, false, 0, false);
    let mut r = BitReader::new(&data, 0, 9);
    assert!(read_scale_factors(&mut r, &g, 0, 0, &zero()).is_none());
    assert_eq!(r.position(), 0);
}

/// Writes the `j`-th scale factor as `j` cut to its width, partition by partition, and
/// returns the values in the order sent and the bits used.
fn lsf_fill(data: &mut [u8], slens: [usize; 4], counts: [usize; 4]) -> (Vec<u32>, usize) {
    let mut pos = 0;
    let mut values = Vec::new();
    let mut j = 0u32;
    for p in 0..4 {
        for _ in 0..counts[p] {
            let w = slens[p];
            let v = if w == 0 { 0 } else { j % (1 << w) };
            put_bits(data, pos, w, v);
            pos += w;
            values.push(v);
            j += 1;
        }
    }
    (values, pos)
}

#[test]
fn lsf_long_block_scale_factors() {
    // scalefac_compress 214 = 16 * (5 * 2 + 3) + 4 * 1 + 2: widths 2, 3, 1, 2.
    let mut data = [0u8; 16];
    let (values, bits) = lsf_fill(&mut data, [2, 3, 1, 2], [6, 5, 5, 5]);
    assert_eq!(bits, 42);
    let g = granule(214, false, 0, false);
    let mut r = BitReader::new(&data, 0, 16);
    let sf = read_scale_factors_lsf(&mut r, &g, false).unwrap();
    assert_eq!(r.position(), 42);
    for k in 0..21 {
        assert_eq!(sf.long[k], values[k]);
    }
    assert_eq!(sf.long[21], 0);
    assert!(sf.short.iter().all(|&v| v == 0));
    assert!(!lsf_preflag(214, false));
}

#[test]
fn lsf_mixed_block_scale_factors() {
    // scalefac_compress 507: widths 7 / 3 = 2 and 7 % 3 = 1; preflag is set.
    let mut data = [0u8; 16];
    let (values, bits) = lsf_fill(&mut data, [2, 1, 0, 0], [15, 18, 0, 0]);
    assert_eq!(bits, 48);
    let g = granule(507, true, 2, true);
    let mut r = BitReader::new(&data, 0, 16);
    let sf = read_scale_factors_lsf(&mut r, &g, false).unwrap();
    assert_eq!(r.position(), 48);
    for k in 0..22 {
        assert_eq!(sf.long[k], if k < 6 { values[k] } else { 0 });
    }
    for i in 0..39 {
        assert_eq!(sf.short[i], if (9..36).contains(&i) { values[i - 3] } else { 0 });
    }
    assert!(lsf_preflag(507, false));
    assert!(!lsf_preflag(507, true));
}

#[test]
fn lsf_intensity_right_short_scale_factors() {
    // Right channel of intensity stereo, scalefac_compress 102: 51 = 36 + 6 * 2 + 3.
    let mut data = [0u8; 16];
    let (values, bits) = lsf_fill(&mut data, [1, 2, 3, 0], [12, 12, 12, 0]);
    assert_eq!(bits, 72);
    let g = granule(102, true, 2, false);
    let mut r = BitReader::new(&data, 0, 16);
    let sf = read_scale_factors_lsf(&mut r, &g, true).unwrap();
    assert_eq!(r.position(), 72);
    for i in 0..39 {
        assert_eq!(sf.short[i], if i < 36 { values[i] } else { 0 });
    }
    // The same value on another channel selects the first table: widths 1, 1, 1, 2.
    let mut r = BitReader::new(&data, 0, 16);
    read_scale_factors_lsf(&mut r, &g, false).unwrap();
    assert_eq!(r.position(), 9 + 9 + 9 + 18);
}

#[test]
fn lsf_too_few_bits_reads_nothing() {
    let data = [0xFFu8; 5];
    let g = granule(214, false, 0, false);
    let mut r = BitReader::new(&data, 0, 5);
    assert!(read_scale_factors_lsf(&mut r, &g, false).is_none());
    assert_eq!(r.position(), 0);
}
