use nanomp3::bits::BitReader;
use nanomp3::header::{parse_header, MpegVersion};
use nanomp3::sync::{find_frame, SyncResult};
use nanomp3::{Channels, Decoder, FrameInfo};

/// Writes the `n`-bit value `v` at bit `pos` of `buf`, most significant bit first.
fn put_bits(buf: &mut [u8], pos: usize, n: usize, v: u32) {
    for k in 0..n {
        let bit = (v >> (n - 1 - k)) & 1;
        let p = pos + k;
        if bit == 1 {
            buf[p / 8] |= 0x80 >> (p % 8);
        } else {
            buf[p / 8] &= !(0x80u8 >> (p % 8));
        }
    }
}

/// A frame of `len` bytes with header bytes `b1 b2 b3`, all-zero side information and
/// main data filled with `fill`.
fn frame(b1: u8, b2: u8, b3: u8, len: usize, fill: u8) -> Vec<u8> {
    let mut f = vec![fill; len];
    f[0] = 0xFF;
    f[1] = b1;
    f[2] = b2;
    f[3] = b3;
    let side_end = 4 + side_len(b1, b3);
    for b in &mut f[4..side_end] {
        *b = 0;
    }
    f
}

fn side_len(b1: u8, b3: u8) -> usize {
    let lsf = (b1 >> 3) & 3 != 3;
    let mono = b3 >> 6 == 3;
    match (lsf, mono) {
        (true, true) => 9,
        (true, false) => 17,
        (false, true) => 17,
        (false, false) => 32,
    }
}

/// MPEG-1 Layer III, 128 kbit/s, 44100 Hz, single channel: 417 bytes.
fn mono_44100(fill: u8) -> Vec<u8> {
    frame(0xFB, 0x90, 0xC0, 417, fill)
}

/// Pseudo-random bytes from a fixed seed.
fn noise(n: usize, seed: u32) -> Vec<u8> {
    let mut x = seed;
    (0..n)
        .map(|_| {
            x = x.wrapping_mul(1664525).wrapping_add(1013904223);
            (x >> 24) as u8
        })
        .collect()
}

fn standard_rate(hz: u32) -> bool {
    [44100, 48000, 32000, 22050, 24000, 16000, 11025, 12000, 8000].contains(&hz)
}

#[test]
fn channels_num() {
    assert_eq!(Channels::Mono.num(), 1);
    assert_eq!(Channels::Stereo.num(), 2);
}

#[test]
fn silent_mono_frame_decodes() {
    let mut d = Decoder::new();
    let f = mono_44100(0);
    let (n, info) = d.decode(&f);
    assert_eq!(n, 417);
    assert_eq!(
        info,
        Some(FrameInfo { samples_produced: 1152, channels: Channels::Mono, sample_rate: 44100, bitrate: 128 })
    );
    assert_eq!(info.unwrap().channels.num(), 1);
}

#[test]
fn stereo_48000_frame_decodes() {
    let mut d = Decoder::default();
    let f = frame(0xFB, 0x94, 0x00, 384, 0x11);
    let (n, info) = d.decode(&f);
    assert_eq!(n, 384);
    assert_eq!(
        info,
        Some(FrameInfo { samples_produced: 1152, channels: Channels::Stereo, sample_rate: 48000, bitrate: 128 })
    );
}

#[test]
fn mpeg2_frame_decodes() {
    let mut d = Decoder::new();
    let f = frame(0xF3, 0x80, 0xC0, 208, 0);
    let (n, info) = d.decode(&f);
    assert_eq!(n, 208);
    assert_eq!(
        info,
        Some(FrameInfo { samples_produced: 576, channels: Channels::Mono, sample_rate: 22050, bitrate: 64 })
    );
}

#[test]
fn mpeg25_frame_decodes() {
    let mut d = Decoder::new();
    let f = frame(0xE3, 0x18, 0x40, 72, 0);
    let (n, info) = d.decode(&f);
    assert_eq!(n, 72);
    assert_eq!(
        info,
        Some(FrameInfo { samples_produced: 576, channels: Channels::Stereo, sample_rate: 8000, bitrate: 8 })
    );
}

#[test]
fn padding_adds_a_byte() {
    let mut d = Decoder::new();
    let f = frame(0xFB, 0x92, 0xC0, 418, 0);
    assert_eq!(d.decode(&f).0, 418);
}

#[test]
fn crc_moves_side_info() {
    // With a CRC the side information starts at byte 6; a nonzero look-back there makes the
    // frame undecodable for a new decoder.
    let mut f = frame(0xFA, 0x90, 0xC0, 417, 0);
    put_bits(&mut f, 6 * 8, 9, 3);
    let mut d = Decoder::new();
    assert_eq!(d.decode(&f), (0, None));
}

#[test]
fn empty_window_consumes_nothing() {
    let mut d = Decoder::new();
    assert_eq!(d.decode(&[]), (0, None));
    assert_eq!(d.decode(&[0xFF, 0xFB, 0x90]), (0, None));
}

#[test]
fn incomplete_frame_waits_for_more() {
    let mut d = Decoder::new();
    let f = mono_44100(0);
    assert_eq!(d.decode(&f[..416]), (0, None));
    assert_eq!(find_frame(&f[..416]), SyncResult::Incomplete { offset: 0 });
    assert_eq!(d.decode(&f).0, 417);
}

#[test]
fn reserved_fields_are_rejected() {
    let mut d = Decoder::new();
    for (b1, b2) in [(0xFB, 0xF0), (0xFB, 0x0C), (0xFB, 0x00), (0xFF, 0x90), (0xEB, 0x90)] {
        let f = frame(b1, b2, 0xC0, 417, 0);
        assert_eq!(d.decode(&f), (0, None));
    }
}

#[test]
fn leading_garbage_is_skipped() {
    let mut d = Decoder::new();
    let mut w = vec![0u8; 10];
    w.extend(mono_44100(0));
    let (n, info) = d.decode(&w);
    assert_eq!(n, 427);
    assert_eq!(info.unwrap().sample_rate, 44100);
}

#[test]
fn not_found_reports_skip() {
    assert_eq!(find_frame(&[0u8; 100]), SyncResult::NotFound { skip: 97 });
    assert_eq!(find_frame(&[0u8; 2]), SyncResult::NotFound { skip: 0 });
    let mut w = vec![1u8; 5];
    w.extend(mono_44100(0));
    assert_eq!(find_frame(&w), SyncResult::Found { offset: 5, len: 417 });
}

#[test]
fn mismatched_next_header_rejects_candidate() {
    let mut w = mono_44100(0);
    w.extend(frame(0xFB, 0x94, 0xC0, 384, 0));
    let mut d = Decoder::new();
    let (n, info) = d.decode(&w);
    assert_eq!(n, 417 + 384);
    assert_eq!(info.unwrap().sample_rate, 48000);
}

#[test]
fn damaged_side_info_drops_frame() {
    let mut f = mono_44100(0);
    // big_values of the first granule: 9 bits after part2_3_length, at bit 30 of the side info.
    put_bits(&mut f, 4 * 8 + 30, 9, 300);
    let mut d = Decoder::new();
    assert_eq!(d.decode(&f), (0, None));
    assert_eq!(d.main_data().len(), 0);
}

#[test]
fn window_switching_needs_block_type() {
    let mut f = mono_44100(0);
    // window_switching of the first granule stands at bit 18 + 33 of the side info.
    put_bits(&mut f, 4 * 8 + 51, 1, 1);
    let mut d = Decoder::new();
    assert_eq!(d.decode(&f), (0, None));
    put_bits(&mut f, 4 * 8 + 52, 2, 2);
    let mut d = Decoder::new();
    assert_eq!(d.decode(&f).1.unwrap().samples_produced, 1152);
}

#[test]
fn fresh_decoders_agree() {
    let mut stream = Vec::new();
    for k in 0..4 {
        stream.extend(mono_44100(k as u8));
    }
    stream.extend(noise(700, 7));
    let mut a = Decoder::new();
    let mut b = Decoder::new();
    let mut pos = 0;
    loop {
        let ra = a.decode(&stream[pos..]);
        let rb = b.decode(&stream[pos..]);
        assert_eq!(ra, rb);
        assert_eq!(a.main_data(), b.main_data());
        if ra.0 == 0 {
            break;
        }
        pos += ra.0;
    }
}

#[test]
fn consumed_never_exceeds_window() {
    for seed in 0..20 {
        let w = noise(3000, seed);
        let mut d = Decoder::new();
        let mut pos = 0;
        while pos < w.len() {
            let (n, info) = d.decode(&w[pos..]);
            assert!(n <= w.len() - pos);
            if n == 0 {
                assert!(info.is_none());
            }
            if let Some(fi) = info {
                assert!(n > 0);
                assert!(standard_rate(fi.sample_rate));
            }
            if n == 0 {
                break;
            }
            pos += n;
        }
    }
}

#[test]
fn noise_with_planted_syncs_stays_in_range() {
    let mut w = noise(16384, 99);
    for k in (0..16000).step_by(997) {
        w[k] = 0xFF;
        w[k + 1] = 0xFB;
    }
    let mut d = Decoder::new();
    let mut pos = 0;
    let mut calls = 0;
    while pos < w.len() && calls < 1000 {
        let (n, info) = d.decode(&w[pos..]);
        assert!(n <= w.len() - pos);
        if let Some(fi) = info {
            assert!(standard_rate(fi.sample_rate));
            assert!(fi.samples_produced == 576 || fi.samples_produced == 1152);
        }
        if n == 0 {
            break;
        }
        pos += n;
        calls += 1;
    }
}

#[test]
fn stream_offsets_tile_the_stream() {
    let mut stream = vec![0x00u8, 0x12, 0x34];
    let lead = stream.len();
    for k in 0..5 {
        stream.extend(mono_44100(0x20 + k));
    }
    let mut d = Decoder::new();
    let mut pos = 0;
    let mut sizes = Vec::new();
    loop {
        let (n, info) = d.decode(&stream[pos..]);
        if n == 0 {
            assert!(info.is_none());
            break;
        }
        assert!(info.is_some());
        sizes.push(n);
        pos += n;
    }
    assert_eq!(pos, stream.len());
    assert_eq!(sizes, vec![lead + 417, 417, 417, 417, 417]);
}

#[test]
fn look_back_before_window_reports_no_frame() {
    let mut f = mono_44100(0);
    put_bits(&mut f, 4 * 8, 9, 1);
    let mut d = Decoder::new();
    assert_eq!(d.decode(&f), (0, None));
    // The reservoir now holds that frame's main data: the same look-back is satisfied.
    assert_eq!(d.decode(&f).1.unwrap().sample_rate, 44100);
}

#[test]
fn reservoir_keeps_bytes_after_granule_data() {
    // First frame: 396 bytes of main data, 800 bits of granule data in its first granule.
    let mut f1 = mono_44100(0xAB);
    put_bits(&mut f1, 4 * 8 + 18, 12, 800);
    let mut d = Decoder::new();
    assert_eq!(d.decode(&f1).0, 417);
    assert_eq!(d.main_data().len(), 396);
    assert_eq!(d.main_data()[0], 0xAB);

    // 296 bytes are left: a look-back of 296 is met, 297 is not.
    let mut f2 = mono_44100(0xCD);
    put_bits(&mut f2, 4 * 8, 9, 296);
    let mut d2 = Decoder::new();
    d2.decode(&f1);
    assert!(d2.decode(&f2).1.is_some());
    assert_eq!(d2.main_data().len(), 296 + 396);
    assert_eq!(d2.main_data()[295], 0xAB);
    assert_eq!(d2.main_data()[296], 0xCD);

    let mut f3 = mono_44100(0xCD);
    put_bits(&mut f3, 4 * 8, 9, 297);
    let mut d3 = Decoder::new();
    d3.decode(&f1);
    assert_eq!(d3.decode(&f3), (0, None));
}

#[test]
fn reservoir_holds_at_most_511_bytes() {
    let mut d = Decoder::new();
    d.decode(&mono_44100(1));
    // Looking back over all of the first frame's main data keeps 396 + 396 bytes, of which
    // the reservoir holds the last 511.
    let mut f2 = mono_44100(2);
    put_bits(&mut f2, 4 * 8, 9, 396);
    assert!(d.decode(&f2).1.is_some());
    let mut f = mono_44100(3);
    put_bits(&mut f, 4 * 8, 9, 511);
    assert!(d.decode(&f).1.is_some());
    assert_eq!(d.main_data().len(), 511 + 396);
    assert_eq!(d.main_data()[114], 1);
    assert_eq!(d.main_data()[115], 2);
    assert_eq!(d.main_data()[511], 3);
    put_bits(&mut f, 4 * 8, 9, 396);
    let mut f4 = mono_44100(4);
    put_bits(&mut f4, 4 * 8, 9, 396);
    assert!(d.decode(&f4).1.is_some());
}

#[test]
fn bit_reader_reads_fields() {
    let data = [0b1010_1100u8, 0xFF, 0x00];
    let mut r = BitReader::new(&data, 0, 3);
    assert_eq!(r.read(3), 5);
    assert_eq!(r.read(6), 0b011001);
    assert_eq!(r.position(), 9);
    assert_eq!(r.remaining(), 15);
    assert_eq!(r.read(15), 0b111_1111_0000_0000);
    let mut r = BitReader::new(&data, 1, 2);
    assert_eq!(r.read(8), 0xFF);
}

#[test]
fn header_fields_and_lengths() {
    let h = parse_header(0xFB, 0x92, 0xC0);
    assert_eq!(h.version, MpegVersion::Mpeg1);
    assert!(!h.crc);
    assert!(h.padding);
    assert_eq!(h.bitrate_kbps(), 128);
    assert_eq!(h.sample_rate_hz(), 44100);
    assert_eq!(h.frame_len(), 418);
    assert_eq!(h.side_info_len(), 17);
    let h = parse_header(0xFA, 0xE8, 0x00);
    assert!(h.crc);
    assert_eq!(h.header_len(), 6);
    assert_eq!(h.bitrate_kbps(), 320);
    assert_eq!(h.sample_rate_hz(), 32000);
    assert_eq!(h.frame_len(), 1440);
    assert_eq!(h.side_info_len(), 32);
    let h = parse_header(0xE2, 0xE4, 0xC0);
    assert_eq!(h.version, MpegVersion::Mpeg25);
    assert_eq!(h.sample_rate_hz(), 12000);
    assert_eq!(h.bitrate_kbps(), 160);
    assert_eq!(h.frame_len(), 960);
    assert_eq!(h.samples_per_frame(), 576);
}

#[test]
fn decoder_keeps_side_info() {
    // Stereo MPEG-1: main_data_begin 9 bits, private 3, scfsi 4 + 4, then 59-bit records.
    let mut f = frame(0xFB, 0x94, 0x00, 384, 0);
    put_bits(&mut f, 32 + 12, 4, 0b0110);
    put_bits(&mut f, 32 + 16, 4, 0b1001);
    let rec = |k: usize| 32 + 20 + 59 * k;
    put_bits(&mut f, rec(3), 12, 777);
    put_bits(&mut f, rec(3) + 12, 9, 288);
    put_bits(&mut f, rec(3) + 21, 8, 210);
    put_bits(&mut f, rec(3) + 29, 4, 11);
    put_bits(&mut f, rec(1) + 33, 1, 1);
    put_bits(&mut f, rec(1) + 34, 2, 3);
    put_bits(&mut f, rec(1) + 36, 1, 1);
    put_bits(&mut f, rec(1) + 37, 5, 17);
    put_bits(&mut f, rec(1) + 47, 3, 5);
    put_bits(&mut f, rec(1) + 56, 1, 1);
    let mut d = Decoder::new();
    assert!(d.decode(&f).1.is_some());
    let si = d.side_info();
    assert_eq!(si.main_data_begin, 0);
    assert_eq!(si.granule_count, 2);
    assert_eq!(si.channel_count, 2);
    assert_eq!(si.scfsi, [0b0110, 0b1001]);
    let g = si.granules[3];
    assert_eq!((g.part2_3_length, g.big_values, g.global_gain, g.scalefac_compress), (777, 288, 210, 11));
    assert!(!g.window_switching);
    let g = si.granules[1];
    assert!(g.window_switching && g.mixed_block && g.preflag);
    assert_eq!(g.block_type, 3);
    assert_eq!(g.table_select, [17, 0, 0]);
    assert_eq!(g.subblock_gain, [5, 0, 0]);
    // 777 bits of granule data leave 348 - 98 = 250 bytes in the reservoir.
    let mut next = frame(0xFB, 0x94, 0x00, 384, 0);
    put_bits(&mut next, 32, 9, 250);
    assert!(d.decode(&next).1.is_some());
    let mut other = Decoder::new();
    other.decode(&f);
    put_bits(&mut next, 32, 9, 251);
    assert_eq!(other.decode(&next), (0, None));
}

#[test]
fn scale_factors_from_decoded_frame() {
    // Mono MPEG-1 frame whose first granule sends four-bit scale factors (compress 14).
    let mut f = mono_44100(0);
    put_bits(&mut f, 32 + 18, 12, 11 * 4 + 10 * 2);
    put_bits(&mut f, 32 + 18 + 29, 4, 14);
    for k in 0..11 {
        put_bits(&mut f, 21 * 8 + 4 * k, 4, (k + 1) as u32);
    }
    let mut d = Decoder::new();
    assert!(d.decode(&f).1.is_some());
    let si = d.side_info();
    let md = d.main_data();
    let mut r = BitReader::new(md, 0, md.len());
    let prev = nanomp3::scale_factors::ScaleFactors { long: [0; 22], short: [0; 39] };
    let sf = nanomp3::scale_factors::read_scale_factors(&mut r, &si.granules[0], 0, si.scfsi[0], &prev)
        .unwrap();
    assert_eq!(r.position(), 64);
    for k in 0..11 {
        assert_eq!(sf.long[k], (k + 1) as u32);
    }
}
