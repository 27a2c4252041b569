use vstd::prelude::*;

verus! {

/// The MPEG audio version of a frame.
#[derive(Clone, Copy, Debug, PartialEq, Eq, Structural)]
pub enum MpegVersion {
    Mpeg1,
    Mpeg2,
    Mpeg25,
}

/// The fields of a Layer III frame header. Indices are kept as transmitted.
#[derive(Clone, Copy, Debug, PartialEq, Eq, Structural)]
pub struct FrameHeader {
    pub version: MpegVersion,
    /// A 16-bit CRC follows the four header bytes.
    pub crc: bool,
    pub bitrate_index: u8,
    pub sample_rate_index: u8,
    pub padding: bool,
    /// 0 stereo, 1 joint stereo, 2 dual channel, 3 single channel.
    pub channel_mode: u8,
    pub mode_extension: u8,
    pub emphasis: u8,
}

/// Whether three bytes start a Layer III header with no reserved or free-format field:
/// eleven sync bits, a known version, layer III, a bitrate index in `1 ..= 14` and a
/// sample-rate index in `0 ..= 2`.
pub open spec fn header_valid(b0: u8, b1: u8, b2: u8) -> bool {
    &&& b0 == 0xFF
    &&& b1 & 0xE0u8 == 0xE0u8
    &&& (b1 >> 3u8) & 3u8 != 1
    &&& (b1 >> 1u8) & 3u8 == 1
    &&& b2 >> 4u8 != 0
    &&& b2 >> 4u8 != 15
    &&& (b2 >> 2u8) & 3u8 != 3
}

pub open spec fn version_of(b1: u8) -> MpegVersion {
    let v = (b1 >> 3u8) & 3u8;
    if v == 3 {
        MpegVersion::Mpeg1
    } else if v == 2 {
        MpegVersion::Mpeg2
    } else {
        MpegVersion::Mpeg25
    }
}

/// The header held by bytes 1 to 3 of a frame (byte 0 is all sync bits).
pub open spec fn header_of(b1: u8, b2: u8, b3: u8) -> FrameHeader {
    FrameHeader {
        version: version_of(b1),
        crc: b1 & 1u8 == 0,
        bitrate_index: b2 >> 4u8,
        sample_rate_index: (b2 >> 2u8) & 3u8,
        padding: (b2 >> 1u8) & 1u8 == 1,
        channel_mode: b3 >> 6u8,
        mode_extension: (b3 >> 4u8) & 3u8,
        emphasis: b3 & 3u8,
    }
}

/// A valid header starts at position `i` of `w`.
pub open spec fn valid_header_at(w: Seq<u8>, i: int) -> bool {
    &&& 0 <= i
    &&& i + 4 <= w.len()
    &&& header_valid(w[i], w[i + 1], w[i + 2])
}

pub open spec fn header_at(w: Seq<u8>, i: int) -> FrameHeader {
    header_of(w[i + 1], w[i + 2], w[i + 3])
}

/// Layer III bitrates in kbit/s, for MPEG-1 and for the lower sampling rates of
/// MPEG-2 and MPEG-2.5.
pub open spec fn bitrate_table(lsf: bool, index: u8) -> u32 {
    if !lsf {
        match index {
            1 => 32u32,
            2 => 40,
            3 => 48,
            4 => 56,
            5 => 64,
            6 => 80,
            7 => 96,
            8 => 112,
            9 => 128,
            10 => 160,
            11 => 192,
            12 => 224,
            13 => 256,
            14 => 320,
            _ => 0,
        }
    } else {
        match index {
            1 => 8u32,
            2 => 16,
            3 => 24,
            4 => 32,
            5 => 40,
            6 => 48,
            7 => 56,
            8 => 64,
            9 => 80,
            10 => 96,
            11 => 112,
            12 => 128,
            13 => 144,
            14 => 160,
            _ => 0,
        }
    }
}

/// Sampling rates in Hz by version and index.
pub open spec fn sample_rate_table(version: MpegVersion, index: u8) -> u32 {
    let base: u32 = match index {
        0 => 44100u32,
        1 => 48000,
        _ => 32000,
    };
    match version {
        MpegVersion::Mpeg1 => base,
        MpegVersion::Mpeg2 => base / 2,
        MpegVersion::Mpeg25 => base / 4,
    }
}

/// The sampling rates that a valid header can announce.
pub open spec fn is_standard_rate(hz: u32) -> bool {
    hz == 44100 || hz == 48000 || hz == 32000 || hz == 22050 || hz == 24000 || hz == 16000
        || hz == 11025 || hz == 12000 || hz == 8000
}

impl FrameHeader {
    /// The fields lie in the ranges of a valid header.
    pub open spec fn wf(self) -> bool {
        &&& 1 <= self.bitrate_index <= 14
        &&& self.sample_rate_index <= 2
        &&& self.channel_mode <= 3
        &&& self.mode_extension <= 3
        &&& self.emphasis <= 3
    }

    /// MPEG-2 and MPEG-2.5 frames carry one granule and narrower side information.
    pub open spec fn lsf(self) -> bool {
        self.version != MpegVersion::Mpeg1
    }

    pub open spec fn bitrate_spec(self) -> u32 {
        bitrate_table(self.lsf(), self.bitrate_index)
    }

    pub open spec fn sample_rate_spec(self) -> u32 {
        sample_rate_table(self.version, self.sample_rate_index)
    }

    pub open spec fn mono(self) -> bool {
        self.channel_mode == 3
    }

    pub open spec fn channel_count(self) -> nat {
        if self.mono() {
            1
        } else {
            2
        }
    }

    /// PCM samples per channel that the frame decodes to.
    pub open spec fn samples_spec(self) -> nat {
        if self.lsf() {
            576
        } else {
            1152
        }
    }

    /// Bytes of the header, with its CRC if present.
    pub open spec fn header_len_spec(self) -> nat {
        if self.crc {
            6
        } else {
            4
        }
    }

    pub open spec fn side_info_len_spec(self) -> nat {
        if self.lsf() {
            if self.mono() {
                9
            } else {
                17
            }
        } else {
            if self.mono() {
                17
            } else {
                32
            }
        }
    }

    /// The length in bytes of the whole frame: 144 (72 with the lower sampling rates) times
    /// the bitrate over the sampling rate, plus the padding byte.
    pub open spec fn frame_len_spec(self) -> nat {
        let factor: nat = if self.lsf() {
            72
        } else {
            144
        };
        (factor * self.bitrate_spec() * 1000) as nat / (self.sample_rate_spec() as nat) + (
        if self.padding {
            1nat
        } else {
            0nat
        })
    }

    pub fn is_lsf(&self) -> (r: bool)
        ensures
            r == self.lsf(),
    {
        match self.version {
            MpegVersion::Mpeg1 => false,
            _ => true,
        }
    }

    pub fn is_mono(&self) -> (r: bool)
        ensures
            r == self.mono(),
    {
        self.channel_mode == 3
    }

    /// The bitrate in kbit/s.
    pub fn bitrate_kbps(&self) -> (r: u32)
        requires
            self.wf(),
        ensures
            r == self.bitrate_spec(),
            8 <= r <= 320,
            self.lsf() ==> r <= 160,
    {
        let lsf = self.is_lsf();
        if !lsf {
            match self.bitrate_index {
                1 => 32u32,
                2 => 40,
                3 => 48,
                4 => 56,
                5 => 64,
                6 => 80,
                7 => 96,
                8 => 112,
                9 => 128,
                10 => 160,
                11 => 192,
                12 => 224,
                13 => 256,
                _ => 320,
            }
        } else {
            match self.bitrate_index {
                1 => 8u32,
                2 => 16,
                3 => 24,
                4 => 32,
                5 => 40,
                6 => 48,
                7 => 56,
                8 => 64,
                9 => 80,
                10 => 96,
                11 => 112,
                12 => 128,
                13 => 144,
                _ => 160,
            }
        }
    }

    /// The sampling rate in Hz.
    pub fn sample_rate_hz(&self) -> (r: u32)
        requires
            self.wf(),
        ensures
            r == self.sample_rate_spec(),
            is_standard_rate(r),
            8000 <= r <= 48000,
            !self.lsf() ==> r >= 32000,
    {
        let base: u32 = match self.sample_rate_index {
            0 => 44100u32,
            1 => 48000,
            _ => 32000,
        };
        match self.version {
            MpegVersion::Mpeg1 => base,
            MpegVersion::Mpeg2 => base / 2,
            MpegVersion::Mpeg25 => base / 4,
        }
    }

    pub fn samples_per_frame(&self) -> (r: usize)
        ensures
            r == self.samples_spec(),
    {
        if self.is_lsf() {
            576
        } else {
            1152
        }
    }

    pub fn header_len(&self) -> (r: usize)
        ensures
            r == self.header_len_spec(),
    {
        if self.crc {
            6
        } else {
            4
        }
    }

    pub fn side_info_len(&self) -> (r: usize)
        ensures
            r == self.side_info_len_spec(),
    {
        if self.is_lsf() {
            if self.is_mono() {
                9
            } else {
                17
            }
        } else {
            if self.is_mono() {
                17
            } else {
                32
            }
        }
    }

    /// The length in bytes of the whole frame, padding included.
    pub fn frame_len(&self) -> (r: usize)
        requires
            self.wf(),
        ensures
            r == self.frame_len_spec(),
            r <= 1441,
    {
        let factor: u32 = if self.is_lsf() {
            72
        } else {
            144
        };
        let kbps = self.bitrate_kbps();
        let hz = self.sample_rate_hz();
        assert(factor * kbps * 1000 <= 144 * 320 * 1000) by (nonlinear_arith)
            requires
                factor <= 144,
                kbps <= 320,
        ;
        let bits = factor * kbps * 1000;
        let q = bits / hz;
        assert(bits <= 1440 * hz) by (nonlinear_arith)
            requires
                bits == factor * kbps * 1000,
                factor == 72 ==> kbps <= 160 && hz >= 8000,
                factor == 144 ==> kbps <= 320 && hz >= 32000,
                factor == 72 || factor == 144,
        ;
        assert(q <= 1440) by (nonlinear_arith)
            requires
                hz > 0,
                q == bits / hz,
                bits <= 1440 * hz,
        ;
        let pad: usize = if self.padding {
            1
        } else {
            0
        };
        q as usize + pad
    }
}

/// The fields of a valid header lie in range.
pub proof fn lemma_valid_header_wf(b1: u8, b2: u8, b3: u8)
    requires
        header_valid(0xFF, b1, b2),
    ensures
        header_of(b1, b2, b3).wf(),
{
    assert((b2 >> 4u8) <= 15 && (b2 >> 2u8) & 3u8 <= 3 && b3 >> 6u8 <= 3 && (b3 >> 4u8) & 3u8 <= 3
        && b3 & 3u8 <= 3) by (bit_vector);
}

/// A well-formed header announces a standard sampling rate and a frame of at least 12 bytes.
pub proof fn lemma_header_ranges(h: FrameHeader)
    requires
        h.wf(),
    ensures
        is_standard_rate(h.sample_rate_spec()),
        8000 <= h.sample_rate_spec() <= 48000,
        8 <= h.bitrate_spec() <= 320,
        h.frame_len_spec() >= 12,
{
    let factor: nat = if h.lsf() {
        72
    } else {
        144
    };
    let kbps = h.bitrate_spec() as nat;
    let hz = h.sample_rate_spec() as nat;
    assert(factor * kbps * 1000 >= 576000) by (nonlinear_arith)
        requires
            factor >= 72,
            kbps >= 8,
    ;
    assert((factor * kbps * 1000) as nat / hz >= 12) by (nonlinear_arith)
        requires
            factor * kbps * 1000 >= 576000,
            0 < hz <= 48000,
    ;
}

/// Tests whether `b0 b1 b2` start a valid header.
pub fn is_valid_header(b0: u8, b1: u8, b2: u8) -> (r: bool)
    ensures
        r == header_valid(b0, b1, b2),
{
    b0 == 0xFF && b1 & 0xE0u8 == 0xE0u8 && (b1 >> 3u8) & 3u8 != 1 && (b1 >> 1u8) & 3u8 == 1 && b2
        >> 4u8 != 0 && b2 >> 4u8 != 15 && (b2 >> 2u8) & 3u8 != 3
}

/// Decodes the header fields from bytes 1 to 3 of a frame.
pub fn parse_header(b1: u8, b2: u8, b3: u8) -> (r: FrameHeader)
    ensures
        r == header_of(b1, b2, b3),
        header_valid(0xFF, b1, b2) ==> r.wf(),
{
    let v = (b1 >> 3u8) & 3u8;
    let version = if v == 3 {
        MpegVersion::Mpeg1
    } else if v == 2 {
        MpegVersion::Mpeg2
    } else {
        MpegVersion::Mpeg25
    };
    assert((b2 >> 4u8) <= 15 && (b2 >> 2u8) & 3u8 <= 3 && b3 >> 6u8 <= 3 && (b3 >> 4u8) & 3u8 <= 3
        && b3 & 3u8 <= 3) by (bit_vector);
    FrameHeader {
        version,
        crc: b1 & 1u8 == 0,
        bitrate_index: b2 >> 4u8,
        sample_rate_index: (b2 >> 2u8) & 3u8,
        padding: (b2 >> 1u8) & 1u8 == 1,
        channel_mode: b3 >> 6u8,
        mode_extension: (b3 >> 4u8) & 3u8,
        emphasis: b3 & 3u8,
    }
}

} // verus!
