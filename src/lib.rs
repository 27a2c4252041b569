//! Frame-level decoding of MPEG-1, MPEG-2 and MPEG-2.5 Layer III audio without allocation
//! and without buffering input: frame synchronisation, header and side-information
//! parsing, the bit reservoir that carries main data across frames, and scale-factor
//! decoding. A decoder reports for each frame the bytes consumed, the channel layout, the
//! sampling rate and the bitrate, and holds the frame's assembled main data. The spectral
//! stages that turn granule data into PCM samples (Huffman decoding, requantization,
//! stereo processing, inverse transforms, synthesis) are not part of this crate.
use vstd::prelude::*;
use vstd::slice::slice_subrange;

pub mod bits;
pub mod header;
pub mod sync;
pub mod side_info;
pub mod reservoir;
pub mod stream;
pub mod scale_factors;
pub mod requantize;

use crate::header::{header_at, parse_header, FrameHeader};
use crate::reservoir::{keep_tail, BitReservoir, MAIN_DATA_CAPACITY};
use crate::side_info::{
    field, granule_bits_from, granule_data_bits, read_side_info, side_info_matches, side_info_ok,
    SideInfo,
};
use crate::sync::{find_frame, lemma_sync_in_window, sync_spec, SyncResult};

verus! {

/// The length of a PCM buffer that holds any frame: 1152 samples for each of two channels.
pub const MAX_SAMPLES_PER_FRAME: usize = 1152 * 2;

/// The channel formats that may be encoded in an MP3 frame.
#[derive(Debug, Clone, Copy, PartialEq, Eq, PartialOrd, Ord, Structural)]
pub enum Channels {
    Mono,
    Stereo,
}

impl Channels {
    pub open spec fn count(self) -> u8 {
        match self {
            Channels::Mono => 1,
            Channels::Stereo => 2,
        }
    }

    /// Returns the corresponding number of channels for `self`.
    pub fn num(self) -> (r: u8)
        ensures
            r == self.count(),
    {
        match self {
            Channels::Mono => 1,
            Channels::Stereo => 2,
        }
    }
}

/// Information about the frame decoded by [`Decoder::decode`].
#[derive(Debug, Clone, Copy, PartialEq, Eq, Structural)]
pub struct FrameInfo {
    /// The number of PCM samples produced, per channel.
    pub samples_produced: usize,
    /// The number of channels in this frame.
    pub channels: Channels,
    /// Sample rate of this frame, in Hz.
    pub sample_rate: u32,
    /// The current MP3 bit rate, in kilobits per second.
    pub bitrate: u32,
}

/// The information that a frame with header `h` reports.
pub open spec fn frame_info_spec(h: FrameHeader) -> FrameInfo {
    FrameInfo {
        samples_produced: h.samples_spec() as usize,
        channels: if h.mono() {
            Channels::Mono
        } else {
            Channels::Stereo
        },
        sample_rate: h.sample_rate_spec(),
        bitrate: h.bitrate_spec(),
    }
}

/// Offset of the main data inside a frame with header `h`.
pub open spec fn main_data_offset(h: FrameHeader) -> nat {
    h.header_len_spec() + h.side_info_len_spec()
}

/// The frame that `sync_spec` found in `w` cannot be decoded: its side information does not
/// fit or holds a forbidden value.
pub open spec fn damaged_frame(w: Seq<u8>, offset: int, len: int) -> bool {
    let f = w.subrange(offset, offset + len);
    let h = header_at(w, offset);
    main_data_offset(h) > len || !side_info_ok(f, (h.header_len_spec() * 8) as int, h.lsf(), h.mono())
}

/// The look-back of the frame at `offset` in `w`, in bytes.
pub open spec fn look_back(w: Seq<u8>, offset: int, len: int) -> int {
    let f = w.subrange(offset, offset + len);
    let h = header_at(w, offset);
    field(f, (h.header_len_spec() * 8) as int, if h.lsf() { 8 } else { 9 }) as int
}

/// The bit-reservoir step for an undamaged frame `f` with header `h`, from reservoir `res`:
/// the new reservoir, the frame's main data, and whether the look-back was satisfied.
pub open spec fn frame_step(res: Seq<u8>, f: Seq<u8>, h: FrameHeader) -> (Seq<u8>, Seq<u8>, bool) {
    let base = (h.header_len_spec() * 8) as int;
    let mdb = field(f, base, if h.lsf() { 8 } else { 9 }) as int;
    let ok = mdb <= res.len();
    let take = if ok {
        mdb
    } else {
        res.len() as int
    };
    let data = res.subrange(res.len() - take, res.len() as int) + f.subrange(
        main_data_offset(h) as int,
        f.len() as int,
    );
    let granule_bytes = (granule_bits_from(f, base, h.lsf(), h.mono(), 0) + 7) / 8;
    let used = if !ok {
        0
    } else if granule_bytes < data.len() {
        granule_bytes as int
    } else {
        data.len() as int
    };
    (keep_tail(data.subrange(used, data.len() as int)), data, ok)
}

/// One decoding step from reservoir `res` and main data `md` over window `w`: the new
/// reservoir, the new main data, the bytes consumed and the frame information.
///
/// Bytes are consumed only with a decoded frame: then the count runs to the end of that
/// frame, skipped leading bytes included. Without a complete frame nothing changes. A
/// damaged frame consumes nothing and empties the reservoir. Otherwise the frame's main
/// data is appended to the bytes it looks back to; when the reservoir holds fewer bytes
/// than that look-back, nothing is consumed or reported, and the reservoir keeps all it had
/// and the new main data. After a decoded frame the reservoir keeps what follows its
/// granule data. The reservoir holds at most its last 511 bytes.
pub open spec fn decode_spec(res: Seq<u8>, md: Seq<u8>, w: Seq<u8>) -> (
    Seq<u8>,
    Seq<u8>,
    usize,
    Option<FrameInfo>,
) {
    match sync_spec(w) {
        SyncResult::Found { offset, len } => {
            if damaged_frame(w, offset as int, len as int) {
                (Seq::empty(), Seq::empty(), 0, None)
            } else {
                let (res2, data, ok) = frame_step(
                    res,
                    w.subrange(offset as int, offset + len),
                    header_at(w, offset as int),
                );
                if ok {
                    (res2, data, (offset + len) as usize, Some(frame_info_spec(header_at(w, offset as int))))
                } else {
                    (res2, data, 0, None)
                }
            }
        },
        _ => (res, md, 0, None),
    }
}

/// The core MP3 decoder, with no internal buffering of the input.
pub struct Decoder {
    reservoir: BitReservoir,
    main_data: [u8; 2048],
    main_data_len: usize,
    side_info: SideInfo,
}

impl Decoder {
    pub closed spec fn wf(&self) -> bool {
        &&& self.reservoir.wf()
        &&& self.main_data_len <= MAIN_DATA_CAPACITY
    }

    /// Main-data bytes of earlier frames that the next frame may look back into.
    pub closed spec fn reservoir_view(&self) -> Seq<u8> {
        self.reservoir@
    }

    /// The main data of the last frame: the bytes its granule data begins in, then the
    /// frame's own main data.
    pub closed spec fn main_data_view(&self) -> Seq<u8> {
        self.main_data@.subrange(0, self.main_data_len as int)
    }

    /// The side information of the last frame whose side information was read.
    pub closed spec fn side_info_view(&self) -> SideInfo {
        self.side_info
    }

    /// The side information of the last frame whose side information was read.
    pub fn side_info(&self) -> (r: SideInfo)
        ensures
            r == self.side_info_view(),
    {
        self.side_info
    }

    /// Instantiates a `Decoder`.
    pub fn new() -> (r: Decoder)
        ensures
            r.wf(),
            r.reservoir_view() == Seq::<u8>::empty(),
            r.main_data_view() == Seq::<u8>::empty(),
            r.side_info_view().zeroed(),
    {
        let r = Decoder {
            reservoir: BitReservoir::new(),
            main_data: [0u8; 2048],
            main_data_len: 0,
            side_info: SideInfo::empty(),
        };
        assert(r.main_data_view() =~= Seq::<u8>::empty());
        r
    }

    /// The main data of the last frame, from which its granules are decoded.
    pub fn main_data(&self) -> (r: &[u8])
        requires
            self.wf(),
        ensures
            r@ == self.main_data_view(),
    {
        slice_subrange(self.main_data.as_slice(), 0, self.main_data_len)
    }

    /// Appends the main data of `frame` to the bytes it looks back to, and keeps in the
    /// reservoir what follows its granule data. Returns whether the look-back was satisfied.
    fn merge(&mut self, frame: &[u8], h: &FrameHeader, si: &SideInfo) -> (ok: bool)
        requires
            old(self).wf(),
            h.wf(),
            frame@.len() == h.frame_len_spec(),
            main_data_offset(*h) <= frame@.len(),
            side_info_matches(*si, frame@, (h.header_len_spec() * 8) as int, h.lsf(), h.mono()),
            forall|j: int| 0 <= j < 4 ==> (#[trigger] si.granules[j]).part2_3_length < 4096,
        ensures
            final(self).wf(),
            final(self).side_info_view() == old(self).side_info_view(),
            (final(self).reservoir_view(), final(self).main_data_view(), ok) == frame_step(
                old(self).reservoir_view(),
                frame@,
                *h,
            ),
    {
        let len = h.frame_len();
        let hl = h.header_len();
        let sl = h.side_info_len();
        let lsf = h.is_lsf();
        let mono = h.is_mono();
        let mdb = si.main_data_begin as usize;
        let held = self.reservoir.len();
        proof {
            self.reservoir.lemma_bounded();
        }
        let ok = mdb <= held;
        let take = if ok {
            mdb
        } else {
            held
        };
        let md = slice_subrange(frame, hl + sl, len);
        let n = self.reservoir.assemble(take, md, &mut self.main_data);
        self.main_data_len = n;
        let used = if ok {
            let bits = granule_data_bits(
                si,
                Ghost(frame@),
                Ghost((hl * 8) as int),
                lsf,
                mono,
            );
            let b = (bits + 7) / 8;
            if b < n {
                b
            } else {
                n
            }
        } else {
            0
        };
        self.reservoir.refill(&self.main_data, used, n);
        ok
    }

    fn reset(&mut self)
        ensures
            final(self).wf(),
            final(self).side_info_view() == old(self).side_info_view(),
            final(self).reservoir_view() == Seq::<u8>::empty(),
            final(self).main_data_view() == Seq::<u8>::empty(),
    {
        self.reservoir = BitReservoir::new();
        self.main_data_len = 0;
        assert(self.main_data_view() =~= Seq::<u8>::empty());
    }

    /// Decodes the first frame of `mp3`, returning the number of bytes consumed and
    /// information about the frame.
    ///
    /// Returns `(0, None)` whenever no frame is decoded: when `mp3` holds no complete
    /// frame, so that the caller appends more data before retrying, and when the frame
    /// found is damaged or looks back further than the reservoir reaches.
    pub fn decode(&mut self, mp3: &[u8]) -> (r: (usize, Option<FrameInfo>))
        requires
            old(self).wf(),
        ensures
            final(self).wf(),
            (final(self).reservoir_view(), final(self).main_data_view(), r.0, r.1) == decode_spec(
                old(self).reservoir_view(),
                old(self).main_data_view(),
                mp3@,
            ),
            match sync_spec(mp3@) {
                SyncResult::Found { offset, len } if !damaged_frame(mp3@, offset as int, len as int) => {
                    let h = header_at(mp3@, offset as int);
                    side_info_matches(
                        final(self).side_info_view(),
                        mp3@.subrange(offset as int, offset + len),
                        (h.header_len_spec() * 8) as int,
                        h.lsf(),
                        h.mono(),
                    )
                },
                _ => final(self).side_info_view() == old(self).side_info_view(),
            },
    {
        if mp3.len() < 4 {
            return (0, None);
        }
        proof {
            lemma_sync_in_window(mp3@);
        }
        match find_frame(mp3) {
            SyncResult::Found { offset, len } => {
                let frame = slice_subrange(mp3, offset, offset + len);
                let h = parse_header(mp3[offset + 1], mp3[offset + 2], mp3[offset + 3]);
                assert(h == header_at(mp3@, offset as int));
                let consumed = offset + len;
                let hl = h.header_len();
                let sl = h.side_info_len();
                if hl + sl > len {
                    self.reset();
                    return (0, None);
                }
                match read_side_info(frame, hl, &h) {
                    None => {
                        self.reset();
                        (0, None)
                    },
                    Some(si) => {
                        let ok = self.merge(frame, &h, &si);
                        self.side_info = si;
                        if ok {
                            let info = FrameInfo {
                                samples_produced: h.samples_per_frame(),
                                channels: if h.is_mono() {
                                    Channels::Mono
                                } else {
                                    Channels::Stereo
                                },
                                sample_rate: h.sample_rate_hz(),
                                bitrate: h.bitrate_kbps(),
                            };
                            (consumed, Some(info))
                        } else {
                            (0, None)
                        }
                    },
                }
            },
            _ => (0, None),
        }
    }
}

impl Default for Decoder {
    fn default() -> (r: Decoder)
        ensures
            r.wf(),
            r.reservoir_view() == Seq::<u8>::empty(),
            r.main_data_view() == Seq::<u8>::empty(),
            r.side_info_view().zeroed(),
    {
        Decoder::new()
    }
}

} // verus!
