//! What holds of every decoding step, and of a stream decoded by repeated calls.
use vstd::prelude::*;

use crate::header::{header_at, is_standard_rate, lemma_header_ranges, lemma_valid_header_wf, valid_header_at};
use crate::reservoir::keep_tail;
use crate::sync::{candidate, first_candidate_from, headers_match, lemma_sync_in_window, sync_spec, SyncResult};
use crate::{damaged_frame, decode_spec, look_back, main_data_offset, Decoder};

verus! {

/// The frame found in `w` is consumed without being decoded: it is damaged, or it looks back
/// further than the reservoir `res` reaches.
pub open spec fn frame_dropped(res: Seq<u8>, w: Seq<u8>) -> bool {
    match sync_spec(w) {
        SyncResult::Found { offset, len } => damaged_frame(w, offset as int, len as int) || look_back(
            w,
            offset as int,
            len as int,
        ) > res.len(),
        _ => false,
    }
}

proof fn lemma_found_header(w: Seq<u8>)
    requires
        w.len() <= usize::MAX,
    ensures
        sync_spec(w) matches SyncResult::Found { offset, len } ==> header_at(w, offset as int).wf()
            && len >= 12,
{
    lemma_sync_in_window(w);
    if let SyncResult::Found { offset, len } = sync_spec(w) {
        let i = offset as int;
        lemma_valid_header_wf(w[i + 1], w[i + 2], w[i + 3]);
        lemma_header_ranges(header_at(w, i));
    }
}

/// Decoding depends on nothing but the decoder's state and the window: two decoders in the
/// same state, given the same bytes, consume as much, report the same frame and end in the
/// same state. Every new decoder is in the same state.
pub proof fn lemma_decode_deterministic(a: Decoder, b: Decoder, w: Seq<u8>)
    requires
        a.reservoir_view() == b.reservoir_view(),
        a.main_data_view() == b.main_data_view(),
    ensures
        decode_spec(a.reservoir_view(), a.main_data_view(), w) == decode_spec(
            b.reservoir_view(),
            b.main_data_view(),
            w,
        ),
{
}

/// A step never consumes more bytes than the window holds.
pub proof fn lemma_consumed_within_window(res: Seq<u8>, md: Seq<u8>, w: Seq<u8>)
    requires
        w.len() <= usize::MAX,
    ensures
        decode_spec(res, md, w).2 <= w.len(),
{
    lemma_sync_in_window(w);
}

/// Nothing is consumed exactly when no frame is reported.
pub proof fn lemma_consumed_iff_reported(res: Seq<u8>, md: Seq<u8>, w: Seq<u8>)
    requires
        w.len() <= usize::MAX,
    ensures
        decode_spec(res, md, w).2 == 0 <==> decode_spec(res, md, w).3 is None,
{
    lemma_found_header(w);
    lemma_sync_in_window(w);
}

/// A reported frame has a standard MPEG sampling rate, 576 or 1152 samples per channel, and
/// a bitrate of 8 to 320 kbit/s, whatever bytes the window holds.
pub proof fn lemma_reported_frame_ranges(res: Seq<u8>, md: Seq<u8>, w: Seq<u8>)
    requires
        w.len() <= usize::MAX,
    ensures
        decode_spec(res, md, w).3 matches Some(fi) ==> is_standard_rate(fi.sample_rate) && (
        fi.samples_produced == 576 || fi.samples_produced == 1152) && 8 <= fi.bitrate <= 320,
{
    lemma_found_header(w);
    if let SyncResult::Found { offset, len } = sync_spec(w) {
        lemma_header_ranges(header_at(w, offset as int));
    }
}

/// In a stream whose window starts with a whole, decodable frame `f`, followed by the next
/// frame's matching header or by fewer than four bytes, a step reports that frame and
/// consumes exactly `f`.
pub proof fn lemma_stream_frame_consumed(res: Seq<u8>, md: Seq<u8>, f: Seq<u8>, rest: Seq<u8>)
    requires
        !frame_dropped(res, f + rest),
        valid_header_at(f, 0),
        header_at(f, 0).frame_len_spec() == f.len(),
        rest.len() >= 4 ==> headers_match(f + rest, 0, f.len() as int),
        f.len() + rest.len() <= usize::MAX,
    ensures
        decode_spec(res, md, f + rest).2 == f.len(),
        decode_spec(res, md, f + rest).3 is Some,
{
    let w = f + rest;
    assert(w[0] == f[0] && w[1] == f[1] && w[2] == f[2] && w[3] == f[3]);
    assert(header_at(w, 0) == header_at(f, 0));
    assert(candidate(w, 0));
    assert(first_candidate_from(w, 0) == Some(0int));
}

/// The frames of `fs`, one after another.
pub open spec fn concat(fs: Seq<Seq<u8>>) -> Seq<u8>
    decreases fs.len(),
{
    if fs.len() == 0 {
        Seq::empty()
    } else {
        fs[0] + concat(fs.drop_first())
    }
}

/// Each of `fs` is one whole frame with a valid header, and each header agrees with the
/// next in version, layer and sampling rate.
pub open spec fn frame_run(fs: Seq<Seq<u8>>) -> bool {
    &&& forall|k: int|
        0 <= k < fs.len() ==> valid_header_at(#[trigger] fs[k], 0) && header_at(fs[k], 0).frame_len_spec()
            == fs[k].len()
    &&& forall|k: int|
        0 <= k < fs.len() - 1 ==> #[trigger] fs[k][1] & 0xFEu8 == fs[k + 1][1] & 0xFEu8 && fs[k][2]
            & 0x0Cu8 == fs[k + 1][2] & 0x0Cu8
}

/// The bytes that `n` successive steps consume, from reservoir `res` and main data `md`,
/// each step given the window that follows what the steps before consumed.
pub open spec fn total_consumed(res: Seq<u8>, md: Seq<u8>, w: Seq<u8>, n: nat) -> int
    decreases n,
{
    if n == 0 {
        0
    } else {
        let (res2, md2, c, info) = decode_spec(res, md, w);
        c + total_consumed(res2, md2, w.subrange(c as int, w.len() as int), (n - 1) as nat)
    }
}

/// Each frame of `fs` in turn, decoded from the state that the frames before it leave, is
/// undamaged and finds its look-back in the reservoir. A genuine stream is such a run: its
/// first frame looks back 0 bytes, and the encoder keeps every later look-back in reach.
pub open spec fn decodable_run(res: Seq<u8>, md: Seq<u8>, fs: Seq<Seq<u8>>) -> bool
    decreases fs.len(),
{
    fs.len() == 0 || (!frame_dropped(res, concat(fs)) && decodable_run(
        decode_spec(res, md, concat(fs)).0,
        decode_spec(res, md, concat(fs)).1,
        fs.drop_first(),
    ))
}

/// Each of `n` successive steps, each given the window that follows what the steps before
/// consumed, reports a frame.
pub open spec fn all_reported(res: Seq<u8>, md: Seq<u8>, w: Seq<u8>, n: nat) -> bool
    decreases n,
{
    n == 0 || {
        let (res2, md2, c, info) = decode_spec(res, md, w);
        info is Some && all_reported(res2, md2, w.subrange(c as int, w.len() as int), (n - 1) as nat)
    }
}

/// Over a genuine stream of frames, one call per frame reports every frame and consumes the
/// stream exactly: every call takes the next whole frame, without overlap or gap, and a
/// call on what is left then consumes nothing.
pub proof fn lemma_stream_consumed_exactly(res: Seq<u8>, md: Seq<u8>, fs: Seq<Seq<u8>>)
    requires
        frame_run(fs),
        decodable_run(res, md, fs),
        concat(fs).len() <= usize::MAX,
    ensures
        total_consumed(res, md, concat(fs), fs.len()) == concat(fs).len(),
        all_reported(res, md, concat(fs), fs.len()),
        decode_spec(res, md, Seq::empty()).2 == 0,
    decreases fs.len(),
{
    if fs.len() > 0 {
        let f = fs[0];
        let tail = fs.drop_first();
        let rest = concat(tail);
        let w = concat(fs);
        assert(w == f + rest);
        assert(valid_header_at(fs[0], 0));
        assert forall|k: int| 0 <= k < tail.len() implies valid_header_at(#[trigger] tail[k], 0)
            && header_at(tail[k], 0).frame_len_spec() == tail[k].len() by {
            assert(tail[k] == fs[k + 1]);
        }
        assert forall|k: int| 0 <= k < tail.len() - 1 implies #[trigger] tail[k][1] & 0xFEu8
            == tail[k + 1][1] & 0xFEu8 && tail[k][2] & 0x0Cu8 == tail[k + 1][2] & 0x0Cu8 by {
            assert(tail[k] == fs[k + 1] && tail[k + 1] == fs[k + 2]);
        }
        if rest.len() >= 4 {
            let g = fs[1];
            assert(tail[0] == g);
            assert(valid_header_at(g, 0));
            assert(rest == g + concat(tail.drop_first()));
            let n = f.len() as int;
            assert(w[n] == g[0] && w[n + 1] == g[1] && w[n + 2] == g[2] && w[n + 3] == g[3]);
            assert(w[1] == f[1] && w[2] == f[2]);
            assert(f[1] & 0xFEu8 == g[1] & 0xFEu8 && f[2] & 0x0Cu8 == g[2] & 0x0Cu8);
            assert(headers_match(w, 0, n));
        }
        lemma_stream_frame_consumed(res, md, f, rest);
        let (res2, md2, c, info) = decode_spec(res, md, w);
        assert(w.subrange(c as int, w.len() as int) =~= rest);
        lemma_stream_consumed_exactly(res2, md2, tail);
    }
}

/// A frame that looks back past what the reservoir holds (for a new decoder, any nonzero
/// look-back) is neither consumed nor reported, and the reservoir keeps what it held
/// followed by the frame's main data.
pub proof fn lemma_look_back_unsatisfied(res: Seq<u8>, md: Seq<u8>, w: Seq<u8>)
    requires
        w.len() <= usize::MAX,
        sync_spec(w) matches SyncResult::Found { offset, len } && !damaged_frame(
            w,
            offset as int,
            len as int,
        ) && look_back(w, offset as int, len as int) > res.len(),
    ensures
        decode_spec(res, md, w).3 is None,
        decode_spec(res, md, w).2 == 0,
        sync_spec(w) matches SyncResult::Found { offset, len } ==> decode_spec(res, md, w).0
            == keep_tail(
            res + w.subrange(
                offset + main_data_offset(header_at(w, offset as int)),
                offset + len,
            ),
        ),
{
    lemma_found_header(w);
    lemma_sync_in_window(w);
    if let SyncResult::Found { offset, len } = sync_spec(w) {
        let f = w.subrange(offset as int, offset + len);
        let h = header_at(w, offset as int);
        assert(res.subrange(0, res.len() as int) == res);
        assert(f.subrange(main_data_offset(h) as int, len as int) =~= w.subrange(
            offset + main_data_offset(h),
            offset + len,
        ));
        let data = res + f.subrange(main_data_offset(h) as int, len as int);
        assert(data.subrange(0, data.len() as int) == data);
    }
}

} // verus!
