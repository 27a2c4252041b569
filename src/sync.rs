use vstd::prelude::*;

use crate::header::{header_at, is_valid_header, parse_header, valid_header_at};

verus! {

/// What a scan of a byte window for a frame start found.
#[derive(Clone, Copy, Debug, PartialEq, Eq, Structural)]
pub enum SyncResult {
    /// A frame of `len` bytes starts at `offset` and lies wholly in the window.
    Found { offset: usize, len: usize },
    /// A frame starts at `offset` but ends past the window: more bytes are needed.
    Incomplete { offset: usize },
    /// No frame starts in the window. Its first `skip` bytes can never start one, whatever
    /// bytes are appended.
    NotFound { skip: usize },
}

/// The header at `j` is valid and agrees with the one at `i` in version, layer and
/// sampling rate.
pub open spec fn headers_match(w: Seq<u8>, i: int, j: int) -> bool {
    &&& valid_header_at(w, j)
    &&& w[i + 1] & 0xFEu8 == w[j + 1] & 0xFEu8
    &&& w[i + 2] & 0x0Cu8 == w[j + 2] & 0x0Cu8
}

/// A valid header starts at `i`, and where the window holds the next frame's header
/// position, a matching header stands there. With too few trailing bytes the single
/// header is accepted.
pub open spec fn candidate(w: Seq<u8>, i: int) -> bool {
    &&& valid_header_at(w, i)
    &&& (i + header_at(w, i).frame_len_spec() + 4 <= w.len() ==> headers_match(
        w,
        i,
        i + header_at(w, i).frame_len_spec(),
    ))
}

/// The first candidate at or after `i`.
pub open spec fn first_candidate_from(w: Seq<u8>, i: int) -> Option<int>
    decreases w.len() - i,
{
    if i < 0 || i + 4 > w.len() {
        None
    } else if candidate(w, i) {
        Some(i)
    } else {
        first_candidate_from(w, i + 1)
    }
}

/// The outcome of scanning `w` from its start.
pub open spec fn sync_spec(w: Seq<u8>) -> SyncResult {
    match first_candidate_from(w, 0) {
        Some(i) => {
            let n = header_at(w, i).frame_len_spec();
            if i + n <= w.len() {
                SyncResult::Found { offset: i as usize, len: n as usize }
            } else {
                SyncResult::Incomplete { offset: i as usize }
            }
        },
        None => SyncResult::NotFound {
            skip: if w.len() >= 3 {
                (w.len() - 3) as usize
            } else {
                0
            },
        },
    }
}

proof fn lemma_first_candidate_bounds(w: Seq<u8>, i: int)
    ensures
        first_candidate_from(w, i) matches Some(j) ==> i <= j && j + 4 <= w.len() && candidate(
            w,
            j,
        ),
    decreases w.len() - i,
{
    if i >= 0 && i + 4 <= w.len() && !candidate(w, i) {
        lemma_first_candidate_bounds(w, i + 1);
    }
}

fn is_candidate(w: &[u8], i: usize) -> (r: bool)
    requires
        i + 4 <= w@.len(),
    ensures
        r == candidate(w@, i as int),
{
    if !is_valid_header(w[i], w[i + 1], w[i + 2]) {
        return false;
    }
    let h = parse_header(w[i + 1], w[i + 2], w[i + 3]);
    let n = h.frame_len();
    if n + 4 <= w.len() - i {
        let j = i + n;
        is_valid_header(w[j], w[j + 1], w[j + 2]) && w[i + 1] & 0xFEu8 == w[j + 1] & 0xFEu8 && w[i
            + 2] & 0x0Cu8 == w[j + 2] & 0x0Cu8
    } else {
        true
    }
}

/// Scans `w` for the first position that starts a frame and reports where it is, that more
/// bytes are needed, or how many leading bytes can be dropped.
pub fn find_frame(w: &[u8]) -> (r: SyncResult)
    ensures
        r == sync_spec(w@),
{
    let len = w.len();
    let mut i: usize = 0;
    while len >= 4 && i <= len - 4
        invariant
            len == w@.len(),
            i <= len,
            first_candidate_from(w@, 0) == first_candidate_from(w@, i as int),
        decreases len - i,
    {
        if is_candidate(w, i) {
            let h = parse_header(w[i + 1], w[i + 2], w[i + 3]);
            let n = h.frame_len();
            if n <= len - i {
                return SyncResult::Found { offset: i, len: n };
            } else {
                return SyncResult::Incomplete { offset: i };
            }
        }
        i = i + 1;
    }
    SyncResult::NotFound {
        skip: if len >= 3 {
            len - 3
        } else {
            0
        },
    }
}

/// Whatever `find_frame` reports lies within the window: a found frame ends in it, and an
/// offset or a skip count never passes its end.
pub proof fn lemma_sync_in_window(w: Seq<u8>)
    requires
        w.len() <= usize::MAX,
    ensures
        match sync_spec(w) {
            SyncResult::Found { offset, len } => offset + len <= w.len() && valid_header_at(
                w,
                offset as int,
            ) && len == header_at(w, offset as int).frame_len_spec(),
            SyncResult::Incomplete { offset } => offset + 4 <= w.len() && valid_header_at(
                w,
                offset as int,
            ),
            SyncResult::NotFound { skip } => skip <= w.len(),
        },
{
    lemma_first_candidate_bounds(w, 0);
}

} // verus!
