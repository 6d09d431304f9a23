//! The eXIf chunk that a PNG may carry after the pixel data. ImageMagick
//! writes it there.
use vstd::prelude::*;
use vstd::slice::slice_subrange;

use crate::raw::byte_order;
use crate::raw::byte_order::ByteOrder;

verus! {

/// How much of a PNG's end is searched for a trailing eXIf chunk. EXIF
/// blocks are at most a few tens of kilobytes and only text chunks and
/// IEND follow them.
pub const PNG_TAIL_BYTES: u64 = 128 * 1024;

/// Where the part of a file that is searched begins.
pub fn tail_start(len: u64) -> (r: u64)
    ensures
        r == if len > PNG_TAIL_BYTES {
            len - PNG_TAIL_BYTES
        } else {
            0
        },
{
    if len > PNG_TAIL_BYTES {
        len - PNG_TAIL_BYTES
    } else {
        0
    }
}

/// The four letters of a chunk type, highest byte first.
pub const KIND_EXIF: u32 = 0x6558_4966;
pub const KIND_IEND: u32 = 0x4945_4E44;

/// The length field of the chunk at an offset.
pub open spec fn chunk_len(tail: Seq<u8>, at: int) -> int {
    byte_order::u32_at(ByteOrder::Big, tail, at)
}

/// Where the chunk after the one at an offset starts: behind its length, its
/// type, its data and its CRC.
pub open spec fn next_chunk(tail: Seq<u8>, at: int) -> int {
    at + 12 + chunk_len(tail, at)
}

/// Whether the chunks from an offset on, walked by their length fields,
/// arrive at an empty IEND chunk.
pub open spec fn reaches_iend(tail: Seq<u8>, at: int) -> bool
    decreases tail.len() - at,
{
    if at < 0 || at + 8 > tail.len() || next_chunk(tail, at) > tail.len() {
        false
    } else if byte_order::u32_at(ByteOrder::Big, tail, at + 4) == KIND_IEND {
        chunk_len(tail, at) == 0
    } else {
        reaches_iend(tail, next_chunk(tail, at))
    }
}

/// The data of the chunk at an offset.
pub open spec fn chunk_data(tail: Seq<u8>, at: int) -> Seq<u8> {
    tail.subrange(at + 8, at + 8 + chunk_len(tail, at))
}

/// Walk chunks from `first`, which claims to be an eXIf chunk. Returns its
/// payload if the walk ends at an empty IEND inside `tail`.
pub fn exif_if_chunks_reach_iend<'a>(tail: &'a [u8], first: usize) -> (r: Option<&'a [u8]>)
    ensures
        match r {
            Some(payload) => reaches_iend(tail@, first as int) && payload@ == chunk_data(tail@, first as int),
            None => !reaches_iend(tail@, first as int),
        },
{
    let len: usize = tail.len();
    let mut at: usize = first;
    loop
        invariant
            len == tail@.len(),
            first <= at,
            first < at ==> first + 8 <= tail@.len() && next_chunk(tail@, first as int) <= tail@.len(),
            reaches_iend(tail@, at as int) == reaches_iend(tail@, first as int),
        decreases tail@.len() - at,
    {
        if len < 8 || at > len - 8 {
            return None;
        }
        let data_len: u64 = ByteOrder::Big.u32_from(tail, at) as u64;
        let kind: u32 = ByteOrder::Big.u32_from(tail, at + 4);
        let left: u64 = (len - at) as u64;
        if left < 12 + data_len {
            return None;
        }
        if kind == KIND_IEND {
            if data_len != 0 {
                return None;
            }
            let payload_len: usize = ByteOrder::Big.u32_from(tail, first) as usize;
            let payload = slice_subrange(tail, first + 8, first + 8 + payload_len);
            return Some(payload);
        }
        at = at + 12 + data_len as usize;
    }
}

/// Whether an eXIf chunk's type is at a position and the chunks from there on
/// arrive at an empty IEND.
pub open spec fn is_trailing_exif(tail: Seq<u8>, pos: int) -> bool {
    &&& 4 <= pos
    &&& pos + 4 <= tail.len()
    &&& byte_order::u32_at(ByteOrder::Big, tail, pos) == KIND_EXIF
    &&& reaches_iend(tail, pos - 4)
}

/// Whether the tail of a PNG file has a payload: that of the last place where
/// an eXIf chunk is.
pub open spec fn is_payload(tail: Seq<u8>, payload: Option<Seq<u8>>) -> bool {
    match payload {
        Some(data) => exists|pos: int| #[trigger]
            is_trailing_exif(tail, pos) && data == chunk_data(tail, pos - 4) && forall|later: int|
            pos < later ==> !#[trigger] is_trailing_exif(tail, later),
        None => forall|pos: int| !is_trailing_exif(tail, pos),
    }
}

/// The payload of an eXIf chunk in the tail of a PNG file. Chunks can only
/// be walked forwards, and the tail may start in the middle of compressed
/// pixel data that happens to contain the letters "eXIf". So a candidate
/// is accepted only when the chunks after it, walked by their length
/// fields, arrive at an empty IEND chunk. The last such candidate counts.
pub fn find_trailing_exif<'a>(tail: &'a [u8]) -> (r: Option<&'a [u8]>)
    ensures
        is_payload(
            tail@,
            match r {
                Some(payload) => Some(payload@),
                None => None,
            },
        ),
{
    if tail.len() < 8 {
        return None;
    }
    let mut end: usize = tail.len() - 3;
    while end > 4
        invariant
            4 <= end <= tail@.len() - 3,
            forall|later: int| end <= later ==> !#[trigger] is_trailing_exif(tail@, later),
        decreases end,
    {
        let pos: usize = end - 1;
        if ByteOrder::Big.u32_from(tail, pos) == KIND_EXIF {
            if let Some(payload) = exif_if_chunks_reach_iend(tail, pos - 4) {
                assert(is_trailing_exif(tail@, pos as int));
                return Some(payload);
            }
        }
        end = pos;
    }
    None
}

/// A tail that ends in an eXIf chunk, any whole chunks and an empty IEND is
/// found to reach its end, whatever comes before.
pub proof fn law_chunks_before_do_not_matter(before: Seq<u8>, chunks: Seq<u8>, at: int)
    requires
        0 <= at,
    ensures
        reaches_iend(before + chunks, before.len() + at) == reaches_iend(chunks, at),
    decreases chunks.len() - at,
{
    let all = before + chunks;
    if at + 8 <= chunks.len() {
        assert(chunk_len(all, before.len() + at) == chunk_len(chunks, at));
        assert(byte_order::u32_at(ByteOrder::Big, all, before.len() + at + 4) == byte_order::u32_at(
            ByteOrder::Big,
            chunks,
            at + 4,
        ));
        if next_chunk(chunks, at) <= chunks.len() {
            law_chunks_before_do_not_matter(before, chunks, next_chunk(chunks, at));
        }
    }
}

/// An eXIf chunk with nothing but an empty IEND chunk behind it is found, and its
/// data are the bytes between its letters and its check sum.
pub proof fn law_a_last_exif_chunk_is_found(tail: Seq<u8>, at: int, len: int)
    requires
        0 <= at,
        0 <= len,
        at + 12 + len + 12 <= tail.len(),
        16777216 * tail[at] + 65536 * tail[at + 1] + 256 * tail[at + 2] + tail[at + 3] == len,
        tail[at + 4] == 'e' as u8 && tail[at + 5] == 'X' as u8 && tail[at + 6] == 'I' as u8 && tail[at + 7] == 'f' as u8,
        tail[at + 12 + len] == 0 && tail[at + 13 + len] == 0 && tail[at + 14 + len] == 0 && tail[at + 15 + len] == 0,
        tail[at + 16 + len] == 'I' as u8 && tail[at + 17 + len] == 'E' as u8 && tail[at + 18 + len] == 'N' as u8
            && tail[at + 19 + len] == 'D' as u8,
    ensures
        is_trailing_exif(tail, at + 4),
        chunk_data(tail, at) == tail.subrange(at + 8, at + 8 + len),
{
    assert(chunk_len(tail, at) == len);
    let end = at + 12 + len;
    assert(next_chunk(tail, at) == end);
    assert(chunk_len(tail, end) == 0);
    assert(byte_order::u32_at(ByteOrder::Big, tail, end + 4) == KIND_IEND);
    assert(reaches_iend(tail, end));
}

} // verus!
