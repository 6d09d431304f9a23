//! Canon CR3. The file has the structure of an MP4: a sequence of boxes,
//! each with a header of its size and a four-letter type, and some boxes
//! hold more boxes. A CR3 has a JPEG in three places:
//!
//! - `THMB`, 160x120, inside Canon's `uuid` box in `moov`.
//! - `PRVW`, 1620x1080, inside a `uuid` box of its own after `moov`.
//! - The full-size one is the only sample of the first track. The track's
//!   `stsz` box has its length and the `co64` box its offset.
//!
//! A CR3 shot with HDR PQ turned on has HEVC in all three places and no
//! JPEG. The frame header check in `pick_for_display` rejects those.
//!
//! The EXIF is in Canon's `uuid` box as separate TIFF blocks: `CMT1` is
//! IFD0, `CMT2` the Exif IFD, `CMT3` the maker note and `CMT4` the GPS
//! IFD. Each block has its own TIFF header, and its offsets count from
//! its own start, so `join_exif` builds one block out of them.
use vstd::prelude::*;
use vstd::slice::slice_to_vec;

use crate::raw::byte_order;
use crate::raw::byte_order::{be64_from, ByteOrder};
use crate::raw::found;
use crate::raw::found::{turn_from, Found, Orientation, Span};
use crate::raw::ifd;
use crate::raw::ifd::{entries_of, find_entry, header_of, TAG_ORIENTATION};
use crate::raw::join;
use crate::raw::join::join_exif;

use crate::raw::source::Source;

verus! {

/// The file is untrusted input. No more boxes than this are read at one
/// level, and an EXIF block larger than this is left out. The blocks in
/// real files are 0.5 to 2 KB.
pub const MAX_BOXES: usize = 64;
pub const MAX_EXIF_BLOCK: u64 = 256 * 1024;

/// In `THMB` and in `PRVW` the image starts 16 bytes into the box body.
/// The fields before it differ between the two boxes and between their
/// versions, so the image is taken to run to the end of the box. A JPEG
/// decoder stops at the end marker and ignores the padding after it.
pub const IMAGE_AT: u64 = 16;
/// The `uuid` box with `PRVW` has 8 bytes between its id and `PRVW`.
pub const PREVIEW_BOXES_AT: u64 = 24;

/// The four letters of a box type, highest byte first.
pub const KIND_FTYP: u32 = 0x6674_7970;
pub const BRAND_CRX: u32 = 0x6372_7820;
pub const KIND_MOOV: u32 = 0x6D6F_6F76;
pub const KIND_TRAK: u32 = 0x7472_616B;
pub const KIND_UUID: u32 = 0x7575_6964;
pub const KIND_CMT1: u32 = 0x434D_5431;
pub const KIND_CMT2: u32 = 0x434D_5432;
pub const KIND_CMT4: u32 = 0x434D_5434;
pub const KIND_THMB: u32 = 0x5448_4D42;
pub const KIND_PRVW: u32 = 0x5052_5657;
pub const KIND_MDIA: u32 = 0x6D64_6961;
pub const KIND_MINF: u32 = 0x6D69_6E66;
pub const KIND_STBL: u32 = 0x7374_626C;
pub const KIND_STSZ: u32 = 0x7374_737A;
pub const KIND_CO64: u32 = 0x636F_3634;
pub const KIND_STCO: u32 = 0x7374_636F;

/// The ids of the two `uuid` boxes, as two 64-bit numbers.
pub const CANON_UUID: (u64, u64) = (0x85C0_B687_820F_11E0, 0x8111_F4CE_462B_6A48);
pub const PREVIEW_UUID: (u64, u64) = (0xEAF4_2B5E_1C98_4B88, 0xB9FB_B7DC_406E_4D16);

/// A box of the file.
#[derive(Debug, Clone, Copy, PartialEq, Eq, Structural)]
pub struct BoxAt {
    /// The four letters of its type.
    pub kind: u32,
    /// Where the box's content starts, after its header.
    pub body: u64,
    pub end: u64,
}

/// The box whose header starts at `at`, inside what ends at `end`. `None`
/// when its header or its size does not fit.
pub open spec fn box_at(file: Seq<u8>, at: int, end: int) -> Option<BoxAt> {
    if at + 8 > end {
        None
    } else {
        let short = byte_order::u32_at(ByteOrder::Big, file, at);
        let kind = byte_order::u32_at(ByteOrder::Big, file, at + 4) as u32;
        if short == 1 && at + 16 > end {
            None
        } else {
            // A size of 1 means that the size does not fit in 32 bits and
            // follows the type. With 0 the box runs to the end of what
            // holds it.
            let size = if short == 1 {
                byte_order::be64_at(file, at + 8)
            } else if short == 0 {
                end - at
            } else {
                short
            };
            let header: int = if short == 1 { 16 } else { 8 };
            if size < header || size > end - at {
                None
            } else {
                Some(BoxAt { kind, body: (at + header) as u64, end: (at + size) as u64 })
            }
        }
    }
}

/// The boxes from `at` to `end`, `left` of them at most. The list ends at the
/// first box whose size does not fit.
pub open spec fn boxes_from(file: Seq<u8>, at: int, end: int, left: nat) -> Seq<BoxAt>
    decreases left,
{
    if left == 0 {
        Seq::empty()
    } else {
        match box_at(file, at, end) {
            Some(b) => seq![b] + boxes_from(file, b.end as int, end, (left - 1) as nat),
            None => Seq::empty(),
        }
    }
}

/// The boxes between `at` and `end`.
pub open spec fn boxes_in(file: Seq<u8>, at: int, end: int) -> Seq<BoxAt> {
    boxes_from(file, at, end, MAX_BOXES as nat)
}

/// Whether a box is inside the file.
pub open spec fn box_fits(b: BoxAt, len: int) -> bool {
    b.body <= b.end <= len
}

/// The box whose header starts at `at`.
fn read_box(source: &Source, at: u64, end: u64) -> (r: Option<BoxAt>)
    requires
        end <= source@.len(),
    ensures
        r == box_at(source@, at as int, end as int),
        match r {
            Some(b) => at < b.body && b.body <= b.end && b.end <= end,
            None => true,
        },
{
    if end < 8 || at > end - 8 {
        return None;
    }
    let len: u64 = source.len();
    let header = source.bytes_at(at, 8);
    let short: u64 = ByteOrder::Big.u32_from(header, 0) as u64;
    let kind: u32 = ByteOrder::Big.u32_from(header, 4);
    let mut size: u64 = short;
    let mut header_len: u64 = 8;
    if short == 1 {
        if end < 16 || at > end - 16 {
            return None;
        }
        let large = source.bytes_at(at + 8, 8);
        size = be64_from(large, 0);
        header_len = 16;
    } else if short == 0 {
        size = end - at;
    }
    if size < header_len || size > end - at {
        return None;
    }
    Some(BoxAt { kind, body: at + header_len, end: at + size })
}

/// The boxes between `start` and `end`. The list ends at the first box
/// whose size does not fit.
pub fn boxes(source: &Source, start: u64, end: u64) -> (r: Vec<BoxAt>)
    requires
        end <= source@.len(),
    ensures
        r@ == boxes_in(source@, start as int, end as int),
        forall|i: int| 0 <= i < r@.len() ==> #[trigger] r@[i].body <= r@[i].end && r@[i].end <= end,
{
    let mut found: Vec<BoxAt> = Vec::new();
    let mut at: u64 = start;
    while found.len() < MAX_BOXES
        invariant
            end <= source@.len(),
            found@.len() <= MAX_BOXES,
            found@ + boxes_from(source@, at as int, end as int, (MAX_BOXES - found@.len()) as nat) == boxes_in(
                source@,
                start as int,
                end as int,
            ),
            forall|i: int| 0 <= i < found@.len() ==> #[trigger] found@[i].body <= found@[i].end && found@[i].end <= end,
        decreases MAX_BOXES - found@.len(),
    {
        match read_box(source, at, end) {
            Some(b) => {
                let ghost before = found@;
                let ghost rest = boxes_from(source@, b.end as int, end as int, (MAX_BOXES - before.len() - 1) as nat);
                found.push(b);
                at = b.end;
                assert(found@ + rest =~= before + (seq![b] + rest));
            },
            None => {
                assert(found@ + Seq::<BoxAt>::empty() =~= found@);
                return found;
            },
        }
    }
    assert(found@ + Seq::<BoxAt>::empty() =~= found@);
    found
}

/// Whether a box is a `uuid` box with this id in its first 16 bytes.
pub open spec fn is_uuid(file: Seq<u8>, b: BoxAt, uuid: (u64, u64)) -> bool {
    &&& b.kind == KIND_UUID
    &&& b.end - b.body >= 16
    &&& byte_order::be64_at(file, b.body as int) == uuid.0
    &&& byte_order::be64_at(file, b.body + 8) == uuid.1
}

/// Whether `b` is a `uuid` box with this id in its first 16 bytes.
pub fn has_uuid(source: &Source, b: &BoxAt, uuid: (u64, u64)) -> (r: bool)
    requires
        box_fits(*b, source@.len() as int),
    ensures
        r == is_uuid(source@, *b, uuid),
{
    if b.kind != KIND_UUID || b.end - b.body < 16 {
        return false;
    }
    let id = source.bytes_at(b.body, 16);
    be64_from(id, 0) == uuid.0 && be64_from(id, 8) == uuid.1
}

/// The image in a `THMB` or a `PRVW` box.
pub open spec fn image_span(b: BoxAt) -> Option<Span> {
    if b.body + IMAGE_AT < b.end {
        Some(Span { offset: (b.body + IMAGE_AT) as u64, len: (b.end - b.body - IMAGE_AT) as u64 })
    } else {
        None
    }
}

/// The image in a `THMB` or a `PRVW` box.
pub fn image_in(b: &BoxAt) -> (r: Option<Span>)
    requires
        b.body <= b.end,
    ensures
        r == image_span(*b),
{
    if b.end - b.body > IMAGE_AT {
        let offset: u64 = b.body + IMAGE_AT;
        Some(Span { offset, len: b.end - offset })
    } else {
        None
    }
}

/// The first box of a kind.
pub open spec fn first_kind(list: Seq<BoxAt>, kind: u32) -> Option<BoxAt>
    decreases list.len(),
{
    if list.len() == 0 {
        None
    } else if list[0].kind == kind {
        Some(list[0])
    } else {
        first_kind(list.drop_first(), kind)
    }
}

/// The first box of a kind inside a box.
pub open spec fn child(file: Seq<u8>, b: BoxAt, kind: u32) -> Option<BoxAt> {
    first_kind(boxes_in(file, b.body as int, b.end as int), kind)
}

fn find_child(source: &Source, b: &BoxAt, kind: u32) -> (r: Option<BoxAt>)
    requires
        box_fits(*b, source@.len() as int),
    ensures
        r == child(source@, *b, kind),
        match r {
            Some(c) => box_fits(c, source@.len() as int),
            None => true,
        },
{
    let list = boxes(source, b.body, b.end);
    assert(list@.skip(0) =~= list@);
    let mut i: usize = 0;
    while i < list.len()
        invariant
            i <= list@.len(),
            b.end <= source@.len(),
            list@ == boxes_in(source@, b.body as int, b.end as int),
            forall|k: int| 0 <= k < list@.len() ==> #[trigger] list@[k].body <= list@[k].end && list@[k].end <= b.end,
            first_kind(list@.skip(i as int), kind) == first_kind(list@, kind),
        decreases list@.len() - i,
    {
        if list[i].kind == kind {
            return Some(list[i]);
        }
        assert(list@.skip(i as int).drop_first() =~= list@.skip(i + 1));
        i += 1;
    }
    None
}

/// The length that one of the boxes of a sample table gives: the size of
/// every sample, or the first of the sizes.
pub open spec fn stsz_len(file: Seq<u8>, b: BoxAt) -> Option<int> {
    if b.kind != KIND_STSZ || b.end - b.body < 16 {
        None
    } else if byte_order::u32_at(ByteOrder::Big, file, b.body + 4) != 0 {
        Some(byte_order::u32_at(ByteOrder::Big, file, b.body + 4))
    } else if byte_order::u32_at(ByteOrder::Big, file, b.body + 8) > 0 {
        Some(byte_order::u32_at(ByteOrder::Big, file, b.body + 12))
    } else {
        None
    }
}

/// The offset that one of the boxes of a sample table gives: the first of
/// the 64-bit or of the 32-bit offsets.
pub open spec fn chunk_offset(file: Seq<u8>, b: BoxAt) -> Option<int> {
    if b.kind == KIND_CO64 && b.end - b.body >= 16 && byte_order::u32_at(ByteOrder::Big, file, b.body + 4) > 0 {
        Some(byte_order::be64_at(file, b.body + 8))
    } else if b.kind == KIND_STCO && b.end - b.body >= 12 && byte_order::u32_at(ByteOrder::Big, file, b.body + 4) > 0 {
        Some(byte_order::u32_at(ByteOrder::Big, file, b.body + 8))
    } else {
        None
    }
}

/// The last length that the boxes give.
pub open spec fn last_len(file: Seq<u8>, list: Seq<BoxAt>, n: nat) -> Option<int>
    decreases n,
{
    if n == 0 {
        None
    } else {
        match stsz_len(file, list[n - 1]) {
            Some(v) => Some(v),
            None => last_len(file, list, (n - 1) as nat),
        }
    }
}

/// The last offset that the boxes give.
pub open spec fn last_offset(file: Seq<u8>, list: Seq<BoxAt>, n: nat) -> Option<int>
    decreases n,
{
    if n == 0 {
        None
    } else {
        match chunk_offset(file, list[n - 1]) {
            Some(v) => Some(v),
            None => last_offset(file, list, (n - 1) as nat),
        }
    }
}

/// The first sample that a sample table names.
pub open spec fn table_sample(file: Seq<u8>, table: BoxAt) -> Option<Span> {
    let list = boxes_in(file, table.body as int, table.end as int);
    match (last_offset(file, list, list.len()), last_len(file, list, list.len())) {
        (Some(offset), Some(len)) => Some(Span { offset: offset as u64, len: len as u64 }),
        _ => None,
    }
}

/// The first sample of a track, whose tables are in `mdia` / `minf` / `stbl`.
pub open spec fn track_sample(file: Seq<u8>, trak: BoxAt) -> Option<Span> {
    match child(file, trak, KIND_MDIA) {
        Some(mdia) => match child(file, mdia, KIND_MINF) {
            Some(minf) => match child(file, minf, KIND_STBL) {
                Some(stbl) => table_sample(file, stbl),
                None => None,
            },
            None => None,
        },
        None => None,
    }
}

/// What one box of a sample table gives: an offset or a length.
fn read_table_box(source: &Source, b: &BoxAt) -> (r: (Option<u64>, Option<u64>))
    requires
        box_fits(*b, source@.len() as int),
    ensures
        match r.0 {
            Some(v) => chunk_offset(source@, *b) == Some(v as int),
            None => chunk_offset(source@, *b) is None,
        },
        match r.1 {
            Some(v) => stsz_len(source@, *b) == Some(v as int),
            None => stsz_len(source@, *b) is None,
        },
{
    let len: u64 = b.end - b.body;
    let available: usize = if len < 16 { len as usize } else { 16 };
    let head = source.bytes_at(b.body, available);
    if b.kind == KIND_STSZ && available == 16 {
        let every: u32 = ByteOrder::Big.u32_from(head, 4);
        if every != 0 {
            return (None, Some(every as u64));
        }
        if ByteOrder::Big.u32_from(head, 8) > 0 {
            return (None, Some(ByteOrder::Big.u32_from(head, 12) as u64));
        }
    } else if b.kind == KIND_CO64 && available == 16 {
        if ByteOrder::Big.u32_from(head, 4) > 0 {
            return (Some(be64_from(head, 8)), None);
        }
    } else if b.kind == KIND_STCO && available >= 12 {
        if ByteOrder::Big.u32_from(head, 4) > 0 {
            return (Some(ByteOrder::Big.u32_from(head, 8) as u64), None);
        }
    }
    (None, None)
}

/// The first sample of a track: the first entry of `stsz` for the length
/// and of `co64` or `stco` for the offset. The tables are in
/// `mdia` / `minf` / `stbl`.
pub fn first_sample(source: &Source, trak: &BoxAt) -> (r: Option<Span>)
    requires
        box_fits(*trak, source@.len() as int),
    ensures
        r == track_sample(source@, *trak),
{
    let mdia = match find_child(source, trak, KIND_MDIA) {
        Some(b) => b,
        None => return None,
    };
    let minf = match find_child(source, &mdia, KIND_MINF) {
        Some(b) => b,
        None => return None,
    };
    let stbl = match find_child(source, &minf, KIND_STBL) {
        Some(b) => b,
        None => return None,
    };
    let list = boxes(source, stbl.body, stbl.end);
    let mut offset: Option<u64> = None;
    let mut len: Option<u64> = None;
    let mut i: usize = 0;
    while i < list.len()
        invariant
            i <= list@.len(),
            stbl.end <= source@.len(),
            forall|k: int| 0 <= k < list@.len() ==> #[trigger] list@[k].body <= list@[k].end && list@[k].end <= stbl.end,
            match offset {
                Some(v) => last_offset(source@, list@, i as nat) == Some(v as int),
                None => last_offset(source@, list@, i as nat) is None,
            },
            match len {
                Some(v) => last_len(source@, list@, i as nat) == Some(v as int),
                None => last_len(source@, list@, i as nat) is None,
            },
        decreases list@.len() - i,
    {
        assert(list@[i as int].body <= list@[i as int].end);
        let (own_offset, own_len) = read_table_box(source, &list[i]);
        if own_offset.is_some() {
            offset = own_offset;
        }
        if own_len.is_some() {
            len = own_len;
        }
        i += 1;
    }
    match (offset, len) {
        (Some(offset), Some(len)) => Some(Span { offset, len }),
        _ => None,
    }
}

/// The turn that the first orientation entry in IFD0 of a TIFF block asks
/// for.
pub open spec fn block_turn(block: Seq<u8>) -> Option<Orientation> {
    match ifd::header_spec(block) {
        Some((order, ifd0)) => match ifd::entries_spec(block, order, ifd0) {
            Some(entries) => match ifd::first_tagged(
                order,
                entries,
                TAG_ORIENTATION as int,
                (entries.len() / 12) as nat,
            ) {
                Some(e) => match ifd::single_of(order, e) {
                    Some(v) => found::turn_of(v),
                    None => None,
                },
                None => None,
            },
            None => None,
        },
        None => None,
    }
}

/// The orientation tag in IFD0 of a TIFF block.
pub fn orientation_of(block: &[u8]) -> (r: Option<Orientation>)
    ensures
        r == block_turn(block@),
{
    let (order, ifd0) = match header_of(block) {
        Some(header) => header,
        None => return None,
    };
    let entries = match entries_of(block, order, ifd0) {
        Some(entries) => entries,
        None => return None,
    };
    let count: usize = entries.len() / 12;
    match find_entry(order, entries, count, TAG_ORIENTATION) {
        Some(entry) => match entry.single() {
            Some(v) => turn_from(v),
            None => None,
        },
        None => None,
    }
}

/// A list of one span, or of none.
pub open spec fn listed(span: Option<Span>) -> Seq<Span> {
    match span {
        Some(span) => seq![span],
        None => Seq::empty(),
    }
}

/// The images in those of the first `n` boxes that are of a kind.
pub open spec fn images_of(list: Seq<BoxAt>, kind: u32, n: nat) -> Seq<Span>
    decreases n,
{
    if n == 0 {
        Seq::empty()
    } else {
        images_of(list, kind, (n - 1) as nat) + if list[n - 1].kind == kind {
            listed(image_span(list[n - 1]))
        } else {
            Seq::empty()
        }
    }
}

/// Adds the images in the boxes of a kind.
fn add_images(list: &Vec<BoxAt>, kind: u32, jpegs: &mut Vec<Span>)
    requires
        forall|i: int| 0 <= i < list@.len() ==> #[trigger] list@[i].body <= list@[i].end,
    ensures
        final(jpegs)@ == old(jpegs)@ + images_of(list@, kind, list@.len()),
{
    let ghost start = jpegs@;
    assert(start + images_of(list@, kind, 0) =~= start);
    let mut i: usize = 0;
    while i < list.len()
        invariant
            i <= list@.len(),
            forall|k: int| 0 <= k < list@.len() ==> #[trigger] list@[k].body <= list@[k].end,
            jpegs@ == start + images_of(list@, kind, i as nat),
        decreases list@.len() - i,
    {
        let ghost before = jpegs@;
        if list[i].kind == kind {
            assert(list@[i as int].body <= list@[i as int].end);
            if let Some(span) = image_in(&list[i]) {
                jpegs.push(span);
            }
        }
        i += 1;
        assert(jpegs@ =~= start + images_of(list@, kind, i as nat));
    }
}

/// The later of two finds.
pub open spec fn later(old: Option<BoxAt>, new: Option<BoxAt>) -> Option<BoxAt> {
    match new {
        Some(b) => Some(b),
        None => old,
    }
}

/// The last of the first `n` boxes that is of a kind and not too large for
/// an EXIF block.
pub open spec fn last_block(list: Seq<BoxAt>, kind: u32, n: nat) -> Option<BoxAt>
    decreases n,
{
    if n == 0 {
        None
    } else {
        let b = list[n - 1];
        if b.kind == kind && b.end - b.body <= MAX_EXIF_BLOCK {
            Some(b)
        } else {
            last_block(list, kind, (n - 1) as nat)
        }
    }
}

fn find_block(list: &Vec<BoxAt>, kind: u32) -> (r: Option<BoxAt>)
    requires
        forall|i: int| 0 <= i < list@.len() ==> #[trigger] list@[i].body <= list@[i].end,
    ensures
        r == last_block(list@, kind, list@.len()),
        r is Some ==> list@.contains(r.unwrap()),
{
    let mut r: Option<BoxAt> = None;
    let mut i: usize = 0;
    while i < list.len()
        invariant
            i <= list@.len(),
            forall|k: int| 0 <= k < list@.len() ==> #[trigger] list@[k].body <= list@[k].end,
            r == last_block(list@, kind, i as nat),
            r is Some ==> list@.contains(r.unwrap()),
        decreases list@.len() - i,
    {
        let b = list[i];
        assert(list@[i as int].body <= list@[i as int].end);
        if b.kind == kind && b.end - b.body <= MAX_EXIF_BLOCK {
            r = Some(b);
        }
        i += 1;
    }
    r
}

/// The boxes inside Canon's `uuid` box.
pub open spec fn canon_boxes(file: Seq<u8>, b: BoxAt) -> Seq<BoxAt> {
    boxes_in(file, b.body + 16, b.end as int)
}

/// Whether a box of `moov` is Canon's `uuid` box.
pub open spec fn is_canon(file: Seq<u8>, b: BoxAt) -> bool {
    b.kind != KIND_TRAK && is_uuid(file, b, CANON_UUID)
}

/// The spans that one box of `moov` names: a track's first sample, or the
/// thumbnail in Canon's box.
pub open spec fn moov_box_spans(file: Seq<u8>, b: BoxAt) -> Seq<Span> {
    if b.kind == KIND_TRAK {
        listed(track_sample(file, b))
    } else if is_canon(file, b) {
        images_of(canon_boxes(file, b), KIND_THMB, canon_boxes(file, b).len())
    } else {
        Seq::empty()
    }
}

/// The spans that the first `n` boxes of `moov` name.
pub open spec fn moov_spans(file: Seq<u8>, list: Seq<BoxAt>, n: nat) -> Seq<Span>
    decreases n,
{
    if n == 0 {
        Seq::empty()
    } else {
        moov_spans(file, list, (n - 1) as nat) + moov_box_spans(file, list[n - 1])
    }
}

/// The EXIF block of a kind in the first `n` boxes of `moov`.
pub open spec fn moov_block(file: Seq<u8>, list: Seq<BoxAt>, kind: u32, n: nat) -> Option<BoxAt>
    decreases n,
{
    if n == 0 {
        None
    } else {
        let b = list[n - 1];
        let own = canon_boxes(file, b);
        later(
            moov_block(file, list, kind, (n - 1) as nat),
            if is_canon(file, b) {
                last_block(own, kind, own.len())
            } else {
                None
            },
        )
    }
}

/// The boxes inside the `uuid` box of the preview.
pub open spec fn preview_boxes(file: Seq<u8>, b: BoxAt) -> Seq<BoxAt> {
    boxes_in(file, b.body + PREVIEW_BOXES_AT, b.end as int)
}

/// The spans that one top-level box names.
pub open spec fn top_box_spans(file: Seq<u8>, b: BoxAt) -> Seq<Span> {
    if b.kind == KIND_MOOV {
        let inner = boxes_in(file, b.body as int, b.end as int);
        moov_spans(file, inner, inner.len())
    } else if is_uuid(file, b, PREVIEW_UUID) {
        images_of(preview_boxes(file, b), KIND_PRVW, preview_boxes(file, b).len())
    } else {
        Seq::empty()
    }
}

/// The spans that the first `n` top-level boxes name.
pub open spec fn top_spans(file: Seq<u8>, list: Seq<BoxAt>, n: nat) -> Seq<Span>
    decreases n,
{
    if n == 0 {
        Seq::empty()
    } else {
        top_spans(file, list, (n - 1) as nat) + top_box_spans(file, list[n - 1])
    }
}

/// The EXIF block of a kind in the first `n` top-level boxes.
pub open spec fn top_block(file: Seq<u8>, list: Seq<BoxAt>, kind: u32, n: nat) -> Option<BoxAt>
    decreases n,
{
    if n == 0 {
        None
    } else {
        let b = list[n - 1];
        let inner = boxes_in(file, b.body as int, b.end as int);
        later(
            top_block(file, list, kind, (n - 1) as nat),
            if b.kind == KIND_MOOV {
                moov_block(file, inner, kind, inner.len())
            } else {
                None
            },
        )
    }
}

/// The bytes of an EXIF block of a CR3.
pub open spec fn block_bytes(file: Seq<u8>, kind: u32) -> Option<Seq<u8>> {
    let tops = boxes_in(file, 0, file.len() as int);
    match top_block(file, tops, kind, tops.len()) {
        Some(b) => Some(file.subrange(b.body as int, b.end as int)),
        None => None,
    }
}

/// Whether a file is a CR3: its first box is a file type box of the brand
/// "crx ".
pub open spec fn is_cr3(file: Seq<u8>) -> bool {
    &&& file.len() >= 12
    &&& byte_order::u32_at(ByteOrder::Big, file, 4) == KIND_FTYP
    &&& byte_order::u32_at(ByteOrder::Big, file, 8) == BRAND_CRX
}

/// What a CR3 holds.
pub open spec fn cr3_found(file: Seq<u8>) -> found::FoundView {
    let tops = boxes_in(file, 0, file.len() as int);
    let ifd0 = block_bytes(file, KIND_CMT1);
    found::FoundView {
        jpegs: top_spans(file, tops, tops.len()),
        orientation: match ifd0 {
            Some(block) => match block_turn(block) {
                Some(turn) => turn,
                None => Orientation::NoTransforms,
            },
            None => Orientation::NoTransforms,
        },
        exif: match ifd0 {
            Some(block) => join::joined(block, block_bytes(file, KIND_CMT2), block_bytes(file, KIND_CMT4)),
            None => None,
        },
        exif_in_jpeg: false,
    }
}

/// The places of the three EXIF blocks that are joined.
struct Blocks {
    ifd0: Option<BoxAt>,
    exif: Option<BoxAt>,
    gps: Option<BoxAt>,
}

/// Whether a block that was found is inside the file and not too large.
spec fn block_fits(b: Option<BoxAt>, len: int) -> bool {
    match b {
        Some(b) => box_fits(b, len) && b.end - b.body <= MAX_EXIF_BLOCK,
        None => true,
    }
}

impl Blocks {
    spec fn fit(&self, len: int) -> bool {
        block_fits(self.ifd0, len) && block_fits(self.exif, len) && block_fits(self.gps, len)
    }
}

/// The last block of a kind is no larger than a block may be.
proof fn lemma_last_block_is_small(list: Seq<BoxAt>, kind: u32, n: nat, end: int)
    requires
        n <= list.len(),
        forall|i: int| 0 <= i < list.len() ==> #[trigger] list[i].body <= list[i].end && list[i].end <= end,
    ensures
        block_fits(last_block(list, kind, n), end),
    decreases n,
{
    if n > 0 {
        assert(list[n - 1].body <= list[n - 1].end && list[n - 1].end <= end);
        lemma_last_block_is_small(list, kind, (n - 1) as nat, end);
    }
}

/// Replaces a find by a later one.
fn keep_later(slot: &mut Option<BoxAt>, list: &Vec<BoxAt>, kind: u32, end: Ghost<int>)
    requires
        forall|i: int| 0 <= i < list@.len() ==> #[trigger] list@[i].body <= list@[i].end && list@[i].end <= end@,
        block_fits(*old(slot), end@),
    ensures
        *final(slot) == later(*old(slot), last_block(list@, kind, list@.len())),
        block_fits(*final(slot), end@),
{
    let own = find_block(list, kind);
    proof {
        lemma_last_block_is_small(list@, kind, list@.len(), end@);
    }
    if own.is_some() {
        *slot = own;
    }
}

/// Adds what the boxes of `moov` name.
fn add_moov(source: &Source, moov: &BoxAt, jpegs: &mut Vec<Span>, blocks: &mut Blocks)
    requires
        box_fits(*moov, source@.len() as int),
        old(blocks).fit(source@.len() as int),
    ensures
        ({
            let inner = boxes_in(source@, moov.body as int, moov.end as int);
            let n = inner.len();
            &&& final(jpegs)@ == old(jpegs)@ + moov_spans(source@, inner, n)
            &&& final(blocks).ifd0 == later(old(blocks).ifd0, moov_block(source@, inner, KIND_CMT1, n))
            &&& final(blocks).exif == later(old(blocks).exif, moov_block(source@, inner, KIND_CMT2, n))
            &&& final(blocks).gps == later(old(blocks).gps, moov_block(source@, inner, KIND_CMT4, n))
            &&& final(blocks).fit(source@.len() as int)
        }),
{
    let ghost end = source@.len() as int;
    let ghost start = jpegs@;
    let ghost first = *blocks;
    let list = boxes(source, moov.body, moov.end);
    assert(start + moov_spans(source@, list@, 0) =~= start);
    let mut i: usize = 0;
    while i < list.len()
        invariant
            i <= list@.len(),
            end == source@.len(),
            moov.end <= end,
            forall|k: int| 0 <= k < list@.len() ==> #[trigger] list@[k].body <= list@[k].end && list@[k].end <= moov.end,
            jpegs@ == start + moov_spans(source@, list@, i as nat),
            blocks.fit(end),
            blocks.ifd0 == later(first.ifd0, moov_block(source@, list@, KIND_CMT1, i as nat)),
            blocks.exif == later(first.exif, moov_block(source@, list@, KIND_CMT2, i as nat)),
            blocks.gps == later(first.gps, moov_block(source@, list@, KIND_CMT4, i as nat)),
        decreases list@.len() - i,
    {
        let inner = list[i];
        assert(list@[i as int].body <= list@[i as int].end);
        let ghost before = jpegs@;
        if inner.kind == KIND_TRAK {
            if let Some(span) = first_sample(source, &inner) {
                jpegs.push(span);
            }
            assert(jpegs@ =~= before + moov_box_spans(source@, inner));
        } else if has_uuid(source, &inner, CANON_UUID) {
            let canon = boxes(source, inner.body + 16, inner.end);
            add_images(&canon, KIND_THMB, jpegs);
            keep_later(&mut blocks.ifd0, &canon, KIND_CMT1, Ghost(end));
            keep_later(&mut blocks.exif, &canon, KIND_CMT2, Ghost(end));
            keep_later(&mut blocks.gps, &canon, KIND_CMT4, Ghost(end));
        } else {
            assert(jpegs@ =~= before + moov_box_spans(source@, inner));
        }
        i += 1;
        assert(jpegs@ =~= start + moov_spans(source@, list@, i as nat));
    }
}

/// The bytes of a block.
fn read_block(source: &Source, b: Option<BoxAt>) -> (r: Option<Vec<u8>>)
    requires
        block_fits(b, source@.len() as int),
    ensures
        match (b, r) {
            (Some(b), Some(r)) => r@ == source@.subrange(b.body as int, b.end as int) && r@.len() <= MAX_EXIF_BLOCK,
            (None, None) => true,
            _ => false,
        },
{
    match b {
        Some(b) => {
            let len: u64 = b.end - b.body;
            let bytes = source.bytes_at(b.body, len as usize);
            Some(slice_to_vec(bytes))
        },
        None => None,
    }
}

/// The JPEG candidates, the orientation and the EXIF block of a CR3.
/// `None` when the file is not a CR3.
pub fn find(source: &Source) -> (r: Option<Found>)
    ensures
        match r {
            Some(f) => is_cr3(source@) && f@ == cr3_found(source@),
            None => !is_cr3(source@),
        },
{
    let start = match source.read_at(0, 12) {
        Some(start) => start,
        None => return None,
    };
    if ByteOrder::Big.u32_from(start, 4) != KIND_FTYP || ByteOrder::Big.u32_from(start, 8) != BRAND_CRX {
        return None;
    }
    let mut found = Found::nothing();
    let mut jpegs: Vec<Span> = Vec::new();
    let mut blocks = Blocks { ifd0: None, exif: None, gps: None };
    let end: u64 = source.len();
    let tops = boxes(source, 0, end);
    assert(jpegs@ =~= top_spans(source@, tops@, 0));
    let mut i: usize = 0;
    while i < tops.len()
        invariant
            i <= tops@.len(),
            end == source@.len(),
            forall|k: int| 0 <= k < tops@.len() ==> #[trigger] tops@[k].body <= tops@[k].end && tops@[k].end <= end,
            jpegs@ == top_spans(source@, tops@, i as nat),
            blocks.fit(end as int),
            blocks.ifd0 == top_block(source@, tops@, KIND_CMT1, i as nat),
            blocks.exif == top_block(source@, tops@, KIND_CMT2, i as nat),
            blocks.gps == top_block(source@, tops@, KIND_CMT4, i as nat),
        decreases tops@.len() - i,
    {
        let top = tops[i];
        assert(tops@[i as int].body <= tops@[i as int].end);
        let ghost before = jpegs@;
        if top.kind == KIND_MOOV {
            add_moov(source, &top, &mut jpegs, &mut blocks);
        } else if has_uuid(source, &top, PREVIEW_UUID) {
            if top.end - top.body >= PREVIEW_BOXES_AT {
                let previews = boxes(source, top.body + PREVIEW_BOXES_AT, top.end);
                add_images(&previews, KIND_PRVW, &mut jpegs);
            } else {
                assert(preview_boxes(source@, top) =~= Seq::empty());
                assert(jpegs@ =~= before + top_box_spans(source@, top));
            }
        } else {
            assert(jpegs@ =~= before + top_box_spans(source@, top));
        }
        i += 1;
        assert(jpegs@ =~= top_spans(source@, tops@, i as nat));
    }
    found.jpegs = jpegs;
    let ifd0 = read_block(source, blocks.ifd0);
    let exif = read_block(source, blocks.exif);
    let gps = read_block(source, blocks.gps);
    if let Some(ifd0) = ifd0 {
        if let Some(turn) = orientation_of(ifd0.as_slice()) {
            found.orientation = turn;
        }
        let exif_slice: Option<&[u8]> = match &exif {
            Some(block) => Some(block.as_slice()),
            None => None,
        };
        let gps_slice: Option<&[u8]> = match &gps {
            Some(block) => Some(block.as_slice()),
            None => None,
        };
        found.exif = join_exif(ifd0.as_slice(), exif_slice, gps_slice);
    }
    assert(found@ == cr3_found(source@));
    Some(found)
}

} // verus!
