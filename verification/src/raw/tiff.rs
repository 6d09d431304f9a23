//! The RAW formats that are TIFF files: a chain of image file directories
//! (IFDs), each a list of tags, and some tags point to child IFDs. The
//! JPEG is in a different place in each format:
//!
//! - ARW: IFD0, as the `JPEGInterchangeFormat` offset and length tags.
//!   Bodies from 2020 on have a second, full-size one in a later IFD.
//! - NEF: a child IFD of IFD0, as the same pair of tags.
//! - CR2: IFD0, as a single strip with JPEG compression.
//! - DNG: a child IFD, as a single strip with JPEG compression.
//! - RW2: IFD0, in Panasonic's tag 0x002E.
//! - ORF: inside the maker note, see `olympus_jpegs`.
//!
//! So every IFD is walked and every JPEG in it is collected. A CR2 and a
//! DNG may store the sensor data as a lossless JPEG too. The frame header
//! check in `pick_for_display` tells the two apart.
use vstd::prelude::*;

use crate::raw::byte_order;
use crate::raw::byte_order::ByteOrder;
use crate::raw::exif_block;
use crate::raw::exif_block::exif_block;
use crate::raw::found;
use crate::raw::found::{insert_span, turn_from, Found, Orientation, Span};
use crate::raw::ifd;
use crate::raw::ifd::{
    count_entries, entry_from, read_ifd, read_order_mark, Entry, MAX_SUB_IFDS, TAG_ORIENTATION,
    TIFF_MAGIC, TYPE_IFD, TYPE_LONG,
};
use crate::raw::olympus;
use crate::raw::olympus::olympus_jpegs;
use crate::raw::source::Source;

verus! {

/// Limits for the walk. The file is untrusted input: offsets may point
/// anywhere and IFDs may point at each other in a loop.
pub const MAX_IFDS: usize = 64;

pub const RW2_MAGIC: u16 = 0x55;
/// An ORF has the letters "RO" or "RS" where a TIFF file has 42.
pub const ORF_MAGIC_RO: u16 = 0x4F52;
pub const ORF_MAGIC_RS: u16 = 0x5352;

pub const TAG_PANASONIC_JPEG: u16 = 0x002E;
pub const TAG_COMPRESSION: u16 = 0x0103;
pub const TAG_PHOTOMETRIC: u16 = 0x0106;
pub const TAG_STRIP_OFFSETS: u16 = 0x0111;
pub const TAG_STRIP_BYTE_COUNTS: u16 = 0x0117;
pub const TAG_SUB_IFDS: u16 = 0x014A;
pub const TAG_JPEG_OFFSET: u16 = 0x0201;
pub const TAG_JPEG_LENGTH: u16 = 0x0202;

pub const COMPRESSION_OLD_JPEG: u32 = 6;
pub const COMPRESSION_JPEG: u32 = 7;
/// The photometric interpretation of sensor data, a color filter array.
pub const PHOTOMETRIC_CFA: u32 = 32803;

/// The start of a TIFF-based file.
#[derive(Debug, Clone, Copy, PartialEq, Eq, Structural)]
pub struct TiffHeader {
    pub order: ByteOrder,
    pub magic: u16,
    pub ifd0: u64,
}

/// The header that a file starts with, when it is TIFF-based.
pub open spec fn tiff_header(file: Seq<u8>) -> Option<TiffHeader> {
    if file.len() < 8 {
        None
    } else {
        match ifd::order_mark(file) {
            Some(order) => {
                let magic = byte_order::u16_at(order, file, 2);
                if magic == TIFF_MAGIC || magic == RW2_MAGIC || magic == ORF_MAGIC_RO || magic == ORF_MAGIC_RS {
                    Some(TiffHeader {
                        order,
                        magic: magic as u16,
                        ifd0: byte_order::u32_at(order, file, 4) as u64,
                    })
                } else {
                    None
                }
            },
            None => None,
        }
    }
}

/// The offsets in a SubIFDs entry: the one in the entry itself, or the first
/// of an array somewhere else in the file.
pub open spec fn sub_ifds_of(file: Seq<u8>, order: ByteOrder, e: Seq<u8>) -> Seq<u64> {
    let kind = ifd::kind_of(order, e);
    let named = ifd::count_of(order, e);
    let count = if named < MAX_SUB_IFDS { named } else { MAX_SUB_IFDS as int };
    let at = ifd::value_of(order, e);
    if kind != TYPE_LONG && kind != TYPE_IFD {
        Seq::empty()
    } else if count <= 1 {
        match ifd::single_of(order, e) {
            Some(v) => seq![v as u64],
            None => Seq::empty(),
        }
    } else if at + 4 * count > file.len() {
        Seq::empty()
    } else {
        Seq::new(count as nat, |i: int| byte_order::u32_at(order, file, at + 4 * i) as u64)
    }
}

/// The offsets in a SubIFDs tag. One offset sits in the entry, more are
/// an array somewhere else in the file.
pub fn sub_ifds(source: &Source, entry: &Entry) -> (r: Vec<u64>)
    requires
        entry.wf(),
    ensures
        r@ == sub_ifds_of(source@, entry.order, entry.bytes@),
{
    let mut r: Vec<u64> = Vec::new();
    let kind: u16 = entry.kind();
    if kind != TYPE_LONG && kind != TYPE_IFD {
        return r;
    }
    let named: u32 = entry.count();
    let count: usize = if named < MAX_SUB_IFDS as u32 { named as usize } else { MAX_SUB_IFDS };
    if count <= 1 {
        if let Some(v) = entry.single() {
            r.push(v as u64);
        }
        assert(r@ =~= sub_ifds_of(source@, entry.order, entry.bytes@));
        return r;
    }
    let at: u64 = entry.value_or_offset() as u64;
    if !source.contains(at, 4 * count as u64) {
        return r;
    }
    let array = source.bytes_at(at, 4 * count);
    let mut i: usize = 0;
    while i < count
        invariant
            i <= count,
            array@.len() == 4 * count,
            count <= MAX_SUB_IFDS,
            at + 4 * count <= source@.len(),
            array@ == source@.subrange(at as int, at + 4 * count),
            r@ == Seq::new(
                i as nat,
                |k: int| byte_order::u32_at(entry.order, source@, at + 4 * k) as u64,
            ),
        decreases count - i,
    {
        let v: u32 = entry.order.u32_from(array, 4 * i);
        r.push(v as u64);
        i += 1;
        assert(r@ =~= Seq::new(
            i as nat,
            |k: int| byte_order::u32_at(entry.order, source@, at + 4 * k) as u64,
        ));
    }
    r
}

/// The child IFDs that a body names: those of its last SubIFDs entry.
pub open spec fn children_of(file: Seq<u8>, order: ByteOrder, body: Seq<u8>, n: nat) -> Seq<u64> {
    match ifd::last_tagged(order, body, TAG_SUB_IFDS as int, n) {
        Some(e) => sub_ifds_of(file, order, e),
        None => Seq::empty(),
    }
}

/// The IFDs that the walk visits, in order, given those it still has to look
/// at and those it has seen. The last pending one is next. No IFD is visited
/// twice and no more than `MAX_IFDS` are.
pub open spec fn visited(file: Seq<u8>, order: ByteOrder, pending: Seq<u64>, seen: Seq<u64>) -> Seq<u64>
    decreases MAX_IFDS - seen.len(), pending.len(),
{
    if pending.len() == 0 {
        seen
    } else {
        let offset = pending.last();
        let rest = pending.drop_last();
        if offset == 0 || seen.contains(offset) || seen.len() >= MAX_IFDS {
            visited(file, order, rest, seen)
        } else {
            match ifd::ifd_body(file, order, offset as int) {
                None => visited(file, order, rest, seen.push(offset)),
                Some(body) => visited(
                    file,
                    order,
                    rest.push(ifd::next_ifd(order, body) as u64) + children_of(
                        file,
                        order,
                        body,
                        ifd::entry_count(body) as nat,
                    ),
                    seen.push(offset),
                ),
            }
        }
    }
}

/// Whether one of the first `n` entries is Panasonic's JPEG tag and gives
/// this span. The value is the JPEG itself, so the count is its length.
pub open spec fn names_panasonic(order: ByteOrder, body: Seq<u8>, n: int, s: Span) -> bool {
    exists|i: int|
        0 <= i < n && ifd::tag_of(order, #[trigger] ifd::entry_at(body, i)) == TAG_PANASONIC_JPEG
            && s.offset == ifd::value_of(order, ifd::entry_at(body, i))
            && s.len == ifd::count_of(order, ifd::entry_at(body, i))
}

/// Whether the JPEG offset and length tags give this span.
pub open spec fn names_jpeg(order: ByteOrder, body: Seq<u8>, n: nat, s: Span) -> bool {
    &&& ifd::last_single(order, body, TAG_JPEG_OFFSET as int, n) == Some(s.offset as int)
    &&& ifd::last_single(order, body, TAG_JPEG_LENGTH as int, n) == Some(s.len as int)
}

/// Whether the strip tags give this span, as a JPEG that is not sensor data.
pub open spec fn names_strip(order: ByteOrder, body: Seq<u8>, n: nat, s: Span) -> bool {
    let compression = ifd::last_single(order, body, TAG_COMPRESSION as int, n);
    &&& compression == Some(COMPRESSION_OLD_JPEG as int) || compression == Some(COMPRESSION_JPEG as int)
    &&& ifd::last_single(order, body, TAG_PHOTOMETRIC as int, n) != Some(PHOTOMETRIC_CFA as int)
    &&& ifd::last_single(order, body, TAG_STRIP_OFFSETS as int, n) == Some(s.offset as int)
    &&& ifd::last_single(order, body, TAG_STRIP_BYTE_COUNTS as int, n) == Some(s.len as int)
}

/// Whether a body names this span as a place that may hold a JPEG.
pub open spec fn names_span(order: ByteOrder, magic: u16, body: Seq<u8>, s: Span) -> bool {
    let n = ifd::entry_count(body);
    ||| magic == RW2_MAGIC && names_panasonic(order, body, n, s)
    ||| names_jpeg(order, body, n as nat, s)
    ||| names_strip(order, body, n as nat, s)
}

/// Whether the IFD at an offset can be read and names this span.
pub open spec fn ifd_names_span(file: Seq<u8>, order: ByteOrder, magic: u16, offset: u64, s: Span) -> bool {
    match ifd::ifd_body(file, order, offset as int) {
        Some(body) => names_span(order, magic, body, s),
        None => false,
    }
}

/// Whether one of the visited IFDs names this span.
pub open spec fn some_ifd_names(file: Seq<u8>, order: ByteOrder, magic: u16, ifds: Seq<u64>, s: Span) -> bool {
    exists|k: int| 0 <= k < ifds.len() && ifd_names_span(file, order, magic, #[trigger] ifds[k], s)
}

/// The turn that the last valid orientation entry among the first `n` asks
/// for, or `NoTransforms`.
pub open spec fn last_turn(order: ByteOrder, body: Seq<u8>, n: nat) -> Orientation
    decreases n,
{
    if n == 0 {
        Orientation::NoTransforms
    } else {
        let e = ifd::entry_at(body, n - 1);
        match turn_in(order, e) {
            Some(turn) => turn,
            None => last_turn(order, body, (n - 1) as nat),
        }
    }
}

/// The turn that an entry asks for, when it is a valid orientation entry.
pub open spec fn turn_in(order: ByteOrder, e: Seq<u8>) -> Option<Orientation> {
    if ifd::tag_of(order, e) == TAG_ORIENTATION {
        match ifd::single_of(order, e) {
            Some(v) => found::turn_of(v),
            None => None,
        }
    } else {
        None
    }
}

/// The orientation that IFD0 asks for. An IFD0 at offset 0 is no IFD.
pub open spec fn ifd0_turn(file: Seq<u8>, header: TiffHeader) -> Orientation {
    if header.ifd0 == 0 {
        Orientation::NoTransforms
    } else {
        match ifd::ifd_body(file, header.order, header.ifd0 as int) {
            Some(body) => last_turn(header.order, body, ifd::entry_count(body) as nat),
            None => Orientation::NoTransforms,
        }
    }
}

/// What one IFD says.
struct IfdFacts {
    compression: Option<u32>,
    photometric: Option<u32>,
    strip: (Option<u32>, Option<u32>),
    jpeg: (Option<u32>, Option<u32>),
    children: Vec<u64>,
    turn: Orientation,
}

/// Whether an optional number is the one of the model.
spec fn same(v: Option<u32>, m: Option<int>) -> bool {
    match v {
        Some(v) => m == Some(v as int),
        None => m is None,
    }
}

impl IfdFacts {
    spec fn of(&self, file: Seq<u8>, order: ByteOrder, body: Seq<u8>, n: nat) -> bool {
        &&& same(self.compression, ifd::last_single(order, body, TAG_COMPRESSION as int, n))
        &&& same(self.photometric, ifd::last_single(order, body, TAG_PHOTOMETRIC as int, n))
        &&& same(self.strip.0, ifd::last_single(order, body, TAG_STRIP_OFFSETS as int, n))
        &&& same(self.strip.1, ifd::last_single(order, body, TAG_STRIP_BYTE_COUNTS as int, n))
        &&& same(self.jpeg.0, ifd::last_single(order, body, TAG_JPEG_OFFSET as int, n))
        &&& same(self.jpeg.1, ifd::last_single(order, body, TAG_JPEG_LENGTH as int, n))
        &&& self.children@ == children_of(file, order, body, n)
        &&& self.turn == last_turn(order, body, n)
    }
}

impl IfdFacts {
    fn nothing() -> (r: Self)
        ensures
            forall|file: Seq<u8>, order: ByteOrder, body: Seq<u8>| #[trigger] r.of(file, order, body, 0),
    {
        IfdFacts {
            compression: None,
            photometric: None,
            strip: (None, None),
            jpeg: (None, None),
            children: Vec::new(),
            turn: Orientation::NoTransforms,
        }
    }

    /// Takes in the `i`-th entry of a body.
    fn note(&mut self, source: &Source, entry: &Entry, body: Ghost<Seq<u8>>, i: Ghost<nat>)
        requires
            entry.wf(),
            entry.bytes@ == ifd::entry_at(body@, i@ as int),
            old(self).of(source@, entry.order, body@, i@),
        ensures
            final(self).of(source@, entry.order, body@, i@ + 1),
    {
        let tag: u16 = entry.tag();
        if tag == TAG_COMPRESSION {
            self.compression = entry.single();
        } else if tag == TAG_PHOTOMETRIC {
            self.photometric = entry.single();
        } else if tag == TAG_STRIP_OFFSETS {
            self.strip.0 = entry.single();
        } else if tag == TAG_STRIP_BYTE_COUNTS {
            self.strip.1 = entry.single();
        } else if tag == TAG_JPEG_OFFSET {
            self.jpeg.0 = entry.single();
        } else if tag == TAG_JPEG_LENGTH {
            self.jpeg.1 = entry.single();
        } else if tag == TAG_ORIENTATION {
            if let Some(v) = entry.single() {
                if let Some(turn) = turn_from(v) {
                    self.turn = turn;
                }
            }
        } else if tag == TAG_SUB_IFDS {
            self.children = sub_ifds(source, entry);
        }
    }
}

/// Adds the JPEGs that Panasonic's tag names in an RW2.
fn collect_panasonic(order: ByteOrder, body: &[u8], jpegs: &mut Vec<Span>)
    requires
        ifd::is_body(body@),
        found::spans_sorted(old(jpegs)@),
    ensures
        found::spans_sorted(final(jpegs)@),
        forall|s: Span| #[trigger] final(jpegs)@.contains(s) <==> old(jpegs)@.contains(s)
            || names_panasonic(order, body@, ifd::entry_count(body@), s),
{
    let count: usize = count_entries(body);
    let ghost start = jpegs@;
    let mut i: usize = 0;
    while i < count
        invariant
            i <= count,
            12 * count + 4 == body@.len(),
            found::spans_sorted(jpegs@),
            forall|s: Span| #[trigger] jpegs@.contains(s) <==> start.contains(s)
                || names_panasonic(order, body@, i as int, s),
        decreases count - i,
    {
        let entry = entry_from(order, body, i);
        let ghost e = ifd::entry_at(body@, i as int);
        let ghost before = jpegs@;
        if entry.tag() == TAG_PANASONIC_JPEG {
            insert_span(jpegs, Span { offset: entry.value_or_offset() as u64, len: entry.count() as u64 });
        }
        assert forall|s: Span| #[trigger] jpegs@.contains(s) <==> start.contains(s)
            || names_panasonic(order, body@, i + 1, s) by {
            assert(before.contains(s) <==> start.contains(s) || names_panasonic(order, body@, i as int, s));
            let here = ifd::tag_of(order, e) == TAG_PANASONIC_JPEG && s.offset == ifd::value_of(order, e)
                && s.len == ifd::count_of(order, e);
            if here {
                assert(ifd::tag_of(order, ifd::entry_at(body@, i as int)) == TAG_PANASONIC_JPEG);
                assert(names_panasonic(order, body@, i + 1, s));
            }
            if names_panasonic(order, body@, i as int, s) {
                let k = choose|k: int|
                    0 <= k < i && ifd::tag_of(order, #[trigger] ifd::entry_at(body@, k)) == TAG_PANASONIC_JPEG
                        && s.offset == ifd::value_of(order, ifd::entry_at(body@, k))
                        && s.len == ifd::count_of(order, ifd::entry_at(body@, k));
                assert(0 <= k < i + 1 && ifd::tag_of(order, ifd::entry_at(body@, k)) == TAG_PANASONIC_JPEG);
                assert(names_panasonic(order, body@, i + 1, s));
            }
        }
        i += 1;
    }
}

/// Reads the entries of one IFD and adds the JPEGs that it names. Gives its
/// child IFDs and the turn that it asks for.
fn collect_ifd(source: &Source, order: ByteOrder, magic: u16, body: &[u8], jpegs: &mut Vec<Span>) -> (r: (Vec<u64>, Orientation))
    requires
        ifd::is_body(body@),
        found::spans_sorted(old(jpegs)@),
    ensures
        found::spans_sorted(final(jpegs)@),
        forall|s: Span| #[trigger] final(jpegs)@.contains(s) <==> old(jpegs)@.contains(s)
            || names_span(order, magic, body@, s),
        r.0@ == children_of(source@, order, body@, ifd::entry_count(body@) as nat),
        r.1 == last_turn(order, body@, ifd::entry_count(body@) as nat),
{
    let count: usize = count_entries(body);
    let mut facts = IfdFacts::nothing();
    let mut i: usize = 0;
    while i < count
        invariant
            i <= count,
            12 * count + 4 == body@.len(),
            facts.of(source@, order, body@, i as nat),
        decreases count - i,
    {
        let entry = entry_from(order, body, i);
        facts.note(source, &entry, Ghost(body@), Ghost(i as nat));
        i += 1;
    }
    if magic == RW2_MAGIC {
        collect_panasonic(order, body, jpegs);
    }
    if let (Some(offset), Some(len)) = facts.jpeg {
        insert_span(jpegs, Span { offset: offset as u64, len: len as u64 });
    }
    let jpeg_compressed: bool = match facts.compression {
        Some(c) => c == COMPRESSION_OLD_JPEG || c == COMPRESSION_JPEG,
        None => false,
    };
    let sensor_data: bool = match facts.photometric {
        Some(p) => p == PHOTOMETRIC_CFA,
        None => false,
    };
    if jpeg_compressed && !sensor_data {
        if let (Some(offset), Some(len)) = facts.strip {
            insert_span(jpegs, Span { offset: offset as u64, len: len as u64 });
        }
    }
    (facts.children, facts.turn)
}

/// Whether an offset is among those seen.
fn has_seen(seen: &Vec<u64>, offset: u64) -> (r: bool)
    ensures
        r == seen@.contains(offset),
{
    let mut i: usize = 0;
    while i < seen.len()
        invariant
            i <= seen@.len(),
            forall|k: int| 0 <= k < i ==> seen@[k] != offset,
        decreases seen@.len() - i,
    {
        if seen[i] == offset {
            assert(seen@[i as int] == offset);
            return true;
        }
        i += 1;
    }
    false
}

/// The header of a TIFF-based file.
fn read_header(source: &Source) -> (r: Option<TiffHeader>)
    ensures
        r == tiff_header(source@),
{
    let header = match source.read_at(0, 8) {
        Some(header) => header,
        None => return None,
    };
    assert(header@ =~= source@.take(8));
    let order = match read_order_mark(header) {
        Some(order) => order,
        None => return None,
    };
    let magic: u16 = order.u16_from(header, 2);
    if magic != TIFF_MAGIC && magic != RW2_MAGIC && magic != ORF_MAGIC_RO && magic != ORF_MAGIC_RS {
        return None;
    }
    Some(TiffHeader { order, magic, ifd0: order.u32_from(header, 4) as u64 })
}

/// The IFDs of a TIFF-based file that the walk visits.
pub open spec fn visited_ifds(file: Seq<u8>, header: TiffHeader) -> Seq<u64> {
    visited(file, header.order, seq![header.ifd0], Seq::empty())
}

/// Whether `f` is what a walk finds in a TIFF-based file: every span that a
/// visited IFD names, each once and in order, and IFD0's orientation.
pub open spec fn is_walk(file: Seq<u8>, header: TiffHeader, f: found::FoundView) -> bool {
    &&& found::spans_sorted(f.jpegs)
    &&& forall|s: Span| #[trigger] f.jpegs.contains(s) <==> some_ifd_names(
        file,
        header.order,
        header.magic,
        visited_ifds(file, header),
        s,
    )
    &&& f.orientation == ifd0_turn(file, header)
    &&& f.exif is None
    &&& !f.exif_in_jpeg
}

/// Walk every IFD of a TIFF-based RAW file and collect the places that
/// may hold a JPEG, plus IFD0's orientation. A file that is not
/// TIFF-based gives no header and nothing found. An IFD that cannot be
/// read is skipped and the walk goes on.
pub fn walk(source: &Source) -> (r: (Found, Option<TiffHeader>))
    ensures
        r.1 == tiff_header(source@),
        match r.1 {
            Some(header) => is_walk(source@, header, r.0@),
            None => r.0@ == found::nothing_found(),
        },
{
    let mut found = Found::nothing();
    let header = match read_header(source) {
        Some(header) => header,
        None => return (found, None),
    };
    let order = header.order;
    let magic: u16 = header.magic;
    let mut jpegs: Vec<Span> = Vec::new();
    let mut turn = Orientation::NoTransforms;
    let mut pending: Vec<u64> = Vec::new();
    pending.push(header.ifd0);
    let mut seen: Vec<u64> = Vec::new();
    assert(pending@ =~= seq![header.ifd0]);
    assert(seen@ =~= Seq::<u64>::empty());
    while pending.len() > 0
        invariant
            order == header.order,
            magic == header.magic,
            seen@.len() <= MAX_IFDS,
            visited(source@, order, pending@, seen@) == visited_ifds(source@, header),
            found::spans_sorted(jpegs@),
            forall|s: Span| #[trigger] jpegs@.contains(s) <==> some_ifd_names(source@, order, magic, seen@, s),
            seen@.len() == 0 ==> turn == Orientation::NoTransforms && (pending@ == seq![header.ifd0] || (
            pending@.len() == 0 && header.ifd0 == 0)),
            seen@.len() > 0 ==> turn == ifd0_turn(source@, header),
        decreases MAX_IFDS - seen@.len(), pending@.len(),
    {
        let ghost pending_before = pending@;
        let ghost seen_before = seen@;
        let ghost jpegs_before = jpegs@;
        let offset: u64 = match pending.pop() {
            Some(offset) => offset,
            None => 0,
        };
        assert(offset == pending_before.last());
        assert(pending@ =~= pending_before.drop_last());
        if offset == 0 || has_seen(&seen, offset) || seen.len() == MAX_IFDS {
            assert(visited(source@, order, pending@, seen@) == visited_ifds(source@, header));
            continue ;
        }
        let is_ifd0: bool = seen.len() == 0;
        seen.push(offset);
        match read_ifd(source, order, offset) {
            None => {
                proof {
                    lemma_one_more_ifd(source@, order, magic, seen_before, offset);
                }
            },
            Some(body) => {
                let (children, own_turn) = collect_ifd(source, order, magic, body, &mut jpegs);
                if is_ifd0 {
                    turn = own_turn;
                }
                let mut children = children;
                let count: usize = count_entries(body);
                let next: u64 = order.u32_from(body, 12 * count) as u64;
                pending.push(next);
                let ghost own = children@;
                pending.append(&mut children);
                proof {
                    assert(pending@ =~= pending_before.drop_last().push(next) + own);
                    lemma_one_more_ifd(source@, order, magic, seen_before, offset);
                    assert forall|s: Span| #[trigger] jpegs@.contains(s) <==> some_ifd_names(
                        source@,
                        order,
                        magic,
                        seen@,
                        s,
                    ) by {
                        assert(jpegs_before.contains(s) <==> some_ifd_names(source@, order, magic, seen_before, s));
                        assert(ifd_names_span(source@, order, magic, offset, s) == names_span(order, magic, body@, s));
                    }
                }
            },
        }
    }
    found.jpegs = jpegs;
    found.orientation = turn;
    (found, Some(header))
}

/// A longer list of IFDs names what the list named and what the new one does.
proof fn lemma_one_more_ifd(file: Seq<u8>, order: ByteOrder, magic: u16, ifds: Seq<u64>, offset: u64)
    ensures
        forall|s: Span|
            #![trigger some_ifd_names(file, order, magic, ifds.push(offset), s)]
            some_ifd_names(file, order, magic, ifds.push(offset), s) <==> some_ifd_names(
                file,
                order,
                magic,
                ifds,
                s,
            ) || ifd_names_span(file, order, magic, offset, s),
{
    let more = ifds.push(offset);
    assert forall|s: Span|
        #![trigger some_ifd_names(file, order, magic, more, s)]
        some_ifd_names(file, order, magic, more, s) <==> some_ifd_names(file, order, magic, ifds, s)
            || ifd_names_span(file, order, magic, offset, s) by {
        if some_ifd_names(file, order, magic, ifds, s) {
            let k = choose|k: int| 0 <= k < ifds.len() && ifd_names_span(file, order, magic, #[trigger] ifds[k], s);
            assert(more[k] == ifds[k]);
        }
        if ifd_names_span(file, order, magic, offset, s) {
            assert(more[ifds.len() as int] == offset);
        }
        if some_ifd_names(file, order, magic, more, s) {
            let k = choose|k: int| 0 <= k < more.len() && ifd_names_span(file, order, magic, #[trigger] more[k], s);
            if k < ifds.len() {
                assert(more[k] == ifds[k]);
            }
        }
    }
}

/// The walk ends however the IFDs point at each other: it visits no IFD
/// twice, none at offset 0, and at most `MAX_IFDS`.
pub proof fn law_walk_visits_each_ifd_once(file: Seq<u8>, header: TiffHeader)
    ensures
        visited_ifds(file, header).no_duplicates(),
        visited_ifds(file, header).len() <= MAX_IFDS,
        !visited_ifds(file, header).contains(0),
{
    lemma_visited_once(file, header.order, seq![header.ifd0], Seq::empty());
}

proof fn lemma_visited_once(file: Seq<u8>, order: ByteOrder, pending: Seq<u64>, seen: Seq<u64>)
    requires
        seen.no_duplicates(),
        seen.len() <= MAX_IFDS,
        !seen.contains(0),
    ensures
        visited(file, order, pending, seen).no_duplicates(),
        visited(file, order, pending, seen).len() <= MAX_IFDS,
        !visited(file, order, pending, seen).contains(0),
    decreases MAX_IFDS - seen.len(), pending.len(),
{
    if pending.len() > 0 {
        let offset = pending.last();
        let rest = pending.drop_last();
        if offset == 0 || seen.contains(offset) || seen.len() >= MAX_IFDS {
            lemma_visited_once(file, order, rest, seen);
        } else {
            let more = seen.push(offset);
            assert(!more.contains(0)) by {
                if more.contains(0) {
                    let k = choose|k: int| 0 <= k < more.len() && more[k] == 0;
                    if k < seen.len() {
                        assert(seen[k] == 0);
                    }
                }
            }
            assert(more.no_duplicates());
            match ifd::ifd_body(file, order, offset as int) {
                None => lemma_visited_once(file, order, rest, more),
                Some(body) => lemma_visited_once(
                    file,
                    order,
                    rest.push(ifd::next_ifd(order, body) as u64) + children_of(
                        file,
                        order,
                        body,
                        ifd::entry_count(body) as nat,
                    ),
                    more,
                ),
            }
        }
    }
}

/// Whether the magic number is that of an Olympus ORF.
pub open spec fn is_orf(magic: u16) -> bool {
    magic == ORF_MAGIC_RO || magic == ORF_MAGIC_RS
}

/// Whether `f` is what is found in a TIFF-based file: the spans of the walk,
/// then those of an ORF's maker note, and the EXIF block.
pub open spec fn is_find(file: Seq<u8>, header: TiffHeader, f: found::FoundView) -> bool {
    let extra = if is_orf(header.magic) {
        olympus::olympus_spans(file, header)
    } else {
        Seq::empty()
    };
    let walked = f.jpegs.take(f.jpegs.len() - extra.len());
    &&& f.jpegs.len() >= extra.len()
    &&& f.jpegs == walked + extra
    &&& is_walk(file, header, found::FoundView { jpegs: walked, exif: None, ..f })
    &&& f.exif == Some(exif_block::exif_block_of(file, header))
}

/// The JPEG candidates, the orientation and the EXIF block of a TIFF-based
/// RAW file. `None` when the file is not TIFF-based.
pub fn find(source: &Source) -> (r: Option<Found>)
    ensures
        match r {
            Some(f) => match tiff_header(source@) {
                Some(header) => is_find(source@, header, f@),
                None => false,
            },
            None => tiff_header(source@) is None,
        },
{
    let (mut found, header) = walk(source);
    let tiff = match header {
        Some(tiff) => tiff,
        None => return None,
    };
    let ghost walked = found.jpegs@;
    let ghost turn = found.orientation;
    let ghost mut extra = Seq::<Span>::empty();
    if tiff.magic == ORF_MAGIC_RO || tiff.magic == ORF_MAGIC_RS {
        let mut more = olympus_jpegs(source, tiff);
        proof {
            extra = more@;
        }
        found.jpegs.append(&mut more);
    }
    let block = exif_block(source, tiff);
    found.exif = Some(block);
    proof {
        assert(found.jpegs@ =~= walked + extra);
        assert(found.jpegs@.take(found.jpegs@.len() - extra.len()) =~= walked);
    }
    Some(found)
}

} // verus!
