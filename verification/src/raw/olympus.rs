//! The JPEGs inside the maker note of an Olympus or OM System ORF.
use vstd::prelude::*;

use crate::raw::byte_order::ByteOrder;
use crate::raw::found::Span;
use crate::raw::ifd;
use crate::raw::ifd::{count_entries, find_entry, read_ifd, TAG_EXIF_IFD};
use crate::raw::source::Source;
use crate::raw::tiff::TiffHeader;

verus! {

pub const TAG_MAKER_NOTE: u16 = 0x927C;
/// Tags of the Olympus maker note and of its camera settings IFD.
pub const TAG_OLYMPUS_THUMBNAIL: u16 = 0x0100;
pub const TAG_OLYMPUS_CAMERA_SETTINGS: u16 = 0x2020;
pub const TAG_OLYMPUS_PREVIEW_START: u16 = 0x0101;
pub const TAG_OLYMPUS_PREVIEW_LENGTH: u16 = 0x0102;

/// The first entry of an IFD with a tag: the number in its value bytes, its
/// count, and whether it holds a single value.
pub open spec fn first_of(order: ByteOrder, body: Seq<u8>, tag: u16) -> Option<(int, int, bool)> {
    match ifd::first_tagged(order, body, tag as int, ifd::entry_count(body) as nat) {
        Some(e) => Some((ifd::value_of(order, e), ifd::count_of(order, e), ifd::single_of(order, e) is Some)),
        None => None,
    }
}

fn find(order: ByteOrder, body: &[u8], tag: u16) -> (r: Option<(u32, u32, bool)>)
    requires
        ifd::is_body(body@),
    ensures
        match r {
            Some((value, count, single)) => first_of(order, body@, tag) == Some(
                (value as int, count as int, single),
            ),
            None => first_of(order, body@, tag) is None,
        },
{
    let count: usize = count_entries(body);
    match find_entry(order, body, count, tag) {
        Some(entry) => Some((entry.value_or_offset(), entry.count(), entry.single().is_some())),
        None => None,
    }
}

/// The bytes that a text of 7-bit characters stands for.
pub open spec fn starts_with(file: Seq<u8>, at: int, text: Seq<u8>) -> bool {
    file.subrange(at, at + text.len()) == text
}

/// "OLYMPUS" and a zero byte.
pub open spec fn olympus_mark() -> Seq<u8> {
    seq![0x4Fu8, 0x4C, 0x59, 0x4D, 0x50, 0x55, 0x53, 0]
}

/// "OM SYSTEM" and a zero byte.
pub open spec fn om_system_mark() -> Seq<u8> {
    seq![0x4Fu8, 0x4D, 0x20, 0x53, 0x59, 0x53, 0x54, 0x45, 0x4D, 0]
}

/// "OLYMP" and a zero byte.
pub open spec fn olymp_mark() -> Seq<u8> {
    seq![0x4Fu8, 0x4C, 0x59, 0x4D, 0x50, 0]
}

/// Where the IFD of the maker note at `note` starts, and what its offsets
/// count from. `None` for a maker note of another maker.
pub open spec fn note_layout(file: Seq<u8>, note: int) -> Option<(int, int)> {
    if note + 12 > file.len() {
        None
    } else if starts_with(file, note, olympus_mark()) {
        Some((note + 12, note))
    } else if starts_with(file, note, om_system_mark()) {
        Some((note + 16, note))
    } else if starts_with(file, note, olymp_mark()) {
        Some((note + 8, 0))
    } else {
        None
    }
}

/// Where the maker note is: IFD0 points to the Exif IFD, which points to it.
pub open spec fn note_offset(file: Seq<u8>, header: TiffHeader) -> Option<int> {
    let order = header.order;
    match ifd::ifd_body(file, order, header.ifd0 as int) {
        Some(ifd0) => match first_of(order, ifd0, TAG_EXIF_IFD) {
            Some((exif_at, _, true)) => match ifd::ifd_body(file, order, exif_at) {
                Some(exif) => match first_of(order, exif, TAG_MAKER_NOTE) {
                    Some((note, _, false)) => Some(note),
                    _ => None,
                },
                None => None,
            },
            _ => None,
        },
        None => None,
    }
}

/// The small JPEG that the maker note's IFD names.
pub open spec fn note_thumbnail(order: ByteOrder, body: Seq<u8>, base: int) -> Seq<Span> {
    match first_of(order, body, TAG_OLYMPUS_THUMBNAIL) {
        Some((offset, len, false)) => seq![Span { offset: (base + offset) as u64, len: len as u64 }],
        _ => Seq::empty(),
    }
}

/// The JPEG that the camera settings IFD names.
pub open spec fn note_preview(file: Seq<u8>, order: ByteOrder, body: Seq<u8>, base: int) -> Seq<Span> {
    match first_of(order, body, TAG_OLYMPUS_CAMERA_SETTINGS) {
        Some((at, _, true)) => match ifd::ifd_body(file, order, base + at) {
            Some(settings) => match (
                first_of(order, settings, TAG_OLYMPUS_PREVIEW_START),
                first_of(order, settings, TAG_OLYMPUS_PREVIEW_LENGTH),
            ) {
                (Some((start, _, true)), Some((len, _, true))) => seq![
                    Span { offset: (base + start) as u64, len: len as u64 },
                ],
                _ => Seq::empty(),
            },
            None => Seq::empty(),
        },
        _ => Seq::empty(),
    }
}

/// The JPEGs that the maker note of an ORF names: the small one, then the
/// one in the camera settings.
pub open spec fn olympus_spans(file: Seq<u8>, header: TiffHeader) -> Seq<Span> {
    match note_offset(file, header) {
        Some(note) => match note_layout(file, note) {
            Some((ifd_at, base)) => match ifd::ifd_body(file, header.order, ifd_at) {
                Some(body) => note_thumbnail(header.order, body, base) + note_preview(
                    file,
                    header.order,
                    body,
                    base,
                ),
                None => Seq::empty(),
            },
            None => Seq::empty(),
        },
        None => Seq::empty(),
    }
}

/// Whether the bytes of `header` start with those of `mark`.
fn has_mark(header: &[u8], mark: &[u8]) -> (r: bool)
    requires
        mark@.len() <= header@.len(),
    ensures
        r == (header@.take(mark@.len() as int) == mark@),
{
    let mut i: usize = 0;
    while i < mark.len()
        invariant
            i <= mark@.len(),
            mark@.len() <= header@.len(),
            forall|k: int| 0 <= k < i ==> header@[k] == mark@[k],
        decreases mark@.len() - i,
    {
        if header[i] != mark[i] {
            assert(header@.take(mark@.len() as int)[i as int] != mark@[i as int]);
            return false;
        }
        i += 1;
    }
    assert(header@.take(mark@.len() as int) =~= mark@);
    true
}

/// Where the maker note's IFD starts, and what its offsets count from.
fn layout(source: &Source, note: u64) -> (r: Option<(u64, u64)>)
    requires
        note <= u32::MAX,
    ensures
        match r {
            Some((ifd_at, base)) => note_layout(source@, note as int) == Some((ifd_at as int, base as int))
                && base <= u32::MAX,
            None => note_layout(source@, note as int) is None,
        },
{
    if !source.contains(note, 12) {
        return None;
    }
    let header = source.bytes_at(note, 12);
    let olympus: [u8; 8] = [0x4F, 0x4C, 0x59, 0x4D, 0x50, 0x55, 0x53, 0];
    let om_system: [u8; 10] = [0x4F, 0x4D, 0x20, 0x53, 0x59, 0x53, 0x54, 0x45, 0x4D, 0];
    let olymp: [u8; 6] = [0x4F, 0x4C, 0x59, 0x4D, 0x50, 0];
    proof {
        assert(olympus@ =~= olympus_mark());
        assert(om_system@ =~= om_system_mark());
        assert(olymp@ =~= olymp_mark());
        assert(header@.take(8) =~= source@.subrange(note as int, note + 8));
        assert(header@.take(10) =~= source@.subrange(note as int, note + 10));
        assert(header@.take(6) =~= source@.subrange(note as int, note + 6));
    }
    if has_mark(header, &olympus) {
        Some((note + 12, note))
    } else if has_mark(header, &om_system) {
        Some((note + 16, note))
    } else if has_mark(header, &olymp) {
        Some((note + 8, 0))
    } else {
        None
    }
}

/// Where the maker note is.
fn find_note(source: &Source, tiff: TiffHeader) -> (r: Option<u32>)
    ensures
        match r {
            Some(note) => note_offset(source@, tiff) == Some(note as int),
            None => note_offset(source@, tiff) is None,
        },
{
    let ifd0 = match read_ifd(source, tiff.order, tiff.ifd0) {
        Some(ifd0) => ifd0,
        None => return None,
    };
    let exif_at: u32 = match find(tiff.order, ifd0, TAG_EXIF_IFD) {
        Some((exif_at, _, true)) => exif_at,
        _ => return None,
    };
    let exif = match read_ifd(source, tiff.order, exif_at as u64) {
        Some(exif) => exif,
        None => return None,
    };
    match find(tiff.order, exif, TAG_MAKER_NOTE) {
        Some((note, _, false)) => Some(note),
        _ => None,
    }
}

/// The JPEGs of an Olympus or OM System ORF. They are inside the maker
/// note, which the Exif IFD points to. The maker note is a header and an
/// IFD:
///
/// - Tag 0x0100 is a 160x120 JPEG.
/// - Tag 0x2020 points to the camera settings IFD, where tags 0x0101 and
///   0x0102 are the offset and the length of a 1600x1200 or 3200x2400
///   JPEG.
///
/// The header is "OLYMPUS\0" and four more bytes, or "OM SYSTEM\0\0\0" and
/// four more bytes on bodies from 2022 on, and the offsets in the maker
/// note count from its start. Bodies up to about 2007 have "OLYMP\0"
/// and two more bytes, offsets that count from the start of the file, and
/// only the small JPEG.
pub fn olympus_jpegs(source: &Source, tiff: TiffHeader) -> (r: Vec<Span>)
    ensures
        r@ == olympus_spans(source@, tiff),
{
    let mut jpegs: Vec<Span> = Vec::new();
    let order = tiff.order;
    let note: u64 = match find_note(source, tiff) {
        Some(note) => note as u64,
        None => return jpegs,
    };
    let (ifd_at, base): (u64, u64) = match layout(source, note) {
        Some(at) => at,
        None => return jpegs,
    };
    let body = match read_ifd(source, order, ifd_at) {
        Some(body) => body,
        None => return jpegs,
    };
    if let Some((offset, len, false)) = find(order, body, TAG_OLYMPUS_THUMBNAIL) {
        jpegs.push(Span { offset: base + offset as u64, len: len as u64 });
    }
    assert(jpegs@ =~= note_thumbnail(order, body@, base as int));
    let ghost thumbnail = jpegs@;
    if let Some((settings_at, _, true)) = find(order, body, TAG_OLYMPUS_CAMERA_SETTINGS) {
        if let Some(settings) = read_ifd(source, order, base + settings_at as u64) {
            let start = find(order, settings, TAG_OLYMPUS_PREVIEW_START);
            let len = find(order, settings, TAG_OLYMPUS_PREVIEW_LENGTH);
            if let (Some((start, _, true)), Some((len, _, true))) = (start, len) {
                jpegs.push(Span { offset: base + start as u64, len: len as u64 });
            }
        }
    }
    assert(jpegs@ =~= thumbnail + note_preview(source@, order, body@, base as int));
    jpegs
}

} // verus!
