//! Camera RAW files, shown through the JPEG the camera stored inside them.
//!
//! A camera renders a JPEG when the shot is taken and writes it into the
//! RAW file next to the sensor data. This module finds that JPEG and
//! reads it. The sensor data is never read.
//!
//! `tiff` finds it in the formats that are TIFF files, `cr3` in Canon's MP4
//! boxes and `raf` behind Fujifilm's fixed header. Each finder returns every
//! place that may hold a JPEG, and the frame header of each candidate decides
//! which one is shown.
use vstd::prelude::*;
use vstd::slice::slice_to_vec;

use crate::path;
use crate::path::has_extension;
use crate::raw::found::{Found, Orientation};
use crate::raw::jpeg::pick_for_display;
use crate::raw::source::Source;

pub mod byte_order;
pub mod cr3;
pub mod exif_block;
pub mod found;
pub mod ifd;
pub mod join;
pub mod jpeg;
pub mod layout;
pub mod olympus;
pub mod raf;
pub mod source;
pub mod tiff;

verus! {

/// The extensions of the RAW files that are shown.
pub open spec fn raw_extensions() -> Seq<&'static str> {
    seq!["arw", "cr2", "dng", "nef", "rw2"]
}

/// Whether a path has the extension of a RAW file.
pub fn is_raw(path: &str) -> (r: bool)
    ensures
        r == path::has_extension_in(path@, raw_extensions()),
{
    let extensions: [&'static str; 5] = ["arw", "cr2", "dng", "nef", "rw2"];
    assert(extensions@ =~= raw_extensions());
    has_extension(path, &extensions)
}

/// What is read from a RAW file.
pub struct RawContents {
    /// The JPEG to show, or `None` when the file has none.
    pub jpeg: Option<Vec<u8>>,
    /// The turn the RAW file's orientation tag asks for. The embedded
    /// JPEG of an ARW, CR2, DNG or NEF has no EXIF block of its own.
    pub orientation: Orientation,
    /// The file's EXIF as a TIFF block that `metadata::parse_exif` reads.
    /// `None` when the container has none.
    pub exif: Option<Vec<u8>>,
    /// Whether the orientation and the EXIF are those of the JPEG.
    pub exif_in_jpeg: bool,
}

/// Whether `f` is what the finder for the file's container gives: the TIFF
/// walk, then the CR3 boxes, then the RAF header, whichever knows the file.
/// Nothing is found in a file that none of them knows.
#[verifier::opaque]
pub open spec fn is_found(file: Seq<u8>, f: found::FoundView) -> bool {
    match tiff::tiff_header(file) {
        Some(header) => tiff::is_find(file, header, f),
        None => if cr3::is_cr3(file) {
            f == cr3::cr3_found(file)
        } else if raf::is_raf(file) {
            f == raf::raf_found(file)
        } else {
            f == found::nothing_found()
        },
    }
}

/// Whether the bytes are those of the JPEG to show among the spans that were
/// found. `None` when none of the spans holds a JPEG.
pub open spec fn is_shown(file: Seq<u8>, jpegs: Seq<found::Span>, shown: Option<Vec<u8>>) -> bool {
    match shown {
        Some(bytes) => exists|i: int| #[trigger]
            jpeg::is_pick(file, jpegs, i) && bytes@ == file.subrange(
                jpegs[i].offset as int,
                jpegs[i].offset + jpegs[i].len,
            ),
        None => forall|i: int| !jpeg::is_jpeg(file, jpegs, i),
    }
}

/// What the finder for the file's container gives.
pub fn find(source: &Source) -> (r: Found)
    ensures
        is_found(source@, r@),
{
    reveal(is_found);
    if let Some(f) = tiff::find(source) {
        return f;
    }
    if let Some(f) = cr3::find(source) {
        return f;
    }
    match raf::find(source) {
        Some(f) => f,
        None => Found::nothing(),
    }
}

/// The bytes of the JPEG to show.
fn shown_jpeg(source: &Source, jpegs: &Vec<found::Span>) -> (r: Option<Vec<u8>>)
    ensures
        is_shown(source@, jpegs@, r),
{
    match pick_for_display(source, jpegs) {
        Some(span) => {
            let ghost i = choose|i: int| jpeg::is_pick(source@, jpegs@, i) && span == #[trigger] jpegs@[i];
            assert(jpeg::is_jpeg(source@, jpegs@, i));
            let total: u64 = source.len();
            let bytes = slice_to_vec(source.bytes_at(span.offset, span.len as usize));
            assert(jpeg::is_pick(source@, jpegs@, i) && bytes@ =~= source@.subrange(
                jpegs@[i].offset as int,
                jpegs@[i].offset + jpegs@[i].len,
            ));
            Some(bytes)
        },
        None => None,
    }
}

/// Whether `r` is what is read from a RAW file, given what was found in it.
pub open spec fn is_contents(file: Seq<u8>, f: found::FoundView, r: RawContents) -> bool {
    &&& is_shown(file, f.jpegs, r.jpeg)
    &&& r.orientation == f.orientation
    &&& r.exif_in_jpeg == f.exif_in_jpeg
    &&& f.exif == match r.exif {
        Some(block) => Some(block@),
        None => None,
    }
}

/// The JPEG to show, the orientation and the EXIF of a RAW file, given its
/// bytes.
pub fn contents(file: &[u8]) -> (r: RawContents)
    ensures
        exists|f: found::FoundView| #[trigger] is_found(file@, f) && is_contents(file@, f, r),
{
    let source = Source::new(file);
    let f = find(&source);
    let ghost view = f@;
    let jpeg = shown_jpeg(&source, &f.jpegs);
    let r = RawContents { jpeg, orientation: f.orientation, exif: f.exif, exif_in_jpeg: f.exif_in_jpeg };
    assert(is_contents(file@, view, r));
    r
}

} // verus!
