//! Container formats, and what is read from a file of each.
use vstd::prelude::*;
use vstd::slice::slice_to_vec;

use crate::file_io::png;
use crate::metadata::curated;
use crate::metadata::fields;
use crate::metadata;
use crate::metadata::{parse_exif, ExifData};
use crate::path;
use crate::text;

verus! {

/// A container format, as the content sniffer saw it.
#[derive(Debug)]
pub enum ImageKind {
    Jpeg,
    Png,
    WebP,
    Gif,
    Tiff,
    Bmp,
    Qoi,
    Tga,
    /// A format that the sniffer knows by another name.
    Other(String),
    /// A format that the sniffer does not know.
    Unknown,
}

/// What a container format is.
pub enum KindView {
    Jpeg,
    Png,
    WebP,
    Gif,
    Tiff,
    Bmp,
    Qoi,
    Tga,
    Other(Seq<char>),
    Unknown,
}

impl View for ImageKind {
    type V = KindView;

    open spec fn view(&self) -> KindView {
        match self {
            ImageKind::Jpeg => KindView::Jpeg,
            ImageKind::Png => KindView::Png,
            ImageKind::WebP => KindView::WebP,
            ImageKind::Gif => KindView::Gif,
            ImageKind::Tiff => KindView::Tiff,
            ImageKind::Bmp => KindView::Bmp,
            ImageKind::Qoi => KindView::Qoi,
            ImageKind::Tga => KindView::Tga,
            ImageKind::Other(name) => KindView::Other(name@),
            ImageKind::Unknown => KindView::Unknown,
        }
    }
}

/// The name that a format is shown under, before its letters are turned into
/// capitals.
pub open spec fn label_of(kind: KindView) -> Option<Seq<char>> {
    match kind {
        KindView::Jpeg => Some("JPEG"@),
        KindView::Png => Some("PNG"@),
        KindView::WebP => Some("WebP"@),
        KindView::Gif => Some("GIF"@),
        KindView::Tiff => Some("TIFF"@),
        KindView::Bmp => Some("BMP"@),
        KindView::Qoi => Some("QOI"@),
        KindView::Tga => Some("TGA"@),
        KindView::Other(_) => None,
        KindView::Unknown => None,
    }
}

/// The name that a format is shown under: its own where it has one, else the
/// sniffer's name for it or the file's extension, in capitals.
pub open spec fn format_of(kind: KindView, path: Seq<char>) -> Option<Seq<char>> {
    match label_of(kind) {
        Some(label) => Some(label),
        None => match kind {
            KindView::Other(name) => Some(text::upper_text(name)),
            _ => match path::extension_of(path) {
                Some(ext) => Some(text::upper_text(ext)),
                None => None,
            },
        },
    }
}

/// The name that a format is shown under, where it has one of its own.
pub fn format_label(kind: &ImageKind) -> (r: Option<String>)
    ensures
        curated::text_in(r) == label_of(kind@),
{
    let label = match kind {
        ImageKind::Jpeg => "JPEG",
        ImageKind::Png => "PNG",
        ImageKind::WebP => "WebP",
        ImageKind::Gif => "GIF",
        ImageKind::Tiff => "TIFF",
        ImageKind::Bmp => "BMP",
        ImageKind::Qoi => "QOI",
        ImageKind::Tga => "TGA",
        ImageKind::Other(_) => {
            return None;
        },
        ImageKind::Unknown => {
            return None;
        },
    };
    Some(label.to_owned())
}

/// The name that the format of a file is shown under. A format that the
/// sniffer does not know is named by the file's extension.
pub fn format_name(kind: &ImageKind, path: &str) -> (r: Option<String>)
    ensures
        curated::text_in(r) == format_of(kind@, path@),
{
    match format_label(kind) {
        Some(label) => Some(label),
        None => match kind {
            ImageKind::Other(name) => Some(text::to_upper(name.as_str())),
            _ => match path::extension(path) {
                Some(ext) => Some(text::to_upper(ext.as_str())),
                None => None,
            },
        },
    }
}

/// What the decoder answered when it was asked for the EXIF block.
#[derive(Debug)]
pub enum ExifRead {
    Bytes(Vec<u8>),
    Absent,
    Failed,
}

/// What the decoder's answer is.
pub enum ReadView {
    Bytes(Seq<u8>),
    Absent,
    Failed,
}

impl View for ExifRead {
    type V = ReadView;

    open spec fn view(&self) -> ReadView {
        match self {
            ExifRead::Bytes(b) => ReadView::Bytes(b@),
            ExifRead::Absent => ReadView::Absent,
            ExifRead::Failed => ReadView::Failed,
        }
    }
}

/// Whether a record says of the EXIF block what some bytes hold.
pub open spec fn is_parsed(r: ExifData, bytes: Seq<u8>) -> bool {
    metadata::is_exif_data(
        r,
        metadata::without_prefix(bytes).len() == 0,
        fields::block_fields(metadata::without_prefix(bytes)),
    )
}

/// Whether a record says of the EXIF block what the decoder's answer is: a
/// block that could not be read is unreadable.
pub open spec fn is_exif_from(r: ExifData, read: ReadView) -> bool {
    match read {
        ReadView::Bytes(b) => is_parsed(r, b),
        ReadView::Absent => r is Absent,
        ReadView::Failed => r is Unreadable,
    }
}

/// What a record says of the EXIF block, by the decoder's answer.
pub fn exif_from(read: ExifRead) -> (r: ExifData)
    ensures
        is_exif_from(r, read@),
{
    match read {
        ExifRead::Bytes(bytes) => parse_exif(bytes),
        ExifRead::Absent => ExifData::Absent,
        ExifRead::Failed => ExifData::Unreadable,
    }
}

/// Whether the end of a file is searched for a block that the decoder did not
/// find: a PNG may carry it behind its pixels.
pub fn searches_tail(kind: &ImageKind, exif: &ExifData) -> (r: bool)
    ensures
        r == (kind is Png && exif is Absent),
{
    match (kind, exif) {
        (ImageKind::Png, ExifData::Absent) => true,
        _ => false,
    }
}

/// Whether a record says of the EXIF block what it has to once the end of the
/// file was searched: a block that is found there counts where the decoder
/// found none in a PNG.
pub open spec fn is_with_tail(r: ExifData, kind: KindView, exif: ExifData, tail: Seq<u8>) -> bool {
    if kind is Png && exif is Absent {
        exists|payload: Option<Seq<u8>>| #[trigger]
            png::is_payload(tail, payload) && match payload {
                Some(b) => is_parsed(r, b),
                None => r is Absent,
            }
    } else {
        r == exif
    }
}

/// What a record says of the EXIF block once the end of the file was searched.
pub fn exif_with_tail(kind: &ImageKind, exif: ExifData, tail: &[u8]) -> (r: ExifData)
    ensures
        is_with_tail(r, kind@, exif, tail@),
{
    if !searches_tail(kind, &exif) {
        return exif;
    }
    match png::find_trailing_exif(tail) {
        Some(payload) => {
            assert(png::is_payload(tail@, Some(payload@)));
            parse_exif(slice_to_vec(payload))
        },
        None => {
            assert(png::is_payload(tail@, None));
            exif
        },
    }
}

/// Whether a file has frames to play. Every GIF has; a PNG and a WebP have
/// where they carry an animation.
pub fn has_frames(kind: &ImageKind, carries_animation: bool) -> (r: bool)
    ensures
        r == (kind is Gif || ((kind is Png || kind is WebP) && carries_animation)),
{
    match kind {
        ImageKind::Gif => true,
        ImageKind::Png => carries_animation,
        ImageKind::WebP => carries_animation,
        _ => false,
    }
}

/// The folder and the file that a path names: a file stands in its parent, and
/// anything else is the folder itself.
pub open spec fn resolved(path: Seq<char>, is_file: bool) -> (Seq<char>, Option<Seq<char>>) {
    if is_file {
        (
            match path::parent_of(path) {
                Some(p) => p,
                None => path,
            },
            path::file_name_of(path),
        )
    } else {
        (path, None)
    }
}

/// The folder and the file that a path names.
pub fn resolve_path(path: &str, is_file: bool) -> (r: (String, Option<String>))
    ensures
        (r.0@, curated::text_in(r.1)) == resolved(path@, is_file),
{
    if is_file {
        let dir = match path::parent(path) {
            Some(p) => p,
            None => path.to_owned(),
        };
        (dir, path::file_name(path))
    } else {
        (path.to_owned(), None)
    }
}

/// A format is named by its own name, one that is known by another name by that in
/// capitals, and one that is not known by the extension in capitals.
pub proof fn law_how_formats_are_named(path: Seq<char>, name: Seq<char>, e: Seq<char>)
    ensures
        format_of(KindView::Jpeg, path) == Some("JPEG"@),
        format_of(KindView::Png, path) == Some("PNG"@),
        format_of(KindView::WebP, path) == Some("WebP"@),
        format_of(KindView::Gif, path) == Some("GIF"@),
        format_of(KindView::Tiff, path) == Some("TIFF"@),
        format_of(KindView::Bmp, path) == Some("BMP"@),
        format_of(KindView::Qoi, path) == Some("QOI"@),
        format_of(KindView::Tga, path) == Some("TGA"@),
        format_of(KindView::Other(name), path) == Some(text::upper_text(name)),
        path::extension_of(path) == Some(e) ==> format_of(KindView::Unknown, path) == Some(text::upper_text(e)),
        path::extension_of(path) is None ==> format_of(KindView::Unknown, path) is None,
{
}

/// A file that is opened shows its folder at the file; anything else is the folder
/// to show.
pub proof fn law_what_a_path_opens(dir: Seq<char>, name: Seq<char>)
    requires
        path::is_name(name),
        forall|i: int| 0 <= i < name.len() ==> name[i] != '/',
        dir.len() > 0,
        path::trimmed(dir) == dir || dir == seq!['/'],
    ensures
        resolved(path::joined(dir, name), true) == (dir, Some(name)),
        resolved(dir, false) == (dir, None::<Seq<char>>),
{
    path::law_a_joined_path_splits_again(dir, name);
}

/// What a record says of an EXIF block: one that the decoder hands over is read, one
/// that it could not read is unreadable, and none is none. Behind the pixels it is
/// looked for only in a PNG in which the decoder found none.
pub proof fn law_where_the_exif_comes_from(r: ExifData, read: ReadView, kind: KindView, exif: ExifData, tail: Seq<u8>)
    ensures
        is_exif_from(r, read) && read is Failed ==> r is Unreadable,
        is_exif_from(r, read) && read is Absent ==> r is Absent,
        is_with_tail(r, kind, exif, tail) && !(kind is Png) ==> r == exif,
        is_with_tail(r, kind, exif, tail) && !(exif is Absent) ==> r == exif,
        is_with_tail(r, kind, exif, tail) && (forall|pos: int| !#[trigger] png::is_trailing_exif(tail, pos)) && exif is Absent
            ==> r is Absent,
{
    if is_with_tail(r, kind, exif, tail) && kind is Png && exif is Absent {
        let payload = choose|payload: Option<Seq<u8>>| #[trigger]
            png::is_payload(tail, payload) && match payload {
                Some(b) => is_parsed(r, b),
                None => r is Absent,
            };
        assert(png::is_payload(tail, payload));
    }
}

} // verus!
