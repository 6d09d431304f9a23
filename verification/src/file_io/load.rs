//! Opening a picture: its pixels, and the facts about its file.
use std::io::Cursor;

use image::DynamicImage::{ImageLuma8, ImageLumaA8, ImageRgb32F, ImageRgb8, ImageRgba32F, ImageRgba8};
use image::{GenericImageView, ImageDecoder, ImageFormat, ImageReader, Limits};
use vstd::prelude::*;
use vstd::slice::slice_subrange;

use crate::decode::{Layout, Samples, SamplesView, Stored};
use crate::file_io::format::{
    exif_from, exif_with_tail, format_name, searches_tail, ExifRead, ImageKind, KindView, ReadView,
};
use crate::file_io::png;
use crate::file_io::png::tail_start;
use crate::file_io::webp;
use crate::file_io::webp::still_frame_fits;
use crate::metadata::curated;
use crate::metadata::{parse_exif, ExifData, MetadataRecord};
use crate::raw;
use crate::raw::found;
use crate::raw::found::{turn_from, Orientation};
use crate::raw::RawContents;

verus! {

/// Why the outside decoder refused a file.
#[verifier::external_type_specification]
#[verifier::external_body]
pub struct ExImageError(image::ImageError);

/// Why a picture could not be opened.
#[derive(Debug)]
pub enum LoadError {
    /// The outside decoder refused the file.
    Refused(image::ImageError),
    /// The first frame of an animation holds a picture that does not fit.
    FrameSize,
}

/// The container format of a file, by its first bytes and, where these tell
/// nothing, by its extension.
pub uninterp spec fn guessed_kind(file: Seq<u8>, path: Seq<char>) -> KindView;

/// `image::ImageReader::with_guessed_format` and `image::ImageReader::format`,
/// after `jxl_oxide::integration::register_image_decoding_hook`: the container
/// format of a file. The bytes and the path alone decide it.
#[verifier::external_body]
pub(crate) fn guess_kind(file: &[u8], path: &str) -> (r: ImageKind)
    ensures
        r@ == guessed_kind(file@, path@),
{
    jxl_oxide::integration::register_image_decoding_hook();
    let mut reader = ImageReader::new(Cursor::new(file));
    let _ = ImageFormat::from_path(path).map(|known| reader.set_format(known));
    match reader.with_guessed_format().unwrap().format() {
        Some(ImageFormat::Jpeg) => ImageKind::Jpeg,
        Some(ImageFormat::Png) => ImageKind::Png,
        Some(ImageFormat::WebP) => ImageKind::WebP,
        Some(ImageFormat::Gif) => ImageKind::Gif,
        Some(ImageFormat::Tiff) => ImageKind::Tiff,
        Some(ImageFormat::Bmp) => ImageKind::Bmp,
        Some(ImageFormat::Qoi) => ImageKind::Qoi,
        Some(ImageFormat::Tga) => ImageKind::Tga,
        Some(other) => ImageKind::Other(format!("{other:?}")),
        None => ImageKind::Unknown,
    }
}

/// What the decoder of a file answers when it is asked for the EXIF block, or
/// nothing where no decoder takes the file.
pub uninterp spec fn embedded_exif(file: Seq<u8>, path: Seq<char>) -> Option<ReadView>;

/// `image::ImageDecoder::exif_metadata` of the decoder that
/// `image::ImageReader::into_decoder` makes for a file: its EXIF block as far
/// as the decoder has come. The bytes and the path alone decide whether there
/// is a decoder and what it answers.
#[verifier::external_body]
fn read_exif(file: &[u8], path: &str) -> (r: Result<ExifRead, image::ImageError>)
    ensures
        match r {
            Ok(read) => embedded_exif(file@, path@) == Some(read@),
            Err(_) => embedded_exif(file@, path@) is None,
        },
{
    jxl_oxide::integration::register_image_decoding_hook();
    let mut reader = ImageReader::new(Cursor::new(file));
    let _ = ImageFormat::from_path(path).map(|known| reader.set_format(known));
    Ok(match reader.with_guessed_format()?.into_decoder()?.exif_metadata() {
        Ok(Some(bytes)) => ExifRead::Bytes(bytes),
        Ok(None) => ExifRead::Absent,
        Err(_) => ExifRead::Failed,
    })
}

/// The value of the EXIF orientation tag that stands for the turn which the
/// decoder of a file asks for, or nothing where it cannot say.
pub uninterp spec fn embedded_turn(file: Seq<u8>, path: Seq<char>) -> Option<u8>;

/// `image::ImageDecoder::orientation` of the decoder of a file: the turn that
/// shows the picture upright, by the value of the tag that stands for it. The
/// bytes and the path alone decide it.
#[verifier::external_body]
fn read_turn(file: &[u8], path: &str) -> (r: Result<u8, image::ImageError>)
    ensures
        match r {
            Ok(v) => embedded_turn(file@, path@) == Some(v),
            Err(_) => embedded_turn(file@, path@) is None,
        },
{
    jxl_oxide::integration::register_image_decoding_hook();
    let mut reader = ImageReader::new(Cursor::new(file));
    let _ = ImageFormat::from_path(path).map(|known| reader.set_format(known));
    Ok(reader.with_guessed_format()?.into_decoder()?.orientation()?.to_exif())
}

/// Whether the decoder of a file needs no more memory than it may take.
pub uninterp spec fn within_limits(file: Seq<u8>, path: Seq<char>) -> bool;

/// `image::Limits::reserve` and `image::ImageDecoder::set_limits` with the
/// limits that the outside crate has by default: whether the picture in a file
/// stays within them. The bytes and the path alone decide it.
#[verifier::external_body]
fn check_limits(file: &[u8], path: &str) -> (r: Result<(), image::ImageError>)
    ensures
        r is Ok <==> within_limits(file@, path@),
{
    jxl_oxide::integration::register_image_decoding_hook();
    let mut reader = ImageReader::new(Cursor::new(file));
    let _ = ImageFormat::from_path(path).map(|known| reader.set_format(known));
    let mut decoder = reader.with_guessed_format()?.into_decoder()?;
    let mut limits = Limits::default();
    limits.reserve(decoder.total_bytes())?;
    decoder.set_limits(limits)
}

/// The width, the height and the layout of the picture that a file decodes to,
/// or nothing where it cannot be decoded.
pub uninterp spec fn decoded_shape(file: Seq<u8>, path: Seq<char>) -> Option<(u32, u32, Layout)>;

/// The samples of the picture that a file decodes to.
pub uninterp spec fn decoded_samples(file: Seq<u8>, path: Seq<char>) -> SamplesView;

/// Whether the pixels of a format come out alike on every machine: its decoder
/// works with whole numbers, or with the plain operations on fractions. One
/// that takes powers and cosines does not.
pub open spec fn is_exact(kind: KindView) -> bool {
    match kind {
        KindView::Other(_) => false,
        KindView::Unknown => false,
        _ => true,
    }
}

/// Whether a picture is the one in a file: it has its size and its layout, and
/// its samples where these are alike on every machine.
pub open spec fn is_picture_in(img: Stored, file: Seq<u8>, path: Seq<char>) -> bool {
    &&& img.wf()
    &&& decoded_shape(file, path) == Some((img.width, img.height, img.layout()))
    &&& is_exact(guessed_kind(file, path)) ==> img.samples@ == decoded_samples(file, path)
}

/// `image::ImageReader::decode`, within the limits that the outside crate has
/// by default: the picture, with samples of its own for each pixel. The bytes
/// and the path alone decide whether there is one, its size, its layout, and
/// what its pixels are in all formats but those whose decoders take powers and
/// cosines, such as JPEG XL. The JPEG decoder has several paths for several
/// processors, which compute the same whole numbers. A picture in gray gets
/// three equal colours. The first frame of an animated WebP has to fit: the
/// decoder does not see to it where there is an alpha channel.
#[verifier::external_body]
fn decode_pixels(file: &[u8], path: &str) -> (r: Result<Stored, image::ImageError>)
    requires
        webp::still_fits(file@),
    ensures
        match r {
            Ok(img) => {
                &&& img.wf()
                &&& decoded_shape(file@, path@) == Some((img.width, img.height, img.layout()))
                &&& is_exact(guessed_kind(file@, path@)) ==> img.samples@ == decoded_samples(file@, path@)
            },
            Err(_) => decoded_shape(file@, path@) is None,
        },
{
    jxl_oxide::integration::register_image_decoding_hook();
    let mut reader = ImageReader::new(Cursor::new(file));
    let _ = ImageFormat::from_path(path).map(|known| reader.set_format(known));
    let image = reader.with_guessed_format()?.decode()?;
    let (width, height) = image.dimensions();
    let samples = match image {
        ImageRgb8(b) => Samples::Rgb(b.into_raw()),
        ImageLuma8(_) | ImageLumaA8(_) | ImageRgba8(_) => Samples::Rgba(image.into_rgba8().into_raw()),
        ImageRgb32F(_) | ImageRgba32F(_) => Samples::Fractions(image.into_rgba32f().into()),
        other => Samples::Deep(other.into_rgba16().into_raw()),
    };
    Ok(Stored { width, height, samples })
}

/// The part of a file that is searched for an EXIF block behind the pixels.
pub open spec fn tail_of(file: Seq<u8>) -> Seq<u8> {
    if file.len() > png::PNG_TAIL_BYTES {
        file.skip(file.len() - png::PNG_TAIL_BYTES)
    } else {
        file
    }
}

/// Whether a record says of the EXIF block what it has to, once a file was
/// decoded: what the decoder answered, and the block behind the pixels where
/// the decoder was not stopped by its limits. A file that no decoder takes
/// leaves the record as it was.
pub open spec fn is_exif_after(after: ExifData, before: ExifData, file: Seq<u8>, path: Seq<char>) -> bool {
    match embedded_exif(file, path) {
        None => after == before,
        Some(read) => exists|exif: ExifData| #[trigger]
            crate::file_io::format::is_exif_from(exif, read) && if within_limits(file, path) {
                crate::file_io::format::is_with_tail(after, guessed_kind(file, path), exif, tail_of(file))
            } else {
                after == exif
            },
    }
}

/// Whether a file holds a picture that can be shown: a decoder takes it, the
/// picture stays within its limits, and the pixels can be decoded.
pub open spec fn can_be_shown(file: Seq<u8>, path: Seq<char>) -> bool {
    &&& embedded_exif(file, path) is Some
    &&& within_limits(file, path)
    &&& webp::still_fits(file)
    &&& decoded_shape(file, path) is Some
}

/// Takes down what the bytes of a file tell about it, and decodes its pixels.
/// The name of the format is known even where no decoder takes the file. A PNG
/// may carry its EXIF block behind the pixels; it is looked for whether or not
/// the pixels could be decoded. An animation whose first frame holds a picture
/// that does not fit is not decoded.
pub fn decode_into(file: &[u8], path: &str, record: &mut MetadataRecord) -> (r: Result<Stored, LoadError>)
    ensures
        final(record).file_size == old(record).file_size,
        final(record).modified == old(record).modified,
        curated::text_in(final(record).format) == crate::file_io::format::format_of(
            guessed_kind(file@, path@),
            path@,
        ),
        is_exif_after(final(record).exif, old(record).exif, file@, path@),
        r is Ok <==> can_be_shown(file@, path@),
        r matches Ok(img) ==> is_picture_in(img, file@, path@),
        r matches Err(LoadError::FrameSize) <==> embedded_exif(file@, path@) is Some && within_limits(
            file@,
            path@,
        ) && !webp::still_fits(file@),
{
    let kind = guess_kind(file, path);
    record.format = format_name(&kind, path);
    let exif = match read_exif(file, path) {
        Ok(read) => exif_from(read),
        Err(cause) => {
            return Err(LoadError::Refused(cause));
        },
    };
    if let Err(cause) = check_limits(file, path) {
        record.exif = exif;
        return Err(LoadError::Refused(cause));
    }
    let image = if still_frame_fits(file) {
        match decode_pixels(file, path) {
            Ok(img) => Ok(img),
            Err(cause) => Err(LoadError::Refused(cause)),
        }
    } else {
        Err(LoadError::FrameSize)
    };
    record.exif = if searches_tail(&kind, &exif) {
        let start: usize = tail_start(file.len() as u64) as usize;
        let tail = slice_subrange(file, start, file.len());
        assert(tail@ =~= tail_of(file@));
        exif_with_tail(&kind, exif, tail)
    } else {
        exif
    };
    image
}

/// A file opened for display: the decoded pixels, or the error, and the facts
/// about the file either way.
#[derive(Debug)]
pub struct LoadedImage {
    pub image: Result<Stored, LoadError>,
    pub record: MetadataRecord,
    /// The turn that the file asks for.
    pub orientation: Orientation,
}

/// The turn that a file asks for: none where its decoder cannot say.
pub open spec fn turn_in(file: Seq<u8>, path: Seq<char>) -> Orientation {
    match embedded_turn(file, path) {
        Some(v) => match found::turn_of(v as int) {
            Some(turn) => turn,
            None => Orientation::NoTransforms,
        },
        None => Orientation::NoTransforms,
    }
}

/// Opens a file: the facts about it, its EXIF block and its pixels. The size
/// and the time of its last change are those that the file system knows.
pub fn load_image(file: &[u8], path: &str, file_size: Option<u64>, modified: Option<String>) -> (r: LoadedImage)
    ensures
        r.record.file_size == file_size,
        r.record.modified == modified,
        curated::text_in(r.record.format) == crate::file_io::format::format_of(
            guessed_kind(file@, path@),
            path@,
        ),
        is_exif_after(r.record.exif, ExifData::Absent, file@, path@),
        r.image is Ok <==> can_be_shown(file@, path@),
        r.image matches Ok(img) ==> is_picture_in(img, file@, path@),
        r.image matches Err(LoadError::FrameSize) <==> embedded_exif(file@, path@) is Some && within_limits(
            file@,
            path@,
        ) && !webp::still_fits(file@),
        r.orientation == turn_in(file@, path@),
{
    let mut record = MetadataRecord { file_size, modified, format: None, exif: ExifData::Absent };
    let image = decode_into(file, path, &mut record);
    let orientation = match read_turn(file, path) {
        Ok(v) => match turn_from(v as u32) {
            Some(turn) => turn,
            None => Orientation::NoTransforms,
        },
        Err(_) => Orientation::NoTransforms,
    };
    LoadedImage { image, record, orientation }
}

/// The bytes of the JPEG that a RAW file is shown through: none where it has no
/// such JPEG.
pub open spec fn shown_bytes(contents: RawContents) -> Seq<u8> {
    match contents.jpeg {
        Some(jpeg) => jpeg@,
        None => Seq::empty(),
    }
}

/// Whether a record says of the EXIF block what the container of a RAW file
/// says: nothing where it has no block.
pub open spec fn is_container_exif(exif: ExifData, block: Option<Vec<u8>>) -> bool {
    match block {
        Some(bytes) => crate::file_io::format::is_parsed(exif, bytes@),
        None => exif is Absent,
    }
}

/// Whether a file is opened as the contents of a RAW file ask for: the pixels
/// are those of its JPEG, and the EXIF block and the turn are those of the
/// container unless it leaves them to the JPEG.
pub open spec fn is_opened_raw(r: LoadedImage, contents: RawContents, path: Seq<char>) -> bool {
    let jpeg = shown_bytes(contents);
    &&& curated::text_in(r.record.format) == crate::file_io::format::format_of(KindView::Unknown, path)
    &&& r.image is Ok <==> can_be_shown(jpeg, path)
    &&& r.image matches Ok(img) ==> is_picture_in(img, jpeg, path)
    &&& if contents.exif_in_jpeg {
        &&& is_exif_after(r.record.exif, ExifData::Absent, jpeg, path)
        &&& r.orientation == turn_in(jpeg, path)
    } else {
        &&& is_container_exif(r.record.exif, contents.exif)
        &&& r.orientation == contents.orientation
    }
}

/// Opens a RAW file through the JPEG that the camera stored in it. The format
/// is the one that its extension names.
pub fn load_raw(file: &[u8], path: &str, file_size: Option<u64>, modified: Option<String>) -> (r: LoadedImage)
    ensures
        r.record.file_size == file_size,
        r.record.modified == modified,
        exists|f: found::FoundView, contents: RawContents|
            raw::is_found(file@, f) && #[trigger] raw::is_contents(file@, f, contents) && is_opened_raw(
                r,
                contents,
                path@,
            ),
{
    let contents = raw::contents(file);
    let ghost all = contents;
    let jpeg = match contents.jpeg {
        Some(jpeg) => jpeg,
        None => Vec::new(),
    };
    assert(jpeg@ =~= shown_bytes(all));
    let mut r = load_image(jpeg.as_slice(), path, file_size, modified);
    r.record.format = format_name(&ImageKind::Unknown, path);
    if !contents.exif_in_jpeg {
        r.record.exif = match contents.exif {
            Some(block) => parse_exif(block),
            None => ExifData::Absent,
        };
        r.orientation = contents.orientation;
    }
    proof {
        let f = choose|f: found::FoundView| #[trigger]
            raw::is_found(file@, f) && raw::is_contents(file@, f, all);
        assert(raw::is_contents(file@, f, all) && is_opened_raw(r, all, path@));
    }
    r
}

/// A picture is shown with the turn of its orientation tag, and as it is stored
/// where there is no valid one.
pub proof fn law_a_picture_is_turned_by_its_tag(file: Seq<u8>, path: Seq<char>, v: u8)
    ensures
        embedded_turn(file, path) == Some(v) && 1 <= v <= 8 ==> Some(turn_in(file, path)) == found::turn_of(v as int),
        embedded_turn(file, path) == Some(v) && (v == 0 || v > 8) ==> turn_in(file, path) == Orientation::NoTransforms,
        embedded_turn(file, path) is None ==> turn_in(file, path) == Orientation::NoTransforms,
{
}

/// The part of a file that is searched behind the pixels is its end, of up to 128
/// kibibytes.
pub proof fn law_the_end_of_a_file_is_searched(file: Seq<u8>)
    ensures
        tail_of(file).len() == if file.len() < 131072 { file.len() as int } else { 131072 },
        tail_of(file) == file.skip(file.len() - tail_of(file).len()),
{
    assert(file.skip(0) =~= file);
}

/// A RAW file is shown through its JPEG, with the turn and the EXIF block of the
/// container, and with those of the JPEG where the container leaves them to it.
pub proof fn law_a_raw_file_is_shown_through_its_jpeg(r: LoadedImage, contents: RawContents, path: Seq<char>)
    requires
        is_opened_raw(r, contents, path),
        contents.jpeg is Some,
    ensures
        r.image matches Ok(img) ==> is_picture_in(img, contents.jpeg->0@, path),
        r.image is Ok <==> can_be_shown(contents.jpeg->0@, path),
        !contents.exif_in_jpeg ==> r.orientation == contents.orientation,
        !contents.exif_in_jpeg && contents.exif is None ==> r.record.exif is Absent,
        contents.exif_in_jpeg ==> r.orientation == turn_in(contents.jpeg->0@, path),
        contents.exif_in_jpeg ==> is_exif_after(r.record.exif, ExifData::Absent, contents.jpeg->0@, path),
{
}

/// A picture is shown just where a decoder takes the file, it stays within the
/// limits, its first frame fits and its pixels can be decoded.
pub proof fn law_what_can_be_shown(file: Seq<u8>, path: Seq<char>)
    ensures
        embedded_exif(file, path) is None ==> !can_be_shown(file, path),
        !within_limits(file, path) ==> !can_be_shown(file, path),
        decoded_shape(file, path) is None ==> !can_be_shown(file, path),
        embedded_exif(file, path) is Some && within_limits(file, path) && decoded_shape(file, path) is Some
            && !webp::is_animated(file) ==> can_be_shown(file, path),
{
}

} // verus!
