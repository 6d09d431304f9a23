//! RAW files: what is found in them, and what is shown.
use image::codecs::jpeg::JpegEncoder;
use image::{ExtendedColorType, ImageEncoder};

use viewskater::metadata::curated::{shutter_text, Shutter};
use viewskater::file_io::load::load_raw;
use viewskater::metadata::{parse_exif, ExifData, ExifSummary};
use viewskater::raw::byte_order::ByteOrder;
use viewskater::raw::cr3;
use viewskater::raw::found::{turn_from, Orientation, Span};
use viewskater::raw::ifd::{
    TAG_EXIF_IFD, TAG_GPS_IFD, TAG_INTEROP_IFD, TAG_ORIENTATION, TIFF_MAGIC, TYPE_IFD, TYPE_LONG, TYPE_SHORT,
};
use viewskater::raw::join::join_exif;
use viewskater::raw::jpeg::{lossy_jpeg_size, pick_for_display};
use viewskater::raw::olympus::{
    TAG_MAKER_NOTE, TAG_OLYMPUS_CAMERA_SETTINGS, TAG_OLYMPUS_PREVIEW_LENGTH, TAG_OLYMPUS_PREVIEW_START,
    TAG_OLYMPUS_THUMBNAIL,
};
use viewskater::raw::raf::{JPEG_LENGTH_AT, JPEG_OFFSET_AT};
use viewskater::raw::source::Source;
use viewskater::raw::tiff::{
    walk, ORF_MAGIC_RO, PHOTOMETRIC_CFA, RW2_MAGIC, TAG_COMPRESSION, TAG_JPEG_LENGTH, TAG_JPEG_OFFSET,
    TAG_PANASONIC_JPEG, TAG_PHOTOMETRIC, TAG_STRIP_BYTE_COUNTS, TAG_STRIP_OFFSETS, TAG_SUB_IFDS,
};
use viewskater::raw::{contents, is_raw};

const TAG_MAKE: u16 = 0x010F;
const TAG_EXPOSURE_TIME: u16 = 0x829A;
const TAG_GPS_LATITUDE_REF: u16 = 1;
const TAG_GPS_LATITUDE: u16 = 2;
const TAG_GPS_LONGITUDE_REF: u16 = 3;
const TAG_GPS_LONGITUDE: u16 = 4;
const TYPE_ASCII: u16 = 2;
const TYPE_RATIONAL: u16 = 5;
const TYPE_UNDEFINED: u16 = 7;

/// Writes IFDs and data at the offsets the test chooses.
struct TiffBuilder {
    order: ByteOrder,
    bytes: Vec<u8>,
}

impl TiffBuilder {
    fn new(order: ByteOrder, magic: u16, first_ifd: u32) -> Self {
        let mut builder = Self { order, bytes: Vec::new() };
        let mark = if order == ByteOrder::Little { b"II" } else { b"MM" };
        builder.bytes.extend_from_slice(mark);
        let magic = builder.u16(magic);
        let first = builder.u32(first_ifd);
        builder.bytes.extend_from_slice(&magic);
        builder.bytes.extend_from_slice(&first);
        builder
    }

    fn u16(&self, v: u16) -> [u8; 2] {
        if self.order == ByteOrder::Little { v.to_le_bytes() } else { v.to_be_bytes() }
    }

    fn u32(&self, v: u32) -> [u8; 4] {
        if self.order == ByteOrder::Little { v.to_le_bytes() } else { v.to_be_bytes() }
    }

    fn place(&mut self, offset: usize, data: &[u8]) {
        if self.bytes.len() < offset + data.len() {
            self.bytes.resize(offset + data.len(), 0);
        }
        self.bytes[offset..offset + data.len()].copy_from_slice(data);
    }

    /// Entries are (tag, type, count, value). A SHORT value goes into
    /// the first two value bytes, as TIFF asks.
    fn ifd(&mut self, offset: usize, entries: &[(u16, u16, u32, u32)], next: u32) {
        let mut out = self.u16(entries.len() as u16).to_vec();
        for &(tag, kind, count, value) in entries {
            out.extend_from_slice(&self.u16(tag));
            out.extend_from_slice(&self.u16(kind));
            out.extend_from_slice(&self.u32(count));
            if kind == TYPE_SHORT {
                out.extend_from_slice(&self.u16(value as u16));
                out.extend_from_slice(&[0, 0]);
            } else {
                out.extend_from_slice(&self.u32(value));
            }
        }
        out.extend_from_slice(&self.u32(next));
        self.place(offset, &out);
    }

    fn finish(self) -> Vec<u8> {
        self.bytes
    }
}

fn jpeg(width: u32, height: u32) -> Vec<u8> {
    let mut out = Vec::new();
    let pixels = vec![128u8; (width * height * 3) as usize];
    JpegEncoder::new(&mut out).write_image(&pixels, width, height, ExtendedColorType::Rgb8).unwrap();
    out
}

/// The start of a lossless JPEG, as a CR2 stores its sensor data: a
/// Huffman table segment, then a frame header with marker 0xC3.
fn lossless_jpeg_start() -> Vec<u8> {
    let mut out = vec![0xFF, 0xD8, 0xFF, 0xC4, 0x00, 0x04, 0x00, 0x00];
    out.extend_from_slice(&[0xFF, 0xC3, 0x00, 0x0B, 14, 0x0E, 0x7C, 0x0A, 0xE0, 2, 0, 0, 0]);
    out.resize(4096, 0);
    out
}

fn shown(file: Vec<u8>) -> Option<(u32, u32, Orientation)> {
    let found = contents(&file);
    let image = image::load_from_memory(&found.jpeg?).unwrap();
    Some((image.width(), image.height(), found.orientation))
}

fn summary(block: Vec<u8>) -> ExifSummary {
    match parse_exif(block) {
        ExifData::Present(exif) => *exif,
        other => panic!("the block did not parse: {other:?}"),
    }
}

/// The exposure time as a line, the part of a second rounded to a whole one.
fn shutter_line(exif: &ExifSummary) -> Option<String> {
    match exif.shutter? {
        Shutter::Part(r) => {
            let number = (r.denom as f64 / r.num as f64).round() as u32;
            Some(shutter_text(Shutter::Part(r), &format!("{number}")))
        }
        Shutter::Seconds(r) => {
            let number = r.num as f64 / r.denom as f64;
            Some(shutter_text(Shutter::Seconds(r), &format!("{number:.1}")))
        }
    }
}

// ---- TIFF ----------------------------------------------------------

/// Sony ARW: the JPEG offset and length tags in IFD0, a thumbnail in
/// IFD1, a full-size JPEG in IFD2. The 1616x1080 one is shown.
#[test]
fn arw_shows_the_mid_size_jpeg() {
    let (thumb, preview, full) = (jpeg(160, 120), jpeg(1616, 1080), jpeg(3000, 2000));
    assert!(preview.len() < full.len());
    let full_at = 8000 + preview.len() as u32 + 100;
    let mut tiff = TiffBuilder::new(ByteOrder::Little, TIFF_MAGIC, 8);
    tiff.ifd(8, &[
        (TAG_COMPRESSION, TYPE_SHORT, 1, 6),
        (TAG_ORIENTATION, TYPE_SHORT, 1, 6),
        (TAG_JPEG_OFFSET, TYPE_LONG, 1, 8000),
        (TAG_JPEG_LENGTH, TYPE_LONG, 1, preview.len() as u32),
    ], 100);
    tiff.ifd(100, &[
        (TAG_ORIENTATION, TYPE_SHORT, 1, 8),
        (TAG_JPEG_OFFSET, TYPE_LONG, 1, 300),
        (TAG_JPEG_LENGTH, TYPE_LONG, 1, thumb.len() as u32),
    ], 200);
    tiff.ifd(200, &[
        (TAG_JPEG_OFFSET, TYPE_LONG, 1, full_at),
        (TAG_JPEG_LENGTH, TYPE_LONG, 1, full.len() as u32),
    ], 0);
    assert!(thumb.len() < 7000);
    tiff.place(300, &thumb);
    tiff.place(8000, &preview);
    tiff.place(full_at as usize, &full);

    assert_eq!(shown(tiff.finish()), Some((1616, 1080, Orientation::Rotate90)));

    // A 4:3 camera's 1440x1080 is shown too, and not the full-size JPEG.
    let (preview, full) = (jpeg(1440, 1080), jpeg(3000, 2250));
    let full_at = 1000 + preview.len() as u32 + 100;
    let mut tiff = TiffBuilder::new(ByteOrder::Little, TIFF_MAGIC, 8);
    tiff.ifd(8, &[
        (TAG_JPEG_OFFSET, TYPE_LONG, 1, 1000),
        (TAG_JPEG_LENGTH, TYPE_LONG, 1, preview.len() as u32),
    ], 100);
    tiff.ifd(100, &[
        (TAG_JPEG_OFFSET, TYPE_LONG, 1, full_at),
        (TAG_JPEG_LENGTH, TYPE_LONG, 1, full.len() as u32),
    ], 0);
    tiff.place(1000, &preview);
    tiff.place(full_at as usize, &full);
    assert_eq!(shown(tiff.finish()), Some((1440, 1080, Orientation::NoTransforms)));
}

/// The container says how the JPEG without an EXIF block is turned.
#[test]
fn a_raw_file_is_opened_with_the_turn_of_its_container() {
    let preview = jpeg(64, 32);
    let mut tiff = TiffBuilder::new(ByteOrder::Little, TIFF_MAGIC, 8);
    tiff.ifd(8, &[
        (TAG_ORIENTATION, TYPE_SHORT, 1, 6),
        (TAG_JPEG_OFFSET, TYPE_LONG, 1, 1000),
        (TAG_JPEG_LENGTH, TYPE_LONG, 1, preview.len() as u32),
    ], 0);
    tiff.place(1000, &preview);
    let loaded = load_raw(&tiff.finish(), "/p/photo.dng", None, None);
    let image = loaded.image.unwrap();
    assert_eq!((image.width, image.height), (64, 32));
    assert_eq!(loaded.orientation, Orientation::Rotate90);
    assert_eq!(loaded.record.format.as_deref(), Some("DNG"));
    match &loaded.record.exif {
        ExifData::Present(exif) => assert_eq!(exif.orientation.as_deref(), Some("Rotate 90° CW")),
        other => panic!("{other:?}"),
    }
}

/// Nikon NEF, big-endian here: IFD0 is an uncompressed thumbnail and
/// the JPEG is in the first of two child IFDs. The second child is the
/// sensor data. With nothing at 1600 pixels the largest JPEG is shown.
#[test]
fn nef_jpeg_is_in_a_child_ifd() {
    let preview = jpeg(640, 424);
    let mut tiff = TiffBuilder::new(ByteOrder::Big, TIFF_MAGIC, 8);
    tiff.ifd(8, &[
        (TAG_COMPRESSION, TYPE_SHORT, 1, 1),
        (TAG_STRIP_OFFSETS, TYPE_LONG, 1, 400),
        (TAG_STRIP_BYTE_COUNTS, TYPE_LONG, 1, 100),
        (TAG_SUB_IFDS, TYPE_LONG, 2, 80),
    ], 0);
    tiff.place(80, &[0, 0, 0, 100, 0, 0, 0, 160]);
    tiff.ifd(100, &[
        (TAG_COMPRESSION, TYPE_SHORT, 1, 6),
        (TAG_JPEG_OFFSET, TYPE_LONG, 1, 1000),
        (TAG_JPEG_LENGTH, TYPE_LONG, 1, preview.len() as u32),
    ], 0);
    tiff.ifd(160, &[
        (TAG_COMPRESSION, TYPE_SHORT, 1, 34713),
        (TAG_PHOTOMETRIC, TYPE_SHORT, 1, PHOTOMETRIC_CFA),
        (TAG_STRIP_OFFSETS, TYPE_LONG, 1, 500),
        (TAG_STRIP_BYTE_COUNTS, TYPE_LONG, 1, 100),
    ], 0);
    tiff.place(1000, &preview);

    assert_eq!(shown(tiff.finish()), Some((640, 424, Orientation::NoTransforms)));
}

/// Canon CR2: the JPEG is a strip of IFD0. The sensor data in a later
/// IFD is a strip with the same compression value, a lossless JPEG,
/// and is larger. It is not shown.
#[test]
fn cr2_sensor_data_is_not_mistaken_for_the_jpeg() {
    let (preview, sensor) = (jpeg(1000, 8), lossless_jpeg_start());
    assert!(preview.len() < sensor.len());
    let mut tiff = TiffBuilder::new(ByteOrder::Little, TIFF_MAGIC, 16);
    tiff.ifd(16, &[
        (TAG_COMPRESSION, TYPE_SHORT, 1, 6),
        (TAG_STRIP_OFFSETS, TYPE_LONG, 1, 1000),
        (TAG_STRIP_BYTE_COUNTS, TYPE_LONG, 1, preview.len() as u32),
    ], 100);
    tiff.ifd(100, &[
        (TAG_COMPRESSION, TYPE_SHORT, 1, 6),
        (TAG_STRIP_OFFSETS, TYPE_LONG, 1, 10_000),
        (TAG_STRIP_BYTE_COUNTS, TYPE_LONG, 1, sensor.len() as u32),
    ], 0);
    tiff.place(1000, &preview);
    tiff.place(10_000, &sensor);
    assert_eq!(shown(tiff.finish()), Some((1000, 8, Orientation::NoTransforms)));

    // Only sensor data: nothing to show.
    let mut tiff = TiffBuilder::new(ByteOrder::Little, TIFF_MAGIC, 16);
    tiff.ifd(16, &[
        (TAG_COMPRESSION, TYPE_SHORT, 1, 6),
        (TAG_STRIP_OFFSETS, TYPE_LONG, 1, 1000),
        (TAG_STRIP_BYTE_COUNTS, TYPE_LONG, 1, sensor.len() as u32),
    ], 0);
    tiff.place(1000, &sensor);
    assert_eq!(shown(tiff.finish()), None);
}

/// DNG: the JPEG is a strip in a child IFD. Sensor data compressed as
/// a JPEG is skipped by its photometric value, before any read of it.
#[test]
fn dng_jpeg_is_a_strip_in_a_child_ifd() {
    let preview = jpeg(1024, 8);
    let mut tiff = TiffBuilder::new(ByteOrder::Little, TIFF_MAGIC, 8);
    tiff.ifd(8, &[(TAG_SUB_IFDS, TYPE_LONG, 2, 60)], 0);
    tiff.place(60, &[100, 0, 0, 0, 160, 0, 0, 0]);
    tiff.ifd(100, &[
        (TAG_COMPRESSION, TYPE_SHORT, 1, 7),
        (TAG_PHOTOMETRIC, TYPE_SHORT, 1, PHOTOMETRIC_CFA),
        (TAG_STRIP_OFFSETS, TYPE_LONG, 1, 5000),
        (TAG_STRIP_BYTE_COUNTS, TYPE_LONG, 1, 100),
    ], 0);
    tiff.ifd(160, &[
        (TAG_COMPRESSION, TYPE_SHORT, 1, 7),
        (TAG_PHOTOMETRIC, TYPE_SHORT, 1, 6),
        (TAG_STRIP_OFFSETS, TYPE_LONG, 1, 1000),
        (TAG_STRIP_BYTE_COUNTS, TYPE_LONG, 1, preview.len() as u32),
    ], 0);
    tiff.place(1000, &preview);
    tiff.place(5000, &[0; 100]);

    let file = tiff.finish();
    let source = Source::new(&file);
    assert_eq!(walk(&source).0.jpegs, [Span { offset: 1000, len: preview.len() as u64 }]);
    assert_eq!(shown(file), Some((1024, 8, Orientation::NoTransforms)));
}

/// Panasonic RW2: its own magic number, and the JPEG in tag 0x002E.
#[test]
fn rw2_jpeg_is_in_the_panasonic_tag() {
    let preview = jpeg(1920, 8);
    let mut tiff = TiffBuilder::new(ByteOrder::Little, RW2_MAGIC, 24);
    tiff.ifd(24, &[
        (TAG_PANASONIC_JPEG, 7, preview.len() as u32, 1000),
        (TAG_ORIENTATION, TYPE_SHORT, 1, 3),
    ], 0);
    tiff.place(1000, &preview);
    assert_eq!(shown(tiff.finish()), Some((1920, 8, Orientation::Rotate180)));
}

/// An ORF with the maker note at 300. `header` is the maker note's
/// header, and `base` is what the offsets inside it count from.
fn orf(header: &[u8], base: u32, thumbnail: &[u8], preview: Option<&[u8]>) -> Vec<u8> {
    let note_ifd = 300 + header.len();
    let mut tiff = TiffBuilder::new(ByteOrder::Little, ORF_MAGIC_RO, 8);
    tiff.ifd(8, &[
        (TAG_ORIENTATION, TYPE_SHORT, 1, 6),
        (TAG_EXIF_IFD, TYPE_LONG, 1, 100),
    ], 0);
    tiff.ifd(100, &[(TAG_MAKER_NOTE, 7, 200, 300)], 0);
    tiff.place(300, header);
    let mut entries = vec![(TAG_OLYMPUS_THUMBNAIL, 7, thumbnail.len() as u32, 1000 - base)];
    if let Some(preview) = preview {
        entries.push((TAG_OLYMPUS_CAMERA_SETTINGS, TYPE_IFD, 1, 400 - base));
        tiff.ifd(400, &[
            (TAG_OLYMPUS_PREVIEW_START, TYPE_LONG, 1, 20_000 - base),
            (TAG_OLYMPUS_PREVIEW_LENGTH, TYPE_LONG, 1, preview.len() as u32),
        ], 0);
        tiff.place(20_000, preview);
    }
    tiff.ifd(note_ifd, &entries, 0);
    tiff.place(1000, thumbnail);
    tiff.finish()
}

/// Olympus ORF: the JPEGs are inside the maker note, and its offsets
/// count from the maker note's start. OM System bodies have a longer
/// header. Old bodies count from the start of the file and only have
/// the 160x120 JPEG.
#[test]
fn orf_jpegs_are_inside_the_maker_note() {
    let (thumbnail, preview) = (jpeg(160, 120), jpeg(1600, 1200));
    assert!(thumbnail.len() < 19_000);

    let olympus = orf(b"OLYMPUS\0II\x03\0", 300, &thumbnail, Some(&preview));
    assert_eq!(shown(olympus), Some((1600, 1200, Orientation::Rotate90)));

    let om_system = orf(b"OM SYSTEM\0\0\0II\x04\0", 300, &thumbnail, Some(&preview));
    assert_eq!(shown(om_system), Some((1600, 1200, Orientation::Rotate90)));

    let old = orf(b"OLYMP\0\x01\0", 0, &thumbnail, None);
    assert_eq!(shown(old), Some((160, 120, Orientation::Rotate90)));

    // A maker note from another maker: nothing, and no error.
    let other = orf(b"Nikon\0\x02\x10\0\0", 300, &thumbnail, Some(&preview));
    assert_eq!(shown(other), None);

    // The EXIF block of an ORF parses, with 42 written over "RO".
    let block = contents(&orf(b"OLYMPUS\0II\x03\0", 300, &thumbnail, None)).exif.unwrap();
    assert_eq!(block[..4], *b"II*\0");
    let exif = summary(block);
    assert_eq!(exif.orientation.as_deref(), Some("Rotate 90° CW"));
}

/// The EXIF block reaches past a thumbnail that sits between IFD0 and
/// the Exif IFD, as in a Pentax DNG, and ends with the last value.
#[test]
fn exif_block_ends_with_the_last_value() {
    let mut tiff = TiffBuilder::new(ByteOrder::Big, TIFF_MAGIC, 8);
    tiff.ifd(8, &[
        (TAG_MAKE, TYPE_ASCII, 7, 40),
        (TAG_EXIF_IFD, TYPE_LONG, 1, 5000),
    ], 0);
    tiff.place(40, b"PENTAX\0");
    tiff.place(100, &[0x55; 4000]);
    tiff.ifd(5000, &[(TAG_EXPOSURE_TIME, TYPE_RATIONAL, 1, 5100)], 0);
    tiff.place(5100, &[0, 0, 0, 1, 0, 0, 0, 125]);
    tiff.place(9000, &[0x55; 100]);

    let block = contents(&tiff.finish()).exif.unwrap();
    assert_eq!(block.len(), 5108);
    let exif = summary(block);
    assert_eq!(exif.camera.as_deref(), Some("PENTAX"));
    assert_eq!(shutter_line(&exif).as_deref(), Some("1/125 s"));
}

/// An RW2 has image data as tag values in IFD0. The block does not
/// grow to take them in, and it has the TIFF magic number.
#[test]
fn exif_block_of_an_rw2_leaves_the_image_data_out() {
    let mut tiff = TiffBuilder::new(ByteOrder::Little, RW2_MAGIC, 24);
    tiff.ifd(24, &[
        (TAG_PANASONIC_JPEG, TYPE_UNDEFINED, 200_000, 3000),
        (TAG_MAKE, TYPE_ASCII, 10, 100),
    ], 0);
    tiff.place(100, b"Panasonic\0");
    tiff.place(3000, &[0x55; 200_000]);

    let block = contents(&tiff.finish()).exif.unwrap();
    assert_eq!(block.len(), 110);
    assert_eq!(block[..4], *b"II*\0");
    let exif = summary(block);
    assert_eq!(exif.camera.as_deref(), Some("Panasonic"));
}

#[test]
fn broken_files_give_nothing() {
    assert!(shown(Vec::new()).is_none());
    assert!(shown(b"II".to_vec()).is_none());
    assert!(shown(b"this is not a TIFF file at all".to_vec()).is_none());
    assert!(contents(b"this is not a TIFF file at all").exif.is_none());

    // The first IFD is outside the file.
    assert!(shown(TiffBuilder::new(ByteOrder::Little, TIFF_MAGIC, 5000).finish()).is_none());

    // IFD0 names itself as the next IFD and as its own child.
    let mut tiff = TiffBuilder::new(ByteOrder::Little, TIFF_MAGIC, 8);
    tiff.ifd(8, &[(TAG_SUB_IFDS, TYPE_LONG, 1, 8)], 8);
    assert!(shown(tiff.finish()).is_none());

    // An entry count that runs past the end of the file.
    let mut tiff = TiffBuilder::new(ByteOrder::Little, TIFF_MAGIC, 8);
    tiff.place(8, &[0xFF, 0x03]);
    assert!(shown(tiff.finish()).is_none());

    // A JPEG whose offset and length point outside the file, and one
    // whose bytes are not a JPEG.
    let mut tiff = TiffBuilder::new(ByteOrder::Little, TIFF_MAGIC, 8);
    tiff.ifd(8, &[
        (TAG_JPEG_OFFSET, TYPE_LONG, 1, 4_000_000),
        (TAG_JPEG_LENGTH, TYPE_LONG, 1, 1000),
    ], 100);
    tiff.ifd(100, &[
        (TAG_JPEG_OFFSET, TYPE_LONG, 1, 200),
        (TAG_JPEG_LENGTH, TYPE_LONG, 1, 64),
    ], 0);
    tiff.place(200, &[0x11; 64]);
    assert!(shown(tiff.finish()).is_none());
}

/// The sizes of the lossy JPEGs only, and the smallest one that is large
/// enough, else the largest.
#[test]
fn the_smallest_large_enough_jpeg_is_picked() {
    let (small, mid, large) = (jpeg(16, 8), jpeg(1000, 1000), jpeg(1200, 1000));
    let lossless = lossless_jpeg_start();
    let mut file = Vec::new();
    let mut spans = Vec::new();
    for part in [&small, &large, &lossless, &mid] {
        spans.push(Span { offset: file.len() as u64, len: part.len() as u64 });
        file.extend_from_slice(part);
    }
    let source = Source::new(&file);
    assert_eq!(lossy_jpeg_size(&source, spans[0]), Some((16, 8)));
    assert_eq!(lossy_jpeg_size(&source, spans[1]), Some((1200, 1000)));
    assert_eq!(lossy_jpeg_size(&source, spans[2]), None);
    assert_eq!(pick_for_display(&source, &spans), Some(spans[3]));
    assert_eq!(pick_for_display(&source, &vec![spans[0], spans[2]]), Some(spans[0]));
    assert_eq!(pick_for_display(&source, &vec![spans[2]]), None);
}

/// The eight values of the orientation tag, and none beside them.
#[test]
fn orientation_values_are_read_from_the_tag() {
    assert_eq!(turn_from(1), Some(Orientation::NoTransforms));
    assert_eq!(turn_from(2), Some(Orientation::FlipHorizontal));
    assert_eq!(turn_from(3), Some(Orientation::Rotate180));
    assert_eq!(turn_from(4), Some(Orientation::FlipVertical));
    assert_eq!(turn_from(5), Some(Orientation::Rotate90FlipH));
    assert_eq!(turn_from(6), Some(Orientation::Rotate90));
    assert_eq!(turn_from(7), Some(Orientation::Rotate270FlipH));
    assert_eq!(turn_from(8), Some(Orientation::Rotate270));
    assert_eq!(turn_from(0), None);
    assert_eq!(turn_from(9), None);
    assert_eq!(turn_from(262), None);
}

#[test]
fn raw_files_are_told_by_their_extension() {
    assert!(is_raw("/photos/DSC0001.NEF"));
    assert!(is_raw("a.Cr2"));
    assert!(!is_raw("a.jpg"));
    assert!(!is_raw("nef"));
}

// ---- CR3 -----------------------------------------------------------

fn boxed(kind: &[u8; 4], body: &[u8]) -> Vec<u8> {
    let mut out = ((body.len() + 8) as u32).to_be_bytes().to_vec();
    out.extend_from_slice(kind);
    out.extend_from_slice(body);
    out
}

/// 16 bytes of box fields, then the image.
fn image_box(kind: &[u8; 4], image: &[u8]) -> Vec<u8> {
    boxed(kind, &[&[0; 16][..], image].concat())
}

/// A track whose only sample is `len` bytes at `offset`.
fn track(offset: u64, len: u32) -> Vec<u8> {
    let stsz = boxed(b"stsz", &[&[0; 8][..], &1u32.to_be_bytes(), &len.to_be_bytes()].concat());
    let co64 = boxed(b"co64", &[&[0; 4][..], &1u32.to_be_bytes(), &offset.to_be_bytes()].concat());
    let stbl = boxed(b"stbl", &[boxed(b"stsd", &[0; 8]), stsz, co64].concat());
    boxed(b"trak", &boxed(b"mdia", &boxed(b"minf", &stbl)))
}

fn uuid_bytes(uuid: (u64, u64)) -> Vec<u8> {
    [uuid.0.to_be_bytes(), uuid.1.to_be_bytes()].concat()
}

/// CMT1: the make as a value outside the entry, and orientation 6.
fn cmt1() -> Vec<u8> {
    let mut tiff = TiffBuilder::new(ByteOrder::Little, 42, 8);
    tiff.ifd(8, &[(TAG_MAKE, 2, 6, 40), (TAG_ORIENTATION, 3, 1, 6)], 0);
    tiff.place(40, b"Canon\0");
    tiff.finish()
}

/// CMT2: the exposure time, a rational outside the entry.
fn cmt2() -> Vec<u8> {
    let mut tiff = TiffBuilder::new(ByteOrder::Little, 42, 8);
    tiff.ifd(8, &[(TAG_EXPOSURE_TIME, 5, 1, 30)], 0);
    tiff.place(30, &[1, 0, 0, 0, 250, 0, 0, 0]);
    tiff.finish()
}

/// CMT4: 35 degrees north, 139 degrees east.
fn cmt4() -> Vec<u8> {
    let mut tiff = TiffBuilder::new(ByteOrder::Little, 42, 8);
    tiff.ifd(8, &[
        (TAG_GPS_LATITUDE_REF, 2, 2, u32::from_le_bytes(*b"N\0\0\0")),
        (TAG_GPS_LATITUDE, 5, 3, 70),
        (TAG_GPS_LONGITUDE_REF, 2, 2, u32::from_le_bytes(*b"E\0\0\0")),
        (TAG_GPS_LONGITUDE, 5, 3, 100),
    ], 0);
    let degrees = |d: u8| [d, 0, 0, 0, 1, 0, 0, 0, 0, 0, 0, 0, 1, 0, 0, 0, 0, 0, 0, 0, 1, 0, 0, 0];
    tiff.place(70, &degrees(35));
    tiff.place(100, &degrees(139));
    tiff.finish()
}

/// A CR3 with the three images in their places. The full-size one
/// sits right after the boxes, where `mdat` would be.
fn cr3_file(thumbnail: &[u8], preview: &[u8], full: &[u8]) -> Vec<u8> {
    let canon = [
        &uuid_bytes(cr3::CANON_UUID)[..],
        &boxed(b"CNCV", b"CanonCR3"),
        &boxed(b"CMT1", &cmt1()),
        &boxed(b"CMT2", &cmt2()),
        &boxed(b"CMT3", &[0; 40]),
        &boxed(b"CMT4", &cmt4()),
        &image_box(b"THMB", thumbnail),
    ]
    .concat();
    let preview_uuid =
        boxed(b"uuid", &[&uuid_bytes(cr3::PREVIEW_UUID)[..], &[0; 8], &image_box(b"PRVW", preview)].concat());
    let ftyp = boxed(b"ftyp", b"crx \0\0\0\x01crx isom");

    // The track holds the full-size image's offset, which depends on
    // the length of everything before it. A track box has the same
    // length whatever the offset is.
    let before = |track: &[u8]| {
        let moov = boxed(b"moov", &[&boxed(b"uuid", &canon)[..], &boxed(b"mvhd", &[0; 100]), track].concat());
        [&ftyp[..], &moov, &preview_uuid].concat()
    };
    let mdat_at = before(&track(0, 0)).len() as u64;
    let mut file = before(&track(mdat_at + 8, full.len() as u32));
    file.extend(boxed(b"mdat", full));
    file
}

#[test]
fn cr3_shows_the_preview_and_joins_the_exif_blocks() {
    let file = cr3_file(&jpeg(160, 120), &jpeg(1620, 1080), &jpeg(3000, 2000));

    let source = Source::new(&file);
    let found = cr3::find(&source).unwrap();
    assert_eq!(found.jpegs.len(), 3, "THMB, PRVW and the first track");

    let found = contents(&file);
    let shown = image::load_from_memory(&found.jpeg.unwrap()).unwrap();
    assert_eq!((shown.width(), shown.height()), (1620, 1080));
    assert_eq!(found.orientation, Orientation::Rotate90);

    let exif = summary(found.exif.unwrap());
    assert_eq!(exif.camera.as_deref(), Some("Canon"));
    assert_eq!(shutter_line(&exif).as_deref(), Some("1/250 s"));
    assert_eq!(exif.orientation.as_deref(), Some("Rotate 90° CW"));
    let location = exif.location.expect("the GPS block");
    let (latitude, longitude) = (location.latitude, location.longitude);
    assert_eq!((latitude.degrees.num, latitude.degrees.denom, latitude.negative), (35, 1, false));
    assert_eq!((longitude.degrees.num, longitude.degrees.denom, longitude.negative), (139, 1, false));
    for part in [latitude.minutes, latitude.seconds, longitude.minutes, longitude.seconds] {
        assert_eq!((part.num, part.denom), (0, 1));
    }
}

/// With HDR PQ turned on the three places hold HEVC. There is nothing
/// to show, and the EXIF is there all the same.
#[test]
fn cr3_without_a_jpeg_still_has_its_exif() {
    let hevc = [&[0, 0, 0, 0x14][..], b"CISZ", &[0x55; 300]].concat();
    let found = contents(&cr3_file(&hevc, &hevc, &hevc));
    assert!(found.jpeg.is_none());
    assert!(matches!(parse_exif(found.exif.unwrap()), ExifData::Present(_)));
}

#[test]
fn broken_cr3_files_give_nothing() {
    let ftyp = boxed(b"ftyp", b"crx \0\0\0\x01crx isom");

    // Only the file type box.
    assert!(contents(&ftyp).jpeg.is_none());

    // A box that claims to be larger than the file, one smaller than
    // its own header, and a `uuid` box too short for an id.
    for bad in [
        [&u32::MAX.to_be_bytes()[..], b"moov"].concat(),
        [&4u32.to_be_bytes()[..], b"moov"].concat(),
        boxed(b"uuid", &[1, 2, 3]),
    ] {
        let found = contents(&[&ftyp[..], &bad].concat());
        assert!(found.jpeg.is_none() && found.exif.is_none());
    }

    // A track that points outside the file.
    let moov = boxed(b"moov", &track(u64::MAX - 5, 1000));
    assert!(contents(&[&ftyp[..], &moov].concat()).jpeg.is_none());

    // An Exif block whose IFD runs past its end is left out, and IFD0
    // is kept.
    let mut cut = cmt2();
    cut[8] = 200;
    let joined = join_exif(&cmt1(), Some(&cut), None).unwrap();
    let exif = summary(joined);
    assert_eq!(exif.camera.as_deref(), Some("Canon"));
    assert_eq!(exif.shutter, None);
}

/// IFD0 of a joined block has its entries in the order of their tags, with
/// the pointers to the other blocks among them, whatever order they had.
#[test]
fn joined_blocks_have_their_entries_in_tag_order() {
    let mut tiff = TiffBuilder::new(ByteOrder::Little, 42, 8);
    tiff.ifd(8, &[(TAG_ORIENTATION, 3, 1, 6), (TAG_MAKE, 2, 4, u32::from_le_bytes(*b"abc\0"))], 0);
    let ifd0 = tiff.finish();
    let joined = join_exif(&ifd0, Some(&cmt2()), Some(&cmt4())).unwrap();
    let at = u32::from_le_bytes([joined[4], joined[5], joined[6], joined[7]]) as usize;
    let count = u16::from_le_bytes([joined[at], joined[at + 1]]) as usize;
    let mut tags = Vec::new();
    for i in 0..count {
        let entry = at + 2 + 12 * i;
        tags.push(u16::from_le_bytes([joined[entry], joined[entry + 1]]));
    }
    assert_eq!(tags, [TAG_MAKE, TAG_ORIENTATION, TAG_EXIF_IFD, TAG_GPS_IFD]);
    assert_eq!(summary(joined).camera.as_deref(), Some("abc"));
}

/// A block that cannot be joined leaves no trace in the joined one: the IFD of
/// the first runs past its end, the second is no TIFF block, the third has
/// another byte order.
#[test]
fn a_broken_block_leaves_no_trace() {
    let mut cut = cmt2();
    cut[8] = 200;
    let mut other_order = TiffBuilder::new(ByteOrder::Big, 42, 8);
    other_order.ifd(8, &[(TAG_ORIENTATION, 3, 1, 6)], 0);
    for bad in [cut, b"not a block".to_vec(), other_order.finish()] {
        for other in [None, Some(&cmt2()[..])] {
            assert_eq!(join_exif(&cmt1(), Some(&bad), other), join_exif(&cmt1(), None, other));
            assert_eq!(join_exif(&cmt1(), other, Some(&bad)), join_exif(&cmt1(), other, None));
        }
    }
}

/// A pointer to an interoperability IFD is moved with its block, and so are
/// the values in there.
#[test]
fn an_interoperability_ifd_moves_with_its_block() {
    let mut tiff = TiffBuilder::new(ByteOrder::Little, 42, 8);
    tiff.ifd(8, &[(TAG_INTEROP_IFD, TYPE_LONG, 1, 40)], 0);
    tiff.ifd(40, &[(1, TYPE_ASCII, 6, 80)], 0);
    tiff.place(80, b"R98--\0");
    let exif = tiff.finish();
    let joined = join_exif(&cmt1(), Some(&exif), None).unwrap();
    let shown = summary(joined);
    let value = shown.tags.iter().find(|(n, _)| n == "InteroperabilityIndex").map(|(_, v)| v.clone());
    assert_eq!(value.as_deref(), Some("\"R98--\""));
}

/// Nothing is joined where the first block is no TIFF block.
#[test]
fn no_block_is_joined_to_something_else() {
    assert!(join_exif(b"not a block", Some(&cmt2()), None).is_none());
}

// ---- RAF -----------------------------------------------------------

/// A RAF header followed by `jpeg`.
fn raf(jpeg: &[u8]) -> Vec<u8> {
    let mut file = b"FUJIFILMCCD-RAW ".to_vec();
    file.resize(148, 0);
    file[JPEG_OFFSET_AT..JPEG_OFFSET_AT + 4].copy_from_slice(&148u32.to_be_bytes());
    file[JPEG_LENGTH_AT..JPEG_LENGTH_AT + 4].copy_from_slice(&(jpeg.len() as u32).to_be_bytes());
    file.extend_from_slice(jpeg);
    file
}

#[test]
fn raf_jpeg_is_at_the_offset_in_the_header() {
    let picture = jpeg(30, 20);
    let found = contents(&raf(&picture));
    assert_eq!(found.jpeg.as_deref(), Some(&picture[..]));
    assert!(found.exif_in_jpeg);
    assert!(found.exif.is_none());
}

#[test]
fn broken_raf_files_give_nothing() {
    // The header is cut short.
    let found = contents(b"FUJIFILMCCD-RAW 0201");
    assert!(found.jpeg.is_none() && !found.exif_in_jpeg);

    // The JPEG is said to be longer than the file.
    let mut file = raf(&jpeg(30, 20));
    file[88..92].copy_from_slice(&u32::MAX.to_be_bytes());
    assert!(contents(&file).jpeg.is_none());

    // The bytes at the offset are not a JPEG.
    assert!(contents(&raf(&[0x11; 500])).jpeg.is_none());
}
