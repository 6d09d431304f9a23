//! Opening pictures from the bytes of their files.
use std::io::Cursor;

use image::codecs::gif::GifEncoder;
use image::codecs::jpeg::JpegEncoder;
use image::{ExtendedColorType, ImageEncoder, ImageFormat};
use viewskater::decode::{image_to_color_image, image_to_thumbnail, Pixel, Samples};
use viewskater::file_io::frames::{open_animation_frames, timed_frame, FrameSource, RawFrame};
use viewskater::file_io::load::{decode_into, load_image, load_raw, LoadError};
use viewskater::file_io::webp::{animated, fits_into, pixels_on_canvas, still_frame_fits, webp_frames_fit};
use viewskater::metadata::{ExifData, MetadataRecord};
use viewskater::raw::found::Orientation;

/// Red left of blue.
fn two_pixels() -> image::RgbImage {
    let mut img = image::RgbImage::new(2, 1);
    img.put_pixel(0, 0, image::Rgb([255, 0, 0]));
    img.put_pixel(1, 0, image::Rgb([0, 0, 255]));
    img
}

fn png() -> Vec<u8> {
    let mut bytes = Vec::new();
    two_pixels().write_to(&mut Cursor::new(&mut bytes), ImageFormat::Png).unwrap();
    bytes
}

/// An EXIF block whose only tag asks for a quarter turn clockwise.
fn turned_block() -> Vec<u8> {
    let mut block = b"MM\0*\0\0\0\x08".to_vec();
    block.extend([0, 1]);
    block.extend([0x01, 0x12, 0, 3, 0, 0, 0, 1, 0, 6, 0, 0]);
    block.extend([0, 0, 0, 0]);
    block
}

/// A file whose pixels cannot be decoded still gets its file facts, so the
/// panel and the footer have something to show next to "Failed to load image".
#[test]
fn record_exists_when_the_pixels_fail() {
    let loaded = load_image(b"this is not a jpeg", "broken.jpg", Some(18), Some("2026-03-27 14:05".into()));

    assert!(loaded.image.is_err());
    assert_eq!(loaded.record.file_size, Some(18));
    assert!(loaded.record.modified.is_some());
    assert!(matches!(loaded.record.exif, ExifData::Absent));
    assert_eq!(loaded.record.format.as_deref(), Some("JPEG"));
}

#[test]
fn the_bytes_tell_the_format_before_the_name_does() {
    let loaded = load_image(&png(), "/p/really_a_png.jpg", None, None);
    assert_eq!(loaded.record.format.as_deref(), Some("PNG"));
    let img = loaded.image.unwrap();
    assert_eq!((img.width, img.height), (2, 1));
    assert_eq!(img.samples, Samples::Rgb(vec![255, 0, 0, 0, 0, 255]));
    assert_eq!(loaded.orientation, Orientation::NoTransforms);
    assert_eq!(loaded.record.file_size, None);

    assert_eq!(load_image(b"nothing", "/p/a.jxl", None, None).record.format.as_deref(), Some("JXL"));
    assert_eq!(load_image(b"nothing", "/p/a", None, None).record.format, None);
}

#[test]
fn a_photo_is_shown_upright() {
    let mut jpeg = Vec::new();
    let mut encoder = JpegEncoder::new_with_quality(&mut jpeg, 100);
    encoder.set_exif_metadata(turned_block()).unwrap();
    encoder.write_image(&image::RgbImage::new(16, 8), 16, 8, ExtendedColorType::Rgb8).unwrap();

    let loaded = load_image(&jpeg, "/p/photo.jpg", Some(jpeg.len() as u64), None);
    assert_eq!(loaded.orientation, Orientation::Rotate90);
    match &loaded.record.exif {
        ExifData::Present(exif) => assert_eq!(exif.orientation.as_deref(), Some("Rotate 90° CW")),
        other => panic!("{other:?}"),
    }
    let shown = image_to_color_image(loaded.image.unwrap(), (0, 0), loaded.orientation);
    assert_eq!((shown.width, shown.height), (8, 16));
    assert_eq!(shown.pixels[0], Pixel { r: 0, g: 0, b: 0, a: 255 });
}

/// A PNG whose EXIF block stands behind the pixels.
#[test]
fn a_block_behind_the_pixels_is_found() {
    let block = turned_block();
    let mut chunk = (block.len() as u32).to_be_bytes().to_vec();
    chunk.extend(b"eXIf");
    chunk.extend(&block);
    chunk.extend([0, 0, 0, 0]);
    let mut file = png();
    let end = file.len() - 12;
    file.splice(end..end, chunk);

    let mut record =
        MetadataRecord { file_size: Some(7), modified: None, format: None, exif: ExifData::Absent };
    let image = decode_into(&file, "/p/late.png", &mut record);
    assert!(image.is_ok());
    assert_eq!(record.file_size, Some(7));
    match &record.exif {
        ExifData::Present(exif) => assert_eq!(exif.tags.len(), 1),
        other => panic!("{other:?}"),
    }
}

#[test]
fn only_files_that_move_have_frames() {
    let frame = || image::Frame::new(image::RgbaImage::new(2, 2));
    let mut gif = Vec::new();
    GifEncoder::new(&mut gif).encode_frames(vec![frame(), frame()]).unwrap();
    let frames = open_animation_frames(gif, "/p/moves.gif").unwrap().unwrap();
    assert_eq!(frames.count(), 2);

    assert!(open_animation_frames(png(), "/p/still.png").unwrap().is_none());
    assert!(open_animation_frames(b"plain text".to_vec(), "/p/a.txt").unwrap().is_none());
    assert!(open_animation_frames(b"not a gif".to_vec(), "/p/broken.gif").is_err());
}

/// A GIF of so many frames, each of which stays for 40 milliseconds.
fn gif(frames: usize) -> Vec<u8> {
    let delay = image::Delay::from_numer_denom_ms(40, 1);
    let mut bytes = Vec::new();
    GifEncoder::new(&mut bytes)
        .encode_frames((0..frames).map(|i| {
            let colour = image::Rgba([0, 100 * i as u8, 0, 255]);
            image::Frame::from_parts(image::RgbaImage::from_pixel(2, 1, colour), 0, 0, delay)
        }))
        .unwrap();
    bytes
}

#[test]
fn an_animation_goes_on_from_its_start() {
    let mut source = FrameSource::new(gif(2), "/p/moves.gif".into());
    let mut greens = Vec::new();
    for _ in 0..5 {
        let frame = source.next_frame().unwrap();
        assert_eq!((frame.image.width, frame.image.height), (2, 1));
        assert_eq!(frame.delay, 40);
        match &frame.image.samples {
            Samples::Rgba(bytes) => greens.push(bytes[1] > 50),
            other => panic!("{other:?}"),
        }
    }
    assert_eq!(greens, [false, true, false, true, false]);
}

#[test]
fn a_picture_that_does_not_move_is_not_played() {
    let mut one = FrameSource::new(gif(1), "/p/one.gif".into());
    assert!(one.next_frame().is_some());
    assert!(one.next_frame().is_none());
    assert!(FrameSource::new(png(), "/p/still.png".into()).next_frame().is_none());
    assert!(FrameSource::new(b"not a gif".to_vec(), "/p/broken.gif".into()).next_frame().is_none());
}

#[test]
fn a_frame_has_no_more_bytes_than_pixels() {
    let f = timed_frame(RawFrame { width: 1, height: 1, rgba: vec![1, 2, 3, 4, 9], num: 100, denom: 3 });
    assert_eq!(f.image.samples, Samples::Rgba(vec![1, 2, 3, 4]));
    assert_eq!(f.delay, 34);
}

/// A chunk of a WebP.
fn chunk(tag: &[u8; 4], data: &[u8]) -> Vec<u8> {
    let mut bytes = tag.to_vec();
    bytes.extend((data.len() as u32).to_le_bytes());
    bytes.extend(data);
    if data.len() % 2 == 1 {
        bytes.push(0);
    }
    bytes
}

/// A frame of a size in pixels that stays for 50 milliseconds.
fn webp_frame(width: u8, height: u8, picture: &[u8]) -> Vec<u8> {
    let mut data = vec![0; 6];
    data.extend([width - 1, 0, 0, height - 1, 0, 0, 50, 0, 0, 2]);
    data.extend(picture);
    chunk(b"ANMF", &data)
}

/// An animated WebP with a canvas of some pixels.
fn webp(width: u8, height: u8, frames: &[Vec<u8>]) -> Vec<u8> {
    let mut body = b"WEBP".to_vec();
    body.extend(chunk(b"VP8X", &[0x12, 0, 0, 0, width - 1, 0, 0, height - 1, 0, 0]));
    body.extend(chunk(b"ANIM", &[0; 6]));
    body.extend(frames.concat());
    let mut file = b"RIFF".to_vec();
    file.extend((body.len() as u32).to_le_bytes());
    file.extend(body);
    file
}

/// The pixels of a picture without a frame around them.
fn lossless(img: &image::RgbaImage) -> Vec<u8> {
    let mut bytes = Vec::new();
    img.write_to(&mut Cursor::new(&mut bytes), ImageFormat::WebP).unwrap();
    bytes[12..].to_vec()
}

fn moving_webp() -> Vec<u8> {
    let red = image::RgbaImage::from_pixel(2, 1, image::Rgba([255, 0, 0, 255]));
    let blue = image::RgbaImage::from_pixel(2, 1, image::Rgba([0, 0, 255, 255]));
    webp(2, 1, &[webp_frame(2, 1, &lossless(&red)), webp_frame(2, 1, &lossless(&blue))])
}

/// A frame with an alpha channel before a picture of a size.
fn alpha_frame(width: u8, height: u8, picture: u8) -> Vec<u8> {
    let mut data = chunk(b"ALPH", &[0, 255]);
    data.extend(chunk(b"VP8 ", &[0x10, 2, 0, 0x9d, 1, 0x2a, picture, 0, picture, 0, 0, 0]));
    webp_frame(width, height, &data)
}

#[test]
fn a_webp_plays_its_frames() {
    let file = moving_webp();
    assert!(animated(&file));
    assert_eq!(pixels_on_canvas(&file), 2);
    assert!(webp_frames_fit(&file, 2));
    let still = load_image(&file, "/p/moves.webp", None, None).image.unwrap();
    assert_eq!(still.samples, Samples::Rgba(vec![255, 0, 0, 255, 255, 0, 0, 255]));

    let mut source = FrameSource::new(file, "/p/moves.webp".into());
    for pixel in [[255, 0, 0, 255], [0, 0, 255, 255], [255, 0, 0, 255]] {
        let frame = source.next_frame().unwrap();
        assert_eq!(frame.delay, 50);
        assert_eq!(frame.image.samples, Samples::Rgba([pixel, pixel].concat()));
    }
    assert_eq!(source.asked, 1);
}

/// The decoder would write past the frame.
#[test]
fn a_frame_of_another_size_is_not_decoded() {
    let file = webp(1, 1, &[alpha_frame(1, 1, 16)]);
    assert!(animated(&file));
    assert!(!still_frame_fits(&file));
    let loaded = load_image(&file, "/p/a.webp", None, None);
    assert!(matches!(loaded.image, Err(LoadError::FrameSize)));
    assert_eq!(loaded.record.format.as_deref(), Some("WebP"));
    let mut source = FrameSource::new(file, "/p/a.webp".into());
    assert!(source.next_frame().is_none());
    assert_eq!(source.asked, 0);

    assert!(still_frame_fits(&webp(1, 1, &[alpha_frame(1, 1, 1)])));
    assert!(still_frame_fits(&png()));
    assert!(!animated(&png()));
}

/// Two by two red pixels, without a frame around them.
const LOSSY: [u8; 48] = [
    0xd0, 0x01, 0x00, 0x9d, 0x01, 0x2a, 0x02, 0x00, 0x02, 0x00, 0x02, 0x00, 0x34, 0x25, 0xa0, 0x02, 0x74, 0xba, 0x01,
    0xf8, 0x00, 0x03, 0xb0, 0x00, 0xfe, 0xf0, 0xc4, 0x0b, 0xff, 0x20, 0xb9, 0x61, 0x75, 0xc8, 0xd7, 0xff, 0x20, 0x3f,
    0xe4, 0x07, 0xfc, 0x80, 0xff, 0xf8, 0xf2, 0x00, 0x00, 0x00,
];

/// A picture that is smaller than its frame is written as far as it goes.
#[test]
fn a_smaller_picture_fits_where_its_rows_do() {
    let frame = |width: u8, height: u8| {
        let mut alpha = vec![0];
        alpha.resize(1 + usize::from(width) * usize::from(height), 255);
        let mut data = chunk(b"ALPH", &alpha);
        data.extend(chunk(b"VP8 ", &LOSSY));
        webp(width, height, &[webp_frame(width, height, &data)])
    };
    for (width, height) in [(2, 2), (3, 2), (4, 2), (6, 1), (2, 9), (8, 8)] {
        assert!(fits_into(2, 2, width.into(), height.into()));
        let file = frame(width, height);
        assert!(still_frame_fits(&file));
        let img = load_image(&file, "/p/small.webp", None, None).image.unwrap();
        assert_eq!((img.width, img.height), (width.into(), height.into()));
        match &img.samples {
            Samples::Rgba(bytes) => assert!(bytes[0] > 200 && bytes[1] < 60 && bytes[3] == 255, "{bytes:?}"),
            other => panic!("{other:?}"),
        }
        assert!(FrameSource::new(file, "/p/small.webp".into()).next_frame().is_some());
    }
    for (width, height) in [(1, 1), (3, 1), (5, 1), (7, 3)] {
        assert!(!fits_into(2, 2, width.into(), height.into()));
        let loaded = load_image(&frame(width, height), "/p/small.webp", None, None);
        assert!(matches!(loaded.image, Err(LoadError::FrameSize)));
    }
    assert!(!fits_into(2, 1, 2, 2));
    assert!(fits_into(1, 2, 2, 2));
    assert!(!fits_into(0, 2, 2, 2));
}

#[test]
fn the_frames_before_one_of_another_size_are_played() {
    let red = image::RgbaImage::from_pixel(2, 1, image::Rgba([255, 0, 0, 255]));
    let file = webp(2, 1, &[webp_frame(2, 1, &lossless(&red)), alpha_frame(2, 1, 16)]);
    assert!(still_frame_fits(&file));
    assert!(webp_frames_fit(&file, 1));
    assert!(!webp_frames_fit(&file, 2));
    assert!(load_image(&file, "/p/a.webp", None, None).image.is_ok());
    let mut source = FrameSource::new(file, "/p/a.webp".into());
    assert!(source.next_frame().is_some());
    assert!(source.next_frame().is_none());
    assert_eq!(source.asked, 1);
}

#[test]
fn a_canvas_that_cannot_be_counted_is_not_played() {
    let mut file = moving_webp();
    file[24..30].copy_from_slice(&[0xff, 0xff, 0x00, 0xff, 0x3f, 0x00]);
    assert_eq!(pixels_on_canvas(&file), 1 << 30);
    assert!(FrameSource::new(file, "/p/huge.webp".into()).next_frame().is_none());
}

#[test]
fn a_picture_keeps_its_depth_until_it_is_shown() {
    let deep = image::ImageBuffer::from_pixel(800, 2, image::Rgb([0x8000u16, 0xffff, 0]));
    let mut file = Vec::new();
    image::DynamicImage::ImageRgb16(deep).write_to(&mut Cursor::new(&mut file), ImageFormat::Png).unwrap();
    let img = load_image(&file, "/p/deep.png", None, None).image.unwrap();
    match &img.samples {
        Samples::Deep(words) => {
            assert_eq!(words.len(), 800 * 2 * 4);
            assert_eq!(words[..4], [0x8000, 0xffff, 0, 0xffff]);
        }
        other => panic!("{other:?}"),
    }
    let shown = image_to_thumbnail(img, Orientation::NoTransforms);
    assert_eq!((shown.width, shown.height), (400, 1));
    assert_eq!(shown.pixels[7], Pixel { r: 128, g: 255, b: 0, a: 255 });
}

#[test]
fn a_picture_in_fractions_keeps_them_until_it_is_shown() {
    let light = image::ImageBuffer::from_pixel(800, 2, image::Rgb([0.5f32, 2.0, -1.0]));
    let mut file = Vec::new();
    image::DynamicImage::ImageRgb32F(light).write_to(&mut Cursor::new(&mut file), ImageFormat::Tiff).unwrap();
    let img = load_image(&file, "/p/light.tif", None, None).image.unwrap();
    match &img.samples {
        Samples::Fractions(image) => assert_eq!((image.width(), image.height()), (800, 2)),
        other => panic!("{other:?}"),
    }
    let small = image_to_thumbnail(img, Orientation::NoTransforms);
    assert_eq!((small.width, small.height), (400, 1));
    assert_eq!(small.pixels[7], Pixel { r: 128, g: 255, b: 0, a: 255 });

    let img = load_image(&file, "/p/light.tif", None, None).image.unwrap();
    let shown = image_to_color_image(img, (0, 0), Orientation::Rotate90);
    assert_eq!((shown.width, shown.height), (2, 800));
    assert_eq!(shown.pixels[0], Pixel { r: 128, g: 255, b: 0, a: 255 });
}

#[test]
fn a_raw_file_is_shown_through_its_jpeg() {
    let loaded = load_raw(b"no camera wrote this", "/p/a.nef", Some(20), None);
    assert!(loaded.image.is_err());
    assert_eq!(loaded.record.format.as_deref(), Some("NEF"));
    assert_eq!(loaded.record.file_size, Some(20));
    assert!(matches!(loaded.record.exif, ExifData::Absent));
    assert_eq!(loaded.orientation, Orientation::NoTransforms);
}
