//! Metadata: the curated lines, whole EXIF blocks, and the tag list.
use exif::{Field, In, Rational, SRational, Tag, Value};

use viewskater::metadata::bounded::Bounded;
use viewskater::metadata::curated::{
    aperture, aperture_text, camera_line, camera_text, ev_text, exposure_bias, focal, focal_text, iso_text,
    orientation_text, shutter, shutter_text, trim_decimal, trimmed_value, Bias, Focal, Shutter,
};
use viewskater::metadata::date::{date_from, datetime_text};
use viewskater::metadata::fields::{ExifField, ExifTag, ExifValue, Ratio, SRatio, TagContext};
use viewskater::metadata::gps::{altitude, altitude_text, angle, map_url, position_text, Altitude, Angle};
use viewskater::metadata::{
    exif_data, parse_exif, strip_exif_prefix, summarize, tag_name, tag_value, ExifData, ExifSummary, MAX_VALUE_CHARS,
};

fn r(num: u32, denom: u32) -> Ratio {
    Ratio { num, denom }
}

fn sr(num: i32, denom: i32) -> SRatio {
    SRatio { num, denom }
}

fn number(r: Ratio) -> f64 {
    r.num as f64 / r.denom as f64
}

/// An exposure time as a line, rounded for the form it is written in.
fn shutter_line(s: Option<Shutter>) -> Option<String> {
    let s = s?;
    match s {
        Shutter::Part(r) => Some(shutter_text(s, &format!("{}", (1.0 / number(r)).round() as u32))),
        Shutter::Seconds(r) => Some(shutter_text(s, &format!("{:.1}", number(r)))),
    }
}

fn aperture_line(a: Option<Ratio>) -> Option<String> {
    Some(aperture_text(&format!("{:.2}", number(a?))))
}

fn focal_line(f: Option<Focal>) -> Option<String> {
    let f = f?;
    Some(focal_text(f, &format!("{:.2}", number(f.length))))
}

fn bias_line(b: Option<Bias>) -> Option<String> {
    let b = b?;
    let ev = b.value.num as f64 / b.value.denom as f64;
    Some(ev_text(b.negative, &format!("{:.1}", ev.abs())))
}

fn degrees(a: Angle) -> f64 {
    let d = number(a.degrees) + number(a.minutes) / 60.0 + number(a.seconds) / 3600.0;
    if a.negative { -d } else { d }
}

#[test]
fn shutter_fractions_below_a_third_of_a_second_decimals_above() {
    assert_eq!(shutter_line(shutter(r(1, 250))).unwrap(), "1/250 s");
    assert_eq!(shutter_line(shutter(r(10, 2500))).unwrap(), "1/250 s");
    assert_eq!(shutter_line(shutter(r(1, 3))).unwrap(), "0.3 s");
    assert_eq!(shutter_line(shutter(r(1, 4))).unwrap(), "1/4 s");
    assert_eq!(shutter_line(shutter(r(1, 2))).unwrap(), "0.5 s");
    assert_eq!(shutter_line(shutter(r(2, 1))).unwrap(), "2 s");
    assert_eq!(shutter_line(shutter(r(13, 10))).unwrap(), "1.3 s");
    assert_eq!(shutter_line(shutter(r(30, 1))).unwrap(), "30 s");
    assert_eq!(shutter_line(shutter(r(0, 1))), None);
    assert_eq!(shutter_line(shutter(r(1, 0))), None);
}

#[test]
fn aperture_drops_trailing_zero() {
    assert_eq!(aperture_line(aperture(r(28, 10))).unwrap(), "f/2.8");
    assert_eq!(aperture_line(aperture(r(2, 1))).unwrap(), "f/2");
    assert_eq!(aperture_line(aperture(r(56, 10))).unwrap(), "f/5.6");
    assert_eq!(aperture_line(aperture(r(11, 1))).unwrap(), "f/11");
    assert_eq!(aperture_line(aperture(r(95, 100))).unwrap(), "f/0.95");
    assert_eq!(aperture_line(aperture(r(89, 50))).unwrap(), "f/1.78");
    assert_eq!(aperture_line(aperture(r(0, 10))), None);
}

#[test]
fn focal_length_with_and_without_equivalent() {
    assert_eq!(focal_line(focal(r(50, 1), None)).unwrap(), "50 mm");
    assert_eq!(focal_line(focal(r(50, 1), Some(75))).unwrap(), "75 mm (50 mm)");
    assert_eq!(focal_line(focal(r(50, 1), Some(50))).unwrap(), "50 mm");
    assert_eq!(focal_line(focal(r(50, 1), Some(0))).unwrap(), "50 mm");
    assert_eq!(focal_line(focal(r(42, 10), Some(26))).unwrap(), "26 mm (4.2 mm)");
    assert_eq!(focal_line(focal(r(343, 50), Some(24))).unwrap(), "24 mm (6.86 mm)");
    assert_eq!(focal_line(focal(r(0, 1), None)), None);
}

#[test]
fn exposure_bias_is_signed_and_hidden_at_zero() {
    assert_eq!(bias_line(exposure_bias(sr(0, 1))), None);
    assert_eq!(bias_line(exposure_bias(sr(0, 3))), None);
    assert_eq!(bias_line(exposure_bias(sr(1, 3))).unwrap(), "+0.3 EV");
    assert_eq!(bias_line(exposure_bias(sr(-5, 3))).unwrap(), "-1.7 EV");
    assert_eq!(bias_line(exposure_bias(sr(1, 1))).unwrap(), "+1 EV");
    assert_eq!(bias_line(exposure_bias(sr(-1, 2))).unwrap(), "-0.5 EV");
    assert_eq!(bias_line(exposure_bias(sr(1, 0))), None);
}

#[test]
fn camera_dedupes_make_repeated_in_model() {
    assert_eq!(camera_text(Some("Canon"), Some("Canon EOS R5")).unwrap(), "Canon EOS R5");
    assert_eq!(
        camera_text(Some("NIKON CORPORATION"), Some("NIKON D750")).unwrap(),
        "NIKON D750"
    );
    assert_eq!(camera_text(Some("SONY"), Some("ILCE-7M4")).unwrap(), "SONY ILCE-7M4");
    assert_eq!(camera_text(Some("Apple"), Some("iPhone 15")).unwrap(), "Apple iPhone 15");
    assert_eq!(camera_text(Some("SONY  "), None).unwrap(), "SONY");
    assert_eq!(camera_text(None, Some(" X100V")).unwrap(), "X100V");
    assert_eq!(camera_text(Some(""), Some("")), None);
    assert_eq!(camera_text(None, None), None);
}

/// The first word of the make is looked for in the model in small letters.
#[test]
fn camera_compares_in_small_letters() {
    assert_eq!(camera_text(Some("Leica Camera AG"), Some("LEICA Q2")).unwrap(), "LEICA Q2");
    assert_eq!(camera_line("SONY", "ILCE-7M4", "sony", "ilce-7m4"), "SONY ILCE-7M4");
    assert_eq!(camera_line("Canon", "Canon EOS R5", "canon", "canon eos r5"), "Canon EOS R5");
}

#[test]
fn orientation_as_a_turn() {
    assert_eq!(orientation_text(1).unwrap(), "Normal");
    assert_eq!(orientation_text(6).unwrap(), "Rotate 90° CW");
    assert_eq!(orientation_text(8).unwrap(), "Rotate 90° CCW");
    assert_eq!(orientation_text(3).unwrap(), "Rotate 180°");
    assert_eq!(orientation_text(9), None);
}

#[test]
fn dms_to_decimal_degrees() {
    // 8° 24' 34.2"
    let d = degrees(angle(&[r(8, 1), r(24, 1), r(342, 10)], Some(b"N"), b'S').unwrap());
    assert!((d - 8.4095).abs() < 1e-9, "{d}");
    assert_eq!(angle(&[r(8, 1), r(24, 1)], Some(b"N"), b'S'), None);
    assert_eq!(angle(&[r(8, 1), r(24, 0), r(0, 1)], Some(b"N"), b'S'), None);
}

/// The letter in front turns the sign, in either case, and a missing one
/// leaves it.
#[test]
fn the_hemisphere_gives_the_sign() {
    let dms = [r(8, 1), r(24, 1), r(342, 10)];
    assert!(angle(&dms, Some(b"S"), b'S').unwrap().negative);
    assert!(angle(&dms, Some(b"s"), b'S').unwrap().negative);
    assert!(!angle(&dms, Some(b"N"), b'S').unwrap().negative);
    assert!(!angle(&dms, Some(b""), b'S').unwrap().negative);
    assert!(!angle(&dms, None, b'S').unwrap().negative);
}

#[test]
fn datetime_with_offset() {
    let date = date_from(b"2026:03:27 14:05:12", None).unwrap();
    assert_eq!(datetime_text(&date), "2026-03-27 14:05:12");
    let date = date_from(b"2026:03:27 14:05:12", Some(b"+08:00")).unwrap();
    assert_eq!(datetime_text(&date), "2026-03-27 14:05:12 +08:00");
    let date = date_from(b"2026:03:27 14:05:12", Some(b"-03:30")).unwrap();
    assert_eq!(datetime_text(&date), "2026-03-27 14:05:12 -03:30");
}

/// No date from something else, and a date without an offset where the offset
/// is something else.
#[test]
fn a_date_that_does_not_read_is_none() {
    assert!(date_from(b"yesterday", None).is_none());
    assert!(date_from(b"    :  :     :  :  ", None).is_none());
    let date = date_from(b"2026:03:27 14:05:12", Some(b"   :  ")).unwrap();
    assert_eq!(date.offset, None);
    let date = date_from(b"2026:03:27 14:05:12", Some(b"8 hours")).unwrap();
    assert_eq!(datetime_text(&date), "2026-03-27 14:05:12");
}

#[test]
fn bounded_writer_stops_the_formatter() {
    let mut out = Bounded::new(10);
    let result = out.write_str("abcdefghijklmnop");
    assert!(result.is_err());
    assert_eq!(out.finish(), "abcdefghij…");

    let mut out = Bounded::new(10);
    out.write_str("short").unwrap();
    assert_eq!(out.finish(), "short");

    // Cuts on a character boundary.
    let mut out = Bounded::new(4);
    let _ = out.write_str("ééé");
    assert_eq!(out.finish(), "éé…");
}

/// Pieces are kept like the whole text, and nothing is added after a cut.
#[test]
fn bounded_pieces_are_kept_like_the_whole() {
    let mut out = Bounded::new(10);
    assert!(out.write_str("abcd").is_ok());
    assert!(out.write_str("efgh").is_ok());
    assert!(out.write_str("ijkl").is_err());
    assert!(out.write_str("m").is_err());
    assert_eq!(out.finish(), "abcdefghij…");
    let mut exact = Bounded::new(4);
    assert!(exact.write_str("abcd").is_ok());
    assert_eq!(exact.finish(), "abcd");
}

#[test]
fn numbers_and_lines_read_as_they_should() {
    assert_eq!(trim_decimal("2.80"), "2.8");
    assert_eq!(trim_decimal("11.00"), "11");
    assert_eq!(trim_decimal("100"), "100");
    assert_eq!(iso_text(400), "ISO 400");
    assert_eq!(trimmed_value("  a lens\0\0 ").as_deref(), Some("a lens"));
    assert_eq!(trimmed_value(" \0"), None);
    assert_eq!(position_text("-8.4095", "115.1889"), "-8.4095, 115.1889");
    assert_eq!(altitude_text("-12"), "-12 m");
    assert_eq!(altitude(None, Some(1)), None);
    assert_eq!(altitude(Some(r(1, 0)), Some(1)), None);
    assert_eq!(altitude(Some(r(5, 1)), None), Some(Altitude { metres: r(5, 1), below_sea_level: false }));
}

// ---- whole blocks --------------------------------------------------

fn field(tag: Tag, value: Value) -> Field {
    Field { tag, ifd_num: In::PRIMARY, value }
}

fn ascii(tag: Tag, s: &str) -> Field {
    field(tag, Value::Ascii(vec![s.as_bytes().to_vec()]))
}

fn short(tag: Tag, v: u16) -> Field {
    field(tag, Value::Short(vec![v]))
}

fn rational(tag: Tag, num: u32, denom: u32) -> Field {
    field(tag, Value::Rational(vec![Rational { num, denom }]))
}

fn rationals(tag: Tag, list: &[(u32, u32)]) -> Field {
    field(tag, Value::Rational(list.iter().map(|&(num, denom)| Rational { num, denom }).collect()))
}

fn exif_block(fields: &[Field]) -> Vec<u8> {
    let mut writer = exif::experimental::Writer::new();
    for f in fields {
        writer.push_field(f);
    }
    let mut buf = std::io::Cursor::new(Vec::new());
    writer.write(&mut buf, false).unwrap();
    buf.into_inner()
}

fn summary(fields: &[Field]) -> ExifSummary {
    match parse_exif(exif_block(fields)) {
        ExifData::Present(s) => *s,
        other => panic!("expected parsed EXIF, got {other:?}"),
    }
}

#[test]
fn camera_section_from_a_block() {
    let s = summary(&[
        ascii(Tag::Make, "NIKON CORPORATION"),
        ascii(Tag::Model, "NIKON D750"),
        ascii(Tag::LensModel, "24.0-70.0 mm f/2.8"),
        rational(Tag::ExposureTime, 1, 250),
        rational(Tag::FNumber, 28, 10),
        short(Tag::PhotographicSensitivity, 400),
        rational(Tag::FocalLength, 50, 1),
        short(Tag::FocalLengthIn35mmFilm, 50),
        field(Tag::ExposureBiasValue, Value::SRational(vec![SRational { num: 1, denom: 3 }])),
        short(Tag::ExposureProgram, 3),
        short(Tag::MeteringMode, 5),
        short(Tag::WhiteBalance, 0),
        short(Tag::Flash, 0x10),
        short(Tag::Orientation, 6),
        ascii(Tag::DateTimeOriginal, "2026:03:27 14:05:12"),
        ascii(Tag::OffsetTimeOriginal, "+08:00"),
    ]);
    assert_eq!(s.camera.as_deref(), Some("NIKON D750"));
    assert_eq!(s.lens.as_deref(), Some("24.0-70.0 mm f/2.8"));
    assert_eq!(shutter_line(s.shutter).as_deref(), Some("1/250 s"));
    assert_eq!(aperture_line(s.aperture).as_deref(), Some("f/2.8"));
    assert_eq!(s.iso.as_deref(), Some("ISO 400"));
    assert_eq!(focal_line(s.focal_length).as_deref(), Some("50 mm"));
    assert_eq!(bias_line(s.exposure_bias).as_deref(), Some("+0.3 EV"));
    // Program, metering, white balance and flash are not curated;
    // they stay reachable in the tag list.
    assert!(s.tags.iter().any(|(n, v)| n == "ExposureProgram" && v == "aperture priority"));
    assert!(s.tags.iter().any(|(n, _)| n == "MeteringMode"));
    assert!(s.tags.iter().any(|(n, _)| n == "WhiteBalance"));
    assert!(s.tags.iter().any(|(n, _)| n == "Flash"));
    assert_eq!(s.orientation.as_deref(), Some("Rotate 90° CW"));
    assert_eq!(s.date_taken.as_deref(), Some("2026-03-27 14:05:12 +08:00"));
    assert_eq!(s.location, None);
    assert!(s.tags.iter().any(|(n, v)| n == "Model" && v == "\"NIKON D750\""));
    assert!(s.tags.iter().any(|(n, v)| n == "FNumber" && v == "f/2.8"));
}

#[test]
fn date_falls_back_to_the_tiff_datetime() {
    let s = summary(&[
        ascii(Tag::DateTime, "2025:12:31 23:59:59"),
        ascii(Tag::OffsetTime, "-05:00"),
    ]);
    assert_eq!(s.date_taken.as_deref(), Some("2025-12-31 23:59:59 -05:00"));
    assert_eq!(s.camera, None);
}

#[test]
fn location_from_gps_tags() {
    let s = summary(&[
        ascii(Tag::GPSLatitudeRef, "S"),
        rationals(Tag::GPSLatitude, &[(8, 1), (24, 1), (342, 10)]),
        ascii(Tag::GPSLongitudeRef, "E"),
        rationals(Tag::GPSLongitude, &[(115, 1), (11, 1), (2004, 100)]),
        field(Tag::GPSAltitudeRef, Value::Byte(vec![1])),
        rational(Tag::GPSAltitude, 123, 10),
    ]);
    let loc = s.location.unwrap();
    let (latitude, longitude) = (degrees(loc.latitude), degrees(loc.longitude));
    assert!((latitude + 8.4095).abs() < 1e-9, "{latitude}");
    assert!((longitude - 115.1889).abs() < 1e-9, "{longitude}");
    let altitude = loc.altitude.unwrap();
    assert!(altitude.below_sea_level);
    let altitude_m = -number(altitude.metres);
    assert_eq!(altitude_m, -12.3);
    assert_eq!(position_text(&format!("{latitude:.4}"), &format!("{longitude:.4}")), "-8.4095, 115.1889");
    assert_eq!(altitude_text(&format!("{altitude_m:.0}")), "-12 m");
    let url = map_url(&format!("{latitude:.6}"), &format!("{longitude:.6}"));
    assert!(url.starts_with("https://www.openstreetmap.org/?mlat=-8.409500&mlon=115.188900"));
}

#[test]
fn location_needs_both_coordinates() {
    let s = summary(&[
        ascii(Tag::GPSLatitudeRef, "N"),
        rationals(Tag::GPSLatitude, &[(8, 1), (24, 1), (342, 10)]),
    ]);
    assert_eq!(s.location, None);
}

#[test]
fn binary_values_are_a_byte_count_and_long_values_are_cut() {
    let long_text = "x".repeat(500);
    let s = summary(&[
        field(Tag::MakerNote, Value::Undefined(vec![0u8; 10], 0)),
        field(Tag::UserComment, Value::Undefined(vec![0u8; 300], 0)),
        field(Tag::ExifVersion, Value::Undefined(b"0231".to_vec(), 0)),
        ascii(Tag::ImageDescription, &long_text),
        field(Tag::ISOSpeed, Value::Long((0..4000).collect())),
    ]);
    let value = |name: &str| {
        s.tags.iter().find(|(n, _)| n == name).map(|(_, v)| v.clone()).unwrap()
    };
    assert_eq!(value("MakerNote"), "10 bytes");
    assert_eq!(value("UserComment"), "300 bytes");
    assert_eq!(value("ExifVersion"), "2.31");
    let description = value("ImageDescription");
    assert!(description.ends_with('…'), "{description}");
    assert!(description.chars().count() <= MAX_VALUE_CHARS + 1);
    let iso = value("ISOSpeed");
    assert!(iso.ends_with('…'));
    assert!(iso.len() <= MAX_VALUE_CHARS + '…'.len_utf8());
}

#[test]
fn prefix_is_stripped_and_garbage_is_unreadable() {
    let block = exif_block(&[ascii(Tag::Make, "Canon")]);
    let mut prefixed = b"Exif\0\0".to_vec();
    prefixed.extend_from_slice(&block);
    match parse_exif(prefixed) {
        ExifData::Present(s) => assert_eq!(s.camera.as_deref(), Some("Canon")),
        other => panic!("{other:?}"),
    }
    assert!(matches!(parse_exif(b"not exif at all".to_vec()), ExifData::Unreadable));
    assert!(matches!(parse_exif(Vec::new()), ExifData::Absent));
    assert!(matches!(parse_exif(b"Exif\0\0".to_vec()), ExifData::Absent));
    assert_eq!(strip_exif_prefix(b"Exif\0\0MM".to_vec()), b"MM");
    assert_eq!(strip_exif_prefix(b"Exif".to_vec()), b"Exif");
}

// ---- fields that are not read from a block -------------------------

fn plain(context: TagContext, number: u16, ifd: u16, value: ExifValue, text: &str) -> ExifField {
    ExifField { tag: ExifTag { context, number, ifd }, value, name: String::from("Name"), text: String::from(text) }
}

/// Only the fields of the main image are curated; the thumbnail's are listed.
#[test]
fn the_thumbnail_gives_no_camera() {
    let make = |ifd: u16| plain(TagContext::Tiff, 0x010F, ifd, ExifValue::Ascii(vec![b"Canon".to_vec()]), "\"Canon\"");
    let main = summarize(&vec![make(0)]);
    assert_eq!(main.camera.as_deref(), Some("Canon"));
    let thumbnail = summarize(&vec![make(1)]);
    assert_eq!(thumbnail.camera, None);
    assert_eq!(thumbnail.tags.len(), 1);
    assert!(thumbnail.tags[0].0.starts_with("Name"));
    assert!(thumbnail.tags[0].0 != main.tags[0].0);
}

#[test]
fn a_value_is_text_or_a_byte_count() {
    let maker_note = plain(TagContext::Exif, 0x927C, 0, ExifValue::Undefined(vec![1, 2, 3]), "0x010203");
    assert_eq!(tag_value(&maker_note), "3 bytes");
    let short = plain(TagContext::Exif, 0x9000, 0, ExifValue::Undefined(vec![0; 64]), "sixty four");
    assert_eq!(tag_value(&short), "sixty four");
    let long = plain(TagContext::Exif, 0x9000, 0, ExifValue::Undefined(vec![0; 65]), "sixty five");
    assert_eq!(tag_value(&long), "65 bytes");
    assert_eq!(tag_name(&short), "Name");
}

#[test]
fn no_fields_is_unreadable_and_an_empty_list_is_a_summary() {
    assert!(matches!(exif_data(None), ExifData::Unreadable));
    match exif_data(Some(Vec::new())) {
        ExifData::Present(s) => {
            assert_eq!(s.camera, None);
            assert_eq!(s.tags.len(), 0);
        }
        other => panic!("{other:?}"),
    }
}
