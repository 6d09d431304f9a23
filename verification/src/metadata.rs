//! What the metadata panel shows about a picture: facts from the file system
//! and from the EXIF block.
use vstd::prelude::*;

use crate::metadata::bounded::Bounded;
use crate::metadata::curated::{Bias, Focal, Shutter};
use crate::metadata::fields::{ExifField, ExifTag, ExifValue, FieldView, Ratio, SRatio, TagContext, ValueView};
use crate::metadata::gps::Location;
use crate::text;

pub mod bounded;
pub mod curated;
pub mod date;
pub mod fields;
pub mod gps;
pub mod reading;

verus! {

/// The longest display text kept for a tag, in bytes.
pub const MAX_VALUE_CHARS: usize = 200;

/// Binary values longer than this are shown as a byte count. A maker note is
/// shown as a count at any size.
pub const MAX_BINARY_BYTES: usize = 64;

/// Facts about one image file.
#[derive(Debug)]
pub struct MetadataRecord {
    pub file_size: Option<u64>,
    /// Modification time in local time, "2026-03-27 14:05".
    pub modified: Option<String>,
    /// Container format as the content sniffer saw it: "JPEG", "PNG", "JXL".
    pub format: Option<String>,
    pub exif: ExifData,
}

/// The EXIF part of a record.
#[derive(Debug)]
pub enum ExifData {
    /// The file carries no EXIF block.
    Absent,
    /// The file carries an EXIF block that could not be parsed.
    Unreadable,
    Present(Box<ExifSummary>),
}

/// The curated values that the panel shows, and every tag.
#[derive(Debug)]
pub struct ExifSummary {
    /// Make and model: "NIKON D750", "Apple iPhone 15".
    pub camera: Option<String>,
    pub lens: Option<String>,
    pub focal_length: Option<Focal>,
    /// The f-number.
    pub aperture: Option<Ratio>,
    pub shutter: Option<Shutter>,
    /// "ISO 400"
    pub iso: Option<String>,
    pub exposure_bias: Option<Bias>,
    /// "2026-03-27 14:05:12", with " +08:00" where the offset is known.
    pub date_taken: Option<String>,
    /// "Rotate 90° CW"
    pub orientation: Option<String>,
    pub location: Option<Location>,
    /// Every tag as name and value, in the order of the file.
    pub tags: Vec<(String, String)>,
}

/// What a summary says.
#[verifier::ext_equal]
pub struct SummaryView {
    pub camera: Option<Seq<char>>,
    pub lens: Option<Seq<char>>,
    pub focal_length: Option<Focal>,
    pub aperture: Option<Ratio>,
    pub shutter: Option<Shutter>,
    pub iso: Option<Seq<char>>,
    pub exposure_bias: Option<Bias>,
    pub date_taken: Option<Seq<char>>,
    pub orientation: Option<Seq<char>>,
    pub location: Option<Location>,
    pub tags: Seq<(Seq<char>, Seq<char>)>,
}

impl View for ExifSummary {
    type V = SummaryView;

    open spec fn view(&self) -> SummaryView {
        SummaryView {
            camera: curated::text_in(self.camera),
            lens: curated::text_in(self.lens),
            focal_length: self.focal_length,
            aperture: self.aperture,
            shutter: self.shutter,
            iso: curated::text_in(self.iso),
            exposure_bias: self.exposure_bias,
            date_taken: curated::text_in(self.date_taken),
            orientation: curated::text_in(self.orientation),
            location: self.location,
            tags: Seq::new(self.tags@.len(), |i: int| (self.tags@[i].0@, self.tags@[i].1@)),
        }
    }
}

/// The tags that the summary reads.
#[derive(Debug, Clone, Copy, PartialEq, Eq, Structural)]
pub enum KnownTag {
    Make,
    Model,
    Orientation,
    DateTime,
    ExposureTime,
    FNumber,
    Sensitivity,
    DateTimeOriginal,
    OffsetTime,
    OffsetTimeOriginal,
    ExposureBias,
    FocalLength,
    FocalLength35mm,
    LensModel,
    LatitudeRef,
    Latitude,
    LongitudeRef,
    Longitude,
    AltitudeRef,
    Altitude,
}

/// The table and the number of a known tag.
pub open spec fn place_of(tag: KnownTag) -> (TagContext, u16) {
    match tag {
        KnownTag::Make => (TagContext::Tiff, 0x10f),
        KnownTag::Model => (TagContext::Tiff, 0x110),
        KnownTag::Orientation => (TagContext::Tiff, 0x112),
        KnownTag::DateTime => (TagContext::Tiff, 0x132),
        KnownTag::ExposureTime => (TagContext::Exif, 0x829a),
        KnownTag::FNumber => (TagContext::Exif, 0x829d),
        KnownTag::Sensitivity => (TagContext::Exif, 0x8827),
        KnownTag::DateTimeOriginal => (TagContext::Exif, 0x9003),
        KnownTag::OffsetTime => (TagContext::Exif, 0x9010),
        KnownTag::OffsetTimeOriginal => (TagContext::Exif, 0x9011),
        KnownTag::ExposureBias => (TagContext::Exif, 0x9204),
        KnownTag::FocalLength => (TagContext::Exif, 0x920a),
        KnownTag::FocalLength35mm => (TagContext::Exif, 0xa405),
        KnownTag::LensModel => (TagContext::Exif, 0xa434),
        KnownTag::LatitudeRef => (TagContext::Gps, 1),
        KnownTag::Latitude => (TagContext::Gps, 2),
        KnownTag::LongitudeRef => (TagContext::Gps, 3),
        KnownTag::Longitude => (TagContext::Gps, 4),
        KnownTag::AltitudeRef => (TagContext::Gps, 5),
        KnownTag::Altitude => (TagContext::Gps, 6),
    }
}

/// The table and the number of a known tag.
fn place(tag: KnownTag) -> (r: (TagContext, u16))
    ensures
        r == place_of(tag),
{
    match tag {
        KnownTag::Make => (TagContext::Tiff, 0x10f),
        KnownTag::Model => (TagContext::Tiff, 0x110),
        KnownTag::Orientation => (TagContext::Tiff, 0x112),
        KnownTag::DateTime => (TagContext::Tiff, 0x132),
        KnownTag::ExposureTime => (TagContext::Exif, 0x829a),
        KnownTag::FNumber => (TagContext::Exif, 0x829d),
        KnownTag::Sensitivity => (TagContext::Exif, 0x8827),
        KnownTag::DateTimeOriginal => (TagContext::Exif, 0x9003),
        KnownTag::OffsetTime => (TagContext::Exif, 0x9010),
        KnownTag::OffsetTimeOriginal => (TagContext::Exif, 0x9011),
        KnownTag::ExposureBias => (TagContext::Exif, 0x9204),
        KnownTag::FocalLength => (TagContext::Exif, 0x920a),
        KnownTag::FocalLength35mm => (TagContext::Exif, 0xa405),
        KnownTag::LensModel => (TagContext::Exif, 0xa434),
        KnownTag::LatitudeRef => (TagContext::Gps, 1),
        KnownTag::Latitude => (TagContext::Gps, 2),
        KnownTag::LongitudeRef => (TagContext::Gps, 3),
        KnownTag::Longitude => (TagContext::Gps, 4),
        KnownTag::AltitudeRef => (TagContext::Gps, 5),
        KnownTag::Altitude => (TagContext::Gps, 6),
    }
}

/// The number of the maker note's tag, which stands in the EXIF table.
pub const MAKER_NOTE: u16 = 0x927c;

/// Whether a tag is a known one, in the picture's own directory.
pub open spec fn is_known(tag: ExifTag, known: KnownTag) -> bool {
    tag.ifd == 0 && (tag.context, tag.number) == place_of(known)
}

/// The value of the last field with a tag in the picture's own directory.
pub open spec fn value_of(fields: Seq<FieldView>, tag: KnownTag) -> Option<ValueView>
    decreases fields.len(),
{
    if fields.len() == 0 {
        None
    } else if is_known(fields.last().tag, tag) {
        Some(fields.last().value)
    } else {
        value_of(fields.drop_last(), tag)
    }
}

/// The first string of a text value.
pub open spec fn ascii_of(v: Option<ValueView>) -> Option<Seq<u8>> {
    match v {
        Some(ValueView::Ascii(strings)) => if strings.len() > 0 {
            Some(strings[0])
        } else {
            None
        },
        _ => None,
    }
}

/// The first string of a text value as it is shown.
pub open spec fn text_of(v: Option<ValueView>) -> Option<Seq<char>> {
    match ascii_of(v) {
        Some(bytes) => curated::shown_text(text::lossy_text(bytes)),
        None => None,
    }
}

/// The first number of an unsigned integer value.
pub open spec fn uint_of(v: Option<ValueView>) -> Option<u32> {
    match v {
        Some(ValueView::Bytes(s)) => if s.len() > 0 {
            Some(s[0] as u32)
        } else {
            None
        },
        Some(ValueView::Shorts(s)) => if s.len() > 0 {
            Some(s[0] as u32)
        } else {
            None
        },
        Some(ValueView::Longs(s)) => if s.len() > 0 {
            Some(s[0])
        } else {
            None
        },
        _ => None,
    }
}

/// The first fraction of a value.
pub open spec fn ratio_of(v: Option<ValueView>) -> Option<Ratio> {
    match v {
        Some(ValueView::Rationals(s)) => if s.len() > 0 {
            Some(s[0])
        } else {
            None
        },
        _ => None,
    }
}

/// The first signed fraction of a value.
pub open spec fn sratio_of(v: Option<ValueView>) -> Option<SRatio> {
    match v {
        Some(ValueView::SRationals(s)) => if s.len() > 0 {
            Some(s[0])
        } else {
            None
        },
        _ => None,
    }
}

/// When the picture was taken: by the tag of the original's date where it
/// exists, else by the tag of the file's date, each with its own offset.
pub open spec fn date_taken_of(fields: Seq<FieldView>) -> Option<Seq<char>> {
    let original = value_of(fields, KnownTag::DateTimeOriginal) is Some;
    let date = ascii_of(
        value_of(
            fields,
            if original {
                KnownTag::DateTimeOriginal
            } else {
                KnownTag::DateTime
            },
        ),
    );
    let offset = ascii_of(
        value_of(
            fields,
            if original {
                KnownTag::OffsetTimeOriginal
            } else {
                KnownTag::OffsetTime
            },
        ),
    );
    match date {
        None => None,
        Some(bytes) => match date::dated(bytes, offset) {
            None => None,
            Some(d) => Some(date::date_text(d)),
        },
    }
}

/// The angle of a coordinate's tag and its hemisphere's.
pub open spec fn coordinate_of(
    fields: Seq<FieldView>,
    tag: KnownTag,
    ref_tag: KnownTag,
    letter: u8,
) -> Option<gps::Angle> {
    match value_of(fields, tag) {
        Some(ValueView::Rationals(dms)) => gps::angle_of(
            dms,
            ascii_of(value_of(fields, ref_tag)),
            letter,
        ),
        _ => None,
    }
}

/// Where the picture was taken: known where both coordinates are.
pub open spec fn location_of(fields: Seq<FieldView>) -> Option<Location> {
    match (
        coordinate_of(fields, KnownTag::Latitude, KnownTag::LatitudeRef, 0x53),
        coordinate_of(fields, KnownTag::Longitude, KnownTag::LongitudeRef, 0x57),
    ) {
        (Some(latitude), Some(longitude)) => Some(
            Location {
                latitude,
                longitude,
                altitude: gps::altitude_of(
                    ratio_of(value_of(fields, KnownTag::Altitude)),
                    uint_of(value_of(fields, KnownTag::AltitudeRef)),
                ),
            },
        ),
        _ => None,
    }
}

/// The name of a field's tag, with its directory where that is not the
/// picture's own.
pub open spec fn tag_name_of(f: FieldView) -> Seq<char> {
    f.name + if f.tag.ifd == 0 {
        Seq::empty()
    } else if f.tag.ifd == 1 {
        " (thumbnail)"@
    } else {
        " (IFD"@ + text::decimal(f.tag.ifd as nat) + seq![')']
    }
}

/// How many bytes a binary value holds.
pub open spec fn binary_len(v: ValueView) -> Option<int> {
    match v {
        ValueView::Bytes(s) => Some(s.len() as int),
        ValueView::Undefined(s) => Some(s.len() as int),
        _ => None,
    }
}

/// Whether a field is shown as a byte count.
pub open spec fn is_counted(f: FieldView) -> bool {
    match binary_len(f.value) {
        Some(n) => (f.tag.context == TagContext::Exif && f.tag.number == MAKER_NOTE) || n
            > MAX_BINARY_BYTES,
        None => false,
    }
}

/// The value of a field as it is listed.
pub open spec fn tag_value_of(f: FieldView) -> Seq<char> {
    if is_counted(f) {
        text::decimal(binary_len(f.value)->0 as nat) + " bytes"@
    } else {
        bounded::bounded_text(f.text, MAX_VALUE_CHARS as int)
    }
}

/// What the summary of a block's fields says.
pub open spec fn summary_of(fields: Seq<FieldView>) -> SummaryView {
    SummaryView {
        camera: curated::camera_of(
            text_of(value_of(fields, KnownTag::Make)),
            text_of(value_of(fields, KnownTag::Model)),
        ),
        lens: text_of(value_of(fields, KnownTag::LensModel)),
        focal_length: match ratio_of(value_of(fields, KnownTag::FocalLength)) {
            Some(r) => curated::focal_of(r, uint_of(value_of(fields, KnownTag::FocalLength35mm))),
            None => None,
        },
        aperture: match ratio_of(value_of(fields, KnownTag::FNumber)) {
            Some(r) => if curated::is_positive(r) {
                Some(r)
            } else {
                None
            },
            None => None,
        },
        shutter: match ratio_of(value_of(fields, KnownTag::ExposureTime)) {
            Some(r) => curated::shutter_of(r),
            None => None,
        },
        iso: match uint_of(value_of(fields, KnownTag::Sensitivity)) {
            Some(v) => Some(curated::iso_line(v as int)),
            None => None,
        },
        exposure_bias: match sratio_of(value_of(fields, KnownTag::ExposureBias)) {
            Some(r) => curated::bias_of(r),
            None => None,
        },
        date_taken: date_taken_of(fields),
        orientation: match uint_of(value_of(fields, KnownTag::Orientation)) {
            Some(v) => curated::orientation_name(v as int),
            None => None,
        },
        location: location_of(fields),
        tags: Seq::new(
            fields.len(),
            |i: int| (tag_name_of(fields[i]), tag_value_of(fields[i])),
        ),
    }
}

/// The value behind an option.
pub open spec fn value_in(v: Option<&ExifValue>) -> Option<ValueView> {
    match v {
        Some(x) => Some(x@),
        None => None,
    }
}

/// The value of the last field with a tag in the picture's own directory.
fn find_value(fields: &Vec<ExifField>, tag: KnownTag) -> (r: Option<&ExifValue>)
    ensures
        value_in(r) == value_of(fields::fields_view(fields@), tag),
{
    let ghost all = fields::fields_view(fields@);
    let (context, number) = place(tag);
    let mut n: usize = fields.len();
    assert(all.take(n as int) =~= all);
    while n > 0
        invariant
            n <= fields@.len(),
            all == fields::fields_view(fields@),
            (context, number) == place_of(tag),
            value_of(all.take(n as int), tag) == value_of(all, tag),
        decreases n,
    {
        assert(all.take(n as int).drop_last() =~= all.take(n - 1));
        let found = fields[n - 1].tag;
        if found.ifd == 0 && found.context == context && found.number == number {
            return Some(&fields[n - 1].value);
        }
        n -= 1;
    }
    assert(all.take(0).len() == 0);
    None
}

/// The first string of a text value.
fn ascii_bytes<'a>(v: Option<&'a ExifValue>) -> (r: Option<&'a [u8]>)
    ensures
        fields::bytes_in(r) == ascii_of(value_in(v)),
{
    match v {
        Some(ExifValue::Ascii(strings)) => if strings.len() > 0 {
            Some(strings[0].as_slice())
        } else {
            None
        },
        _ => None,
    }
}

/// The first string of a text value as it is shown.
fn ascii_value(v: Option<&ExifValue>) -> (r: Option<String>)
    ensures
        curated::text_in(r) == text_of(value_in(v)),
{
    match ascii_bytes(v) {
        Some(bytes) => {
            let lossy = text::from_lossy(bytes);
            curated::trimmed_value(lossy.as_str())
        },
        None => None,
    }
}

/// The first number of an unsigned integer value.
fn first_uint(v: Option<&ExifValue>) -> (r: Option<u32>)
    ensures
        r == uint_of(value_in(v)),
{
    match v {
        Some(ExifValue::Bytes(s)) => if s.len() > 0 {
            Some(s[0] as u32)
        } else {
            None
        },
        Some(ExifValue::Shorts(s)) => if s.len() > 0 {
            Some(s[0] as u32)
        } else {
            None
        },
        Some(ExifValue::Longs(s)) => if s.len() > 0 {
            Some(s[0])
        } else {
            None
        },
        _ => None,
    }
}

/// The first fraction of a value.
fn first_rational(v: Option<&ExifValue>) -> (r: Option<Ratio>)
    ensures
        r == ratio_of(value_in(v)),
{
    match v {
        Some(ExifValue::Rationals(s)) => if s.len() > 0 {
            Some(s[0])
        } else {
            None
        },
        _ => None,
    }
}

/// The first signed fraction of a value.
fn first_srational(v: Option<&ExifValue>) -> (r: Option<SRatio>)
    ensures
        r == sratio_of(value_in(v)),
{
    match v {
        Some(ExifValue::SRationals(s)) => if s.len() > 0 {
            Some(s[0])
        } else {
            None
        },
        _ => None,
    }
}

/// When the picture was taken.
fn date_taken(fields: &Vec<ExifField>) -> (r: Option<String>)
    ensures
        curated::text_in(r) == date_taken_of(fields::fields_view(fields@)),
{
    let original = find_value(fields, KnownTag::DateTimeOriginal).is_some();
    let date_tag = if original {
        KnownTag::DateTimeOriginal
    } else {
        KnownTag::DateTime
    };
    let offset_tag = if original {
        KnownTag::OffsetTimeOriginal
    } else {
        KnownTag::OffsetTime
    };
    match ascii_bytes(find_value(fields, date_tag)) {
        None => None,
        Some(bytes) => match date::date_from(bytes, ascii_bytes(find_value(fields, offset_tag))) {
            None => None,
            Some(d) => Some(date::datetime_text(&d)),
        },
    }
}

/// The angle of a coordinate's tag and its hemisphere's.
fn gps_coordinate(fields: &Vec<ExifField>, tag: KnownTag, ref_tag: KnownTag, letter: u8) -> (r: Option<
    gps::Angle,
>)
    ensures
        r == coordinate_of(fields::fields_view(fields@), tag, ref_tag, letter),
{
    match find_value(fields, tag) {
        Some(ExifValue::Rationals(dms)) => gps::angle(
            dms.as_slice(),
            ascii_bytes(find_value(fields, ref_tag)),
            letter,
        ),
        _ => None,
    }
}

/// Where the picture was taken.
fn location(fields: &Vec<ExifField>) -> (r: Option<Location>)
    ensures
        r == location_of(fields::fields_view(fields@)),
{
    let latitude = gps_coordinate(fields, KnownTag::Latitude, KnownTag::LatitudeRef, 0x53);
    let longitude = gps_coordinate(fields, KnownTag::Longitude, KnownTag::LongitudeRef, 0x57);
    match (latitude, longitude) {
        (Some(latitude), Some(longitude)) => {
            let altitude = gps::altitude(
                first_rational(find_value(fields, KnownTag::Altitude)),
                first_uint(find_value(fields, KnownTag::AltitudeRef)),
            );
            Some(Location { latitude, longitude, altitude })
        },
        _ => None,
    }
}

/// The name of a field's tag, with its directory where that is not the
/// picture's own.
pub fn tag_name(f: &ExifField) -> (r: String)
    ensures
        r@ == tag_name_of(f@),
{
    let mut name = f.name.clone();
    if f.tag.ifd == 1 {
        name.append(" (thumbnail)");
    } else if f.tag.ifd != 0 {
        name.append(" (IFD");
        text::push_decimal(&mut name, f.tag.ifd as u64);
        name.push(')');
    }
    assert(name@ =~= tag_name_of(f@));
    name
}

/// The value of a field as it is listed: its text, cut at the limit, or the
/// byte count of a maker note or of a long binary value.
pub fn tag_value(f: &ExifField) -> (r: String)
    ensures
        r@ == tag_value_of(f@),
{
    let n: Option<usize> = match &f.value {
        ExifValue::Bytes(v) => Some(v.len()),
        ExifValue::Undefined(v) => Some(v.len()),
        _ => None,
    };
    if let Some(n) = n {
        let maker_note = f.tag.context == TagContext::Exif && f.tag.number == MAKER_NOTE;
        if maker_note || n > MAX_BINARY_BYTES {
            let mut out = text::decimal_text(n as u64);
            out.append(" bytes");
            return out;
        }
    }
    let mut out = Bounded::new(MAX_VALUE_CHARS);
    assert(text::text_bytes(out.text()) == 0);
    let _ = out.write_str(f.text.as_str());
    assert(out.text() =~= bounded::kept(f.text@, MAX_VALUE_CHARS as int));
    out.finish()
}

/// Every tag as name and value, in the order of the file.
fn tag_list(fields: &Vec<ExifField>) -> (r: Vec<(String, String)>)
    ensures
        r@.len() == fields@.len(),
        forall|i: int|
            0 <= i < r@.len() ==> (#[trigger] r@[i]).0@ == tag_name_of(fields@[i]@) && r@[i].1@
                == tag_value_of(fields@[i]@),
{
    let mut tags: Vec<(String, String)> = Vec::new();
    let mut i: usize = 0;
    while i < fields.len()
        invariant
            i <= fields@.len(),
            tags@.len() == i,
            forall|k: int|
                0 <= k < i ==> (#[trigger] tags@[k]).0@ == tag_name_of(fields@[k]@) && tags@[k].1@
                    == tag_value_of(fields@[k]@),
        decreases fields@.len() - i,
    {
        let name = tag_name(&fields[i]);
        let value = tag_value(&fields[i]);
        tags.push((name, value));
        i += 1;
    }
    tags
}

/// The summary of a block's fields.
pub fn summarize(fields: &Vec<ExifField>) -> (r: ExifSummary)
    ensures
        r@ == summary_of(fields::fields_view(fields@)),
{
    let make = ascii_value(find_value(fields, KnownTag::Make));
    let model = ascii_value(find_value(fields, KnownTag::Model));
    let make_str = match &make {
        Some(s) => Some(s.as_str()),
        None => None,
    };
    let model_str = match &model {
        Some(s) => Some(s.as_str()),
        None => None,
    };
    let camera = curated::camera_text(make_str, model_str);
    let lens = ascii_value(find_value(fields, KnownTag::LensModel));
    let focal_length = match first_rational(find_value(fields, KnownTag::FocalLength)) {
        Some(r) => curated::focal(r, first_uint(find_value(fields, KnownTag::FocalLength35mm))),
        None => None,
    };
    let aperture = match first_rational(find_value(fields, KnownTag::FNumber)) {
        Some(r) => curated::aperture(r),
        None => None,
    };
    let shutter = match first_rational(find_value(fields, KnownTag::ExposureTime)) {
        Some(r) => curated::shutter(r),
        None => None,
    };
    let iso = match first_uint(find_value(fields, KnownTag::Sensitivity)) {
        Some(v) => Some(curated::iso_text(v)),
        None => None,
    };
    let exposure_bias = match first_srational(find_value(fields, KnownTag::ExposureBias)) {
        Some(r) => curated::exposure_bias(r),
        None => None,
    };
    let date_taken = date_taken(fields);
    let orientation = match first_uint(find_value(fields, KnownTag::Orientation)) {
        Some(v) => curated::orientation_text(v),
        None => None,
    };
    let location = location(fields);
    let tags = tag_list(fields);
    let summary = ExifSummary {
        camera,
        lens,
        focal_length,
        aperture,
        shutter,
        iso,
        exposure_bias,
        date_taken,
        orientation,
        location,
        tags,
    };
    assert(summary@.tags =~= summary_of(fields::fields_view(fields@)).tags);
    summary
}

/// The prefix that some encoders keep before the block.
pub open spec fn exif_prefix() -> Seq<u8> {
    seq![0x45u8, 0x78, 0x69, 0x66, 0, 0]
}

/// A block without that prefix.
pub open spec fn without_prefix(bytes: Seq<u8>) -> Seq<u8> {
    if bytes.len() >= 6 && bytes.take(6) == exif_prefix() {
        bytes.skip(6)
    } else {
        bytes
    }
}

/// A block without the prefix "Exif\0\0" that some encoders keep.
pub fn strip_exif_prefix(bytes: Vec<u8>) -> (r: Vec<u8>)
    ensures
        r@ == without_prefix(bytes@),
{
    if bytes.len() >= 6 && bytes[0] == 0x45 && bytes[1] == 0x78 && bytes[2] == 0x69 && bytes[3]
        == 0x66 && bytes[4] == 0 && bytes[5] == 0 {
        assert(bytes@.take(6) =~= exif_prefix());
        let mut bytes = bytes;
        let ghost all = bytes@;
        let rest = bytes.split_off(6);
        assert(rest@ =~= all.skip(6));
        rest
    } else {
        proof {
            if bytes@.len() >= 6 && bytes@.take(6) == exif_prefix() {
                let t = bytes@.take(6);
                assert(t[0] == 0x45 && t[1] == 0x78 && t[2] == 0x69 && t[3] == 0x66 && t[4] == 0
                    && t[5] == 0);
            }
        }
        bytes
    }
}

/// What an EXIF block is, given the fields that it can be parsed into.
pub open spec fn is_exif_data(r: ExifData, empty: bool, fields: Option<Seq<FieldView>>) -> bool {
    if empty {
        r is Absent
    } else {
        match fields {
            None => r is Unreadable,
            Some(f) => r matches ExifData::Present(s) && s@ == summary_of(f),
        }
    }
}

/// The summary of parsed fields. A block that could not be parsed is
/// unreadable.
pub fn exif_data(fields: Option<Vec<ExifField>>) -> (r: ExifData)
    ensures
        match fields {
            Some(f) => is_exif_data(r, false, Some(fields::fields_view(f@))),
            None => is_exif_data(r, false, None),
        },
{
    match fields {
        Some(fields) => ExifData::Present(Box::new(summarize(&fields))),
        None => ExifData::Unreadable,
    }
}

/// Parses an EXIF block as the decoder handed it over. The block starts at
/// the TIFF header or at the prefix "Exif\0\0". Tags that cannot be parsed are
/// skipped and the rest is kept; a block that cannot be parsed at all is
/// unreadable.
pub fn parse_exif(bytes: Vec<u8>) -> (r: ExifData)
    ensures
        is_exif_data(
            r,
            without_prefix(bytes@).len() == 0,
            fields::block_fields(without_prefix(bytes@)),
        ),
{
    let bytes = strip_exif_prefix(bytes);
    if bytes.len() == 0 {
        return ExifData::Absent;
    }
    exif_data(fields::read_fields(bytes))
}

} // verus!
