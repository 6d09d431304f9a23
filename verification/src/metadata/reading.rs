//! What the summary of an EXIF block says, field by field.
use vstd::prelude::*;

use crate::metadata;
use crate::metadata::curated::Shutter;
use crate::metadata::date;
use crate::metadata::fields::{ExifTag, FieldView, TagContext, ValueView};
use crate::metadata::KnownTag;
use crate::text;

verus! {

/// Whether a field is the one that counts for a tag of the picture's own
/// directory: it has the tag, and no later one has.
pub open spec fn counts(fields: Seq<FieldView>, k: int, context: TagContext, number: u16) -> bool {
    &&& 0 <= k < fields.len()
    &&& fields[k].tag == (ExifTag { context, number, ifd: 0 })
    &&& forall|j: int| k < j < fields.len() ==> (#[trigger] fields[j]).tag != (ExifTag { context, number, ifd: 0 })
}

/// Whether a block has a tag in the picture's own directory.
pub open spec fn has_tag(fields: Seq<FieldView>, context: TagContext, number: u16) -> bool {
    exists|k: int| 0 <= k < fields.len() && (#[trigger] fields[k]).tag == (ExifTag { context, number, ifd: 0 })
}

/// A value is that of the field that counts.
proof fn lemma_value(fields: Seq<FieldView>, tag: KnownTag, k: int, context: TagContext, number: u16)
    requires
        metadata::place_of(tag) == (context, number),
        counts(fields, k, context, number),
    ensures
        metadata::value_of(fields, tag) == Some(fields[k].value),
    decreases fields.len(),
{
    if k < fields.len() - 1 {
        let front = fields.drop_last();
        assert(fields.last() == fields[fields.len() - 1]);
        assert(fields.last().tag != (ExifTag { context, number, ifd: 0 }));
        assert(counts(front, k, context, number)) by {
            assert(front[k] == fields[k]);
            assert forall|j: int| k < j < front.len() implies (#[trigger] front[j]).tag != (ExifTag {
                context,
                number,
                ifd: 0,
            }) by {
                assert(front[j] == fields[j]);
            }
        }
        lemma_value(front, tag, k, context, number);
        assert(front[k] == fields[k]);
    }
}

/// There is a value just where a field has the tag.
proof fn lemma_found(fields: Seq<FieldView>, tag: KnownTag, context: TagContext, number: u16)
    requires
        metadata::place_of(tag) == (context, number),
    ensures
        has_tag(fields, context, number) <==> metadata::value_of(fields, tag) is Some,
        has_tag(fields, context, number) ==> exists|k: int| #[trigger] counts(fields, k, context, number),
    decreases fields.len(),
{
    if fields.len() > 0 {
        let front = fields.drop_last();
        let last = fields.len() - 1;
        lemma_found(front, tag, context, number);
        if fields[last].tag == (ExifTag { context, number, ifd: 0 }) {
            assert(counts(fields, last, context, number));
        } else {
            if has_tag(front, context, number) {
                let k = choose|k: int| #[trigger] counts(front, k, context, number);
                assert(front[k] == fields[k]);
                assert(counts(fields, k, context, number)) by {
                    assert forall|j: int| k < j < fields.len() implies (#[trigger] fields[j]).tag != (ExifTag {
                        context,
                        number,
                        ifd: 0,
                    }) by {
                        if j < last {
                            assert(front[j] == fields[j]);
                        }
                    }
                }
            }
            if has_tag(fields, context, number) {
                let k = choose|k: int|
                    0 <= k < fields.len() && (#[trigger] fields[k]).tag == (ExifTag { context, number, ifd: 0 });
                assert(front[k] == fields[k]);
            }
        }
    }
}

/// Whether the field that counts for a hemisphere starts with a letter, capital
/// or small.
pub open spec fn points_to(fields: Seq<FieldView>, number: u16, capital: u8, small: u8) -> bool {
    exists|k: int| #[trigger]
        counts(fields, k, TagContext::Gps, number) && (fields[k].value matches ValueView::Ascii(strings)
            && strings.len() > 0 && strings[0].len() > 0 && (strings[0][0] == capital || strings[0][0] == small))
}

/// The latitude is the three fractions of tag 2 and is negative just where tag 1
/// starts with S; the longitude is those of tag 4 and is negative just where
/// tag 3 starts with W.
pub proof fn law_south_and_west_are_negative(fields: Seq<FieldView>, a: int, b: int)
    requires
        counts(fields, a, TagContext::Gps, 2),
        counts(fields, b, TagContext::Gps, 4),
        fields[a].value matches ValueView::Rationals(dms) && dms.len() == 3 && dms[0].denom != 0 && dms[1].denom != 0
            && dms[2].denom != 0,
        fields[b].value matches ValueView::Rationals(dms) && dms.len() == 3 && dms[0].denom != 0 && dms[1].denom != 0
            && dms[2].denom != 0,
    ensures
        metadata::summary_of(fields).location matches Some(at) && {
            &&& at.latitude.degrees == fields[a].value->Rationals_0[0]
            &&& at.latitude.minutes == fields[a].value->Rationals_0[1]
            &&& at.latitude.seconds == fields[a].value->Rationals_0[2]
            &&& at.longitude.degrees == fields[b].value->Rationals_0[0]
            &&& at.longitude.minutes == fields[b].value->Rationals_0[1]
            &&& at.longitude.seconds == fields[b].value->Rationals_0[2]
            &&& at.latitude.negative <==> points_to(fields, 1, 0x53, 0x73)
            &&& at.longitude.negative <==> points_to(fields, 3, 0x57, 0x77)
        },
{
    lemma_value(fields, KnownTag::Latitude, a, TagContext::Gps, 2);
    lemma_value(fields, KnownTag::Longitude, b, TagContext::Gps, 4);
    lemma_points(fields, KnownTag::LatitudeRef, 1, 0x53, 0x73);
    lemma_points(fields, KnownTag::LongitudeRef, 3, 0x57, 0x77);
}

proof fn lemma_points(fields: Seq<FieldView>, tag: KnownTag, number: u16, capital: u8, small: u8)
    requires
        metadata::place_of(tag) == (TagContext::Gps, number),
        0x41 <= capital <= 0x5a,
        small == capital + 0x20,
    ensures
        points_to(fields, number, capital, small) <==> (metadata::ascii_of(metadata::value_of(fields, tag)) matches Some(h)
            && h.len() > 0 && crate::metadata::gps::capital(h[0]) == capital),
{
    lemma_found(fields, tag, TagContext::Gps, number);
    if points_to(fields, number, capital, small) {
        let k = choose|k: int| #[trigger]
            counts(fields, k, TagContext::Gps, number) && (fields[k].value matches ValueView::Ascii(strings)
                && strings.len() > 0 && strings[0].len() > 0 && (strings[0][0] == capital || strings[0][0] == small));
        lemma_value(fields, tag, k, TagContext::Gps, number);
    } else if metadata::value_of(fields, tag) is Some {
        let k = choose|k: int| #[trigger] counts(fields, k, TagContext::Gps, number);
        lemma_value(fields, tag, k, TagContext::Gps, number);
    }
}

/// A picture has a place only with both coordinates, each three fractions that
/// are numbers.
pub proof fn law_a_place_needs_both_coordinates(fields: Seq<FieldView>)
    ensures
        !has_tag(fields, TagContext::Gps, 2) || !has_tag(fields, TagContext::Gps, 4) ==> metadata::summary_of(
            fields,
        ).location is None,
        metadata::summary_of(fields).location matches Some(at) ==> at.latitude.degrees.denom != 0
            && at.latitude.minutes.denom != 0 && at.latitude.seconds.denom != 0 && at.longitude.degrees.denom != 0
            && at.longitude.minutes.denom != 0 && at.longitude.seconds.denom != 0,
{
    lemma_found(fields, KnownTag::Latitude, TagContext::Gps, 2);
    lemma_found(fields, KnownTag::Longitude, TagContext::Gps, 4);
}

/// The height is that of tag 6, and is below the sea just where tag 5 is 1.
pub proof fn law_the_height_of_a_place(fields: Seq<FieldView>, a: int, b: int)
    requires
        metadata::summary_of(fields).location is Some,
        counts(fields, a, TagContext::Gps, 6),
        counts(fields, b, TagContext::Gps, 5),
        fields[a].value matches ValueView::Rationals(m) && m.len() > 0,
        fields[b].value matches ValueView::Bytes(n) && n.len() > 0,
    ensures
        ({
            let metres = fields[a].value->Rationals_0[0];
            match metadata::summary_of(fields).location.unwrap().altitude {
                Some(h) => metres.denom != 0 && h.metres == metres && (h.below_sea_level
                    <==> fields[b].value->Bytes_0[0] == 1),
                None => metres.denom == 0,
            }
        }),
{
    lemma_value(fields, KnownTag::Altitude, a, TagContext::Gps, 6);
    lemma_value(fields, KnownTag::AltitudeRef, b, TagContext::Gps, 5);
}

/// The first number of a value is the one that a field holds.
pub open spec fn holds_number(v: ValueView, n: u32) -> bool {
    match v {
        ValueView::Bytes(s) => s.len() > 0 && s[0] == n,
        ValueView::Shorts(s) => s.len() > 0 && s[0] == n,
        ValueView::Longs(s) => s.len() > 0 && s[0] == n,
        _ => false,
    }
}

/// The sensitivity of tag 0x8827 is shown as it is.
pub proof fn law_the_sensitivity_is_shown(fields: Seq<FieldView>, k: int, n: u32)
    requires
        counts(fields, k, TagContext::Exif, 0x8827),
        holds_number(fields[k].value, n),
    ensures
        metadata::summary_of(fields).iso == Some("ISO "@ + text::decimal(n as nat)),
{
    lemma_value(fields, KnownTag::Sensitivity, k, TagContext::Exif, 0x8827);
}

/// The exposure time of tag 0x829a is shown where it is a positive number: as
/// one part of a second just where it is less than three tenths of one.
pub proof fn law_the_exposure_time_is_shown(fields: Seq<FieldView>, k: int)
    requires
        counts(fields, k, TagContext::Exif, 0x829a),
        fields[k].value matches ValueView::Rationals(s) && s.len() > 0,
    ensures
        ({
            let r = fields[k].value->Rationals_0[0];
            match metadata::summary_of(fields).shutter {
                Some(Shutter::Part(shown)) => shown == r && r.num > 0 && r.denom > 0 && r.num * 10 < r.denom * 3,
                Some(Shutter::Seconds(shown)) => shown == r && r.num > 0 && r.denom > 0 && r.num * 10 >= r.denom * 3,
                None => r.num == 0 || r.denom == 0,
            }
        }),
{
    lemma_value(fields, KnownTag::ExposureTime, k, TagContext::Exif, 0x829a);
}

/// The f-number of tag 0x829d is shown where it is a positive number.
pub proof fn law_the_f_number_is_shown(fields: Seq<FieldView>, k: int)
    requires
        counts(fields, k, TagContext::Exif, 0x829d),
        fields[k].value matches ValueView::Rationals(s) && s.len() > 0,
    ensures
        match metadata::summary_of(fields).aperture {
            Some(shown) => shown == fields[k].value->Rationals_0[0] && shown.num > 0 && shown.denom > 0,
            None => fields[k].value->Rationals_0[0].num == 0 || fields[k].value->Rationals_0[0].denom == 0,
        },
{
    lemma_value(fields, KnownTag::FNumber, k, TagContext::Exif, 0x829d);
}

/// The focal length of tag 0x920a is shown where it is a positive number. The
/// length of tag 0xa405 is shown with it just where it is positive and half a
/// millimetre or more away.
pub proof fn law_the_focal_length_is_shown(fields: Seq<FieldView>, a: int, b: int, n: u32)
    requires
        counts(fields, a, TagContext::Exif, 0x920a),
        fields[a].value matches ValueView::Rationals(s) && s.len() > 0,
        counts(fields, b, TagContext::Exif, 0xa405),
        holds_number(fields[b].value, n),
    ensures
        ({
            let r = fields[a].value->Rationals_0[0];
            match metadata::summary_of(fields).focal_length {
                Some(f) => {
                    &&& f.length == r
                    &&& r.num > 0 && r.denom > 0
                    &&& f.equivalent is Some ==> f.equivalent == Some(n)
                    &&& f.equivalent is Some <==> n > 0 && (2 * n * r.denom >= 2 * r.num + r.denom || 2 * r.num >= 2
                        * n * r.denom + r.denom)
                },
                None => r.num == 0 || r.denom == 0,
            }
        }),
{
    lemma_value(fields, KnownTag::FocalLength, a, TagContext::Exif, 0x920a);
    lemma_value(fields, KnownTag::FocalLength35mm, b, TagContext::Exif, 0xa405);
    let r = fields[a].value->Rationals_0[0];
    assert(2 * (n * r.denom - r.num) == 2 * n * r.denom - 2 * r.num) by (nonlinear_arith);
    assert(2 * (r.num - n * r.denom) == 2 * r.num - 2 * n * r.denom) by (nonlinear_arith);
}

/// The exposure compensation of tag 0x9204 is shown unless it is less than a
/// twentieth away from zero, and is negative just where the number is.
pub proof fn law_the_compensation_is_shown(fields: Seq<FieldView>, k: int)
    requires
        counts(fields, k, TagContext::Exif, 0x9204),
        fields[k].value matches ValueView::SRationals(s) && s.len() > 0,
    ensures
        ({
            let r = fields[k].value->SRationals_0[0];
            match metadata::summary_of(fields).exposure_bias {
                Some(b) => {
                    &&& b.value == r
                    &&& r.denom != 0
                    &&& r.num != 0
                    &&& b.negative <==> r.num * r.denom < 0
                    &&& r.denom > 0 ==> 20 * r.num >= r.denom || 20 * r.num <= -r.denom
                },
                None => r.denom == 0 || (r.denom > 0 && -r.denom < 20 * r.num < r.denom) || (r.denom < 0 && r.denom < 20
                    * r.num < -r.denom),
            }
        }),
{
    lemma_value(fields, KnownTag::ExposureBias, k, TagContext::Exif, 0x9204);
    let r = fields[k].value->SRationals_0[0];
    let (n, d) = (r.num as int, r.denom as int);
    assert(n != 0 && d != 0 ==> ((n < 0) != (d < 0) <==> n * d < 0)) by (nonlinear_arith);
}

/// A text as it is shown: without the white space and NULs around it.
pub open spec fn text_at(fields: Seq<FieldView>, k: int) -> Seq<char> {
    text::stripped(text::lossy_text(fields[k].value->Ascii_0[0]))
}

/// The lens is the text of tag 0xa434.
pub proof fn law_the_lens_is_shown(fields: Seq<FieldView>, k: int)
    requires
        counts(fields, k, TagContext::Exif, 0xa434),
        fields[k].value matches ValueView::Ascii(strings) && strings.len() > 0,
    ensures
        match metadata::summary_of(fields).lens {
            Some(shown) => shown == text_at(fields, k) && shown.len() > 0,
            None => text_at(fields, k).len() == 0,
        },
{
    lemma_value(fields, KnownTag::LensModel, k, TagContext::Exif, 0xa434);
}

/// The camera is named by tag 0x10f, the maker, and tag 0x110, the model: by the
/// model alone where it names the maker already, else by both.
pub proof fn law_the_camera_is_shown(fields: Seq<FieldView>, a: int, b: int)
    requires
        counts(fields, a, TagContext::Tiff, 0x10f),
        counts(fields, b, TagContext::Tiff, 0x110),
        fields[a].value matches ValueView::Ascii(strings) && strings.len() > 0,
        fields[b].value matches ValueView::Ascii(strings) && strings.len() > 0,
        text::trimmed(text_at(fields, a)) == text_at(fields, a),
        text::trimmed(text_at(fields, b)) == text_at(fields, b),
        text_at(fields, a).len() > 0,
        text_at(fields, b).len() > 0,
    ensures
        ({
            let make = text_at(fields, a);
            let model = text_at(fields, b);
            let named = text::holds(text::lower_text(model), text::lower_text(text::first_word(make)));
            &&& named ==> metadata::summary_of(fields).camera == Some(model)
            &&& !named ==> metadata::summary_of(fields).camera == Some(make + seq![' '] + model)
        }),
{
    lemma_value(fields, KnownTag::Make, a, TagContext::Tiff, 0x10f);
    lemma_value(fields, KnownTag::Model, b, TagContext::Tiff, 0x110);
}

/// A value that is not in the block is not shown.
pub proof fn law_nothing_is_made_up(fields: Seq<FieldView>)
    ensures
        !has_tag(fields, TagContext::Exif, 0x8827) ==> metadata::summary_of(fields).iso is None,
        !has_tag(fields, TagContext::Exif, 0x829a) ==> metadata::summary_of(fields).shutter is None,
        !has_tag(fields, TagContext::Exif, 0x829d) ==> metadata::summary_of(fields).aperture is None,
        !has_tag(fields, TagContext::Exif, 0x920a) ==> metadata::summary_of(fields).focal_length is None,
        !has_tag(fields, TagContext::Exif, 0x9204) ==> metadata::summary_of(fields).exposure_bias is None,
        !has_tag(fields, TagContext::Exif, 0xa434) ==> metadata::summary_of(fields).lens is None,
        !has_tag(fields, TagContext::Tiff, 0x112) ==> metadata::summary_of(fields).orientation is None,
        !has_tag(fields, TagContext::Tiff, 0x10f) && !has_tag(fields, TagContext::Tiff, 0x110)
            ==> metadata::summary_of(fields).camera is None,
        !has_tag(fields, TagContext::Exif, 0x9003) && !has_tag(fields, TagContext::Tiff, 0x132)
            ==> metadata::summary_of(fields).date_taken is None,
{
    lemma_found(fields, KnownTag::Sensitivity, TagContext::Exif, 0x8827);
    lemma_found(fields, KnownTag::ExposureTime, TagContext::Exif, 0x829a);
    lemma_found(fields, KnownTag::FNumber, TagContext::Exif, 0x829d);
    lemma_found(fields, KnownTag::FocalLength, TagContext::Exif, 0x920a);
    lemma_found(fields, KnownTag::ExposureBias, TagContext::Exif, 0x9204);
    lemma_found(fields, KnownTag::LensModel, TagContext::Exif, 0xa434);
    lemma_found(fields, KnownTag::Orientation, TagContext::Tiff, 0x112);
    lemma_found(fields, KnownTag::Make, TagContext::Tiff, 0x10f);
    lemma_found(fields, KnownTag::Model, TagContext::Tiff, 0x110);
    lemma_found(fields, KnownTag::DateTimeOriginal, TagContext::Exif, 0x9003);
    lemma_found(fields, KnownTag::DateTime, TagContext::Tiff, 0x132);
}

/// The date is that of the original, tag 0x9003, with its own offset, tag
/// 0x9011; where there is no such tag it is that of the file, tag 0x132, with the
/// offset of tag 0x9010.
pub proof fn law_the_date_of_the_original_comes_first(fields: Seq<FieldView>, k: int, j: int)
    requires
        has_tag(fields, TagContext::Exif, 0x9003) ==> counts(fields, k, TagContext::Exif, 0x9003) && counts(
            fields,
            j,
            TagContext::Exif,
            0x9011,
        ),
        !has_tag(fields, TagContext::Exif, 0x9003) ==> counts(fields, k, TagContext::Tiff, 0x132) && counts(
            fields,
            j,
            TagContext::Exif,
            0x9010,
        ),
        fields[k].value matches ValueView::Ascii(strings) && strings.len() > 0,
        fields[j].value matches ValueView::Ascii(strings) && strings.len() > 0,
    ensures
        match date::dated(fields[k].value->Ascii_0[0], Some(fields[j].value->Ascii_0[0])) {
            Some(d) => metadata::summary_of(fields).date_taken == Some(date::date_text(d)),
            None => metadata::summary_of(fields).date_taken is None,
        },
{
    lemma_found(fields, KnownTag::DateTimeOriginal, TagContext::Exif, 0x9003);
    if has_tag(fields, TagContext::Exif, 0x9003) {
        lemma_value(fields, KnownTag::DateTimeOriginal, k, TagContext::Exif, 0x9003);
        lemma_value(fields, KnownTag::OffsetTimeOriginal, j, TagContext::Exif, 0x9011);
    } else {
        lemma_value(fields, KnownTag::DateTime, k, TagContext::Tiff, 0x132);
        lemma_value(fields, KnownTag::OffsetTime, j, TagContext::Exif, 0x9010);
    }
}

/// A date without an offset's tag is shown without an offset.
pub proof fn law_a_date_alone_is_shown_alone(fields: Seq<FieldView>, k: int)
    requires
        counts(fields, k, TagContext::Exif, 0x9003),
        !has_tag(fields, TagContext::Exif, 0x9011),
        fields[k].value matches ValueView::Ascii(strings) && strings.len() > 0,
    ensures
        match date::dated(fields[k].value->Ascii_0[0], None) {
            Some(d) => metadata::summary_of(fields).date_taken == Some(date::date_text(d)),
            None => metadata::summary_of(fields).date_taken is None,
        },
{
    lemma_value(fields, KnownTag::DateTimeOriginal, k, TagContext::Exif, 0x9003);
    lemma_found(fields, KnownTag::OffsetTimeOriginal, TagContext::Exif, 0x9011);
}

/// The orientation of tag 0x112 is named by the turn that shows the picture
/// upright; the numbers that are no orientation are not shown.
pub proof fn law_the_orientation_is_named(fields: Seq<FieldView>, k: int, n: u32)
    requires
        counts(fields, k, TagContext::Tiff, 0x112),
        holds_number(fields[k].value, n),
    ensures
        metadata::summary_of(fields).orientation is Some <==> 1 <= n <= 8,
        n == 1 ==> metadata::summary_of(fields).orientation == Some("Normal"@),
        n == 2 ==> metadata::summary_of(fields).orientation == Some("Mirror horizontal"@),
        n == 3 ==> metadata::summary_of(fields).orientation == Some("Rotate 180°"@),
        n == 4 ==> metadata::summary_of(fields).orientation == Some("Mirror vertical"@),
        n == 5 ==> metadata::summary_of(fields).orientation == Some("Mirror horizontal, rotate 270° CW"@),
        n == 6 ==> metadata::summary_of(fields).orientation == Some("Rotate 90° CW"@),
        n == 7 ==> metadata::summary_of(fields).orientation == Some("Mirror horizontal, rotate 90° CW"@),
        n == 8 ==> metadata::summary_of(fields).orientation == Some("Rotate 90° CCW"@),
{
    lemma_value(fields, KnownTag::Orientation, k, TagContext::Tiff, 0x112);
}

/// Every field of the block is listed, in the order of the block. One of the
/// picture's own directory is listed under its name alone, one of the thumbnail's
/// with a note; a maker note and a binary value of more than sixty-four bytes are
/// listed by their size, other values by their text as far as it fits.
pub proof fn law_every_tag_is_listed(fields: Seq<FieldView>, k: int)
    requires
        0 <= k < fields.len(),
    ensures
        ({
            let f = fields[k];
            let (name, value) = metadata::summary_of(fields).tags[k];
            let size = match f.value {
                ValueView::Bytes(s) => s.len() as int,
                ValueView::Undefined(s) => s.len() as int,
                _ => -1,
            };
            let is_note = f.tag.context == TagContext::Exif && f.tag.number == 0x927c;
            &&& metadata::summary_of(fields).tags.len() == fields.len()
            &&& f.tag.ifd == 0 ==> name == f.name
            &&& f.tag.ifd == 1 ==> name == f.name + " (thumbnail)"@
            &&& f.tag.ifd > 1 ==> name == f.name + " (IFD"@ + text::decimal(f.tag.ifd as nat) + seq![')']
            &&& size > 64 || (size >= 0 && is_note) ==> value == text::decimal(size as nat) + " bytes"@
            &&& !(size > 64 || (size >= 0 && is_note)) && text::text_bytes(f.text) <= 200 ==> value == f.text
            &&& !(size > 64 || (size >= 0 && is_note)) && text::text_bytes(f.text) > 200 ==> {
                &&& value.last() == '…'
                &&& value.drop_last() == f.text.take(value.len() - 1)
                &&& text::text_bytes(value.drop_last()) <= 200
                &&& text::text_bytes(f.text.take(value.len() as int)) > 200
            }
        }),
{
    let f = fields[k];
    assert(f.tag.ifd == 0 ==> metadata::tag_name_of(f) =~= f.name);
    assert(f.tag.ifd > 1 ==> metadata::tag_name_of(f) =~= f.name + " (IFD"@ + text::decimal(f.tag.ifd as nat) + seq![')']);
    text::law_fitting_is_the_longest_prefix(f.text, 200);
    if text::text_bytes(f.text) > 200 {
        let n = text::fitting(f.text, 200) as int;
        let cut = metadata::bounded::bounded_text(f.text, 200);
        assert(cut.drop_last() =~= f.text.take(n));
        assert(n < f.text.len()) by {
            if n == f.text.len() {
                assert(f.text.take(n) =~= f.text);
            }
        }
    }
}

} // verus!
