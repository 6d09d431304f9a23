//! The fields of an EXIF block, as the outside parser hands them over.
use exif::Value;
use vstd::prelude::*;

verus! {

/// The bytes behind an option.
pub open spec fn bytes_in(b: Option<&[u8]>) -> Option<Seq<u8>> {
    match b {
        Some(v) => Some(v@),
        None => None,
    }
}

/// A parsed EXIF block.
#[verifier::external_type_specification]
#[verifier::external_body]
pub struct ExExif(exif::Exif);

/// The table that a tag number belongs to.
#[derive(Debug, Clone, Copy, PartialEq, Eq, Structural)]
pub enum TagContext {
    Tiff,
    Exif,
    Gps,
    Interop,
    Other,
}

/// A tag: its table, its number, and the directory that its field stands in.
/// Directory 0 is the picture's, directory 1 the thumbnail's.
#[derive(Debug, Clone, Copy, PartialEq, Eq, Structural)]
pub struct ExifTag {
    pub context: TagContext,
    pub number: u16,
    pub ifd: u16,
}

/// An unsigned fraction.
#[derive(Debug, Clone, Copy, PartialEq, Eq, Structural)]
pub struct Ratio {
    pub num: u32,
    pub denom: u32,
}

/// A signed fraction.
#[derive(Debug, Clone, Copy, PartialEq, Eq, Structural)]
pub struct SRatio {
    pub num: i32,
    pub denom: i32,
}

/// The value of a field. Kinds that nothing here reads are `Other`.
#[derive(Debug)]
pub enum ExifValue {
    Bytes(Vec<u8>),
    Ascii(Vec<Vec<u8>>),
    Shorts(Vec<u16>),
    Longs(Vec<u32>),
    Rationals(Vec<Ratio>),
    Undefined(Vec<u8>),
    SRationals(Vec<SRatio>),
    Other,
}

/// What the value of a field is.
pub enum ValueView {
    Bytes(Seq<u8>),
    Ascii(Seq<Seq<u8>>),
    Shorts(Seq<u16>),
    Longs(Seq<u32>),
    Rationals(Seq<Ratio>),
    Undefined(Seq<u8>),
    SRationals(Seq<SRatio>),
    Other,
}

impl View for ExifValue {
    type V = ValueView;

    open spec fn view(&self) -> ValueView {
        match self {
            ExifValue::Bytes(v) => ValueView::Bytes(v@),
            ExifValue::Ascii(v) => ValueView::Ascii(Seq::new(v@.len(), |i: int| v@[i]@)),
            ExifValue::Shorts(v) => ValueView::Shorts(v@),
            ExifValue::Longs(v) => ValueView::Longs(v@),
            ExifValue::Rationals(v) => ValueView::Rationals(v@),
            ExifValue::Undefined(v) => ValueView::Undefined(v@),
            ExifValue::SRationals(v) => ValueView::SRationals(v@),
            ExifValue::Other => ValueView::Other,
        }
    }
}

/// A field of a block: its tag, its value, the tag's name, and the value as a
/// text with its unit.
#[derive(Debug)]
pub struct ExifField {
    pub tag: ExifTag,
    pub value: ExifValue,
    pub name: String,
    pub text: String,
}

/// What a field is.
pub struct FieldView {
    pub tag: ExifTag,
    pub value: ValueView,
    pub name: Seq<char>,
    pub text: Seq<char>,
}

impl View for ExifField {
    type V = FieldView;

    open spec fn view(&self) -> FieldView {
        FieldView {
            tag: self.tag,
            value: self.value@,
            name: self.name@,
            text: self.text@,
        }
    }
}

/// What the fields of a list are.
pub open spec fn fields_view(fields: Seq<ExifField>) -> Seq<FieldView> {
    Seq::new(fields.len(), |i: int| fields[i]@)
}

/// The fields that bytes hold, where they can be parsed as an EXIF block.
pub uninterp spec fn block_fields(bytes: Seq<u8>) -> Option<Seq<FieldView>>;

/// The fields that a parsed block holds, in the order of the file.
pub uninterp spec fn exif_contents(e: exif::Exif) -> Seq<FieldView>;

/// `exif::Reader::read_raw`, told to continue on errors, and
/// `exif::Error::distill_partial_result` on what it answers: the block that
/// the bytes hold, without the fields that cannot be parsed. The bytes alone
/// decide whether there is one and what it holds.
#[verifier::external_body]
fn read_block(bytes: Vec<u8>) -> (r: Result<exif::Exif, exif::Error>)
    ensures
        r is Ok <==> block_fields(bytes@) is Some,
        r matches Ok(e) ==> block_fields(bytes@) == Some(exif_contents(e)),
{
    let mut reader = exif::Reader::new();
    reader.continue_on_error(true);
    reader.read_raw(bytes).or_else(|e| e.distill_partial_result(|_| ()))
}

/// The length of `exif::Exif::fields`: how many fields the block holds.
#[verifier::external_body]
fn field_count(e: &exif::Exif) -> (r: usize)
    ensures
        r == exif_contents(*e).len(),
{
    e.fields().len()
}

/// The public parts of `exif::Field`: the tag of a field of the block, with
/// its number and its directory.
#[verifier::external_body]
fn field_tag(e: &exif::Exif, i: usize) -> (r: ExifTag)
    requires
        i < exif_contents(*e).len(),
    ensures
        r == exif_contents(*e)[i as int].tag,
{
    let f = e.fields().nth(i).unwrap();
    let context = match f.tag.context() {
        exif::Context::Tiff => TagContext::Tiff,
        exif::Context::Exif => TagContext::Exif,
        exif::Context::Gps => TagContext::Gps,
        exif::Context::Interop => TagContext::Interop,
        _ => TagContext::Other,
    };
    ExifTag { context, number: f.tag.number(), ifd: f.ifd_num.index() }
}

/// A fraction.
fn ratio(num: u32, denom: u32) -> (r: Ratio)
    ensures
        r == (Ratio { num, denom }),
{
    Ratio { num, denom }
}

/// A fraction that may be negative.
fn signed_ratio(num: i32, denom: i32) -> (r: SRatio)
    ensures
        r == (SRatio { num, denom }),
{
    SRatio { num, denom }
}

/// The value of `exif::Field`: the value of a field of the block.
#[verifier::external_body]
fn field_value(e: &exif::Exif, i: usize) -> (r: ExifValue)
    requires
        i < exif_contents(*e).len(),
    ensures
        r@ == exif_contents(*e)[i as int].value,
{
    match &e.fields().nth(i).unwrap().value {
        Value::Byte(v) => ExifValue::Bytes(v.clone()),
        Value::Ascii(v) => ExifValue::Ascii(v.clone()),
        Value::Short(v) => ExifValue::Shorts(v.clone()),
        Value::Long(v) => ExifValue::Longs(v.clone()),
        Value::Rational(v) => ExifValue::Rationals(
            v.iter().map(|r| ratio(r.num, r.denom)).collect()),
        Value::Undefined(v, _) => ExifValue::Undefined(v.clone()),
        Value::SRational(v) => ExifValue::SRationals(
            v.iter().map(|r| signed_ratio(r.num, r.denom)).collect()),
        _ => ExifValue::Other,
    }
}

/// `Display` of `exif::Tag`: the name of the tag of a field of the block.
#[verifier::external_body]
fn field_name(e: &exif::Exif, i: usize) -> (r: String)
    requires
        i < exif_contents(*e).len(),
    ensures
        r@ == exif_contents(*e)[i as int].name,
{
    e.fields().nth(i).unwrap().tag.to_string()
}

/// `exif::Field::display_value` with the unit that the block gives: the value
/// of a field of the block as a text.
#[verifier::external_body]
fn field_text(e: &exif::Exif, i: usize) -> (r: String)
    requires
        i < exif_contents(*e).len(),
    ensures
        r@ == exif_contents(*e)[i as int].text,
{
    e.fields().nth(i).unwrap().display_value().with_unit(e).to_string()
}

/// The fields that bytes hold, in the order of the file, where the bytes can
/// be parsed as an EXIF block.
pub fn read_fields(bytes: Vec<u8>) -> (r: Option<Vec<ExifField>>)
    ensures
        match r {
            Some(fields) => block_fields(bytes@) == Some(fields_view(fields@)),
            None => block_fields(bytes@) is None,
        },
{
    let ghost raw = bytes@;
    let e = match read_block(bytes) {
        Ok(e) => e,
        Err(_) => {
            return None;
        },
    };
    let n = field_count(&e);
    let mut fields: Vec<ExifField> = Vec::new();
    let mut i: usize = 0;
    while i < n
        invariant
            i <= n,
            n == exif_contents(e).len(),
            fields@.len() == i,
            forall|k: int| 0 <= k < i ==> (#[trigger] fields@[k])@ == exif_contents(e)[k],
        decreases n - i,
    {
        let field = ExifField {
            tag: field_tag(&e, i),
            value: field_value(&e, i),
            name: field_name(&e, i),
            text: field_text(&e, i),
        };
        assert(field@ == exif_contents(e)[i as int]);
        fields.push(field);
        i += 1;
    }
    assert(fields_view(fields@) =~= exif_contents(e));
    Some(fields)
}

} // verus!
