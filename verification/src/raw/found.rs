//! What the walk over a RAW file's container finds.
use vstd::prelude::*;

verus! {

/// The turn that shows a picture upright.
#[derive(Debug, Clone, Copy, PartialEq, Eq, Structural)]
pub enum Orientation {
    NoTransforms,
    Rotate90,
    Rotate180,
    Rotate270,
    FlipHorizontal,
    FlipVertical,
    Rotate90FlipH,
    Rotate270FlipH,
}

/// The turn that a value of the EXIF orientation tag asks for.
pub open spec fn turn_of(v: int) -> Option<Orientation> {
    if v == 1 {
        Some(Orientation::NoTransforms)
    } else if v == 2 {
        Some(Orientation::FlipHorizontal)
    } else if v == 3 {
        Some(Orientation::Rotate180)
    } else if v == 4 {
        Some(Orientation::FlipVertical)
    } else if v == 5 {
        Some(Orientation::Rotate90FlipH)
    } else if v == 6 {
        Some(Orientation::Rotate90)
    } else if v == 7 {
        Some(Orientation::Rotate270FlipH)
    } else if v == 8 {
        Some(Orientation::Rotate270)
    } else {
        None
    }
}

/// `image::metadata::Orientation::from_exif`: the values 1 to 8 of the EXIF
/// orientation tag each stand for one of the eight turns, and no other value
/// stands for any.
#[verifier::external_body]
fn orientation_from_exif(v: u8) -> (r: Option<Orientation>)
    ensures
        r == turn_of(v as int),
{
    match image::metadata::Orientation::from_exif(v) {
        Some(image::metadata::Orientation::NoTransforms) => Some(Orientation::NoTransforms),
        Some(image::metadata::Orientation::Rotate90) => Some(Orientation::Rotate90),
        Some(image::metadata::Orientation::Rotate180) => Some(Orientation::Rotate180),
        Some(image::metadata::Orientation::Rotate270) => Some(Orientation::Rotate270),
        Some(image::metadata::Orientation::FlipHorizontal) => Some(Orientation::FlipHorizontal),
        Some(image::metadata::Orientation::FlipVertical) => Some(Orientation::FlipVertical),
        Some(image::metadata::Orientation::Rotate90FlipH) => Some(Orientation::Rotate90FlipH),
        Some(image::metadata::Orientation::Rotate270FlipH) => Some(Orientation::Rotate270FlipH),
        None => None,
    }
}

/// The turn for a value read from an orientation tag.
pub fn turn_from(v: u32) -> (r: Option<Orientation>)
    ensures
        r == turn_of(v as int),
{
    if v <= 0xFF {
        orientation_from_exif(v as u8)
    } else {
        None
    }
}

/// Where a JPEG is inside the file.
#[derive(Debug, Clone, Copy, PartialEq, Eq, Structural)]
pub struct Span {
    pub offset: u64,
    pub len: u64,
}

/// What the walk over a container found.
pub struct Found {
    /// Every place that may hold a JPEG. `pick_for_display` checks them.
    pub jpegs: Vec<Span>,
    pub orientation: Orientation,
    /// The file's EXIF as a TIFF block.
    pub exif: Option<Vec<u8>>,
    /// Whether the orientation and the EXIF are in the JPEG and not in the
    /// container.
    pub exif_in_jpeg: bool,
}

/// The model of `Found`.
pub ghost struct FoundView {
    pub jpegs: Seq<Span>,
    pub orientation: Orientation,
    pub exif: Option<Seq<u8>>,
    pub exif_in_jpeg: bool,
}

impl View for Found {
    type V = FoundView;

    open spec fn view(&self) -> FoundView {
        FoundView {
            jpegs: self.jpegs@,
            orientation: self.orientation,
            exif: match self.exif {
                Some(block) => Some(block@),
                None => None,
            },
            exif_in_jpeg: self.exif_in_jpeg,
        }
    }
}

impl Found {
    pub fn nothing() -> (r: Self)
        ensures
            r@ == nothing_found(),
    {
        Found {
            jpegs: Vec::new(),
            orientation: Orientation::NoTransforms,
            exif: None,
            exif_in_jpeg: false,
        }
    }
}

/// Nothing was found.
pub open spec fn nothing_found() -> FoundView {
    FoundView {
        jpegs: Seq::empty(),
        orientation: Orientation::NoTransforms,
        exif: None,
        exif_in_jpeg: false,
    }
}

/// Whether a span comes before another: by offset, then by length.
pub open spec fn span_before(a: Span, b: Span) -> bool {
    a.offset < b.offset || (a.offset == b.offset && a.len < b.len)
}

/// Whether the spans are in order and none is there twice.
pub open spec fn spans_sorted(spans: Seq<Span>) -> bool {
    forall|i: int, j: int| 0 <= i < j < spans.len() ==> span_before(#[trigger] spans[i], #[trigger] spans[j])
}

/// Puts a span in its place. A span that is there already is not added again.
pub fn insert_span(spans: &mut Vec<Span>, span: Span)
    requires
        spans_sorted(old(spans)@),
    ensures
        spans_sorted(final(spans)@),
        forall|s: Span| #[trigger] final(spans)@.contains(s) <==> old(spans)@.contains(s) || s == span,
{
    let mut i: usize = 0;
    while i < spans.len() && (spans[i].offset < span.offset || (spans[i].offset == span.offset
        && spans[i].len < span.len))
        invariant
            i <= spans@.len(),
            *spans == *old(spans),
            forall|k: int| 0 <= k < i ==> span_before(#[trigger] spans@[k], span),
        decreases spans@.len() - i,
    {
        i += 1;
    }
    let ghost before = spans@;
    assert(before == old(spans)@);
    if i < spans.len() && spans[i].offset == span.offset && spans[i].len == span.len {
        assert(spans@[i as int] == span);
        return;
    }
    spans.insert(i, span);
    proof {
        assert forall|s: Span| #[trigger] spans@.contains(s) <==> before.contains(s) || s == span by {
            if before.contains(s) {
                let k = choose|k: int| 0 <= k < before.len() && before[k] == s;
                if k < i {
                    assert(spans@[k] == s);
                } else {
                    assert(spans@[k + 1] == s);
                }
            }
            if s == span {
                assert(spans@[i as int] == s);
            }
            if spans@.contains(s) && s != span {
                let k = choose|k: int| 0 <= k < spans@.len() && spans@[k] == s;
                if k < i {
                    assert(before[k] == s);
                } else {
                    assert(before[k - 1] == s);
                }
            }
        }
    }
}

/// The spans come in the order of the file, and none comes twice.
pub proof fn law_spans_come_in_file_order(spans: Seq<Span>, i: int, j: int)
    requires
        spans_sorted(spans),
        0 <= i < j < spans.len(),
    ensures
        spans[i].offset <= spans[j].offset,
        spans[i].offset == spans[j].offset ==> spans[i].len < spans[j].len,
{
    assert(span_before(spans[i], spans[j]));
}

} // verus!
