//! Decoded pixels on their way to the screen.
use image::imageops::FilterType;
use image::DynamicImage::{ImageRgb8, ImageRgba16, ImageRgba8};
use image::{DynamicImage, GenericImageView, ImageBuffer};
use vstd::prelude::*;

use crate::raw::found::Orientation;

verus! {

/// Maximum texture dimension supported by most GPUs. Pictures that exceed it
/// in either dimension are scaled down before they are uploaded.
pub const MAX_TEXTURE_SIZE: u32 = 8192;

/// The longest side of a thumbnail.
pub const THUMBNAIL_MAX_SIZE: u32 = 400;

/// Whether a picture is scaled down: one of its sides is too long.
pub fn needs_downscale(width: u32, height: u32, longest: u32) -> (r: bool)
    ensures
        r == (width > longest || height > longest),
{
    width > longest || height > longest
}

/// A colour with its opacity.
#[derive(Debug, Clone, Copy, PartialEq, Eq, Structural)]
pub struct Pixel {
    pub r: u8,
    pub g: u8,
    pub b: u8,
    pub a: u8,
}

/// A picture, row by row. The colours have their opacity multiplied in.
#[derive(Debug)]
pub struct Picture {
    pub width: u32,
    pub height: u32,
    pub pixels: Vec<Pixel>,
}

/// The `k`-th pixel of bytes that hold four for each.
pub open spec fn pixel_no(rgba: Seq<u8>, k: int) -> Pixel {
    Pixel { r: rgba[4 * k], g: rgba[4 * k + 1], b: rgba[4 * k + 2], a: rgba[4 * k + 3] }
}

/// Whether a turn lays a picture on its side.
pub open spec fn swaps_sides(turn: Orientation) -> bool {
    match turn {
        Orientation::Rotate90 => true,
        Orientation::Rotate270 => true,
        Orientation::Rotate90FlipH => true,
        Orientation::Rotate270FlipH => true,
        _ => false,
    }
}

/// Where the pixel at a place of the turned picture comes from, in a picture
/// of a width and a height.
pub open spec fn place_before(turn: Orientation, w: int, h: int, x: int, y: int) -> (int, int) {
    match turn {
        Orientation::NoTransforms => (x, y),
        Orientation::Rotate90 => (y, h - 1 - x),
        Orientation::Rotate180 => (w - 1 - x, h - 1 - y),
        Orientation::Rotate270 => (w - 1 - y, x),
        Orientation::FlipHorizontal => (w - 1 - x, y),
        Orientation::FlipVertical => (x, h - 1 - y),
        Orientation::Rotate90FlipH => (y, x),
        Orientation::Rotate270FlipH => (w - 1 - y, h - 1 - x),
    }
}

/// The number of the pixel at a place of a picture of a width.
pub open spec fn number_at(w: int, x: int, y: int) -> int {
    y * w + x
}

/// The number of the pixel that stands at a place of the turned picture.
pub open spec fn source_no(turn: Orientation, w: int, h: int, x: int, y: int) -> int {
    let (from_x, from_y) = place_before(turn, w, h, x, y);
    number_at(w, from_x, from_y)
}

/// The width of the turned picture.
pub open spec fn turned_width(turn: Orientation, w: u32, h: u32) -> u32 {
    if swaps_sides(turn) {
        h
    } else {
        w
    }
}

/// The height of the turned picture.
pub open spec fn turned_height(turn: Orientation, w: u32, h: u32) -> u32 {
    if swaps_sides(turn) {
        w
    } else {
        h
    }
}

/// `image::DynamicImage::apply_orientation`: the turned picture has each pixel
/// at the place that the turn brings it to.
#[verifier::external_body]
fn turn_pixels(width: u32, height: u32, rgba: Vec<u8>, turn: Orientation) -> (r: Vec<u8>)
    requires
        rgba@.len() == width * height * 4,
    ensures
        r@.len() == rgba@.len(),
        forall|x: int, y: int|
            0 <= x < turned_width(turn, width, height) && 0 <= y < turned_height(turn, width, height)
                ==> #[trigger] pixel_no(r@, number_at(turned_width(turn, width, height) as int, x, y)) == pixel_no(
                rgba@,
                source_no(turn, width as int, height as int, x, y),
            ),
{
    let mut image = DynamicImage::ImageRgba8(image::RgbaImage::from_raw(width, height, rgba).unwrap());
    image.apply_orientation(match turn {
        Orientation::NoTransforms => image::metadata::Orientation::NoTransforms,
        Orientation::Rotate90 => image::metadata::Orientation::Rotate90,
        Orientation::Rotate180 => image::metadata::Orientation::Rotate180,
        Orientation::Rotate270 => image::metadata::Orientation::Rotate270,
        Orientation::FlipHorizontal => image::metadata::Orientation::FlipHorizontal,
        Orientation::FlipVertical => image::metadata::Orientation::FlipVertical,
        Orientation::Rotate90FlipH => image::metadata::Orientation::Rotate90FlipH,
        Orientation::Rotate270FlipH => image::metadata::Orientation::Rotate270FlipH,
    });
    image.into_bytes()
}

/// A dark colour by the share that its opacity is of the whole, rounded.
pub open spec fn dark_share(c: u8, a: u8) -> int {
    (2 * c * a + 255) / 510
}

/// Whether a pixel is another with the opacity multiplied in. A pixel that
/// cannot be seen has no colour, and one that hides everything keeps its own.
/// In between a dark colour is multiplied by its share and rounded. Lighter
/// ones go through powers of fractions, whose last bit is left to the machine;
/// all are treated alike, so that a gray stays a gray.
pub open spec fn is_multiplied(p: Pixel, q: Pixel) -> bool {
    &&& q.a == p.a
    &&& p.a == 0 ==> q == (Pixel { r: 0, g: 0, b: 0, a: 0 })
    &&& p.a == 255 ==> q == p
    &&& p.r <= 10 ==> q.r == dark_share(p.r, p.a)
    &&& p.g <= 10 ==> q.g == dark_share(p.g, p.a)
    &&& p.b <= 10 ==> q.b == dark_share(p.b, p.a)
    &&& p.r == p.g ==> q.r == q.g
    &&& p.g == p.b ==> q.g == q.b
    &&& p.r == p.b ==> q.r == q.b
}

/// `egui::Color32::from_rgba_unmultiplied`: a colour with its opacity
/// multiplied in. Each of the three colours is looked up in one table by its
/// value and the opacity. Up to ten the table is straight, and rounds to the
/// nearest, which is never halfway. What a lighter colour becomes in a half
/// transparent pixel is not said, because the table rests on floating-point
/// powers there.
#[verifier::external_body]
fn multiply(p: Pixel) -> (r: Pixel)
    ensures
        is_multiplied(p, r),
{
    let [r, g, b, a] = egui::Color32::from_rgba_unmultiplied(p.r, p.g, p.b, p.a).to_array();
    Pixel { r, g, b, a }
}

proof fn lemma_place_is_inside(w: int, h: int, x: int, y: int)
    requires
        0 <= x < w,
        0 <= y < h,
    ensures
        0 <= number_at(w, x, y) < w * h,
{
    assert(0 <= y * w + x < w * h) by (nonlinear_arith)
        requires
            0 <= x < w,
            0 <= y < h,
    ;
}

/// The picture that four bytes for each pixel stand for, once it is turned.
pub fn picture_from_rgba(width: u32, height: u32, rgba: Vec<u8>, turn: Orientation) -> (r: Picture)
    requires
        rgba@.len() == width * height * 4,
    ensures
        r.width == turned_width(turn, width, height),
        r.height == turned_height(turn, width, height),
        r.pixels@.len() == r.width * r.height,
        forall|x: int, y: int|
            0 <= x < r.width && 0 <= y < r.height ==> is_multiplied(
                pixel_no(rgba@, source_no(turn, width as int, height as int, x, y)),
                #[trigger] r.pixels@[number_at(r.width as int, x, y)],
            ),
{
    let ghost before = rgba@;
    let swap = match turn {
        Orientation::Rotate90 => true,
        Orientation::Rotate270 => true,
        Orientation::Rotate90FlipH => true,
        Orientation::Rotate270FlipH => true,
        _ => false,
    };
    let (w, h): (u32, u32) = if swap {
        (height, width)
    } else {
        (width, height)
    };
    let turned = turn_pixels(width, height, rgba, turn);
    let mut pixels: Vec<Pixel> = Vec::new();
    let mut at: usize = 0;
    assert(turned@.len() == turned.len());
    assert(width * height == height * width) by (nonlinear_arith);
    while at < turned.len()
        invariant
            at == 4 * pixels@.len(),
            at <= turned@.len(),
            turned@.len() == (w * h) * 4,
            turned@.len() <= usize::MAX,
            forall|k: int|
                0 <= k < pixels@.len() ==> is_multiplied(pixel_no(turned@, k), #[trigger] pixels@[k]),
        decreases turned@.len() - at,
    {
        let p = Pixel { r: turned[at], g: turned[at + 1], b: turned[at + 2], a: turned[at + 3] };
        let ghost k = pixels@.len() as int;
        assert(p == pixel_no(turned@, k));
        pixels.push(multiply(p));
        at += 4;
    }
    proof {
        assert(w == turned_width(turn, width, height));
        assert(h == turned_height(turn, width, height));
        assert forall|x: int, y: int| 0 <= x < w && 0 <= y < h implies is_multiplied(
            pixel_no(before, source_no(turn, width as int, height as int, x, y)),
            #[trigger] pixels@[number_at(w as int, x, y)],
        ) by {
            lemma_place_is_inside(w as int, h as int, x, y);
            assert(pixel_no(turned@, number_at(w as int, x, y)) == pixel_no(
                before,
                source_no(turn, width as int, height as int, x, y),
            ));
        }
    }
    Picture { width: w, height: h, pixels }
}

/// The `k`-th pixel of bytes that hold three for each. It hides everything.
pub open spec fn opaque_no(rgb: Seq<u8>, k: int) -> Pixel {
    Pixel { r: rgb[3 * k], g: rgb[3 * k + 1], b: rgb[3 * k + 2], a: 255 }
}

/// The picture that three bytes for each pixel stand for, once it is turned.
pub fn picture_from_rgb(width: u32, height: u32, rgb: &[u8], turn: Orientation) -> (r: Picture)
    requires
        rgb@.len() == width * height * 3,
        width * height * 4 <= usize::MAX,
    ensures
        r.width == turned_width(turn, width, height),
        r.height == turned_height(turn, width, height),
        r.pixels@.len() == r.width * r.height,
        forall|x: int, y: int|
            0 <= x < r.width && 0 <= y < r.height ==> #[trigger] r.pixels@[number_at(r.width as int, x, y)]
                == opaque_no(rgb@, source_no(turn, width as int, height as int, x, y)),
{
    let mut rgba: Vec<u8> = Vec::new();
    let mut at: usize = 0;
    let ghost mut n: int = 0;
    while at < rgb.len()
        invariant
            0 <= n,
            at == 3 * n,
            at <= rgb@.len(),
            rgb@.len() == (width * height) * 3,
            rgba@.len() == 4 * n,
            forall|k: int| 0 <= k < n ==> #[trigger] pixel_no(rgba@, k) == opaque_no(rgb@, k),
        decreases rgb@.len() - at,
    {
        let ghost before = rgba@;
        rgba.push(rgb[at]);
        rgba.push(rgb[at + 1]);
        rgba.push(rgb[at + 2]);
        rgba.push(255);
        assert forall|k: int| 0 <= k < n + 1 implies #[trigger] pixel_no(rgba@, k) == opaque_no(
            rgb@,
            k,
        ) by {
            if k < n {
                assert(pixel_no(before, k) == opaque_no(rgb@, k));
            }
        }
        at += 3;
        proof {
            n = n + 1;
        }
    }
    let ghost wide = rgba@;
    let r = picture_from_rgba(width, height, rgba, turn);
    proof {
        assert forall|x: int, y: int| 0 <= x < r.width && 0 <= y < r.height implies #[trigger] r.pixels@[number_at(
            r.width as int,
            x,
            y,
        )] == opaque_no(
            rgb@,
            source_no(turn, width as int, height as int, x, y),
        ) by {
            let (from_x, from_y) = place_before(turn, width as int, height as int, x, y);
            lemma_place_is_inside(width as int, height as int, from_x, from_y);
            let k = source_no(turn, width as int, height as int, x, y);
            assert(pixel_no(wide, k) == opaque_no(rgb@, k));
        }
    }
    r
}

/// How the samples of a decoded picture are laid out.
#[derive(Debug, Clone, Copy, PartialEq, Eq, Structural)]
pub enum Layout {
    /// Three bytes for each pixel.
    Rgb,
    /// Four bytes for each pixel, the last of them its opacity.
    Rgba,
    /// The same with sixteen bits in place of a byte.
    Deep,
    /// The same with a fraction in place of a byte.
    Fractions,
}

/// How many samples a pixel takes.
pub open spec fn channels(layout: Layout) -> int {
    match layout {
        Layout::Rgb => 3,
        Layout::Rgba => 4,
        Layout::Deep => 4,
        Layout::Fractions => 4,
    }
}

/// A picture of the outside crate. The library holds one where the samples are
/// fractions, which it does not look into.
#[verifier::external_type_specification]
#[verifier::external_body]
pub struct ExDynamicImage(DynamicImage);

/// The samples of a picture as fractions, four for each pixel, by their bits.
/// Those that are no number have the same bits here.
pub uninterp spec fn fractions_in(image: DynamicImage) -> Seq<u32>;

/// The width and the height of a picture.
pub uninterp spec fn size_in(image: DynamicImage) -> (u32, u32);

/// The samples of a decoded picture, pixel by pixel, in the depth that its file
/// has them in.
#[derive(Debug, PartialEq)]
pub enum Samples {
    Rgb(Vec<u8>),
    Rgba(Vec<u8>),
    Deep(Vec<u16>),
    Fractions(DynamicImage),
}

/// What the samples of a decoded picture are.
pub enum SamplesView {
    Rgb(Seq<u8>),
    Rgba(Seq<u8>),
    Deep(Seq<u16>),
    Fractions(Seq<u32>),
}

impl View for Samples {
    type V = SamplesView;

    open spec fn view(&self) -> SamplesView {
        match self {
            Samples::Rgb(v) => SamplesView::Rgb(v@),
            Samples::Rgba(v) => SamplesView::Rgba(v@),
            Samples::Deep(v) => SamplesView::Deep(v@),
            Samples::Fractions(image) => SamplesView::Fractions(fractions_in(*image)),
        }
    }
}

/// How samples are laid out.
pub open spec fn layout_of(samples: SamplesView) -> Layout {
    match samples {
        SamplesView::Rgb(_) => Layout::Rgb,
        SamplesView::Rgba(_) => Layout::Rgba,
        SamplesView::Deep(_) => Layout::Deep,
        SamplesView::Fractions(_) => Layout::Fractions,
    }
}

/// How many samples there are.
pub open spec fn sample_count(samples: SamplesView) -> int {
    match samples {
        SamplesView::Rgb(s) => s.len() as int,
        SamplesView::Rgba(s) => s.len() as int,
        SamplesView::Deep(s) => s.len() as int,
        SamplesView::Fractions(s) => s.len() as int,
    }
}

/// The byte next to a sample of sixteen bits.
pub open spec fn byte_next_to(sample: u16) -> u8 {
    ((sample + 128) / 257) as u8
}

/// The byte next to a fraction, which is given by its bits.
pub uninterp spec fn byte_of_fraction(bits: u32) -> u8;

/// Samples as bytes.
pub open spec fn bytes_in(samples: SamplesView) -> Seq<u8> {
    match samples {
        SamplesView::Rgb(s) => s,
        SamplesView::Rgba(s) => s,
        SamplesView::Deep(s) => Seq::new(s.len(), |i: int| byte_next_to(s[i])),
        SamplesView::Fractions(s) => Seq::new(s.len(), |i: int| byte_of_fraction(s[i])),
    }
}

/// A decoded picture, row by row.
#[derive(Debug)]
pub struct Stored {
    pub width: u32,
    pub height: u32,
    pub samples: Samples,
}

impl Stored {
    /// How its samples are laid out.
    pub open spec fn layout(&self) -> Layout {
        layout_of(self.samples@)
    }

    /// Every pixel has its samples.
    pub open spec fn wf(&self) -> bool {
        &&& sample_count(self.samples@) == self.width * self.height * channels(self.layout())
        &&& self.samples matches Samples::Fractions(image) ==> size_in(image) == (self.width, self.height)
    }
}

/// Whether one of the sides of a picture is longer than the longest that it can
/// have.
pub open spec fn is_larger(img: Stored, longest: u32) -> bool {
    img.width > longest || img.height > longest
}

/// Samples of sixteen bits as bytes.
fn to_bytes(deep: Vec<u16>) -> (r: Vec<u8>)
    ensures
        r@ == bytes_in(SamplesView::Deep(deep@)),
{
    let mut r: Vec<u8> = Vec::new();
    let mut i: usize = 0;
    while i < deep.len()
        invariant
            i <= deep@.len(),
            r@.len() == i,
            forall|k: int| 0 <= k < i ==> #[trigger] r@[k] == byte_next_to(deep@[k]),
        decreases deep@.len() - i,
    {
        r.push(((deep[i] as u32 + 128) / 257) as u8);
        i += 1;
    }
    assert(r@ =~= bytes_in(SamplesView::Deep(deep@)));
    r
}

/// `image::DynamicImage::into_rgba8` of a picture as fractions: each fraction is
/// held between nothing and the whole, multiplied by the largest byte and
/// rounded.
#[verifier::external_body]
fn fractions_to_bytes(image: DynamicImage) -> (r: Vec<u8>)
    ensures
        r@.len() == fractions_in(image).len(),
        forall|i: int| 0 <= i < r@.len() ==> #[trigger] r@[i] == byte_of_fraction(fractions_in(image)[i]),
{
    DynamicImage::from(image.into_rgba32f()).into_rgba8().into_raw()
}

/// Whether a pixel is what the `k`-th pixel of some samples looks like.
pub open spec fn looks_like(samples: SamplesView, k: int, p: Pixel) -> bool {
    match samples {
        SamplesView::Rgb(s) => p == opaque_no(s, k),
        _ => is_multiplied(pixel_no(bytes_in(samples), k), p),
    }
}

/// Whether a picture is what some samples stand for, once it is turned.
pub open spec fn is_picture_of(
    p: Picture,
    width: u32,
    height: u32,
    samples: SamplesView,
    turn: Orientation,
) -> bool {
    &&& p.width == turned_width(turn, width, height)
    &&& p.height == turned_height(turn, width, height)
    &&& p.pixels@.len() == p.width * p.height
    &&& forall|x: int, y: int|
        0 <= x < p.width && 0 <= y < p.height ==> looks_like(
            samples,
            source_no(turn, width as int, height as int, x, y),
            #[trigger] p.pixels@[number_at(p.width as int, x, y)],
        )
}

/// The picture that a decoded one stands for, once it is turned.
pub fn convert_image(img: Stored, turn: Orientation) -> (r: Picture)
    requires
        img.wf(),
        img.width * img.height * 4 <= usize::MAX,
    ensures
        is_picture_of(r, img.width, img.height, img.samples@, turn),
{
    match img.samples {
        Samples::Rgb(rgb) => picture_from_rgb(img.width, img.height, rgb.as_slice(), turn),
        Samples::Rgba(rgba) => picture_from_rgba(img.width, img.height, rgba, turn),
        Samples::Deep(deep) => picture_from_rgba(img.width, img.height, to_bytes(deep), turn),
        Samples::Fractions(image) => {
            let ghost samples = img.samples@;
            let rgba = fractions_to_bytes(image);
            assert(rgba@ =~= bytes_in(samples));
            picture_from_rgba(img.width, img.height, rgba, turn)
        },
    }
}

/// A picture scaled down to a longest side: its width, its height and its
/// samples.
pub uninterp spec fn shrunk(width: u32, height: u32, samples: SamplesView, longest: u32) -> (
    u32,
    u32,
    SamplesView,
);

/// `image::DynamicImage::resize` with the triangle filter, into a square: the
/// picture is scaled to the largest size that fits, with its sides in
/// proportion and its samples in their depth. The picture and the longest side
/// alone decide the result; the filter only adds, multiplies, divides and
/// rounds. The memory that it takes on its way, four fractions for each pixel
/// of the new rows, has to be there.
#[verifier::external_body]
fn shrink(w: u32, h: u32, samples: Samples, longest: u32) -> (r: ((u32, u32), Samples))
    requires
        (Stored { width: w, height: h, samples }).wf(),
        longest > 0,
        w * longest * 16 <= isize::MAX,
        longest * longest * 16 <= isize::MAX,
    ensures
        (Stored { width: r.0.0, height: r.0.1, samples: r.1 }).wf(),
        layout_of(r.1@) == layout_of(samples@),
        r.1 matches Samples::Fractions(image) ==> size_in(image) == r.0,
        (r.0.0, r.0.1, r.1@) == shrunk(w, h, samples@, longest),
        w > longest || h > longest ==> r.0.0 <= longest && r.0.1 <= longest && (r.0.0 == longest || r.0.1
            == longest),
{
    let image = match samples {
        Samples::Rgb(v) => ImageBuffer::from_raw(w, h, v).map(ImageRgb8),
        Samples::Rgba(v) => ImageBuffer::from_raw(w, h, v).map(ImageRgba8),
        Samples::Deep(v) => ImageBuffer::from_raw(w, h, v).map(ImageRgba16),
        Samples::Fractions(image) => Some(image.into_rgba32f().into()),
    };
    let small = image.unwrap().resize(longest, longest, FilterType::Triangle);
    let size = small.dimensions();
    let samples = match small {
        ImageRgb8(b) => Samples::Rgb(b.into_raw()),
        ImageRgba8(b) => Samples::Rgba(b.into_raw()),
        ImageRgba16(b) => Samples::Deep(b.into_raw()),
        other => Samples::Fractions(other),
    };
    (size, samples)
}

/// `image::DynamicImage::resize_exact` with the Lanczos filter: a picture of
/// the same layout with the width and the height that are asked for, and the
/// picture itself where it has them already. What its pixels become is not
/// said, because the filter rests on floating-point sines. The memory that it
/// takes on its way, four fractions for each pixel, has to be there.
#[verifier::external_body]
fn scale(w: u32, h: u32, samples: Samples, width: u32, height: u32) -> (r: Samples)
    requires
        (Stored { width: w, height: h, samples }).wf(),
        w * height * 16 <= isize::MAX,
        width * height * 16 <= isize::MAX,
    ensures
        (Stored { width, height, samples: r }).wf(),
        layout_of(r@) == layout_of(samples@),
        width == w && height == h ==> r@ == samples@,
{
    let image = match samples {
        Samples::Rgb(v) => ImageBuffer::from_raw(w, h, v).map(ImageRgb8),
        Samples::Rgba(v) => ImageBuffer::from_raw(w, h, v).map(ImageRgba8),
        Samples::Deep(v) => ImageBuffer::from_raw(w, h, v).map(ImageRgba16),
        Samples::Fractions(image) => Some(image.into_rgba32f().into()),
    };
    match image.unwrap().resize_exact(width, height, FilterType::Lanczos3) {
        ImageRgb8(b) => Samples::Rgb(b.into_raw()),
        ImageRgba8(b) => Samples::Rgba(b.into_raw()),
        ImageRgba16(b) => Samples::Deep(b.into_raw()),
        other => Samples::Fractions(other),
    }
}

/// A decoded picture at a size that a texture can have, turned after it was
/// scaled down. `scaled` is the width and the height that a picture which is
/// too large is scaled down to. What the pixels of such a picture become is
/// left to the filter.
pub fn image_to_color_image(img: Stored, scaled: (u32, u32), turn: Orientation) -> (r: Picture)
    requires
        img.wf(),
        img.width * img.height * 4 <= usize::MAX,
        is_larger(img, MAX_TEXTURE_SIZE) ==> img.width * scaled.1 * 16 <= isize::MAX && scaled.0 * scaled.1 * 16
            <= isize::MAX,
    ensures
        !is_larger(img, MAX_TEXTURE_SIZE) ==> is_picture_of(
            r,
            img.width,
            img.height,
            img.samples@,
            turn,
        ),
        is_larger(img, MAX_TEXTURE_SIZE) ==> exists|samples: SamplesView|
            layout_of(samples) == img.layout() && sample_count(samples) == scaled.0 * scaled.1 * channels(
                img.layout(),
            ) && #[trigger] is_picture_of(r, scaled.0, scaled.1, samples, turn),
{
    if needs_downscale(img.width, img.height, MAX_TEXTURE_SIZE) {
        let samples = scale(img.width, img.height, img.samples, scaled.0, scaled.1);
        let small = Stored { width: scaled.0, height: scaled.1, samples };
        assert(small.width * small.height * 4 <= usize::MAX);
        convert_image(small, turn)
    } else {
        convert_image(img, turn)
    }
}

/// A decoded picture at the size of a thumbnail, turned after it was scaled
/// down.
pub fn image_to_thumbnail(img: Stored, turn: Orientation) -> (r: Picture)
    requires
        img.wf(),
        img.width * THUMBNAIL_MAX_SIZE * 16 <= isize::MAX,
    ensures
        !is_larger(img, THUMBNAIL_MAX_SIZE) ==> is_picture_of(
            r,
            img.width,
            img.height,
            img.samples@,
            turn,
        ),
        is_larger(img, THUMBNAIL_MAX_SIZE) ==> ({
            let (w, h, samples) = shrunk(img.width, img.height, img.samples@, THUMBNAIL_MAX_SIZE);
            is_picture_of(r, w, h, samples, turn)
        }),
        r.width <= THUMBNAIL_MAX_SIZE,
        r.height <= THUMBNAIL_MAX_SIZE,
        is_larger(img, THUMBNAIL_MAX_SIZE) ==> r.width == THUMBNAIL_MAX_SIZE || r.height
            == THUMBNAIL_MAX_SIZE,
{
    let small = if needs_downscale(img.width, img.height, THUMBNAIL_MAX_SIZE) {
        let (size, samples) = shrink(img.width, img.height, img.samples, THUMBNAIL_MAX_SIZE);
        Stored { width: size.0, height: size.1, samples }
    } else {
        img
    };
    assert(small.width * small.height <= 400 * 400) by (nonlinear_arith)
        requires
            small.width <= 400,
            small.height <= 400,
    ;
    convert_image(small, turn)
}

/// A quarter turn and then three quarters bring every pixel back to its place.
pub proof fn law_a_turn_is_undone_by_the_rest_of_it(w: int, h: int, x: int, y: int)
    requires
        0 <= x < w,
        0 <= y < h,
    ensures
        ({
            let (x1, y1) = place_before(Orientation::Rotate270, h, w, x, y);
            place_before(Orientation::Rotate90, w, h, x1, y1) == (x, y)
        }),
        ({
            let (x1, y1) = place_before(Orientation::Rotate180, w, h, x, y);
            place_before(Orientation::Rotate180, w, h, x1, y1) == (x, y)
        }),
{
}

/// The eight values of the orientation tag, by where the first row and the first
/// column of the file are seen: a pixel of the upright picture comes from the
/// place that the value says.
pub proof fn law_the_orientation_tag_shows_the_picture_upright(v: int, w: int, h: int, x: int, y: int)
    requires
        1 <= v <= 8,
    ensures
        ({
            let turn = crate::raw::found::turn_of(v).unwrap();
            let from = place_before(turn, w, h, x, y);
            &&& crate::raw::found::turn_of(v) is Some
            &&& v == 1 ==> from == (x, y)
            &&& v == 2 ==> from == (w - 1 - x, y)
            &&& v == 3 ==> from == (w - 1 - x, h - 1 - y)
            &&& v == 4 ==> from == (x, h - 1 - y)
            &&& v == 5 ==> from == (y, x)
            &&& v == 6 ==> from == (y, h - 1 - x)
            &&& v == 7 ==> from == (w - 1 - y, h - 1 - x)
            &&& v == 8 ==> from == (w - 1 - y, x)
            &&& swaps_sides(turn) <==> v >= 5
        }),
        crate::raw::found::turn_of(0) is None,
        crate::raw::found::turn_of(v + 8) is None,
{
}

/// A turned picture has all pixels of the picture: each of its places comes from
/// a place inside, and no two from the same.
pub proof fn law_a_turn_loses_no_pixel(turn: Orientation, w: u32, h: u32, x1: int, y1: int, x2: int, y2: int)
    requires
        0 <= x1 < turned_width(turn, w, h),
        0 <= y1 < turned_height(turn, w, h),
        0 <= x2 < turned_width(turn, w, h),
        0 <= y2 < turned_height(turn, w, h),
    ensures
        ({
            let (x, y) = place_before(turn, w as int, h as int, x1, y1);
            0 <= x < w && 0 <= y < h
        }),
        place_before(turn, w as int, h as int, x1, y1) == place_before(turn, w as int, h as int, x2, y2) ==> x1 == x2
            && y1 == y2,
        turned_width(turn, w, h) * turned_height(turn, w, h) == w * h,
{
    assert(w * h == h * w) by (nonlinear_arith);
}

/// A sample of sixteen bits becomes the byte that is nearest to it in
/// proportion.
pub proof fn law_deep_samples_keep_their_share(sample: u16)
    ensures
        -257 <= 2 * (257 * byte_next_to(sample) - sample) <= 257,
{
}

/// A picture of three bytes for each pixel shows its rows from left to right,
/// one below the other: red, green and blue of each pixel in turn, nothing seen
/// through it. Upright it shows them as they are; turned to the right its first
/// column, from below, is its first row.
pub proof fn law_the_bytes_of_a_picture_are_its_rows(p: Picture, w: u32, h: u32, s: Seq<u8>, turn: Orientation, x: int, y: int)
    requires
        is_picture_of(p, w, h, SamplesView::Rgb(s), turn),
        0 <= x < p.width,
        0 <= y < p.height,
    ensures
        ({
            let shown = p.pixels@[y * p.width + x];
            &&& shown.a == 255
            &&& turn == Orientation::NoTransforms ==> p.width == w && p.height == h && shown.r == s[3 * (y * w + x)]
                && shown.g == s[3 * (y * w + x) + 1] && shown.b == s[3 * (y * w + x) + 2]
            &&& turn == Orientation::Rotate90 ==> p.width == h && p.height == w && shown.r == s[3 * ((h - 1 - x) * w
                + y)] && shown.g == s[3 * ((h - 1 - x) * w + y) + 1] && shown.b == s[3 * ((h - 1 - x) * w + y) + 2]
            &&& turn == Orientation::Rotate180 ==> shown.r == s[3 * ((h - 1 - y) * w + (w - 1 - x))]
        }),
{
    assert(looks_like(
        SamplesView::Rgb(s),
        source_no(turn, w as int, h as int, x, y),
        p.pixels@[number_at(p.width as int, x, y)],
    ));
}

/// A pixel of four bytes that hides everything is shown as it is, and one that
/// cannot be seen as nothing, whatever its colour.
pub proof fn law_opaque_pixels_keep_their_colour(p: Picture, w: u32, h: u32, s: Seq<u8>, x: int, y: int)
    requires
        is_picture_of(p, w, h, SamplesView::Rgba(s), Orientation::NoTransforms),
        0 <= x < p.width,
        0 <= y < p.height,
    ensures
        ({
            let shown = p.pixels@[y * p.width + x];
            let at = 4 * (y * w + x);
            &&& shown.a == s[at + 3]
            &&& s[at + 3] == 255 ==> shown.r == s[at] && shown.g == s[at + 1] && shown.b == s[at + 2]
            &&& s[at + 3] == 0 ==> shown.r == 0 && shown.g == 0 && shown.b == 0
        }),
{
    assert(looks_like(
        SamplesView::Rgba(s),
        source_no(Orientation::NoTransforms, w as int, h as int, x, y),
        p.pixels@[number_at(p.width as int, x, y)],
    ));
}

/// A dark colour is multiplied by its opacity as a share of the whole, to the
/// nearest.
pub proof fn law_dark_colours_are_multiplied(c: u8, a: u8)
    ensures
        -255 <= 510 * dark_share(c, a) - 2 * (c * a) <= 255,
{
    assert(2 * c * a == 2 * (c * a)) by (nonlinear_arith);
}

/// A picture fits a texture where no side is over 8192, and is its own thumbnail
/// where none is over 400.
pub proof fn law_which_pictures_are_scaled(img: Stored)
    ensures
        is_larger(img, MAX_TEXTURE_SIZE) <==> img.width > 8192 || img.height > 8192,
        is_larger(img, THUMBNAIL_MAX_SIZE) <==> img.width > 400 || img.height > 400,
{
}

} // verus!
