//! The frame header of an embedded JPEG, and which JPEG is shown.
use vstd::prelude::*;

use crate::raw::byte_order;
use crate::raw::byte_order::ByteOrder;
use crate::raw::found::Span;
use crate::raw::source::Source;

verus! {

/// The JPEG shown for a RAW file is the smallest embedded one with at
/// least this many pixels on its short side, or the largest when none
/// has. Cameras store a JPEG of about 1080 lines for their own screen:
/// 1616x1080 from Sony, 1620x1080 from Nikon and Canon, 1440x1080 from a
/// Canon with a 4:3 sensor, 1920 wide from Panasonic. Those pass, and the
/// 160x120 thumbnails do not. The long side would not do as the measure,
/// because 1440 is less than 1600 and that file's other JPEG is full
/// size.
pub const MIN_SHORT_SIDE: u32 = 1000;
/// The file is untrusted input, so the walk over a JPEG's segments has a
/// limit like the walks over the containers.
pub const MAX_JPEG_SEGMENTS: usize = 256;

/// Markers without a length: TEM and the restart markers.
pub open spec fn is_bare_marker(m: u8) -> bool {
    m == 0x01 || 0xD0 <= m <= 0xD7
}

/// Baseline, extended sequential and progressive frames.
pub open spec fn is_lossy_frame(m: u8) -> bool {
    0xC0 <= m <= 0xC2
}

/// Markers after which no lossy frame header follows: lossless,
/// differential and arithmetic frames, the scan and the end of the image.
/// 0xC4, 0xC8 and 0xCC are not frame headers.
pub open spec fn ends_the_search(m: u8) -> bool {
    m == 0xC3 || 0xC5 <= m <= 0xC7 || 0xC9 <= m <= 0xCB || 0xCD <= m <= 0xCF || m == 0xDA || m == 0xD9
}

/// Width and height from the first lossy frame header at or after `at`, in a
/// JPEG that ends at `end`, within the next `segments` segments.
pub open spec fn frame_size(file: Seq<u8>, at: int, end: int, segments: nat) -> Option<(int, int)>
    decreases segments,
{
    if segments == 0 || at + 4 > end || file[at] != 0xFF {
        None
    } else {
        let marker = file[at + 1];
        let len = byte_order::u16_at(ByteOrder::Big, file, at + 2);
        let left = (segments - 1) as nat;
        if marker == 0xFF {
            // A fill byte before the marker.
            frame_size(file, at + 1, end, left)
        } else if is_bare_marker(marker) {
            frame_size(file, at + 2, end, left)
        } else if is_lossy_frame(marker) {
            let height = byte_order::u16_at(ByteOrder::Big, file, at + 5);
            let width = byte_order::u16_at(ByteOrder::Big, file, at + 7);
            if at + 9 > end || width == 0 || height == 0 {
                None
            } else {
                Some((width, height))
            }
        } else if ends_the_search(marker) || len < 2 {
            None
        } else {
            frame_size(file, at + 2 + len, end, left)
        }
    }
}

/// Width and height of the lossy JPEG in a span. `None` when the span is not
/// wholly inside the file or does not hold one.
pub open spec fn jpeg_size(file: Seq<u8>, span: Span) -> Option<(int, int)> {
    let end = span.offset + span.len;
    if span.len < 4 || end > file.len() || file[span.offset as int] != 0xFF || file[span.offset + 1] != 0xD8 {
        None
    } else {
        frame_size(file, span.offset + 2, end, MAX_JPEG_SEGMENTS as nat)
    }
}

/// Width and height from the frame header of a baseline, extended or
/// progressive JPEG. `None` for anything else: a span that is not inside the
/// file, bytes that are not a JPEG, and the lossless JPEG a CR2 or a DNG
/// stores its sensor data in.
pub fn lossy_jpeg_size(source: &Source, span: Span) -> (r: Option<(u32, u32)>)
    ensures
        match r {
            Some((width, height)) => jpeg_size(source@, span) == Some((width as int, height as int))
                && 0 < width <= 0xFFFF && 0 < height <= 0xFFFF,
            None => jpeg_size(source@, span) is None,
        },
{
    if span.len < 4 || !source.contains(span.offset, span.len) {
        return None;
    }
    let end: u64 = span.offset + span.len;
    let soi = source.bytes_at(span.offset, 2);
    if soi[0] != 0xFF || soi[1] != 0xD8 {
        return None;
    }
    let mut at: u64 = span.offset + 2;
    let mut segment: usize = 0;
    while segment < MAX_JPEG_SEGMENTS
        invariant
            segment <= MAX_JPEG_SEGMENTS,
            span.offset < at,
            at <= end,
            end == span.offset + span.len,
            end <= source@.len(),
            end <= usize::MAX,
            frame_size(source@, at as int, end as int, (MAX_JPEG_SEGMENTS - segment) as nat) == jpeg_size(
                source@,
                span,
            ),
        decreases MAX_JPEG_SEGMENTS - segment,
    {
        if end < 4 || at > end - 4 {
            return None;
        }
        let head = source.bytes_at(at, 4);
        if head[0] != 0xFF {
            return None;
        }
        let marker: u8 = head[1];
        let segment_len: u64 = ByteOrder::Big.u16_from(head, 2) as u64;
        if marker == 0xFF {
            at += 1;
        } else if marker == 0x01 || (0xD0 <= marker && marker <= 0xD7) {
            at += 2;
        } else if 0xC0 <= marker && marker <= 0xC2 {
            if end < 9 || at > end - 9 {
                return None;
            }
            let frame = source.bytes_at(at + 4, 5);
            let height: u32 = ByteOrder::Big.u16_from(frame, 1) as u32;
            let width: u32 = ByteOrder::Big.u16_from(frame, 3) as u32;
            return if width > 0 && height > 0 {
                Some((width, height))
            } else {
                None
            };
        } else if marker == 0xC3 || (0xC5 <= marker && marker <= 0xC7) || (0xC9 <= marker && marker <= 0xCB)
            || (0xCD <= marker && marker <= 0xCF) || marker == 0xDA || marker == 0xD9 {
            return None;
        } else if segment_len < 2 {
            return None;
        } else if 2 + segment_len > end - at {
            assert(frame_size(
                source@,
                at + 2 + segment_len,
                end as int,
                (MAX_JPEG_SEGMENTS - segment - 1) as nat,
            ) is None);
            return None;
        } else {
            at += 2 + segment_len;
        }
        segment += 1;
    }
    None
}

/// The shorter side of a picture.
pub open spec fn short_side(size: (int, int)) -> int {
    if size.0 < size.1 { size.0 } else { size.1 }
}

/// Whether the `i`-th span holds a lossy JPEG.
pub open spec fn is_jpeg(file: Seq<u8>, jpegs: Seq<Span>, i: int) -> bool {
    0 <= i < jpegs.len() && jpeg_size(file, jpegs[i]) is Some
}

/// Whether the `i`-th span holds a lossy JPEG that is large enough for the
/// screen.
pub open spec fn is_large(file: Seq<u8>, jpegs: Seq<Span>, i: int) -> bool {
    is_jpeg(file, jpegs, i) && short_side(jpeg_size(file, jpegs[i]).unwrap()) >= MIN_SHORT_SIDE
}

/// How many pixels the JPEG in the `i`-th span has.
pub open spec fn pixels(file: Seq<u8>, jpegs: Seq<Span>, i: int) -> int {
    let size = jpeg_size(file, jpegs[i]).unwrap();
    size.0 * size.1
}

/// Whether the `i`-th span has fewer bytes than the `j`-th, or as many and
/// comes first.
pub open spec fn fewer_bytes(jpegs: Seq<Span>, i: int, j: int) -> bool {
    jpegs[i].len < jpegs[j].len || (jpegs[i].len == jpegs[j].len && i <= j)
}

/// Whether the `i`-th span is the one to show: of those that are large
/// enough the one with the fewest bytes; when none is, the one with the most
/// pixels, and of those with as many the one with the fewest bytes.
pub open spec fn is_pick(file: Seq<u8>, jpegs: Seq<Span>, i: int) -> bool {
    &&& is_jpeg(file, jpegs, i)
    &&& is_large(file, jpegs, i) || forall|j: int| !is_large(file, jpegs, j)
    &&& forall|j: int| #[trigger]
        is_jpeg(file, jpegs, j) && is_large(file, jpegs, i) && is_large(file, jpegs, j) ==> fewer_bytes(
            jpegs,
            i,
            j,
        )
    &&& forall|j: int| #[trigger]
        is_jpeg(file, jpegs, j) && !is_large(file, jpegs, i) ==> pixels(file, jpegs, j) < pixels(file, jpegs, i)
            || (pixels(file, jpegs, j) == pixels(file, jpegs, i) && fewer_bytes(jpegs, i, j))
}

/// Whether the `j`-th span is to be shown rather than the `i`-th.
spec fn better(file: Seq<u8>, jpegs: Seq<Span>, j: int, i: int) -> bool {
    if is_large(file, jpegs, j) && is_large(file, jpegs, i) {
        jpegs[j].len < jpegs[i].len
    } else if is_large(file, jpegs, j) || is_large(file, jpegs, i) {
        is_large(file, jpegs, j)
    } else {
        pixels(file, jpegs, j) > pixels(file, jpegs, i) || (pixels(file, jpegs, j) == pixels(file, jpegs, i)
            && jpegs[j].len < jpegs[i].len)
    }
}

/// The smallest JPEG with `MIN_SHORT_SIDE` pixels on its short side, or
/// the one with the most pixels when none is that large.
pub fn pick_for_display(source: &Source, jpegs: &Vec<Span>) -> (r: Option<Span>)
    ensures
        match r {
            Some(span) => exists|i: int| is_pick(source@, jpegs@, i) && span == #[trigger] jpegs@[i],
            None => forall|i: int| !is_jpeg(source@, jpegs@, i),
        },
{
    let mut picked: Option<(usize, bool, u64)> = None;
    let mut j: usize = 0;
    while j < jpegs.len()
        invariant
            j <= jpegs@.len(),
            match picked {
                Some((i, large, most)) => i < j && is_jpeg(source@, jpegs@, i as int) && large == is_large(
                    source@,
                    jpegs@,
                    i as int,
                ) && most == pixels(source@, jpegs@, i as int) && is_pick(
                    source@,
                    jpegs@.take(j as int),
                    i as int,
                ),
                None => forall|k: int| 0 <= k < j ==> !is_jpeg(source@, jpegs@, k),
            },
        decreases jpegs@.len() - j,
    {
        let span = jpegs[j];
        let ghost old_picked = picked;
        if let Some((width, height)) = lossy_jpeg_size(source, span) {
            let short: u32 = if width < height { width } else { height };
            let large: bool = short >= MIN_SHORT_SIDE;
            assert(width * height <= 0xFFFF * 0xFFFF) by (nonlinear_arith)
                requires
                    width <= 0xFFFF,
                    height <= 0xFFFF,
            ;
            let count: u64 = width as u64 * height as u64;
            let take: bool = match picked {
                None => true,
                Some((i, best_large, most)) => if large && best_large {
                    span.len < jpegs[i].len
                } else if large || best_large {
                    large
                } else {
                    count > most || (count == most && span.len < jpegs[i].len)
                },
            };
            if take {
                picked = Some((j, large, count));
            }
        }
        proof {
            lemma_pick_step(source@, jpegs@, j as int, old_picked, picked);
        }
        j += 1;
    }
    assert(jpegs@.take(jpegs@.len() as int) =~= jpegs@);
    match picked {
        Some((i, _, _)) => Some(jpegs[i]),
        None => None,
    }
}

proof fn lemma_pick_step(file: Seq<u8>, jpegs: Seq<Span>, j: int, before: Option<(usize, bool, u64)>, after: Option<(usize, bool, u64)>)
    requires
        0 <= j < jpegs.len(),
        match before {
            Some((i, large, most)) => i < j && is_jpeg(file, jpegs, i as int) && is_pick(file, jpegs.take(j), i as int),
            None => forall|k: int| 0 <= k < j ==> !is_jpeg(file, jpegs, k),
        },
        match before {
            Some((i, _, _)) => after == before && (!is_jpeg(file, jpegs, j) || !better(file, jpegs, j, i as int)) || (
            is_jpeg(file, jpegs, j) && after is Some && after.unwrap().0 == j && better(file, jpegs, j, i as int)),
            None => if is_jpeg(file, jpegs, j) { after is Some && after.unwrap().0 == j } else { after is None },
        },
    ensures
        match after {
            Some((i, _, _)) => is_pick(file, jpegs.take(j + 1), i as int),
            None => forall|k: int| 0 <= k < j + 1 ==> !is_jpeg(file, jpegs, k),
        },
{
    let old_list = jpegs.take(j);
    let list = jpegs.take(j + 1);
    assert forall|k: int| 0 <= k < j implies is_jpeg(file, old_list, k) == #[trigger] is_jpeg(file, list, k)
        && is_large(file, old_list, k) == is_large(file, list, k) && old_list[k] == list[k] && is_jpeg(file, jpegs, k) == is_jpeg(file, list, k) by {
    }
    assert(forall|k: int| #[trigger] is_large(file, list, k) ==> is_jpeg(file, list, k));
    assert(list[j] == jpegs[j]);
    match after {
        Some((i, _, _)) => {
            let i = i as int;
            match before {
                Some((b, _, _)) => {
                    let b = b as int;
                    assert(is_jpeg(file, old_list, b));
                    assert forall|k: int| #[trigger] is_jpeg(file, list, k) && is_large(file, list, i) && is_large(file, list, k) implies fewer_bytes(list, i, k) by {
                        if k < j {
                            assert(is_jpeg(file, old_list, k));
                        }
                    }
                    assert forall|k: int| #[trigger] is_jpeg(file, list, k) && !is_large(file, list, i) implies pixels(file, list, k) < pixels(file, list, i)
                        || (pixels(file, list, k) == pixels(file, list, i) && fewer_bytes(list, i, k)) by {
                        if k < j {
                            assert(is_jpeg(file, old_list, k));
                        }
                    }
                    assert(is_large(file, list, i) || forall|k: int| !is_large(file, list, k)) by {
                        if !is_large(file, list, i) {
                            assert forall|k: int| !is_large(file, list, k) by {
                                if is_large(file, list, k) && k < j {
                                    assert(is_large(file, old_list, k));
                                }
                            }
                        }
                    }
                },
                None => {
                    assert forall|k: int| is_jpeg(file, list, k) implies k == j by {
                        if 0 <= k < j {
                            assert(!is_jpeg(file, jpegs, k));
                        }
                    }
                },
            }
        },
        None => {},
    }
}

/// The JPEG that is shown, against any other one in the file: where it has
/// fewer than a thousand pixels in its width or in its height, the other one
/// has too, and no more pixels; where it has as many in both and the other one
/// has too, the other one has no fewer bytes.
pub proof fn law_the_shown_jpeg_is_the_right_one(file: Seq<u8>, jpegs: Seq<Span>, i: int, j: int)
    requires
        is_pick(file, jpegs, i),
        0 <= j < jpegs.len(),
        jpeg_size(file, jpegs[j]) is Some,
    ensures
        0 <= i < jpegs.len(),
        jpeg_size(file, jpegs[i]) is Some,
        ({
            let (w, h) = jpeg_size(file, jpegs[i]).unwrap();
            let (other_w, other_h) = jpeg_size(file, jpegs[j]).unwrap();
            &&& w < 1000 || h < 1000 ==> other_w < 1000 || other_h < 1000
            &&& w < 1000 || h < 1000 ==> other_w * other_h <= w * h
            &&& (w < 1000 || h < 1000) && other_w * other_h == w * h ==> jpegs[i].len <= jpegs[j].len
            &&& w >= 1000 && h >= 1000 && other_w >= 1000 && other_h >= 1000 ==> jpegs[i].len <= jpegs[j].len
        }),
{
    assert(is_jpeg(file, jpegs, j));
    assert(!is_large(file, jpegs, i) ==> !is_large(file, jpegs, j));
}

/// The header of a baseline, extended or progressive frame gives the size: the
/// height is in the sixth and the seventh byte from its marker on, the width in
/// the two behind them. A lossless frame gives none.
pub proof fn law_a_frame_header_gives_the_size(file: Seq<u8>, at: int, end: int, segments: nat)
    requires
        segments > 0,
        0 <= at,
        at + 9 <= end <= file.len(),
        file[at] == 0xFF,
    ensures
        ({
            let height = file[at + 5] * 256 + file[at + 6];
            let width = file[at + 7] * 256 + file[at + 8];
            &&& (file[at + 1] == 0xC0 || file[at + 1] == 0xC1 || file[at + 1] == 0xC2) && width > 0 && height > 0
                ==> frame_size(file, at, end, segments) == Some((width, height))
        }),
        file[at + 1] == 0xC3 || file[at + 1] == 0xDA || file[at + 1] == 0xD9 ==> frame_size(
            file,
            at,
            end,
            segments,
        ) is None,
{
}

/// A table, a comment or an application's segment before the frame header is
/// passed over by its length, and so is a byte that only fills.
pub proof fn law_other_segments_do_not_matter(file: Seq<u8>, at: int, end: int, segments: nat)
    requires
        0 <= at,
        at + 4 <= end <= file.len(),
        file[at] == 0xFF,
    ensures
        ({
            let m = file[at + 1];
            let len = file[at + 2] * 256 + file[at + 3];
            (0xE0 <= m <= 0xEF || m == 0xC4 || m == 0xDB || m == 0xDD || m == 0xFE) && len >= 2 ==> frame_size(
                file,
                at,
                end,
                segments + 1,
            ) == frame_size(file, at + 2 + len, end, segments)
        }),
        file[at + 1] == 0xFF ==> frame_size(file, at, end, segments + 1) == frame_size(file, at + 1, end, segments),
{
}

/// A span that reaches past the file holds no JPEG, and neither do bytes that
/// do not start like one.
pub proof fn law_only_whole_jpegs_have_a_size(file: Seq<u8>, span: Span)
    requires
        jpeg_size(file, span) is Some,
    ensures
        span.offset + span.len <= file.len(),
        file[span.offset as int] == 0xFF,
        file[span.offset + 1] == 0xD8,
{
}

/// The size of a JPEG is read between its start and its end, from behind its
/// first marker on, over at most 256 segments.
pub proof fn law_where_the_size_of_a_jpeg_is_read(file: Seq<u8>, span: Span)
    requires
        span.len >= 4,
        span.offset + span.len <= file.len(),
        file[span.offset as int] == 0xFF,
        file[span.offset + 1] == 0xD8,
    ensures
        jpeg_size(file, span) == frame_size(file, span.offset + 2, span.offset + span.len, 256),
{
}

/// Of JPEGs with as many pixels and as many bytes the first one is shown.
pub proof fn law_of_equal_jpegs_the_first_is_shown(file: Seq<u8>, jpegs: Seq<Span>, i: int, j: int)
    requires
        is_pick(file, jpegs, i),
        0 <= j < jpegs.len(),
        jpeg_size(file, jpegs[j]) == jpeg_size(file, jpegs[i]),
        jpegs[j].len == jpegs[i].len,
    ensures
        i <= j,
{
    assert(is_jpeg(file, jpegs, j));
}

} // verus!
