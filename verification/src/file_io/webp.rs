//! The frames of an animated WebP, as far as they can be decoded: the picture
//! of a frame with an alpha channel has to fit into the frame.
use vstd::prelude::*;

use crate::raw::byte_order;
use crate::raw::byte_order::ByteOrder;

verus! {

/// The four letters of a chunk, highest byte first.
pub const TAG_RIFF: u32 = 0x5249_4646;
pub const TAG_WEBP: u32 = 0x5745_4250;
pub const TAG_EXTENDED: u32 = 0x5650_3858;
pub const TAG_FRAME: u32 = 0x414E_4D46;
pub const TAG_ALPHA: u32 = 0x414C_5048;

/// The letters at an offset.
pub open spec fn tag_at(file: Seq<u8>, at: int) -> int {
    byte_order::u32_at(ByteOrder::Big, file, at)
}

/// How many bytes the chunk at an offset holds behind its letters and its
/// length.
pub open spec fn chunk_size(file: Seq<u8>, at: int) -> int {
    byte_order::u32_at(ByteOrder::Little, file, at + 4)
}

/// A length with the byte that makes it even.
pub open spec fn padded(size: int) -> int {
    if size % 2 == 1 && size < u32::MAX {
        size + 1
    } else {
        size
    }
}

/// The 24-bit number whose three bytes start at an offset, lowest first.
pub open spec fn u24_at(file: Seq<u8>, at: int) -> int {
    file[at] + 0x100 * file[at + 1] + 0x1_0000 * file[at + 2]
}

/// Whether a file is a WebP whose header says that it is animated.
pub open spec fn is_animated(file: Seq<u8>) -> bool {
    &&& file.len() >= 30
    &&& tag_at(file, 0) == TAG_RIFF
    &&& tag_at(file, 8) == TAG_WEBP
    &&& tag_at(file, 12) == TAG_EXTENDED
    &&& file[20] / 2 % 2 == 1
}

/// How many pixels the canvas of an animated WebP has.
pub open spec fn canvas_pixels(file: Seq<u8>) -> int {
    (u24_at(file, 24) + 1) * (u24_at(file, 27) + 1)
}

/// Where the first frame among the chunks from an offset on starts.
pub open spec fn first_frame_from(file: Seq<u8>, at: int) -> Option<int>
    decreases
            if at < file.len() {
                file.len() - at
            } else {
                0
            },
{
    if at < 0 || at + 8 > file.len() {
        None
    } else if tag_at(file, at) == TAG_FRAME {
        Some(at)
    } else {
        proof {
            assert(chunk_size(file, at) >= 0);
        }
        first_frame_from(file, at + 8 + padded(chunk_size(file, at)))
    }
}

/// Where the first frame of an animated WebP starts, behind the header.
pub open spec fn first_frame(file: Seq<u8>) -> Option<int> {
    first_frame_from(file, 20 + padded(chunk_size(file, 12)))
}

/// Whether a picture can be written into a frame the way the decoder does it:
/// one row, and then two at a time. What the frame has left over behind the
/// last two rows that it has room for takes a row of its own, which only a
/// picture with an even number of rows has; a row of even width ends in a
/// single pixel, for which there has to be room there. A picture of the size of
/// the frame fits.
pub open spec fn picture_fits(width: int, height: int, frame_width: int, frame_height: int) -> bool {
    let room = frame_width * frame_height;
    let left = (room - width) % (2 * width);
    &&& width > 0
    &&& height > 0
    &&& width * height <= room
    &&& left == 0 || (height % 2 == 0 && (width % 2 == 1 || left % 2 == 0))
}

/// A picture fits into a frame of its size.
pub proof fn law_a_picture_fits_a_frame_of_its_size(width: int, height: int)
    requires
        width > 0,
        height > 0,
    ensures
        picture_fits(width, height, width, height),
{
    let pairs = (height - 1) / 2;
    let odd = (height - 1) % 2;
    assert(width * height - width == (2 * width) * pairs + width * odd) by (nonlinear_arith)
        requires
            height - 1 == 2 * pairs + odd,
    ;
    assert(0 <= width * odd < 2 * width) by (nonlinear_arith)
        requires
            width > 0,
            0 <= odd <= 1,
    ;
    vstd::arithmetic::div_mod::lemma_fundamental_div_mod_converse(
        width * height - width,
        2 * width,
        pairs,
        width * odd,
    );
    assert(odd == 0 ==> width * odd == 0) by (nonlinear_arith);
    assert(odd == 1 ==> width * odd == width) by (nonlinear_arith);
}

/// Whether the picture of the frame at an offset fits into the frame. It matters
/// where an alpha channel stands before the picture: otherwise the decoder
/// itself compares the two.
#[verifier::opaque]
pub open spec fn frame_fits(file: Seq<u8>, at: int) -> bool {
    at + 32 > file.len() || tag_at(file, at + 24) != TAG_ALPHA || {
        let picture = at + 40 + padded(chunk_size(file, at + 24));
        picture + 10 > file.len() || picture_fits(
            byte_order::u16_at(ByteOrder::Little, file, picture + 6) % 0x4000,
            byte_order::u16_at(ByteOrder::Little, file, picture + 8) % 0x4000,
            u24_at(file, at + 14) + 1,
            u24_at(file, at + 17) + 1,
        )
    }
}

/// Whether the next so many frames from an offset on fit. The decoder goes
/// from frame to frame by their lengths alone, and stops at anything else.
pub open spec fn frames_fit_from(file: Seq<u8>, at: int, n: int) -> bool
    decreases n,
{
    n <= 0 || at + 8 > file.len() || tag_at(file, at) != TAG_FRAME || (frame_fits(file, at) && frames_fit_from(
        file,
        at + 8 + chunk_size(file, at),
        n - 1,
    ))
}

/// Whether the first so many frames of an animated WebP fit.
pub open spec fn frames_fit(file: Seq<u8>, n: int) -> bool {
    first_frame(file) matches Some(at) ==> frames_fit_from(file, at, n)
}

/// Whether the first frame fits, where a file is an animated WebP.
pub open spec fn still_fits(file: Seq<u8>) -> bool {
    is_animated(file) ==> frames_fit(file, 1)
}

/// The 24-bit number in the three bytes at an offset.
fn u24_from(file: &[u8], at: usize) -> (r: u32)
    requires
        at + 3 <= file@.len(),
    ensures
        r == u24_at(file@, at as int),
        r < 0x100_0000,
{
    assert(file@.len() == file.len());
    let low: u32 = file[at] as u32;
    let middle: u32 = file[at + 1] as u32;
    let high: u32 = file[at + 2] as u32;
    low + 0x100 * middle + 0x1_0000 * high
}

/// The length of the chunk at an offset, with the byte that makes it even.
fn padded_size(file: &[u8], at: usize) -> (r: u64)
    requires
        at + 8 <= file@.len(),
    ensures
        r == padded(chunk_size(file@, at as int)),
        r <= u32::MAX,
{
    assert(file@.len() == file.len());
    let size: u32 = ByteOrder::Little.u32_from(file, at + 4);
    if size % 2 == 1 && size < u32::MAX {
        size as u64 + 1
    } else {
        size as u64
    }
}

/// Whether a file is a WebP whose header says that it is animated.
pub fn animated(file: &[u8]) -> (r: bool)
    ensures
        r == is_animated(file@),
{
    file.len() >= 30 && ByteOrder::Big.u32_from(file, 0) == TAG_RIFF && ByteOrder::Big.u32_from(file, 8)
        == TAG_WEBP && ByteOrder::Big.u32_from(file, 12) == TAG_EXTENDED && file[20] / 2 % 2 == 1
}

/// How many pixels the canvas of an animated WebP has.
pub fn pixels_on_canvas(file: &[u8]) -> (r: u64)
    requires
        is_animated(file@),
    ensures
        r == canvas_pixels(file@),
{
    let width: u64 = u24_from(file, 24) as u64 + 1;
    let height: u64 = u24_from(file, 27) as u64 + 1;
    assert(width * height <= 0x100_0000 * 0x100_0000) by (nonlinear_arith)
        requires
            0 <= width <= 0x100_0000,
            0 <= height <= 0x100_0000,
    ;
    width * height
}

/// Where the first frame of an animated WebP starts.
fn find_first_frame(file: &[u8]) -> (r: Option<usize>)
    requires
        is_animated(file@),
    ensures
        match r {
            Some(at) => first_frame(file@) == Some(at as int) && at + 8 <= file@.len(),
            None => first_frame(file@) is None,
        },
{
    let len: u128 = file.len() as u128;
    let mut at: u128 = 20 + padded_size(file, 12) as u128;
    while at + 8 <= len
        invariant
            len == file@.len(),
            len <= usize::MAX,
            at <= len + 0x1_0000_0000,
            first_frame(file@) == first_frame_from(file@, at as int),
        decreases len + 0x1_0000_0000 - at,
    {
        if ByteOrder::Big.u32_from(file, at as usize) == TAG_FRAME {
            return Some(at as usize);
        }
        at = at + 8 + padded_size(file, at as usize) as u128;
    }
    None
}

/// Whether a picture can be written into a frame.
pub fn fits_into(width: u64, height: u64, frame_width: u64, frame_height: u64) -> (r: bool)
    requires
        width <= 0x100_0000,
        height <= 0x100_0000,
        frame_width <= 0x100_0000,
        frame_height <= 0x100_0000,
    ensures
        r == picture_fits(width as int, height as int, frame_width as int, frame_height as int),
{
    assert(0 <= frame_width * frame_height <= 0x100_0000 * 0x100_0000) by (nonlinear_arith)
        requires
            0 <= frame_width <= 0x100_0000,
            0 <= frame_height <= 0x100_0000,
    ;
    assert(0 <= width * height <= 0x100_0000 * 0x100_0000) by (nonlinear_arith)
        requires
            0 <= width <= 0x100_0000,
            0 <= height <= 0x100_0000,
    ;
    let room: u64 = frame_width * frame_height;
    if width == 0 || height == 0 || width * height > room {
        return false;
    }
    assert(width <= width * height) by (nonlinear_arith)
        requires
            height >= 1,
            width >= 0,
    ;
    let left: u64 = (room - width) % (2 * width);
    left == 0 || (height % 2 == 0 && (width % 2 == 1 || left % 2 == 0))
}

/// Whether the picture of the frame at an offset fits into the frame.
fn one_fits(file: &[u8], at: usize) -> (r: bool)
    requires
        at + 8 <= file@.len(),
    ensures
        r == frame_fits(file@, at as int),
{
    reveal(frame_fits);
    let len: u128 = file.len() as u128;
    if at as u128 + 32 > len || ByteOrder::Big.u32_from(file, at + 24) != TAG_ALPHA {
        return true;
    }
    let picture: u128 = at as u128 + 40 + padded_size(file, at + 24) as u128;
    if picture + 10 > len {
        return true;
    }
    let width: u16 = ByteOrder::Little.u16_from(file, picture as usize + 6) % 0x4000;
    let height: u16 = ByteOrder::Little.u16_from(file, picture as usize + 8) % 0x4000;
    let frame_width: u64 = u24_from(file, at + 14) as u64 + 1;
    let frame_height: u64 = u24_from(file, at + 17) as u64 + 1;
    fits_into(width as u64, height as u64, frame_width, frame_height)
}

/// Whether the first so many frames of an animated WebP fit.
pub fn webp_frames_fit(file: &[u8], n: u64) -> (r: bool)
    requires
        is_animated(file@),
    ensures
        r == frames_fit(file@, n as int),
{
    let first = match find_first_frame(file) {
        Some(first) => first,
        None => {
            return true;
        },
    };
    let len: u128 = file.len() as u128;
    let mut at: u128 = first as u128;
    let mut left: u64 = n;
    while left > 0 && at + 8 <= len
        invariant
            len == file@.len(),
            len <= usize::MAX,
            at <= len + 0x1_0000_0000,
            first_frame(file@) == Some(first as int),
            frames_fit_from(file@, first as int, n as int) == frames_fit_from(file@, at as int, left as int),
        decreases left,
    {
        if ByteOrder::Big.u32_from(file, at as usize) != TAG_FRAME {
            return true;
        }
        if !one_fits(file, at as usize) {
            return false;
        }
        at = at + 8 + ByteOrder::Little.u32_from(file, at as usize + 4) as u128;
        left = left - 1;
    }
    true
}

/// Whether the first frame fits, where a file is an animated WebP.
pub fn still_frame_fits(file: &[u8]) -> (r: bool)
    ensures
        r == still_fits(file@),
{
    !animated(file) || webp_frames_fit(file, 1)
}

/// The letters of the chunks, and where the header of an animation keeps the size
/// of its canvas.
pub proof fn law_the_header_of_an_animation(file: Seq<u8>)
    ensures
        is_animated(file) ==> file[0] == 'R' as u8 && file[1] == 'I' as u8 && file[2] == 'F' as u8 && file[3] == 'F' as u8
            && file[8] == 'W' as u8 && file[9] == 'E' as u8 && file[10] == 'B' as u8 && file[11] == 'P' as u8 && file[12]
            == 'V' as u8 && file[13] == 'P' as u8 && file[14] == '8' as u8 && file[15] == 'X' as u8,
        canvas_pixels(file) == (1 + file[24] + 256 * file[25] + 65536 * file[26]) * (1 + file[27] + 256 * file[28]
            + 65536 * file[29]),
{
}

/// A still WebP, and any other file, always fits; so does an animation whose first
/// frame has no alpha channel.
pub proof fn law_what_always_fits(file: Seq<u8>, at: int)
    ensures
        !is_animated(file) ==> still_fits(file),
        first_frame(file) is None ==> still_fits(file),
        first_frame(file) == Some(at) && at + 32 <= file.len() && file[at + 24] != 'A' as u8 ==> still_fits(file),
{
    reveal(frame_fits);
    reveal_with_fuel(frames_fit_from, 2);
}

/// Frames follow each other: where several fit, the first one fits, and so do the
/// others from the chunk on that is behind it.
pub proof fn law_frames_follow_each_other(file: Seq<u8>, at: int, n: int)
    requires
        0 <= at,
        at + 8 <= file.len(),
        tag_at(file, at) == 0x414E_4D46,
        n >= 1,
    ensures
        frames_fit_from(file, at, n) <==> frame_fits(file, at) && frames_fit_from(
            file,
            at + 8 + (file[at + 4] + file[at + 5] * 0x100 + file[at + 6] * 0x1_0000 + file[at + 7] * 0x100_0000),
            n - 1,
        ),
{
}

} // verus!
