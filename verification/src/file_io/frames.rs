//! The frames of a picture that moves.
use std::io::Cursor;

use image::codecs::gif::GifDecoder;
use image::codecs::png::PngDecoder;
use image::codecs::webp::WebPDecoder;
use image::AnimationDecoder;
use vstd::prelude::*;
use vstd::slice::slice_to_vec;

use crate::animation;
use crate::animation::{frame_delay, DecoderEvent, Worker, WorkerStep};
use crate::decode::{Samples, SamplesView, Stored};
use crate::file_io::format::{has_frames, ImageKind};
use crate::file_io::load;
use crate::file_io::load::{guess_kind, LoadError};
use crate::file_io::webp;
use crate::file_io::webp::{animated, pixels_on_canvas, webp_frames_fit, TAG_RIFF};
use crate::raw::byte_order;
use crate::raw::byte_order::ByteOrder;

verus! {

/// A decoded frame.
#[verifier::external_type_specification]
#[verifier::external_body]
pub struct ExFrame(image::Frame);

/// The frames of a picture, decoded as they are asked for.
#[verifier::external_type_specification]
#[verifier::external_body]
pub struct ExFrames<'a>(image::Frames<'a>);

/// The first four letters of a GIF, highest byte first.
pub const TAG_GIF: u32 = 0x4749_4638;

/// The file that frames are decoded from.
pub uninterp spec fn frames_file(frames: image::Frames<'static>) -> Seq<u8>;

/// How often frames were asked for the next one.
pub uninterp spec fn frames_asked(frames: image::Frames<'static>) -> int;

/// Whether the bytes of a file begin a GIF.
pub uninterp spec fn gif_opens(file: Seq<u8>) -> bool;

/// `image::codecs::gif::GifDecoder::new` and `into_frames`: the frames of a
/// GIF. The bytes alone decide whether there are any.
#[verifier::external_body]
fn gif_frames(file: Vec<u8>) -> (r: Result<image::Frames<'static>, image::ImageError>)
    ensures
        r is Ok <==> gif_opens(file@),
        r matches Ok(frames) ==> frames_file(frames) == file@ && frames_asked(frames) == 0,
{
    Ok(GifDecoder::new(Cursor::new(file))?.into_frames())
}

/// Whether a PNG carries an animation, or nothing where the bytes do not begin
/// a PNG.
pub uninterp spec fn png_animation(file: Seq<u8>) -> Option<bool>;

/// `image::codecs::png::PngDecoder::is_apng`: whether a PNG carries an
/// animation. The bytes alone decide it.
#[verifier::external_body]
fn png_moves(file: &Vec<u8>) -> (r: Result<bool, image::ImageError>)
    ensures
        match r {
            Ok(moves) => png_animation(file@) == Some(moves),
            Err(_) => png_animation(file@) is None,
        },
{
    PngDecoder::new(Cursor::new(file))?.is_apng()
}

/// `image::codecs::png::PngDecoder::apng` and `into_frames`: the frames of a
/// PNG, which every PNG that can be opened gives.
#[verifier::external_body]
fn png_frames(file: Vec<u8>) -> (r: Result<image::Frames<'static>, image::ImageError>)
    ensures
        r is Ok <==> png_animation(file@) is Some,
        r matches Ok(frames) ==> frames_file(frames) == file@ && frames_asked(frames) == 0,
{
    Ok(PngDecoder::new(Cursor::new(file))?.apng()?.into_frames())
}

/// Whether a WebP carries an animation, or nothing where the bytes do not
/// begin a WebP.
pub uninterp spec fn webp_animation(file: Seq<u8>) -> Option<bool>;

/// `image::codecs::webp::WebPDecoder::has_animation`: whether a WebP carries an
/// animation. The bytes alone decide it.
#[verifier::external_body]
fn webp_moves(file: &Vec<u8>) -> (r: Result<bool, image::ImageError>)
    ensures
        match r {
            Ok(moves) => webp_animation(file@) == Some(moves),
            Err(_) => webp_animation(file@) is None,
        },
{
    Ok(WebPDecoder::new(Cursor::new(file))?.has_animation())
}

/// `image::codecs::webp::WebPDecoder::into_frames`: the frames of a WebP, which
/// every WebP that can be opened gives.
#[verifier::external_body]
fn webp_frames(file: Vec<u8>) -> (r: Result<image::Frames<'static>, image::ImageError>)
    ensures
        r is Ok <==> webp_animation(file@) is Some,
        r matches Ok(frames) ==> frames_file(frames) == file@ && frames_asked(frames) == 0,
{
    Ok(WebPDecoder::new(Cursor::new(file))?.into_frames())
}

/// Whether the bytes of a file hold frames to play, or nothing where they
/// cannot be opened as what they seem to be. Every GIF has frames; a PNG and a
/// WebP have where they carry an animation.
pub open spec fn frames_in(file: Seq<u8>, path: Seq<char>) -> Option<bool> {
    let kind = load::guessed_kind(file, path);
    if kind is Gif {
        if gif_opens(file) {
            Some(true)
        } else {
            None
        }
    } else if kind is Png {
        png_animation(file)
    } else if kind is WebP {
        webp_animation(file)
    } else {
        Some(false)
    }
}

/// An error of the library's own.
fn with_cause(r: Result<image::Frames<'static>, image::ImageError>) -> (o: Result<
    Option<image::Frames<'static>>,
    LoadError,
>)
    ensures
        match r {
            Ok(frames) => o == Ok::<_, LoadError>(Some(frames)),
            Err(cause) => o == Err::<Option<image::Frames<'static>>, _>(LoadError::Refused(cause)),
        },
{
    match r {
        Ok(frames) => Ok(Some(frames)),
        Err(cause) => Err(LoadError::Refused(cause)),
    }
}

/// The frames of a file, where it has any to play.
pub fn open_animation_frames(file: Vec<u8>, path: &str) -> (r: Result<
    Option<image::Frames<'static>>,
    LoadError,
>)
    ensures
        match r {
            Ok(Some(frames)) => frames_in(file@, path@) == Some(true) && frames_file(frames) == file@
                && frames_asked(frames) == 0,
            Ok(None) => frames_in(file@, path@) == Some(false),
            Err(_) => frames_in(file@, path@) is None,
        },
{
    let kind = guess_kind(file.as_slice(), path);
    let moves = match &kind {
        ImageKind::Png => png_moves(&file),
        ImageKind::WebP => webp_moves(&file),
        _ => Ok(true),
    };
    let moves = match moves {
        Ok(moves) => moves,
        Err(cause) => {
            return Err(LoadError::Refused(cause));
        },
    };
    if !has_frames(&kind, moves) {
        return Ok(None);
    }
    match kind {
        ImageKind::Gif => with_cause(gif_frames(file)),
        ImageKind::Png => with_cause(png_frames(file)),
        ImageKind::WebP => with_cause(webp_frames(file)),
        _ => Ok(None),
    }
}

/// A frame as it was decoded, row by row with four bytes for each pixel, and
/// its delay as a fraction of milliseconds.
#[derive(Debug)]
pub struct RawFrame {
    pub width: u32,
    pub height: u32,
    pub rgba: Vec<u8>,
    pub num: u32,
    pub denom: u32,
}

/// What a decoded frame is.
pub struct FrameView {
    pub width: u32,
    pub height: u32,
    pub rgba: Seq<u8>,
    pub num: u32,
    pub denom: u32,
}

impl View for RawFrame {
    type V = FrameView;

    open spec fn view(&self) -> FrameView {
        FrameView {
            width: self.width,
            height: self.height,
            rgba: self.rgba@,
            num: self.num,
            denom: self.denom,
        }
    }
}

/// How many pixels the canvas of an animation has, by the header of its file:
/// a WebP, a GIF or a PNG.
pub open spec fn canvas_pixels(file: Seq<u8>) -> int {
    if webp::is_animated(file) {
        webp::canvas_pixels(file)
    } else if webp::tag_at(file, 0) == TAG_GIF {
        byte_order::u16_at(ByteOrder::Little, file, 6) * byte_order::u16_at(ByteOrder::Little, file, 8)
    } else {
        byte_order::u32_at(ByteOrder::Big, file, 16) * byte_order::u32_at(ByteOrder::Big, file, 20)
    }
}

/// Whether the next frame of a file can be asked for, after so many that were.
/// The canvas has to fit into memory with eight bytes for each pixel. A WebP
/// has to be animated, the bytes of its canvas have to be counted in 32 bits,
/// and its frames up to the next one have to hold pictures that fit.
pub open spec fn can_be_asked(file: Seq<u8>, asked: int) -> bool {
    &&& file.len() >= 24
    &&& canvas_pixels(file) * 8 <= isize::MAX
    &&& webp::tag_at(file, 0) == webp::TAG_RIFF ==> webp::is_animated(file) && webp::canvas_pixels(file) * 4
        <= u32::MAX && webp::frames_fit(file, asked + 1)
}

/// Whether the next frame of a file can be asked for, after so many that were.
pub fn next_can_be_asked(file: &[u8], asked: u64) -> (r: bool)
    requires
        asked < u64::MAX,
    ensures
        r == can_be_asked(file@, asked as int),
{
    if file.len() < 24 {
        return false;
    }
    let tag: u32 = ByteOrder::Big.u32_from(file, 0);
    let pixels: u128 = if animated(file) {
        pixels_on_canvas(file) as u128
    } else if tag == TAG_GIF {
        let width: u128 = ByteOrder::Little.u16_from(file, 6) as u128;
        let height: u128 = ByteOrder::Little.u16_from(file, 8) as u128;
        assert(width * height <= 0x1_0000 * 0x1_0000) by (nonlinear_arith)
            requires
                0 <= width <= 0x1_0000,
                0 <= height <= 0x1_0000,
        ;
        width * height
    } else {
        let width: u128 = ByteOrder::Big.u32_from(file, 16) as u128;
        let height: u128 = ByteOrder::Big.u32_from(file, 20) as u128;
        assert(width * height <= 0x1_0000_0000 * 0x1_0000_0000) by (nonlinear_arith)
            requires
                0 <= width <= 0x1_0000_0000,
                0 <= height <= 0x1_0000_0000,
        ;
        width * height
    };
    if pixels * 8 > isize::MAX as u128 {
        return false;
    }
    tag != TAG_RIFF || (animated(file) && pixels * 4 <= u32::MAX as u128 && webp_frames_fit(file, asked + 1))
}

/// What a decoder answers when it is asked for the next frame.
pub enum FrameAnswer {
    Frame(FrameView),
    /// The frame cannot be decoded.
    Failed,
    /// There are no more frames.
    End,
}

/// What the decoder of a file answers when it is asked for a frame and was
/// asked so often before.
pub uninterp spec fn frame_answer(file: Seq<u8>, asked: int) -> FrameAnswer;

/// `Iterator::next` of `image::Frames`: the next frame, whose buffer holds all
/// its pixels. The bytes of the file, and how often the decoder was asked
/// before, alone decide the answer; each decoder wants first bytes of its own,
/// so that a file has one decoder only, and frames are put together by adding,
/// multiplying, dividing and rounding. The canvas has to fit into memory, and
/// the frames of a WebP have to hold pictures that fit: its decoder does not see
/// to it where there is an alpha channel.
#[verifier::external_body]
fn decode_frame(frames: &mut image::Frames<'static>) -> (r: Option<Result<RawFrame, image::ImageError>>)
    requires
        can_be_asked(frames_file(*old(frames)), frames_asked(*old(frames))),
    ensures
        frames_file(*final(frames)) == frames_file(*old(frames)),
        frames_asked(*final(frames)) == frames_asked(*old(frames)) + 1,
        frame_answer(frames_file(*old(frames)), frames_asked(*old(frames))) == (match r {
            Some(Ok(f)) => FrameAnswer::Frame(f@),
            Some(Err(_)) => FrameAnswer::Failed,
            None => FrameAnswer::End,
        }),
        r matches Some(Ok(f)) ==> f.rgba@.len() >= f.width * f.height * 4,
{
    match frames.next() {
        Some(Ok(frame)) => {
            let (num, denom) = frame.delay().numer_denom_ms();
            let buffer = frame.into_buffer();
            let (width, height) = (buffer.width(), buffer.height());
            Some(Ok(RawFrame { width, height, rgba: buffer.into_raw(), num, denom }))
        },
        Some(Err(e)) => Some(Err(e)),
        None => None,
    }
}

/// A frame that is ready to be shown, and for how many milliseconds it stays.
#[derive(Debug)]
pub struct TimedFrame {
    pub image: Stored,
    pub delay: u64,
}

/// Whether a frame is a decoded one, ready to be shown: the bytes of its
/// pixels, without what the buffer may hold behind them.
pub open spec fn is_timed(t: TimedFrame, f: FrameView) -> bool {
    &&& t.image.wf()
    &&& t.image.width == f.width
    &&& t.image.height == f.height
    &&& t.image.samples@ == SamplesView::Rgba(f.rgba.take(f.width * f.height * 4))
    &&& t.delay == animation::delay_of(f.num as int, f.denom as int)
}

/// A decoded frame, ready to be shown.
pub fn timed_frame(f: RawFrame) -> (r: TimedFrame)
    requires
        f.rgba@.len() >= f.width * f.height * 4,
    ensures
        is_timed(r, f@),
{
    let mut samples = f.rgba;
    assert(samples@.len() == samples.len());
    assert(0 <= f.width * f.height) by (nonlinear_arith);
    let wanted: usize = f.width as usize * f.height as usize * 4;
    samples.truncate(wanted);
    TimedFrame {
        image: Stored { width: f.width, height: f.height, samples: Samples::Rgba(samples) },
        delay: frame_delay(f.num, f.denom),
    }
}

/// The frames of a file, one after the other and then over again.
pub struct FrameSource {
    pub file: Vec<u8>,
    pub path: String,
    /// The frames that come next, while the file is open.
    pub frames: Option<image::Frames<'static>>,
    pub worker: Worker,
    /// How often the decoder was asked since the file was opened.
    pub asked: u64,
}

/// What comes of a request for a frame: the frame, or nothing when playing is
/// over, and then the worker and how often the decoder was asked since the file
/// was opened.
#[verifier::ext_equal]
pub struct Played {
    pub frame: Option<FrameView>,
    pub worker: Worker,
    pub asked: int,
}

/// What comes of asking the open file for a frame, where its end is the end of
/// playing. A frame that cannot be decoded ends playing, and one that cannot be
/// asked for does.
pub open spec fn frame_played(file: Seq<u8>, w: Worker, asked: int) -> Played {
    if !can_be_asked(file, asked) {
        Played { frame: None, worker: w, asked }
    } else {
        match frame_answer(file, asked) {
            FrameAnswer::Frame(f) => Played {
                frame: Some(f),
                worker: animation::worker_after(w, DecoderEvent::Frame).0,
                asked: asked + 1,
            },
            _ => Played { frame: None, worker: w, asked: asked + 1 },
        }
    }
}

/// A request once a file with frames was opened.
pub open spec fn first_played(file: Seq<u8>) -> Played {
    frame_played(file, Worker { open: true, seen_frames: 0 }, 0)
}

/// A request for a frame of a file. A file that is not open is opened, which
/// ends playing where it has no frames to play. Behind the last frame comes the
/// first one, unless there was no more than one.
pub open spec fn next_played(file: Seq<u8>, path: Seq<char>, w: Worker, asked: int) -> Played {
    if !w.open {
        if frames_in(file, path) == Some(true) {
            first_played(file)
        } else {
            Played { frame: None, worker: w, asked: 0 }
        }
    } else if can_be_asked(file, asked) && frame_answer(file, asked) is End && w.seen_frames >= 2 {
        first_played(file)
    } else {
        frame_played(file, w, asked)
    }
}

/// How many steps a request can still take at the most.
spec fn steps_left(w: Worker, step: WorkerStep) -> int {
    match step {
        WorkerStep::Open => 2,
        WorkerStep::Next => if w.seen_frames >= 2 {
            3
        } else {
            1
        },
        WorkerStep::Deliver => 0,
        WorkerStep::Finish => 0,
    }
}

impl FrameSource {
    /// The worker knows whether the file is open. An open file is one that has
    /// frames to play, and its frames are those that come.
    pub open spec fn wf(&self) -> bool {
        &&& self.worker.open <==> self.frames is Some
        &&& !self.worker.open ==> self.worker.seen_frames == 0
        &&& !self.worker.open ==> self.asked == 0
        &&& self.frames matches Some(f) ==> frames_file(f) == self.file@ && frames_asked(f) == self.asked
            && frames_in(self.file@, self.path@) == Some(true)
    }

    /// The frames of a file that is not open yet.
    pub fn new(file: Vec<u8>, path: String) -> (r: Self)
        ensures
            r.wf(),
            r.file == file,
            r.path == path,
            r.worker == (Worker { open: false, seen_frames: 0 }),
    {
        FrameSource { file, path, frames: None, worker: Worker::new(), asked: 0 }
    }

    /// Opens the file.
    fn open(&mut self) -> (r: DecoderEvent)
        requires
            old(self).wf(),
            !old(self).worker.open,
        ensures
            final(self).file == old(self).file,
            final(self).path == old(self).path,
            final(self).worker == old(self).worker,
            final(self).asked == old(self).asked,
            match frames_in(old(self).file@, old(self).path@) {
                Some(true) => r is Opened,
                Some(false) => r is NotAnimated,
                None => r is Failed,
            },
            r is Opened ==> (final(self).frames matches Some(f) && frames_file(f) == old(self).file@
                && frames_asked(f) == 0),
            !(r is Opened) ==> final(self).frames is None,
    {
        let bytes = slice_to_vec(self.file.as_slice());
        match open_animation_frames(bytes, self.path.as_str()) {
            Ok(Some(frames)) => {
                self.frames = Some(frames);
                DecoderEvent::Opened
            },
            Ok(None) => DecoderEvent::NotAnimated,
            Err(_) => DecoderEvent::Failed,
        }
    }

    /// The next frame of the file, or nothing when playing is over: the file
    /// has no frames to play, a frame cannot be decoded, or the file turned out
    /// to have one frame only. Behind the last frame comes the first one.
    pub fn next_frame(&mut self) -> (r: Option<TimedFrame>)
        requires
            old(self).wf(),
            old(self).asked < u64::MAX,
        ensures
            final(self).wf(),
            final(self).file == old(self).file,
            final(self).path == old(self).path,
            ({
                let p = next_played(old(self).file@, old(self).path@, old(self).worker, old(self).asked as int);
                &&& final(self).worker == p.worker
                &&& final(self).asked == p.asked
                &&& match p.frame {
                    Some(f) => r matches Some(t) && is_timed(t, f),
                    None => r is None,
                }
            }),
    {
        let mut step = self.worker.request();
        loop
            invariant
                self.wf(),
                self.file == old(self).file,
                self.path == old(self).path,
                step == animation::on_request(self.worker),
                self.asked < u64::MAX,
                next_played(self.file@, self.path@, self.worker, self.asked as int) == next_played(
                    old(self).file@,
                    old(self).path@,
                    old(self).worker,
                    old(self).asked as int,
                ),
            decreases steps_left(self.worker, step),
        {
            if let WorkerStep::Open = step {
                match self.open() {
                    DecoderEvent::Opened => {
                        step = self.worker.event(DecoderEvent::Opened);
                        continue;
                    },
                    _ => {
                        return None;
                    },
                }
            }
            if !next_can_be_asked(self.file.as_slice(), self.asked) {
                return None;
            }
            let mut frames = None;
            std::mem::swap(&mut frames, &mut self.frames);
            let mut frames = match frames {
                Some(frames) => frames,
                None => {
                    return None;
                },
            };
            let decoded = decode_frame(&mut frames);
            self.frames = Some(frames);
            self.asked += 1;
            match decoded {
                Some(Ok(f)) => {
                    self.worker.event(DecoderEvent::Frame);
                    return Some(timed_frame(f));
                },
                Some(Err(_)) => {
                    return None;
                },
                None => {
                    step = self.worker.event(DecoderEvent::End);
                    if let WorkerStep::Open = step {
                        self.frames = None;
                        self.asked = 0;
                    } else {
                        return None;
                    }
                },
            }
        }
    }
}

/// Requests play the frames one after the other: an open file gives the frame
/// that comes next, and behind the last one the first, unless the file turned out
/// to have one frame only. A frame that cannot be decoded ends playing.
pub proof fn law_frames_are_played_in_turn(file: Seq<u8>, path: Seq<char>, w: Worker, asked: int, f: FrameView)
    requires
        w.open,
        can_be_asked(file, asked),
    ensures
        ({
            let p = next_played(file, path, w, asked);
            &&& frame_answer(file, asked) == FrameAnswer::Frame(f) ==> p.frame == Some(f) && p.asked == asked + 1
                && p.worker.open
            &&& frame_answer(file, asked) is Failed ==> p.frame is None
            &&& frame_answer(file, asked) is End && w.seen_frames < 2 ==> p.frame is None
            &&& frame_answer(file, asked) is End && w.seen_frames >= 2 && can_be_asked(file, 0) && frame_answer(file, 0)
                == FrameAnswer::Frame(f) ==> p.frame == Some(f) && p.asked == 1 && p.worker.open
        }),
{
}

/// The first request opens the file and gives its first frame; a file without
/// frames to play gives none.
pub proof fn law_playing_starts_with_the_first_frame(file: Seq<u8>, path: Seq<char>, w: Worker, asked: int, f: FrameView)
    requires
        !w.open,
        can_be_asked(file, 0),
    ensures
        ({
            let p = next_played(file, path, w, asked);
            &&& frames_in(file, path) == Some(true) && frame_answer(file, 0) == FrameAnswer::Frame(f) ==> p.frame
                == Some(f) && p.asked == 1 && p.worker.open
            &&& frames_in(file, path) != Some(true) ==> p.frame is None
        }),
{
}

/// A GIF has frames to play as soon as it opens, a PNG and a WebP only where they
/// carry an animation, and no other file has.
pub proof fn law_which_files_have_frames(file: Seq<u8>, path: Seq<char>)
    ensures
        load::guessed_kind(file, path) is Gif ==> (frames_in(file, path) == Some(true) <==> gif_opens(file)),
        load::guessed_kind(file, path) is Png ==> (frames_in(file, path) == Some(true) <==> png_animation(file) == Some(
            true,
        )),
        load::guessed_kind(file, path) is WebP ==> (frames_in(file, path) == Some(true) <==> webp_animation(file)
            == Some(true)),
        load::guessed_kind(file, path) is Jpeg ==> frames_in(file, path) == Some(false),
        load::guessed_kind(file, path) is Tiff ==> frames_in(file, path) == Some(false),
{
}

/// A frame that is shown has all pixels of the decoded one and stays as long as
/// it asks for: the least whole number of milliseconds that is no shorter, and
/// ten at least.
pub proof fn law_a_shown_frame_is_the_decoded_one(t: TimedFrame, f: FrameView, i: int)
    requires
        is_timed(t, f),
        f.rgba.len() >= f.width * f.height * 4,
        0 <= i < f.width * f.height * 4,
        f.denom > 0,
    ensures
        t.image.width == f.width,
        t.image.height == f.height,
        t.image.samples@ matches SamplesView::Rgba(bytes) && bytes.len() == f.width * f.height * 4 && bytes[i] == f.rgba[i],
        t.delay * f.denom >= f.num,
        t.delay >= 10,
        t.delay == 10 || (t.delay - 1) * f.denom < f.num,
{
    animation::law_a_frame_stays_as_long_as_it_asks_for(f.num as int, f.denom as int);
}

/// The canvas of a GIF has its width and its height in two bytes each, the lower
/// first, and that of a PNG in four bytes each, the highest first.
pub proof fn law_the_canvas_of_an_animation(file: Seq<u8>)
    requires
        file.len() >= 24,
        !webp::is_animated(file),
    ensures
        file[0] == 'G' as u8 && file[1] == 'I' as u8 && file[2] == 'F' as u8 && file[3] == '8' as u8 ==> canvas_pixels(file)
            == (file[6] + 256 * file[7]) * (file[8] + 256 * file[9]),
        file[0] == 0x89 ==> canvas_pixels(file) == (file[16] * 0x100_0000 + file[17] * 0x1_0000 + file[18] * 0x100
            + file[19]) * (file[20] * 0x100_0000 + file[21] * 0x1_0000 + file[22] * 0x100 + file[23]),
{
}

/// A frame that cannot be decoded, or the end of a file with one frame, is passed
/// by: the next request asks for what comes behind it.
pub proof fn law_what_gives_no_frame_is_passed_by(file: Seq<u8>, path: Seq<char>, w: Worker, asked: int)
    requires
        w.open,
        can_be_asked(file, asked),
        !(frame_answer(file, asked) is Frame),
        !(frame_answer(file, asked) is End && w.seen_frames >= 2),
    ensures
        next_played(file, path, w, asked).frame is None,
        next_played(file, path, w, asked).asked == asked + 1,
        next_played(file, path, w, asked).worker == w,
{
}

} // verus!
