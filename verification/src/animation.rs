//! Playing animations: how long frames stay, when the next one is asked for,
//! and when playing ends.
use vstd::prelude::*;

verus! {

/// The shortest that a frame stays, in milliseconds.
pub const MIN_FRAME_DELAY: u64 = 10;

/// How long a frame with a delay of `num / denom` milliseconds stays: rounded
/// up, and no shorter than the shortest.
pub open spec fn delay_of(num: int, denom: int) -> int {
    if denom == 0 {
        MIN_FRAME_DELAY as int
    } else {
        let up = (num + denom - 1) / denom;
        if up < MIN_FRAME_DELAY {
            MIN_FRAME_DELAY as int
        } else {
            up
        }
    }
}

/// How long a frame with a delay of `num / denom` milliseconds stays.
pub fn frame_delay(num: u32, denom: u32) -> (r: u64)
    ensures
        r == delay_of(num as int, denom as int),
{
    if denom == 0 {
        return MIN_FRAME_DELAY;
    }
    let up: u64 = (num as u64 + denom as u64 - 1) / denom as u64;
    if up < MIN_FRAME_DELAY {
        MIN_FRAME_DELAY
    } else {
        up
    }
}

/// A frame stays for the least number of whole milliseconds that is no shorter
/// than what it asks for, and ten at least.
pub proof fn law_a_frame_stays_as_long_as_it_asks_for(num: int, denom: int)
    requires
        num >= 0,
        denom > 0,
    ensures
        delay_of(num, denom) * denom >= num,
        delay_of(num, denom) >= 10,
        delay_of(num, denom) == 10 || (delay_of(num, denom) - 1) * denom < num,
        delay_of(num, 0) == 10,
{
    let up = (num + denom - 1) / denom;
    assert(up * denom >= num && (up - 1) * denom < num) by (nonlinear_arith)
        requires
            denom > 0,
            up == (num + denom - 1) / denom,
    ;
    if up < MIN_FRAME_DELAY {
        assert(10 * denom >= up * denom) by (nonlinear_arith)
            requires
                up <= 10,
                denom > 0,
        ;
    }
}

/// A frame that asks for longer stays no shorter.
pub proof fn law_longer_delays_are_no_shorter(num: int, more: int, denom: int)
    requires
        0 <= num <= more,
        denom > 0,
    ensures
        delay_of(num, denom) <= delay_of(more, denom),
{
    assert((num + denom - 1) / denom <= (more + denom - 1) / denom) by (nonlinear_arith)
        requires
            0 <= num <= more,
            denom > 0,
    ;
}

/// What came of asking the decoder for something.
#[derive(Debug, Clone, Copy, PartialEq, Eq, Structural)]
pub enum DecoderEvent {
    /// The file was opened and has frames.
    Opened,
    /// The file has no frames to play.
    NotAnimated,
    /// A frame was decoded.
    Frame,
    /// There are no more frames.
    End,
    /// Something failed.
    Failed,
}

/// What the worker does next.
#[derive(Debug, Clone, Copy, PartialEq, Eq, Structural)]
pub enum WorkerStep {
    /// Open the file.
    Open,
    /// Decode the next frame.
    Next,
    /// Hand the frame over and wait for a request.
    Deliver,
    /// Say that playing is over, and stop.
    Finish,
}

/// The worker that decodes frames, one for each request.
#[derive(Debug, Clone, Copy, PartialEq, Eq, Structural)]
pub struct Worker {
    /// The file is open.
    pub open: bool,
    /// Frames since it was opened, as far as they matter: two are an animation.
    pub seen_frames: u8,
}

/// What the worker does on a request.
pub open spec fn on_request(w: Worker) -> WorkerStep {
    if w.open {
        WorkerStep::Next
    } else {
        WorkerStep::Open
    }
}

/// The worker after an event, and what it does next. At the end of the frames
/// it starts over, unless there was no more than one.
pub open spec fn worker_after(w: Worker, e: DecoderEvent) -> (Worker, WorkerStep) {
    match e {
        DecoderEvent::Opened => (Worker { open: true, ..w }, WorkerStep::Next),
        DecoderEvent::NotAnimated => (w, WorkerStep::Finish),
        DecoderEvent::Failed => (w, WorkerStep::Finish),
        DecoderEvent::Frame => (
            Worker {
                seen_frames: if w.seen_frames < 2 {
                    (w.seen_frames + 1) as u8
                } else {
                    w.seen_frames
                },
                ..w
            },
            WorkerStep::Deliver,
        ),
        DecoderEvent::End => if w.seen_frames < 2 {
            (w, WorkerStep::Finish)
        } else {
            (Worker { open: false, seen_frames: 0 }, WorkerStep::Open)
        },
    }
}

impl Worker {
    /// A worker before its first request.
    pub fn new() -> (r: Self)
        ensures
            r == (Worker { open: false, seen_frames: 0 }),
    {
        Worker { open: false, seen_frames: 0 }
    }

    /// What the worker does on a request.
    pub fn request(&self) -> (r: WorkerStep)
        ensures
            r == on_request(*self),
    {
        if self.open {
            WorkerStep::Next
        } else {
            WorkerStep::Open
        }
    }

    /// Takes note of an event, and answers what the worker does next.
    pub fn event(&mut self, e: DecoderEvent) -> (r: WorkerStep)
        ensures
            (*final(self), r) == worker_after(*old(self), e),
    {
        match e {
            DecoderEvent::Opened => {
                self.open = true;
                WorkerStep::Next
            },
            DecoderEvent::NotAnimated => WorkerStep::Finish,
            DecoderEvent::Failed => WorkerStep::Finish,
            DecoderEvent::Frame => {
                if self.seen_frames < 2 {
                    self.seen_frames += 1;
                }
                WorkerStep::Deliver
            },
            DecoderEvent::End => {
                if self.seen_frames < 2 {
                    WorkerStep::Finish
                } else {
                    self.open = false;
                    self.seen_frames = 0;
                    WorkerStep::Open
                }
            },
        }
    }
}

/// A file with a single frame is played once and then finished; an animation
/// goes on from its start.
pub proof fn law_a_still_picture_finishes(w: Worker)
    requires
        w.seen_frames == 0,
        w.open,
    ensures
        ({
            let one = worker_after(w, DecoderEvent::Frame).0;
            let two = worker_after(one, DecoderEvent::Frame).0;
            &&& worker_after(one, DecoderEvent::End).1 == WorkerStep::Finish
            &&& worker_after(two, DecoderEvent::End).1 == WorkerStep::Open
            &&& on_request(worker_after(two, DecoderEvent::End).0) == WorkerStep::Open
        }),
{
}

/// Whatever the worker saw before, a request opens a file that is closed and
/// then takes its next frame, each frame is handed over, and the worker stops
/// where there is nothing to play or something failed.
pub proof fn law_the_worker_answers_each_event(w: Worker)
    ensures
        !w.open ==> on_request(w) == WorkerStep::Open,
        w.open ==> on_request(w) == WorkerStep::Next,
        worker_after(w, DecoderEvent::Opened).1 == WorkerStep::Next,
        on_request(worker_after(w, DecoderEvent::Opened).0) == WorkerStep::Next,
        worker_after(w, DecoderEvent::Frame).1 == WorkerStep::Deliver,
        worker_after(w, DecoderEvent::Frame).0.open == w.open,
        worker_after(w, DecoderEvent::NotAnimated).1 == WorkerStep::Finish,
        worker_after(w, DecoderEvent::Failed).1 == WorkerStep::Finish,
{
}

/// What the player is waiting for. Moments and delays are nanoseconds.
#[derive(Debug, Clone, Copy, PartialEq, Eq, Structural)]
pub struct Player {
    pub next_frame_at: u64,
    /// A frame was asked for and has not come.
    pub loading: bool,
}

/// A message of the worker.
#[derive(Debug, Clone, Copy, PartialEq, Eq, Structural)]
pub enum WorkerMessage {
    /// A frame that stays for so long.
    Frame(u64),
    Finished,
}

/// What the player does after it has taken all messages.
#[derive(Debug, Clone, Copy, PartialEq, Eq, Structural)]
pub enum PlayerStep {
    /// Ask for the next frame.
    Ask,
    /// Look again at once: a frame is on its way.
    Repaint,
    /// Look again after so long.
    RepaintAfter(u64),
}

/// A moment that comes later, or the last one there is.
pub open spec fn later(t: u64, by: u64) -> u64 {
    if t + by > u64::MAX {
        u64::MAX
    } else {
        (t + by) as u64
    }
}

/// The player after a message: a frame stays until its delay is over.
pub open spec fn player_after(p: Player, m: WorkerMessage, now: u64) -> Player {
    match m {
        WorkerMessage::Frame(delay) => Player { next_frame_at: later(now, delay), loading: false },
        WorkerMessage::Finished => Player { loading: false, ..p },
    }
}

/// What the player does once it has taken all messages.
pub open spec fn step_of(p: Player, now: u64) -> PlayerStep {
    if !p.loading && now >= p.next_frame_at {
        PlayerStep::Ask
    } else if p.loading {
        PlayerStep::Repaint
    } else {
        PlayerStep::RepaintAfter((p.next_frame_at - now) as u64)
    }
}

/// A frame that came at one moment is shown for its delay: until then the next
/// one is not asked for, and the player looks again just when the delay is
/// over; from then on it is.
pub proof fn law_a_frame_is_shown_for_its_delay(p: Player, shown_at: u64, delay: u64, now: u64)
    requires
        shown_at + delay <= u64::MAX,
        shown_at <= now,
    ensures
        ({
            let after = player_after(p, WorkerMessage::Frame(delay), shown_at);
            &&& step_of(after, now) is Ask <==> now - shown_at >= delay
            &&& now - shown_at < delay ==> {
                &&& step_of(after, now) is RepaintAfter
                &&& now + step_of(after, now)->RepaintAfter_0 == shown_at + delay
            }
        }),
{
}

/// While a frame is on its way no other is asked for.
pub proof fn law_one_frame_is_asked_for_at_a_time(p: Player, now: u64)
    requires
        p.loading,
    ensures
        step_of(p, now) == PlayerStep::Repaint,
{
}

impl Player {
    /// A player that has asked for its first frame.
    pub fn new(now: u64) -> (r: Self)
        ensures
            r == (Player { next_frame_at: now, loading: true }),
    {
        Player { next_frame_at: now, loading: true }
    }

    /// Takes a message of the worker. Answers whether a frame is to be shown;
    /// otherwise playing is over.
    pub fn message(&mut self, m: WorkerMessage, now: u64) -> (r: bool)
        ensures
            r == (m is Frame),
            *final(self) == player_after(*old(self), m, now),
    {
        self.loading = false;
        match m {
            WorkerMessage::Frame(delay) => {
                self.next_frame_at = if now > u64::MAX - delay {
                    u64::MAX
                } else {
                    now + delay
                };
                true
            },
            WorkerMessage::Finished => false,
        }
    }

    /// What the player does after it has taken all messages. Once it has asked
    /// it is loading.
    pub fn step(&mut self, now: u64) -> (r: PlayerStep)
        ensures
            r == step_of(*old(self), now),
            *final(self) == (Player { loading: old(self).loading || r is Ask, ..*old(self) }),
    {
        if self.loading {
            PlayerStep::Repaint
        } else if now >= self.next_frame_at {
            self.loading = true;
            PlayerStep::Ask
        } else {
            PlayerStep::RepaintAfter(self.next_frame_at - now)
        }
    }
}

} // verus!
