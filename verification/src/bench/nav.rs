//! The keyboard navigation benchmark.
//!
//! It drives the navigation step the way a held key does, one attempt per
//! frame, and measures what a person would feel. The phases of a folder are:
//! settle, until the first picture shows and the window is full; skate right,
//! to the end of the folder, where the pictures fetched during settle are left
//! out of the rate; skate left, back to the start; and tap, single steps at a
//! steady pace.
use vstd::prelude::*;

use crate::bench::phase;
use crate::bench::phase::{PhaseStats, PhaseView};
use crate::bench::stats;
use crate::bench::stats::{elapsed, LatencyStats};

verus! {

/// The steps of the tap phase where none are asked for.
pub const DEFAULT_TAP_STEPS: usize = 200;

/// A skate or tap phase with no progress for longer than this is given up.
pub const NO_PROGRESS_TIMEOUT: u64 = 10_000_000_000;

/// Settle gives the decode threads longer.
pub const SETTLE_TIMEOUT: u64 = 60_000_000_000;

/// What one attempt to step did.
#[derive(Debug, Clone, Copy, PartialEq, Eq, Structural)]
pub struct NavOutcome {
    /// The next picture is on screen.
    pub advanced: bool,
    /// The next picture was not ready.
    pub blocked: bool,
    /// There is no next picture.
    pub at_end: bool,
}

#[derive(Debug, Clone, Copy, PartialEq, Eq, Structural)]
pub enum Phase {
    Settle,
    SkateRight,
    SkateLeft,
    Tap,
    Done,
}

/// What to do in a frame.
#[derive(Debug, Clone, Copy, PartialEq, Eq, Structural)]
pub enum Drive {
    /// Look whether the window has settled.
    Settle,
    /// Try one step: 1 to the right, -1 to the left.
    Step(isize),
    /// Nothing is due.
    Idle,
    Done,
}

/// A phase that has just ended.
#[derive(Debug, Clone, Copy, PartialEq, Eq, Structural)]
pub struct PhaseEnd(pub Phase);

/// The way that a skate goes.
#[derive(Debug, Clone, Copy, PartialEq, Eq, Structural)]
pub enum Direction {
    Right,
    Left,
}

impl Direction {
    /// The name of the direction.
    pub open spec fn name(self) -> Seq<char> {
        match self {
            Direction::Right => "right"@,
            Direction::Left => "left"@,
        }
    }

    /// The name of the direction.
    pub fn label(self) -> (r: &'static str)
        ensures
            r@ == self.name(),
    {
        match self {
            Direction::Right => "right",
            Direction::Left => "left",
        }
    }
}

/// One pass through the folder with the key held.
pub struct SkateRun {
    pub stats: PhaseStats,
    pub dir: Direction,
    /// Advances left out of the rate.
    pub skip: usize,
    /// The pass ends after as many advances, even if the folder goes on.
    pub max_advances: Option<usize>,
    pub advances: usize,
    /// When the rate starts to count.
    pub rate_start: Option<u64>,
    pub last_advance: u64,
    /// Frames, and frames that moved nothing, since the rate counts.
    pub frames_counted: usize,
    pub stall_frames: usize,
}

/// What is known about a skate.
#[verifier::ext_equal]
pub struct SkateView {
    pub stats: PhaseView,
    pub dir: Direction,
    pub skip: int,
    pub max_advances: Option<usize>,
    pub advances: int,
    pub rate_start: Option<u64>,
    pub last_advance: u64,
    pub frames_counted: int,
    pub stall_frames: int,
}

impl View for SkateRun {
    type V = SkateView;

    open spec fn view(&self) -> SkateView {
        SkateView {
            stats: self.stats@,
            dir: self.dir,
            skip: self.skip as int,
            max_advances: self.max_advances,
            advances: self.advances as int,
            rate_start: self.rate_start,
            last_advance: self.last_advance,
            frames_counted: self.frames_counted as int,
            stall_frames: self.stall_frames as int,
        }
    }
}

/// A skate at its start. With nothing to leave out, the rate counts at once.
pub open spec fn new_skate(
    now: u64,
    cpu: Option<u64>,
    dir: Direction,
    skip: int,
    max_advances: Option<usize>,
) -> SkateView {
    SkateView {
        stats: phase::started_phase(now, cpu),
        dir,
        skip,
        max_advances,
        advances: 0,
        rate_start: if skip == 0 {
            Some(now)
        } else {
            None
        },
        last_advance: now,
        frames_counted: 0,
        stall_frames: 0,
    }
}

/// A skate after the counts of a frame: frames and stalls count once the rate
/// does, and the advance that completes the skipped ones starts it.
pub open spec fn skate_counted(s: SkateView, now: u64, outcome: NavOutcome) -> SkateView {
    let counts = s.rate_start is Some;
    let advances = s.advances + if outcome.advanced {
        1int
    } else {
        0
    };
    SkateView {
        stats: PhaseView { frames: phase::ticked(s.stats.frames, now), ..s.stats },
        frames_counted: s.frames_counted + if counts {
            1int
        } else {
            0
        },
        stall_frames: s.stall_frames + if counts && outcome.blocked {
            1int
        } else {
            0
        },
        advances,
        last_advance: if outcome.advanced {
            now
        } else {
            s.last_advance
        },
        rate_start: if outcome.advanced && advances == s.skip {
            Some(now)
        } else {
            s.rate_start
        },
        ..s
    }
}

/// Whether a skate has arrived: at the end of the folder, or at its limit.
pub open spec fn skate_arrived(s: SkateView, outcome: NavOutcome) -> bool {
    outcome.at_end || match s.max_advances {
        Some(max) => s.advances >= max,
        None => false,
    }
}

/// Whether a skate is given up.
pub open spec fn skate_stuck(s: SkateView, now: u64) -> bool {
    stats::elapsed_of(now, s.last_advance) > NO_PROGRESS_TIMEOUT
}

/// A skate after a frame, and whether it is over.
pub open spec fn skate_ticked(s: SkateView, now: u64, cpu: Option<u64>, outcome: NavOutcome) -> (
    SkateView,
    bool,
) {
    let counted = skate_counted(s, now, outcome);
    if skate_arrived(counted, outcome) {
        (SkateView { stats: phase::ended_phase(counted.stats, now, cpu), ..counted }, true)
    } else if skate_stuck(counted, now) {
        (
            SkateView {
                stats: PhaseView {
                    timed_out: true,
                    ..phase::ended_phase(counted.stats, now, cpu)
                },
                ..counted
            },
            true,
        )
    } else {
        (counted, false)
    }
}

/// What a skate measured.
#[derive(Debug, Clone, Copy, PartialEq, Eq, Structural)]
pub struct SkateReport {
    pub direction: Direction,
    /// Pictures shown and counted in the rate.
    pub images: usize,
    /// Pictures shown but left out of the rate.
    pub skipped_images: usize,
    pub wall: u64,
    /// The time that the rate is measured over; nothing where no picture
    /// counts.
    pub rate_time: u64,
    pub frames: usize,
    pub stall_frames: usize,
    pub frame_times: LatencyStats,
    pub decode_times: LatencyStats,
    pub cpu: Option<u64>,
    pub peak_rss_bytes: u64,
    pub peak_gpu_bytes: u64,
    pub timed_out: bool,
}

/// What a skate measured.
pub open spec fn skate_report(s: SkateView) -> SkateReport {
    let counted = if s.advances > s.skip {
        s.advances - s.skip
    } else {
        0
    };
    SkateReport {
        direction: s.dir,
        images: counted as usize,
        skipped_images: (if s.advances < s.skip {
            s.advances
        } else {
            s.skip
        }) as usize,
        wall: phase::wall_of(s.stats),
        rate_time: match s.rate_start {
            Some(start) => if counted > 0 {
                stats::elapsed_of(s.last_advance, start) as u64
            } else {
                0
            },
            None => 0,
        },
        frames: s.frames_counted as usize,
        stall_frames: s.stall_frames as usize,
        frame_times: stats::stats_of(s.stats.frames.deltas),
        decode_times: stats::stats_of(s.stats.decode_times),
        cpu: s.stats.cpu,
        peak_rss_bytes: s.stats.peak_rss_bytes,
        peak_gpu_bytes: s.stats.peak_gpu_bytes,
        timed_out: s.stats.timed_out,
    }
}

/// No count of a skate is at the end of its range.
pub open spec fn skate_has_room(s: SkateView) -> bool {
    s.advances < usize::MAX && s.frames_counted < usize::MAX && s.stall_frames < usize::MAX
}

impl SkateRun {

    /// Starts a pass.
    pub fn new(
        now: u64,
        cpu: Option<u64>,
        dir: Direction,
        skip: usize,
        max_advances: Option<usize>,
    ) -> (r: Self)
        ensures
            r@ == new_skate(now, cpu, dir, skip as int, max_advances),
    {
        SkateRun {
            stats: PhaseStats::start(now, cpu),
            dir,
            skip,
            max_advances,
            advances: 0,
            rate_start: if skip == 0 {
                Some(now)
            } else {
                None
            },
            last_advance: now,
            frames_counted: 0,
            stall_frames: 0,
        }
    }

    /// Takes the outcome of a frame. Answers whether the pass is over.
    pub fn tick(&mut self, now: u64, cpu: Option<u64>, outcome: NavOutcome) -> (over: bool)
        requires
            skate_has_room(old(self)@),
        ensures
            (final(self)@, over) == skate_ticked(old(self)@, now, cpu, outcome),
    {
        self.stats.tick_frame(now);
        if self.rate_start.is_some() {
            self.frames_counted += 1;
            if outcome.blocked {
                self.stall_frames += 1;
            }
        }
        if outcome.advanced {
            self.advances += 1;
            self.last_advance = now;
            if self.advances == self.skip {
                self.rate_start = Some(now);
            }
        }
        assert(self@ =~= skate_counted(old(self)@, now, outcome));
        let capped = match self.max_advances {
            Some(max) => self.advances >= max,
            None => false,
        };
        if outcome.at_end || capped {
            self.stats.end(now, cpu);
            return true;
        }
        if elapsed(now, self.last_advance) > NO_PROGRESS_TIMEOUT {
            self.stats.timed_out = true;
            self.stats.end(now, cpu);
            return true;
        }
        false
    }

    /// What the pass measured.
    pub fn report(&self) -> (r: SkateReport)
        ensures
            r == skate_report(self@),
    {
        let counted: usize = if self.advances > self.skip {
            self.advances - self.skip
        } else {
            0
        };
        SkateReport {
            direction: self.dir,
            images: counted,
            skipped_images: if self.advances < self.skip {
                self.advances
            } else {
                self.skip
            },
            wall: self.stats.wall(),
            rate_time: match self.rate_start {
                Some(start) => if counted > 0 {
                    elapsed(self.last_advance, start)
                } else {
                    0
                },
                None => 0,
            },
            frames: self.frames_counted,
            stall_frames: self.stall_frames,
            frame_times: self.stats.frame_stats(),
            decode_times: self.stats.decode_stats(),
            cpu: self.stats.cpu,
            peak_rss_bytes: self.stats.peak_rss_bytes,
            peak_gpu_bytes: self.stats.peak_gpu_bytes,
            timed_out: self.stats.timed_out,
        }
    }
}

/// Single steps at a steady pace.
pub struct TapRun {
    pub stats: PhaseStats,
    pub interval: u64,
    pub steps_wanted: usize,
    pub steps_done: usize,
    pub next_due: u64,
    /// When the key was pressed for the picture that has not appeared yet.
    pub pending_since: Option<u64>,
    pub latencies: Vec<u64>,
    pub frames: usize,
    pub stall_frames: usize,
}

/// What is known about the taps.
#[verifier::ext_equal]
pub struct TapView {
    pub stats: PhaseView,
    pub interval: u64,
    pub steps_wanted: int,
    pub steps_done: int,
    pub next_due: u64,
    pub pending_since: Option<u64>,
    pub latencies: Seq<u64>,
    pub frames: int,
    pub stall_frames: int,
}

impl View for TapRun {
    type V = TapView;

    open spec fn view(&self) -> TapView {
        TapView {
            stats: self.stats@,
            interval: self.interval,
            steps_wanted: self.steps_wanted as int,
            steps_done: self.steps_done as int,
            next_due: self.next_due,
            pending_since: self.pending_since,
            latencies: self.latencies@,
            frames: self.frames as int,
            stall_frames: self.stall_frames as int,
        }
    }
}

/// A moment that comes later, or the last one there is.
pub open spec fn later(t: u64, by: u64) -> u64 {
    if t + by > u64::MAX {
        u64::MAX
    } else {
        (t + by) as u64
    }
}

/// The taps at their start: the first one is due at once.
pub open spec fn new_tap(now: u64, cpu: Option<u64>, interval: u64, steps_wanted: int) -> TapView {
    TapView {
        stats: phase::started_phase(now, cpu),
        interval,
        steps_wanted,
        steps_done: 0,
        next_due: now,
        pending_since: None,
        latencies: Seq::empty(),
        frames: 0,
        stall_frames: 0,
    }
}

/// Whether a step is due: while a picture is awaited, or when its time has
/// come.
pub open spec fn tap_due(t: TapView, now: u64) -> bool {
    t.pending_since is Some || now >= t.next_due
}

/// The taps after a frame without a step.
pub open spec fn tap_idled(t: TapView, now: u64) -> TapView {
    TapView {
        stats: PhaseView { frames: phase::ticked(t.stats.frames, now), ..t.stats },
        frames: t.frames + 1,
        ..t
    }
}

/// The taps after a key press. A new press moves the schedule on by one
/// interval, whenever the picture before it appeared.
pub open spec fn tap_pressed(t: TapView, now: u64) -> TapView {
    match t.pending_since {
        Some(_) => t,
        None => TapView {
            next_due: later(t.next_due, t.interval),
            pending_since: Some(now),
            ..t
        },
    }
}

/// The taps with their phase ended.
pub open spec fn tap_ended(t: TapView, now: u64, cpu: Option<u64>) -> TapView {
    TapView { stats: phase::ended_phase(t.stats, now, cpu), ..t }
}

/// The taps after a frame with a step, and whether they are over.
pub open spec fn tap_ticked(t: TapView, now: u64, cpu: Option<u64>, outcome: NavOutcome) -> (
    TapView,
    bool,
) {
    let t = tap_pressed(tap_idled(t, now), now);
    let waited = stats::elapsed_of(now, t.pending_since->0) as u64;
    if outcome.at_end {
        (tap_ended(t, now, cpu), true)
    } else if outcome.advanced {
        let t = TapView {
            latencies: t.latencies.push(waited),
            steps_done: t.steps_done + 1,
            pending_since: None,
            ..t
        };
        if t.steps_done >= t.steps_wanted {
            (tap_ended(t, now, cpu), true)
        } else {
            (t, false)
        }
    } else if outcome.blocked {
        let t = TapView { stall_frames: t.stall_frames + 1, ..t };
        if waited > NO_PROGRESS_TIMEOUT {
            (
                tap_ended(
                    TapView { stats: PhaseView { timed_out: true, ..t.stats }, ..t },
                    now,
                    cpu,
                ),
                true,
            )
        } else {
            (t, false)
        }
    } else {
        (t, false)
    }
}

/// What the taps measured.
#[derive(Debug, Clone, Copy, PartialEq, Eq, Structural)]
pub struct TapReport {
    pub interval: u64,
    pub steps: usize,
    pub wall: u64,
    /// From the press to the picture.
    pub step_latencies: LatencyStats,
    pub frames: usize,
    pub stall_frames: usize,
    pub frame_times: LatencyStats,
    pub decode_times: LatencyStats,
    pub cpu: Option<u64>,
    pub peak_rss_bytes: u64,
    pub peak_gpu_bytes: u64,
    pub timed_out: bool,
}

/// What the taps measured.
pub open spec fn tap_report(t: TapView) -> TapReport {
    TapReport {
        interval: t.interval,
        steps: t.steps_done as usize,
        wall: phase::wall_of(t.stats),
        step_latencies: stats::stats_of(t.latencies),
        frames: t.frames as usize,
        stall_frames: t.stall_frames as usize,
        frame_times: stats::stats_of(t.stats.frames.deltas),
        decode_times: stats::stats_of(t.stats.decode_times),
        cpu: t.stats.cpu,
        peak_rss_bytes: t.stats.peak_rss_bytes,
        peak_gpu_bytes: t.stats.peak_gpu_bytes,
        timed_out: t.stats.timed_out,
    }
}

/// No count of the taps is at the end of its range.
pub open spec fn tap_has_room(t: TapView) -> bool {
    t.steps_done < usize::MAX && t.frames < usize::MAX && t.stall_frames < usize::MAX
}

impl TapRun {

    /// Starts the taps.
    pub fn new(now: u64, cpu: Option<u64>, interval: u64, steps_wanted: usize) -> (r: Self)
        ensures
            r@ == new_tap(now, cpu, interval, steps_wanted as int),
    {
        TapRun {
            stats: PhaseStats::start(now, cpu),
            interval,
            steps_wanted,
            steps_done: 0,
            next_due: now,
            pending_since: None,
            latencies: Vec::new(),
            frames: 0,
            stall_frames: 0,
        }
    }

    /// Whether a step is due.
    pub fn wants_step(&self, now: u64) -> (r: bool)
        ensures
            r == tap_due(self@, now),
    {
        self.pending_since.is_some() || now >= self.next_due
    }

    /// Takes the outcome of a step. Answers whether the taps are over.
    pub fn tick(&mut self, now: u64, cpu: Option<u64>, outcome: NavOutcome) -> (over: bool)
        requires
            tap_has_room(old(self)@),
        ensures
            (final(self)@, over) == tap_ticked(old(self)@, now, cpu, outcome),
    {
        self.stats.tick_frame(now);
        self.frames += 1;
        let pressed: u64 = match self.pending_since {
            Some(t) => t,
            None => {
                self.next_due = if self.next_due > u64::MAX - self.interval {
                    u64::MAX
                } else {
                    self.next_due + self.interval
                };
                self.pending_since = Some(now);
                now
            },
        };
        assert(self@ =~= tap_pressed(tap_idled(old(self)@, now), now));
        if outcome.at_end {
            self.stats.end(now, cpu);
            return true;
        }
        if outcome.advanced {
            self.latencies.push(elapsed(now, pressed));
            self.steps_done += 1;
            self.pending_since = None;
            if self.steps_done >= self.steps_wanted {
                self.stats.end(now, cpu);
                return true;
            }
        } else if outcome.blocked {
            self.stall_frames += 1;
            if elapsed(now, pressed) > NO_PROGRESS_TIMEOUT {
                self.stats.timed_out = true;
                self.stats.end(now, cpu);
                return true;
            }
        }
        false
    }

    /// Notes a frame without a step.
    pub fn tick_idle(&mut self, now: u64)
        requires
            tap_has_room(old(self)@),
        ensures
            final(self)@ == tap_idled(old(self)@, now),
    {
        self.stats.tick_frame(now);
        self.frames += 1;
    }

    /// What the taps measured.
    pub fn report(&self) -> (r: TapReport)
        ensures
            r == tap_report(self@),
    {
        TapReport {
            interval: self.interval,
            steps: self.steps_done,
            wall: self.stats.wall(),
            step_latencies: LatencyStats::from_samples(&self.latencies),
            frames: self.frames,
            stall_frames: self.stall_frames,
            frame_times: self.stats.frame_stats(),
            decode_times: self.stats.decode_stats(),
            cpu: self.stats.cpu,
            peak_rss_bytes: self.stats.peak_rss_bytes,
            peak_gpu_bytes: self.stats.peak_gpu_bytes,
            timed_out: self.stats.timed_out,
        }
    }
}

/// The keyboard navigation benchmark of one folder.
pub struct NavBench {
    num_images: usize,
    cache_count: usize,
    /// How far each skate goes; the whole folder where it is not said.
    max_images: Option<usize>,
    /// The skate to the left is left out.
    skip_left: bool,
    tap_interval: u64,
    tap_steps: usize,
    run_start: u64,
    phase: Phase,
    settle_first_image: Option<u64>,
    settle_done: Option<u64>,
    settle_timed_out: bool,
    skate_right: Option<SkateRun>,
    skate_left: Option<SkateRun>,
    tap: Option<TapRun>,
}

/// What is known about a benchmark.
#[verifier::ext_equal]
pub struct NavView {
    pub num_images: int,
    pub cache_count: int,
    pub max_images: Option<usize>,
    pub skip_left: bool,
    pub tap_interval: u64,
    pub tap_steps: int,
    pub run_start: u64,
    pub phase: Phase,
    pub settle_first_image: Option<u64>,
    pub settle_done: Option<u64>,
    pub settle_timed_out: bool,
    pub skate_right: Option<SkateView>,
    pub skate_left: Option<SkateView>,
    pub tap: Option<TapView>,
}

/// What is known about a skate, where there is one.
pub open spec fn skate_in(s: Option<SkateRun>) -> Option<SkateView> {
    match s {
        Some(run) => Some(run@),
        None => None,
    }
}

/// What is known about the taps, where there are any.
pub open spec fn tap_in(t: Option<TapRun>) -> Option<TapView> {
    match t {
        Some(run) => Some(run@),
        None => None,
    }
}

impl View for NavBench {
    type V = NavView;

    closed spec fn view(&self) -> NavView {
        NavView {
            num_images: self.num_images as int,
            cache_count: self.cache_count as int,
            max_images: self.max_images,
            skip_left: self.skip_left,
            tap_interval: self.tap_interval,
            tap_steps: self.tap_steps as int,
            run_start: self.run_start,
            phase: self.phase,
            settle_first_image: self.settle_first_image,
            settle_done: self.settle_done,
            settle_timed_out: self.settle_timed_out,
            skate_right: skate_in(self.skate_right),
            skate_left: skate_in(self.skate_left),
            tap: tap_in(self.tap),
        }
    }
}

/// The smaller of two numbers.
pub open spec fn smaller(a: int, b: int) -> int {
    if a <= b {
        a
    } else {
        b
    }
}

/// How many steps a folder has from its first picture to its last.
pub open spec fn last_step(num_images: int) -> int {
    if num_images > 0 {
        num_images - 1
    } else {
        0
    }
}

/// A benchmark before its first frame.
pub open spec fn new_nav(
    num_images: int,
    cache_count: int,
    max_images: Option<usize>,
    tap_interval: u64,
    tap_steps: int,
    run_start: u64,
) -> NavView {
    NavView {
        num_images,
        cache_count,
        max_images: match max_images {
            Some(m) => Some(smaller(m as int, last_step(num_images)) as usize),
            None => None,
        },
        skip_left: false,
        tap_interval,
        tap_steps,
        run_start,
        phase: Phase::Settle,
        settle_first_image: None,
        settle_done: None,
        settle_timed_out: false,
        skate_right: None,
        skate_left: None,
        tap: None,
    }
}

/// What to do in a frame.
pub open spec fn nav_drive(b: NavView, now: u64) -> Drive {
    match b.phase {
        Phase::Settle => Drive::Settle,
        Phase::SkateRight => Drive::Step(1),
        Phase::SkateLeft => Drive::Step((-1) as isize),
        Phase::Tap => if tap_due(b.tap->0, now) {
            Drive::Step(1)
        } else {
            Drive::Idle
        },
        Phase::Done => Drive::Done,
    }
}

/// How many advances of a skate are left out of its rate: those that were
/// fetched before it.
pub open spec fn prefetched(b: NavView) -> int {
    smaller(b.cache_count, b.num_images)
}

/// A benchmark after a frame of the settle phase, and the phase that ended.
/// Settle ends when a picture shows and nothing is in flight, or when it has
/// taken too long.
pub open spec fn nav_settled(
    b: NavView,
    now: u64,
    cpu: Option<u64>,
    has_texture: bool,
    settled: bool,
) -> (NavView, Option<PhaseEnd>) {
    let since = stats::elapsed_of(now, b.run_start) as u64;
    let b = NavView {
        settle_first_image: if has_texture && b.settle_first_image is None {
            Some(since)
        } else {
            b.settle_first_image
        },
        ..b
    };
    let timed_out = since > SETTLE_TIMEOUT;
    if (has_texture && settled) || timed_out {
        (
            NavView {
                settle_timed_out: b.settle_timed_out || timed_out,
                settle_done: if timed_out {
                    b.settle_done
                } else {
                    Some(since)
                },
                phase: Phase::SkateRight,
                skate_right: Some(
                    new_skate(now, cpu, Direction::Right, prefetched(b), b.max_images),
                ),
                ..b
            },
            Some(PhaseEnd(Phase::Settle)),
        )
    } else {
        (b, None)
    }
}

/// How many taps there are.
pub open spec fn taps_of(b: NavView) -> int {
    smaller(b.tap_steps, last_step(b.num_images))
}

/// A benchmark whose skates are over: the taps are next, where there are any.
pub open spec fn after_skates(b: NavView, now: u64, cpu: Option<u64>) -> NavView {
    if taps_of(b) == 0 {
        NavView { phase: Phase::Done, ..b }
    } else {
        NavView {
            phase: Phase::Tap,
            tap: Some(new_tap(now, cpu, b.tap_interval, taps_of(b))),
            ..b
        }
    }
}

/// A benchmark after a step, and the phase that ended. The way back is as
/// long as the way there was.
pub open spec fn nav_stepped(b: NavView, now: u64, cpu: Option<u64>, outcome: NavOutcome) -> (
    NavView,
    Option<PhaseEnd>,
) {
    match b.phase {
        Phase::SkateRight => {
            let (run, over) = skate_ticked(b.skate_right->0, now, cpu, outcome);
            let b = NavView { skate_right: Some(run), ..b };
            if over && b.skip_left {
                (after_skates(b, now, cpu), Some(PhaseEnd(Phase::SkateRight)))
            } else if over {
                (
                    NavView {
                        phase: Phase::SkateLeft,
                        skate_left: Some(
                            new_skate(
                                now,
                                cpu,
                                Direction::Left,
                                prefetched(b),
                                Some(run.advances as usize),
                            ),
                        ),
                        ..b
                    },
                    Some(PhaseEnd(Phase::SkateRight)),
                )
            } else {
                (b, None)
            }
        },
        Phase::SkateLeft => {
            let (run, over) = skate_ticked(b.skate_left->0, now, cpu, outcome);
            let b = NavView { skate_left: Some(run), ..b };
            if over {
                (after_skates(b, now, cpu), Some(PhaseEnd(Phase::SkateLeft)))
            } else {
                (b, None)
            }
        },
        Phase::Tap => {
            let (run, over) = tap_ticked(b.tap->0, now, cpu, outcome);
            let b = NavView { tap: Some(run), ..b };
            if over {
                (NavView { phase: Phase::Done, ..b }, Some(PhaseEnd(Phase::Tap)))
            } else {
                (b, None)
            }
        },
        Phase::Settle => (b, None),
        Phase::Done => (b, None),
    }
}

/// A benchmark with the figures of one phase changed.
pub open spec fn with_stats(
    b: NavView,
    phase: Phase,
    change: spec_fn(PhaseView) -> PhaseView,
) -> NavView {
    match phase {
        Phase::SkateRight => NavView {
            skate_right: match b.skate_right {
                Some(r) => Some(SkateView { stats: change(r.stats), ..r }),
                None => None,
            },
            ..b
        },
        Phase::SkateLeft => NavView {
            skate_left: match b.skate_left {
                Some(r) => Some(SkateView { stats: change(r.stats), ..r }),
                None => None,
            },
            ..b
        },
        Phase::Tap => NavView {
            tap: match b.tap {
                Some(r) => Some(TapView { stats: change(r.stats), ..r }),
                None => None,
            },
            ..b
        },
        Phase::Settle => b,
        Phase::Done => b,
    }
}

/// What the settle phase measured.
#[derive(Debug, Clone, Copy, PartialEq, Eq, Structural)]
pub struct SettleReport {
    /// From the start of the run to the first picture.
    pub first_image: Option<u64>,
    /// From the start of the run to a full window.
    pub settled: Option<u64>,
    pub timed_out: bool,
}

/// What a benchmark measured.
#[derive(Debug, Clone, Copy, PartialEq, Eq, Structural)]
pub struct NavReport {
    pub images: usize,
    pub settle: SettleReport,
    pub skate_right: Option<SkateReport>,
    pub skate_left: Option<SkateReport>,
    pub tap: Option<TapReport>,
}

/// What a benchmark measured.
pub open spec fn nav_report(b: NavView) -> NavReport {
    NavReport {
        images: b.num_images as usize,
        settle: SettleReport {
            first_image: b.settle_first_image,
            settled: b.settle_done,
            timed_out: b.settle_timed_out,
        },
        skate_right: match b.skate_right {
            Some(r) => Some(skate_report(r)),
            None => None,
        },
        skate_left: match b.skate_left {
            Some(r) => Some(skate_report(r)),
            None => None,
        },
        tap: match b.tap {
            Some(r) => Some(tap_report(r)),
            None => None,
        },
    }
}

/// The phase in progress has been started.
pub open spec fn nav_wf(b: NavView) -> bool {
    &&& b.phase == Phase::SkateRight ==> b.skate_right is Some
    &&& b.phase == Phase::SkateLeft ==> b.skate_left is Some
    &&& b.phase == Phase::Tap ==> b.tap is Some
}

impl NavBench {
    /// The phase in progress has been started.
    pub open spec fn wf(&self) -> bool {
        nav_wf(self@)
    }

    /// No count is at the end of its range.
    pub open spec fn has_room(&self) -> bool {
        &&& self@.skate_right matches Some(r) ==> skate_has_room(r)
        &&& self@.skate_left matches Some(r) ==> skate_has_room(r)
        &&& self@.tap matches Some(r) ==> tap_has_room(r)
    }

    /// A benchmark of a folder. `run_start` is when the run began.
    /// `max_images` limits each skate, `tap_steps` the taps; both end with
    /// the folder at the latest. `tap_interval` is the time from tap to tap.
    /// Without taps the run ends with the skates.
    pub fn new(
        num_images: usize,
        cache_count: usize,
        max_images: Option<usize>,
        tap_interval: u64,
        tap_steps: usize,
        run_start: u64,
    ) -> (r: Self)
        ensures
            r.wf(),
            r@ == new_nav(
                num_images as int,
                cache_count as int,
                max_images,
                tap_interval,
                tap_steps as int,
                run_start,
            ),
    {
        let last: usize = if num_images > 0 {
            num_images - 1
        } else {
            0
        };
        NavBench {
            num_images,
            cache_count,
            max_images: match max_images {
                Some(m) => Some(if m <= last {
                    m
                } else {
                    last
                }),
                None => None,
            },
            skip_left: false,
            tap_interval,
            tap_steps,
            run_start,
            phase: Phase::Settle,
            settle_first_image: None,
            settle_done: None,
            settle_timed_out: false,
            skate_right: None,
            skate_left: None,
            tap: None,
        }
    }

    /// The same benchmark without the skate to the left.
    pub fn without_skate_left(self) -> (r: Self)
        requires
            self.wf(),
        ensures
            r.wf(),
            r@ == (NavView { skip_left: true, ..self@ }),
    {
        let mut b = self;
        b.skip_left = true;
        b
    }

    /// The phase in progress.
    pub fn phase(&self) -> (r: Phase)
        ensures
            r == self@.phase,
    {
        self.phase
    }

    /// Whether every phase is over.
    pub fn is_done(&self) -> (r: bool)
        ensures
            r == (self@.phase == Phase::Done),
    {
        self.phase == Phase::Done
    }

    /// What to do in this frame.
    pub fn drive(&self, now: u64) -> (r: Drive)
        requires
            self.wf(),
        ensures
            r == nav_drive(self@, now),
    {
        match self.phase {
            Phase::Settle => Drive::Settle,
            Phase::SkateRight => Drive::Step(1),
            Phase::SkateLeft => Drive::Step(-1),
            Phase::Tap => match &self.tap {
                Some(t) => if t.wants_step(now) {
                    Drive::Step(1)
                } else {
                    Drive::Idle
                },
                None => Drive::Idle,
            },
            Phase::Done => Drive::Done,
        }
    }

    /// A frame of the settle phase: whether a picture shows, and whether the
    /// window has nothing in flight.
    pub fn tick_settle(
        &mut self,
        now: u64,
        cpu: Option<u64>,
        has_texture: bool,
        settled: bool,
    ) -> (r: Option<PhaseEnd>)
        requires
            old(self).wf(),
            old(self)@.phase == Phase::Settle,
        ensures
            final(self).wf(),
            (final(self)@, r) == nav_settled(old(self)@, now, cpu, has_texture, settled),
    {
        let since: u64 = elapsed(now, self.run_start);
        if has_texture && self.settle_first_image.is_none() {
            self.settle_first_image = Some(since);
        }
        let timed_out = since > SETTLE_TIMEOUT;
        if (has_texture && settled) || timed_out {
            if timed_out {
                self.settle_timed_out = true;
            } else {
                self.settle_done = Some(since);
            }
            self.phase = Phase::SkateRight;
            let skip: usize = if self.cache_count <= self.num_images {
                self.cache_count
            } else {
                self.num_images
            };
            self.skate_right = Some(
                SkateRun::new(now, cpu, Direction::Right, skip, self.max_images),
            );
            return Some(PhaseEnd(Phase::Settle));
        }
        None
    }

    /// Goes on to the taps, or to the end where there are none.
    fn start_taps(&mut self, now: u64, cpu: Option<u64>)
        ensures
            final(self)@ == after_skates(old(self)@, now, cpu),
    {
        let last: usize = if self.num_images > 0 {
            self.num_images - 1
        } else {
            0
        };
        let steps: usize = if self.tap_steps <= last {
            self.tap_steps
        } else {
            last
        };
        if steps == 0 {
            self.phase = Phase::Done;
        } else {
            self.phase = Phase::Tap;
            self.tap = Some(TapRun::new(now, cpu, self.tap_interval, steps));
        }
    }

    /// A frame of a skate or of the taps: what the step did.
    pub fn tick_nav(&mut self, now: u64, cpu: Option<u64>, outcome: NavOutcome) -> (r: Option<
        PhaseEnd,
    >)
        requires
            old(self).wf(),
            old(self).has_room(),
        ensures
            final(self).wf(),
            (final(self)@, r) == nav_stepped(old(self)@, now, cpu, outcome),
    {
        let skip: usize = if self.cache_count <= self.num_images {
            self.cache_count
        } else {
            self.num_images
        };
        match self.phase {
            Phase::SkateRight => {
                let mut run = match self.skate_right.take() {
                    Some(run) => run,
                    None => {
                        return None;
                    },
                };
                let over = run.tick(now, cpu, outcome);
                let walked: usize = run.advances;
                self.skate_right = Some(run);
                if over && self.skip_left {
                    self.start_taps(now, cpu);
                    return Some(PhaseEnd(Phase::SkateRight));
                }
                if over {
                    self.phase = Phase::SkateLeft;
                    self.skate_left = Some(
                        SkateRun::new(now, cpu, Direction::Left, skip, Some(walked)),
                    );
                    return Some(PhaseEnd(Phase::SkateRight));
                }
                None
            },
            Phase::SkateLeft => {
                let mut run = match self.skate_left.take() {
                    Some(run) => run,
                    None => {
                        return None;
                    },
                };
                let over = run.tick(now, cpu, outcome);
                self.skate_left = Some(run);
                if over {
                    self.start_taps(now, cpu);
                    return Some(PhaseEnd(Phase::SkateLeft));
                }
                None
            },
            Phase::Tap => {
                let mut run = match self.tap.take() {
                    Some(run) => run,
                    None => {
                        return None;
                    },
                };
                let over = run.tick(now, cpu, outcome);
                self.tap = Some(run);
                if over {
                    self.phase = Phase::Done;
                    return Some(PhaseEnd(Phase::Tap));
                }
                None
            },
            Phase::Settle => None,
            Phase::Done => None,
        }
    }

    /// A frame of the taps with no step due.
    pub fn tick_idle(&mut self, now: u64)
        requires
            old(self).wf(),
            old(self).has_room(),
        ensures
            final(self).wf(),
            final(self)@ == (NavView {
                tap: match old(self)@.tap {
                    Some(t) => Some(tap_idled(t, now)),
                    None => None,
                },
                ..old(self)@
            }),
    {
        if let Some(mut run) = self.tap.take() {
            run.tick_idle(now);
            self.tap = Some(run);
        }
    }

    /// A reading of the memory, kept as peaks of the phase in progress.
    pub fn observe_memory(&mut self, rss_bytes: u64, gpu_bytes: u64)
        requires
            old(self).wf(),
        ensures
            final(self).wf(),
            final(self)@ == with_stats(
                old(self)@,
                old(self)@.phase,
                |p: PhaseView| phase::observed_phase(p, rss_bytes, gpu_bytes),
            ),
    {
        match self.phase {
            Phase::SkateRight => {
                if let Some(mut run) = self.skate_right.take() {
                    run.stats.observe_memory(rss_bytes, gpu_bytes);
                    self.skate_right = Some(run);
                }
            },
            Phase::SkateLeft => {
                if let Some(mut run) = self.skate_left.take() {
                    run.stats.observe_memory(rss_bytes, gpu_bytes);
                    self.skate_left = Some(run);
                }
            },
            Phase::Tap => {
                if let Some(mut run) = self.tap.take() {
                    run.stats.observe_memory(rss_bytes, gpu_bytes);
                    self.tap = Some(run);
                }
            },
            Phase::Settle => {},
            Phase::Done => {},
        }
    }

    /// The background decode times of a phase that ended. Settle's are the
    /// first fill of the window and are dropped.
    pub fn set_decode_samples(&mut self, phase: Phase, samples: Vec<u64>)
        requires
            old(self).wf(),
        ensures
            final(self).wf(),
            final(self)@ == with_stats(
                old(self)@,
                phase,
                |p: PhaseView| PhaseView { decode_times: samples@, ..p },
            ),
    {
        match phase {
            Phase::SkateRight => {
                if let Some(mut run) = self.skate_right.take() {
                    run.stats.decode_times = samples;
                    self.skate_right = Some(run);
                }
            },
            Phase::SkateLeft => {
                if let Some(mut run) = self.skate_left.take() {
                    run.stats.decode_times = samples;
                    self.skate_left = Some(run);
                }
            },
            Phase::Tap => {
                if let Some(mut run) = self.tap.take() {
                    run.stats.decode_times = samples;
                    self.tap = Some(run);
                }
            },
            Phase::Settle => {},
            Phase::Done => {},
        }
    }

    /// What the benchmark measured.
    pub fn report(&self) -> (r: NavReport)
        ensures
            r == nav_report(self@),
    {
        NavReport {
            images: self.num_images,
            settle: SettleReport {
                first_image: self.settle_first_image,
                settled: self.settle_done,
                timed_out: self.settle_timed_out,
            },
            skate_right: match &self.skate_right {
                Some(r) => Some(r.report()),
                None => None,
            },
            skate_left: match &self.skate_left {
                Some(r) => Some(r.report()),
                None => None,
            },
            tap: match &self.tap {
                Some(r) => Some(r.report()),
                None => None,
            },
        }
    }
}

/// The place of a phase in the run.
pub open spec fn place_of(p: Phase) -> int {
    match p {
        Phase::Settle => 0,
        Phase::SkateRight => 1,
        Phase::SkateLeft => 2,
        Phase::Tap => 3,
        Phase::Done => 4,
    }
}

/// Whether a phase is left out: the skate to the left where it is asked for,
/// and the taps where there are none.
pub open spec fn is_left_out(b: NavView, p: Phase) -> bool {
    match p {
        Phase::SkateLeft => b.skip_left,
        Phase::Tap => taps_of(b) == 0,
        _ => false,
    }
}

/// A step ends the phase in progress and starts the next one that is not left
/// out, or it leaves the phase as it is; it never goes back.
pub proof fn law_phases_go_in_order(b: NavView, now: u64, cpu: Option<u64>, outcome: NavOutcome)
    requires
        nav_wf(b),
    ensures
        match nav_stepped(b, now, cpu, outcome).1 {
            Some(end) => {
                let next = nav_stepped(b, now, cpu, outcome).0.phase;
                &&& end.0 == b.phase
                &&& place_of(b.phase) < place_of(next)
                &&& !is_left_out(b, next)
                &&& forall|p: Phase|
                    place_of(b.phase) < #[trigger] place_of(p) < place_of(next) ==> is_left_out(b, p)
            },
            None => nav_stepped(b, now, cpu, outcome).0.phase == b.phase,
        },
        nav_wf(nav_stepped(b, now, cpu, outcome).0),
{
}

/// The pass to the left goes as far as the pass to the right went, and stops
/// there without seeing the start of the folder.
pub proof fn law_the_way_back_is_as_long(b: NavView, now: u64, cpu: Option<u64>, outcome: NavOutcome)
    requires
        nav_wf(b),
        b.phase == Phase::SkateRight,
        !b.skip_left,
        0 <= b.skate_right->0.advances < usize::MAX,
        nav_stepped(b, now, cpu, outcome).1 is Some,
    ensures
        ({
            let after = nav_stepped(b, now, cpu, outcome).0;
            &&& after.skate_left->0.max_advances == Some(after.skate_right->0.advances as usize)
            &&& after.skate_left->0.advances == 0
        }),
{
}

/// A skate that makes no progress for longer than the timeout is over.
pub proof fn law_a_stuck_skate_ends(s: SkateView, now: u64, cpu: Option<u64>, outcome: NavOutcome)
    requires
        !outcome.advanced,
        stats::elapsed_of(now, s.last_advance) > NO_PROGRESS_TIMEOUT,
    ensures
        skate_ticked(s, now, cpu, outcome).1,
{
}

/// A skate is over at the end of the folder, at its limit, or after more than ten
/// seconds without an advance, and only then. Only in the last case was it given
/// up.
pub proof fn law_when_a_skate_is_over(s: SkateView, now: u64, cpu: Option<u64>, outcome: NavOutcome)
    requires
        !s.stats.timed_out,
        s.last_advance <= now,
    ensures
        ({
            let (after, over) = skate_ticked(s, now, cpu, outcome);
            let arrived = outcome.at_end || (s.max_advances matches Some(max) && after.advances >= max);
            let stuck = !outcome.advanced && now - s.last_advance > 10_000_000_000;
            &&& over <==> arrived || stuck
            &&& after.stats.timed_out <==> stuck && !arrived
            &&& over ==> after.stats.ended == Some(now)
        }),
{
}

/// Each advance counts once, and so does each frame and each frame that was
/// blocked, from the advance on that completes those that are left out.
pub proof fn law_what_a_skate_counts(s: SkateView, now: u64, cpu: Option<u64>, outcome: NavOutcome)
    ensures
        ({
            let (after, over) = skate_ticked(s, now, cpu, outcome);
            &&& after.advances == s.advances + if outcome.advanced { 1int } else { 0 }
            &&& outcome.advanced ==> after.last_advance == now
            &&& !outcome.advanced ==> after.last_advance == s.last_advance
            &&& s.rate_start is Some ==> after.frames_counted == s.frames_counted + 1
            &&& s.rate_start is None ==> after.frames_counted == s.frames_counted && after.stall_frames
                == s.stall_frames
            &&& s.rate_start is Some && outcome.blocked ==> after.stall_frames == s.stall_frames + 1
            &&& !outcome.blocked ==> after.stall_frames == s.stall_frames
            &&& outcome.advanced && s.advances + 1 == s.skip ==> after.rate_start == Some(now)
            &&& !(outcome.advanced && s.advances + 1 == s.skip) ==> after.rate_start == s.rate_start
            &&& after.stats.frames == phase::ticked(s.stats.frames, now)
        }),
{
}

/// The rate leaves out what was fetched before the skate: the pictures behind it
/// count, over the time from the advance that completed it to the last one.
pub proof fn law_the_rate_of_a_skate(s: SkateView, start: u64)
    requires
        0 <= s.advances <= usize::MAX,
        0 <= s.skip <= usize::MAX,
        s.rate_start == Some(start),
        start <= s.last_advance,
    ensures
        ({
            let r = skate_report(s);
            &&& r.images + r.skipped_images == s.advances
            &&& s.advances >= s.skip ==> r.skipped_images == s.skip
            &&& s.advances > s.skip ==> start + r.rate_time == s.last_advance
            &&& s.advances <= s.skip ==> r.images == 0 && r.rate_time == 0
            &&& r.direction == s.dir
            &&& r.timed_out == s.stats.timed_out
        }),
{
}

/// A press waits for its picture, and its latency is the time until the picture
/// is there. The next press is due one interval after this one was, whenever its
/// picture came.
pub proof fn law_the_latency_of_a_tap(t: TapView, pressed: u64, shown: u64, cpu: Option<u64>, outcome: NavOutcome)
    requires
        t.pending_since is None,
        t.next_due <= pressed <= shown,
        t.next_due + t.interval <= u64::MAX,
        outcome.blocked,
        !outcome.advanced,
        !outcome.at_end,
    ensures
        tap_due(t, pressed),
        ({
            let waiting = tap_ticked(t, pressed, cpu, outcome).0;
            let there = NavOutcome { advanced: true, blocked: false, at_end: false };
            let (after, over) = tap_ticked(waiting, shown, cpu, there);
            &&& waiting.pending_since == Some(pressed)
            &&& waiting.next_due == t.next_due + t.interval
            &&& waiting.stall_frames == t.stall_frames + 1
            &&& tap_due(waiting, shown)
            &&& after.latencies == t.latencies.push((shown - pressed) as u64)
            &&& after.steps_done == t.steps_done + 1
            &&& after.next_due == t.next_due + t.interval
            &&& after.pending_since is None
            &&& over <==> t.steps_done + 1 >= t.steps_wanted
        }),
{
}

/// The taps are over at the end of the folder and, given up, after a wait of more
/// than ten seconds; before its time no step is due.
pub proof fn law_when_taps_end_early(t: TapView, now: u64, cpu: Option<u64>, outcome: NavOutcome, since: u64)
    requires
        t.pending_since == Some(since),
        since <= now,
        !t.stats.timed_out,
        !outcome.advanced,
    ensures
        outcome.at_end ==> tap_ticked(t, now, cpu, outcome).1 && !tap_ticked(t, now, cpu, outcome).0.stats.timed_out,
        !outcome.at_end && outcome.blocked ==> (tap_ticked(t, now, cpu, outcome).1 <==> now - since > 10_000_000_000)
            && (tap_ticked(t, now, cpu, outcome).0.stats.timed_out <==> now - since > 10_000_000_000),
        tap_due(TapView { pending_since: None, ..t }, now) <==> now >= t.next_due,
{
}

/// The settle phase is over once a picture shows and the window is full, or after
/// more than a minute; the time of the first picture is noted once.
pub proof fn law_when_a_run_has_settled(b: NavView, now: u64, cpu: Option<u64>, has_texture: bool, settled: bool)
    requires
        b.phase == Phase::Settle,
        b.run_start <= now,
    ensures
        ({
            let (after, end) = nav_settled(b, now, cpu, has_texture, settled);
            let late = now - b.run_start > 60_000_000_000;
            &&& end is Some <==> (has_texture && settled) || late
            &&& end is Some ==> after.phase == Phase::SkateRight
            &&& end is None ==> after.phase == Phase::Settle
            &&& has_texture && b.settle_first_image is None ==> after.settle_first_image == Some(
                (now - b.run_start) as u64,
            )
            &&& b.settle_first_image is Some ==> after.settle_first_image == b.settle_first_image
            &&& has_texture && settled && !late ==> after.settle_done == Some((now - b.run_start) as u64)
            &&& late ==> after.settle_timed_out
            &&& end is Some ==> (after.skate_right matches Some(s) && s.dir == Direction::Right && s.advances == 0
                && s.last_advance == now && s.max_advances == b.max_images && s.skip == smaller(
                b.cache_count,
                b.num_images,
            ))
        }),
{
}

/// A skate to the right steps to the right in each frame, one to the left to the
/// left, and the taps to the right when one is due.
pub proof fn law_what_a_frame_does(b: NavView, now: u64)
    requires
        nav_wf(b),
    ensures
        b.phase == Phase::Settle ==> nav_drive(b, now) == Drive::Settle,
        b.phase == Phase::SkateRight ==> nav_drive(b, now) == Drive::Step(1),
        b.phase == Phase::SkateLeft ==> (nav_drive(b, now) matches Drive::Step(d) && d == -1),
        b.phase == Phase::Tap && (b.tap->0.pending_since is Some || now >= b.tap->0.next_due) ==> nav_drive(b, now)
            == Drive::Step(1),
        b.phase == Phase::Tap && b.tap->0.pending_since is None && now < b.tap->0.next_due ==> nav_drive(b, now)
            == Drive::Idle,
        b.phase == Phase::Done ==> nav_drive(b, now) == Drive::Done,
{
}

/// A limit never goes past the folder, and there are no more taps than the folder
/// has steps.
pub proof fn law_runs_stay_in_the_folder(num_images: int, cache_count: int, max: usize, interval: u64, taps: int, start: u64)
    requires
        1 <= num_images <= usize::MAX,
        0 <= taps,
    ensures
        ({
            let b = new_nav(num_images, cache_count, Some(max), interval, taps, start);
            &&& b.max_images matches Some(m) && m <= max && m <= num_images - 1 && (m == max || m == num_images - 1)
            &&& taps_of(b) <= taps && taps_of(b) <= num_images - 1 && (taps_of(b) == taps || taps_of(b) == num_images
                - 1)
            &&& new_nav(num_images, cache_count, None, interval, taps, start).max_images is None
            &&& b.phase == Phase::Settle
        }),
{
}

/// A run reports each of its phases, and none that did not run; the taps with as
/// many latencies as there were steps with a picture.
pub proof fn law_what_a_run_reports(b: NavView)
    ensures
        ({
            let r = nav_report(b);
            &&& r.skate_right is Some <==> b.skate_right is Some
            &&& r.skate_left is Some <==> b.skate_left is Some
            &&& r.tap is Some <==> b.tap is Some
            &&& b.skate_right matches Some(s) ==> r.skate_right->0.direction == s.dir
            &&& b.skate_left matches Some(s) ==> r.skate_left->0.direction == s.dir
            &&& b.tap matches Some(t) ==> r.tap->0.step_latencies == stats::stats_of(t.latencies) && r.tap->0.interval
                == t.interval && r.tap->0.frame_times == stats::stats_of(t.stats.frames.deltas) && r.tap->0.timed_out
                == t.stats.timed_out
            &&& b.tap matches Some(t) ==> (0 <= t.steps_done <= usize::MAX ==> r.tap->0.steps == t.steps_done)
            &&& r.settle.first_image == b.settle_first_image
            &&& r.settle.settled == b.settle_done
            &&& r.settle.timed_out == b.settle_timed_out
        }),
{
}

} // verus!
