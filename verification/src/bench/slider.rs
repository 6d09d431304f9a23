//! The slider navigation benchmark.
//!
//! It moves the handle of the navigation slider the way people do. The sweep
//! goes from the first picture to the last and back. The scrub goes to and fro
//! around evenly spaced anchors. The jump clicks on positions spread over the
//! whole rail, far apart from one to the next. Every release is followed by a
//! wait for the window to refill, and every jump by a wait for its picture.
use vstd::prelude::*;

use crate::bench::phase;
use crate::bench::phase::{PhaseStats, PhaseView};
use crate::bench::single;
use crate::bench::single::{rounded, share_parts};
use crate::bench::stats;
use crate::bench::stats::{elapsed, scrambled_order, LatencyStats};

verus! {

/// A wait for longer than this is given up.
pub const WAIT_TIMEOUT: u64 = 10_000_000_000;

/// Settle gives the decode threads longer.
pub const SETTLE_TIMEOUT: u64 = 60_000_000_000;

/// The shortest that a sweep or a scrub takes.
pub const MIN_GESTURE_TIME: u64 = 100_000_000;

/// A part of the rail, from 0 at its start to 1 at its end.
#[derive(Debug, Clone, Copy, PartialEq, Eq, Structural)]
pub struct Share {
    pub num: u64,
    pub denom: u64,
}

/// A share is at most the whole.
pub open spec fn is_share(s: Share) -> bool {
    s.num <= s.denom && s.denom > 0
}

/// Where the handle is held.
#[derive(Debug, Clone, Copy, PartialEq, Eq, Structural)]
pub enum Spot {
    At(Share),
    /// To one side of an anchor: `swing` over `full` of the widest way.
    Around { anchor: Share, swing: i128, full: u64 },
}

/// What stands in for the pointer in a frame.
#[derive(Debug, Clone, Copy, PartialEq, Eq, Structural)]
pub struct BenchDrag {
    pub spot: Spot,
    /// The pointer is let go in this frame.
    pub released: bool,
}

/// What the application saw in a frame.
#[derive(Debug, Clone, Copy, PartialEq, Eq, Structural)]
pub struct SliderFrame {
    /// The slider points to another picture than before.
    pub target_changed: bool,
    /// A picture was put on screen.
    pub shown: bool,
    pub current_index: usize,
    pub has_texture: bool,
    /// The window is full and nothing is being decoded.
    pub settled: bool,
}

#[derive(Debug, Clone, Copy, PartialEq, Eq, Structural)]
pub enum Phase {
    Settle,
    Sweep,
    Scrub,
    Jump,
    Done,
}

/// A phase that has just ended.
#[derive(Debug, Clone, Copy, PartialEq, Eq, Structural)]
pub struct PhaseEnd(pub Phase);

/// How long one load on the main thread took, step by step.
#[derive(Debug, Clone, Copy, PartialEq, Eq, Structural)]
pub struct SyncLoadTiming {
    pub decode: u64,
    pub convert: u64,
    pub upload: u64,
}

/// A step of a load, or the whole of it.
#[derive(Debug, Clone, Copy, PartialEq, Eq, Structural)]
pub enum LoadPart {
    Decode,
    Convert,
    Upload,
    Total,
}

/// A sum of times, or the longest one there is.
pub open spec fn time_sum(a: int, b: int, c: int) -> u64 {
    if a + b + c > u64::MAX {
        u64::MAX
    } else {
        (a + b + c) as u64
    }
}

/// How long a part of a load took.
pub open spec fn part_of(t: SyncLoadTiming, part: LoadPart) -> u64 {
    match part {
        LoadPart::Decode => t.decode,
        LoadPart::Convert => t.convert,
        LoadPart::Upload => t.upload,
        LoadPart::Total => time_sum(t.decode as int, t.convert as int, t.upload as int),
    }
}

/// How long a part of each load took.
pub open spec fn parts_of(loads: Seq<SyncLoadTiming>, part: LoadPart) -> Seq<u64> {
    Seq::new(loads.len(), |i: int| part_of(loads[i], part))
}

/// The summary of a part of the loads.
fn part_stats(loads: &Vec<SyncLoadTiming>, part: LoadPart) -> (r: LatencyStats)
    ensures
        r == stats::stats_of(parts_of(loads@, part)),
{
    let mut times: Vec<u64> = Vec::new();
    let mut i: usize = 0;
    while i < loads.len()
        invariant
            i <= loads@.len(),
            times@.len() == i,
            forall|k: int| 0 <= k < i ==> #[trigger] times@[k] == part_of(loads@[k], part),
        decreases loads@.len() - i,
    {
        let t = loads[i];
        times.push(match part {
            LoadPart::Decode => t.decode,
            LoadPart::Convert => t.convert,
            LoadPart::Upload => t.upload,
            LoadPart::Total => {
                let sum: u128 = t.decode as u128 + t.convert as u128 + t.upload as u128;
                if sum > u64::MAX as u128 {
                    u64::MAX
                } else {
                    sum as u64
                }
            },
        });
        i += 1;
    }
    assert(times@ =~= parts_of(loads@, part));
    LatencyStats::from_samples(&times)
}

/// What is kept about one phase of the slider.
pub struct GestureStats {
    pub core: PhaseStats,
    pub positions: usize,
    pub shown: usize,
    pub releases: usize,
    pub refill_times: Vec<u64>,
    pub jump_times: Vec<u64>,
    pub sync_loads: Vec<SyncLoadTiming>,
    pub lru_hits: usize,
}

/// What is known about one phase of the slider.
#[verifier::ext_equal]
pub struct GestureView {
    pub core: PhaseView,
    pub positions: int,
    pub shown: int,
    pub releases: int,
    pub refill_times: Seq<u64>,
    pub jump_times: Seq<u64>,
    pub sync_loads: Seq<SyncLoadTiming>,
    pub lru_hits: int,
}

impl View for GestureStats {
    type V = GestureView;

    open spec fn view(&self) -> GestureView {
        GestureView {
            core: self.core@,
            positions: self.positions as int,
            shown: self.shown as int,
            releases: self.releases as int,
            refill_times: self.refill_times@,
            jump_times: self.jump_times@,
            sync_loads: self.sync_loads@,
            lru_hits: self.lru_hits as int,
        }
    }
}

/// A phase of the slider at its start.
pub open spec fn new_gestures(now: u64, cpu: Option<u64>) -> GestureView {
    GestureView {
        core: phase::started_phase(now, cpu),
        positions: 0,
        shown: 0,
        releases: 0,
        refill_times: Seq::empty(),
        jump_times: Seq::empty(),
        sync_loads: Seq::empty(),
        lru_hits: 0,
    }
}

/// A phase of the slider after a frame.
pub open spec fn observed(g: GestureView, now: u64, frame: SliderFrame) -> GestureView {
    GestureView {
        core: PhaseView { frames: phase::ticked(g.core.frames, now), ..g.core },
        positions: g.positions + if frame.target_changed {
            1int
        } else {
            0
        },
        shown: g.shown + if frame.shown {
            1int
        } else {
            0
        },
        ..g
    }
}

/// Main-thread loads during one phase.
#[derive(Debug, Clone, Copy, PartialEq, Eq, Structural)]
pub struct SyncStats {
    pub count: usize,
    pub decode: LatencyStats,
    pub convert: LatencyStats,
    pub upload: LatencyStats,
    /// How long the frame was blocked.
    pub total: LatencyStats,
}

/// What one phase of the slider measured.
#[derive(Debug, Clone, Copy, PartialEq, Eq, Structural)]
pub struct SliderPhaseReport {
    pub phase: Phase,
    pub wall: u64,
    /// Positions visited.
    pub positions: usize,
    /// Positions that put a picture on screen.
    pub images_shown: usize,
    pub sync: SyncStats,
    pub lru_hits: usize,
    pub releases: usize,
    /// From a release to a full window.
    pub refill: LatencyStats,
    /// From a click to its picture, where there were clicks.
    pub jump: Option<LatencyStats>,
    pub frame_times: LatencyStats,
    pub decode_times: LatencyStats,
    pub cpu: Option<u64>,
    pub peak_rss_bytes: u64,
    pub peak_gpu_bytes: u64,
    pub timed_out: bool,
}

/// What one phase of the slider measured.
pub open spec fn gesture_report(g: GestureView, phase: Phase) -> SliderPhaseReport {
    SliderPhaseReport {
        phase,
        wall: phase::wall_of(g.core),
        positions: g.positions as usize,
        images_shown: g.shown as usize,
        sync: SyncStats {
            count: g.sync_loads.len() as usize,
            decode: stats::stats_of(parts_of(g.sync_loads, LoadPart::Decode)),
            convert: stats::stats_of(parts_of(g.sync_loads, LoadPart::Convert)),
            upload: stats::stats_of(parts_of(g.sync_loads, LoadPart::Upload)),
            total: stats::stats_of(parts_of(g.sync_loads, LoadPart::Total)),
        },
        lru_hits: g.lru_hits as usize,
        releases: g.releases as usize,
        refill: stats::stats_of(g.refill_times),
        jump: if g.jump_times.len() > 0 {
            Some(stats::stats_of(g.jump_times))
        } else {
            None
        },
        frame_times: stats::stats_of(g.core.frames.deltas),
        decode_times: stats::stats_of(g.core.decode_times),
        cpu: g.core.cpu,
        peak_rss_bytes: g.core.peak_rss_bytes,
        peak_gpu_bytes: g.core.peak_gpu_bytes,
        timed_out: g.core.timed_out,
    }
}

/// No count of a phase is at the end of its range.
pub open spec fn gestures_have_room(g: GestureView) -> bool {
    g.positions < usize::MAX && g.shown < usize::MAX && g.releases < usize::MAX
}

impl GestureStats {
    /// Starts a phase.
    pub fn start(now: u64, cpu: Option<u64>) -> (r: Self)
        ensures
            r@ == new_gestures(now, cpu),
    {
        GestureStats {
            core: PhaseStats::start(now, cpu),
            positions: 0,
            shown: 0,
            releases: 0,
            refill_times: Vec::new(),
            jump_times: Vec::new(),
            sync_loads: Vec::new(),
            lru_hits: 0,
        }
    }

    /// Notes a frame.
    pub fn observe(&mut self, now: u64, frame: &SliderFrame)
        requires
            gestures_have_room(old(self)@),
        ensures
            final(self)@ == observed(old(self)@, now, *frame),
    {
        self.core.tick_frame(now);
        if frame.target_changed {
            self.positions += 1;
        }
        if frame.shown {
            self.shown += 1;
        }
    }

    /// What the phase measured.
    pub fn report(&self, phase: Phase) -> (r: SliderPhaseReport)
        ensures
            r == gesture_report(self@, phase),
    {
        SliderPhaseReport {
            phase,
            wall: self.core.wall(),
            positions: self.positions,
            images_shown: self.shown,
            sync: SyncStats {
                count: self.sync_loads.len(),
                decode: part_stats(&self.sync_loads, LoadPart::Decode),
                convert: part_stats(&self.sync_loads, LoadPart::Convert),
                upload: part_stats(&self.sync_loads, LoadPart::Upload),
                total: part_stats(&self.sync_loads, LoadPart::Total),
            },
            lru_hits: self.lru_hits,
            releases: self.releases,
            refill: LatencyStats::from_samples(&self.refill_times),
            jump: if self.jump_times.len() > 0 {
                Some(LatencyStats::from_samples(&self.jump_times))
            } else {
                None
            },
            frame_times: self.core.frame_stats(),
            decode_times: self.core.decode_stats(),
            cpu: self.core.cpu,
            peak_rss_bytes: self.core.peak_rss_bytes,
            peak_gpu_bytes: self.core.peak_gpu_bytes,
            timed_out: self.core.timed_out,
        }
    }
}

/// The anchors of the scrub: evenly spaced from the first picture to the
/// last, and a single one in the middle.
pub open spec fn anchors_of(k: int) -> Seq<Share> {
    if k == 1 {
        seq![Share { num: 1, denom: 2 }]
    } else {
        Seq::new(k as nat, |i: int| Share { num: i as u64, denom: (k - 1) as u64 })
    }
}

/// The targets of the jumps: the middles of equal parts of the rail, in an
/// order that goes far.
pub open spec fn jump_targets_of(jumps: int) -> Seq<Share> {
    Seq::new(
        jumps as nat,
        |i: int|
            Share {
                num: (2 * stats::scrambled(jumps, i) + 1) as u64,
                denom: (2 * jumps) as u64,
            },
    )
}

/// The anchors of the scrub.
fn scrub_anchors(k: usize) -> (r: Vec<Share>)
    ensures
        r@ == anchors_of(k as int),
{
    let mut anchors: Vec<Share> = Vec::new();
    if k == 1 {
        anchors.push(Share { num: 1, denom: 2 });
        assert(anchors@ =~= anchors_of(1));
        return anchors;
    }
    let mut i: usize = 0;
    while i < k
        invariant
            i <= k,
            k != 1,
            anchors@.len() == i,
            forall|j: int|
                0 <= j < i ==> #[trigger] anchors@[j] == (Share {
                    num: j as u64,
                    denom: (k - 1) as u64,
                }),
        decreases k - i,
    {
        anchors.push(Share { num: i as u64, denom: (k - 1) as u64 });
        i += 1;
    }
    assert(anchors@ =~= anchors_of(k as int));
    anchors
}

/// The targets of the jumps.
fn jump_targets(jumps: usize) -> (r: Vec<Share>)
    requires
        2 * jumps <= u64::MAX,
    ensures
        r@ == jump_targets_of(jumps as int),
{
    let order = scrambled_order(jumps);
    let mut targets: Vec<Share> = Vec::new();
    let mut i: usize = 0;
    while i < jumps
        invariant
            i <= jumps,
            2 * jumps <= u64::MAX,
            order@.len() == jumps,
            forall|j: int|
                0 <= j < jumps ==> #[trigger] order@[j] == stats::scrambled(jumps as int, j),
            targets@.len() == i,
            forall|j: int|
                0 <= j < i ==> #[trigger] targets@[j] == (Share {
                    num: (2 * stats::scrambled(jumps as int, j) + 1) as u64,
                    denom: (2 * jumps) as u64,
                }),
        decreases jumps - i,
    {
        let at: u64 = order[i] as u64;
        targets.push(Share { num: 2 * at + 1, denom: 2 * (jumps as u64) });
        i += 1;
    }
    assert(targets@ =~= jump_targets_of(jumps as int));
    targets
}

/// Anchors and targets are on the rail.
proof fn lemma_shares_are_on_the_rail(k: int, jumps: int)
    requires
        0 <= k <= u64::MAX,
        0 <= 2 * jumps <= u64::MAX,
    ensures
        forall|i: int| 0 <= i < anchors_of(k).len() ==> is_share(#[trigger] anchors_of(k)[i]),
        forall|i: int|
            0 <= i < jump_targets_of(jumps).len() ==> is_share(
                #[trigger] jump_targets_of(jumps)[i],
            ),
{
}

/// Where a gesture is.
#[derive(Debug, Clone, Copy, PartialEq, Eq, Structural)]
pub enum Gesture {
    /// The pointer is down and moves.
    Dragging { since: u64 },
    /// Let go; the window refills.
    Refilling { released_at: u64 },
    /// Clicked; the picture is awaited.
    Landing { clicked_at: u64, target: usize },
}

/// The slider navigation benchmark of one folder.
pub struct SliderBench {
    num_images: usize,
    sweep_time: u64,
    skip_sweep: bool,
    scrub_passes: usize,
    scrub_time: u64,
    scrub_anchors: Vec<Share>,
    jump_targets: Vec<Share>,
    run_start: u64,
    phase: Phase,
    settle_first_image: Option<u64>,
    settle_done: Option<u64>,
    settle_timed_out: bool,
    /// The anchor or the target that the phase is at.
    cursor: usize,
    gesture: Option<Gesture>,
    sweep: Option<GestureStats>,
    scrub: Option<GestureStats>,
    jump: Option<GestureStats>,
}

/// What is known about a benchmark.
#[verifier::ext_equal]
pub struct SliderView {
    pub num_images: int,
    pub sweep_time: u64,
    pub skip_sweep: bool,
    pub scrub_passes: int,
    pub scrub_time: u64,
    pub scrub_anchors: Seq<Share>,
    pub jump_targets: Seq<Share>,
    pub run_start: u64,
    pub phase: Phase,
    pub settle_first_image: Option<u64>,
    pub settle_done: Option<u64>,
    pub settle_timed_out: bool,
    pub cursor: int,
    pub gesture: Option<Gesture>,
    pub sweep: Option<GestureView>,
    pub scrub: Option<GestureView>,
    pub jump: Option<GestureView>,
}

/// What is known about a phase, where it was started.
pub open spec fn gestures_in(g: Option<GestureStats>) -> Option<GestureView> {
    match g {
        Some(s) => Some(s@),
        None => None,
    }
}

impl View for SliderBench {
    type V = SliderView;

    closed spec fn view(&self) -> SliderView {
        SliderView {
            num_images: self.num_images as int,
            sweep_time: self.sweep_time,
            skip_sweep: self.skip_sweep,
            scrub_passes: self.scrub_passes as int,
            scrub_time: self.scrub_time,
            scrub_anchors: self.scrub_anchors@,
            jump_targets: self.jump_targets@,
            run_start: self.run_start,
            phase: self.phase,
            settle_first_image: self.settle_first_image,
            settle_done: self.settle_done,
            settle_timed_out: self.settle_timed_out,
            cursor: self.cursor as int,
            gesture: self.gesture,
            sweep: gestures_in(self.sweep),
            scrub: gestures_in(self.scrub),
            jump: gestures_in(self.jump),
        }
    }
}

/// The larger of two times.
pub open spec fn at_least(t: u64, least: u64) -> u64 {
    if t < least {
        least
    } else {
        t
    }
}

/// A benchmark before its first frame.
pub open spec fn new_slider(
    num_images: int,
    sweep_time: u64,
    skip_sweep: bool,
    anchors: int,
    passes: int,
    scrub_time: u64,
    jumps: int,
    run_start: u64,
) -> SliderView {
    SliderView {
        num_images,
        sweep_time: at_least(sweep_time, MIN_GESTURE_TIME),
        skip_sweep,
        scrub_passes: if passes < 1 {
            1
        } else {
            passes
        },
        scrub_time: at_least(scrub_time, MIN_GESTURE_TIME),
        scrub_anchors: anchors_of(anchors),
        jump_targets: jump_targets_of(jumps),
        run_start,
        phase: Phase::Settle,
        settle_first_image: None,
        settle_done: None,
        settle_timed_out: false,
        cursor: 0,
        gesture: None,
        sweep: None,
        scrub: None,
        jump: None,
    }
}

/// The picture that a position on the rail stands for: the nearest one to the
/// number of the last picture times the position, with the digits that a
/// fraction has.
pub open spec fn index_at(num_images: int, s: Share) -> int {
    if s.num == 0 {
        0
    } else {
        let one = single::two(single::doublings(s.num as int, s.denom as int));
        let parts = single::share_digits(s.num as int, s.denom as int);
        let place = single::single(single::single(num_images - 1) * parts);
        let nearest = (2 * place + one) / (2 * one);
        if nearest > usize::MAX {
            usize::MAX as int
        } else {
            nearest
        }
    }
}

/// The phase after another: the first of those that have something to do.
pub open spec fn phase_after(b: SliderView, phase: Phase) -> Phase {
    if phase == Phase::Settle && !b.skip_sweep {
        Phase::Sweep
    } else if (phase == Phase::Settle || phase == Phase::Sweep) && b.scrub_anchors.len() > 0 {
        Phase::Scrub
    } else if (phase == Phase::Settle || phase == Phase::Sweep || phase == Phase::Scrub)
        && b.jump_targets.len() > 0 {
        Phase::Jump
    } else {
        Phase::Done
    }
}

/// A benchmark that enters the phase after another.
pub open spec fn entered(b: SliderView, phase: Phase, now: u64, cpu: Option<u64>) -> SliderView {
    let next = phase_after(b, phase);
    let fresh = Some(new_gestures(now, cpu));
    SliderView {
        phase: next,
        sweep: if next == Phase::Sweep {
            fresh
        } else {
            b.sweep
        },
        scrub: if next == Phase::Scrub {
            fresh
        } else {
            b.scrub
        },
        jump: if next == Phase::Jump {
            fresh
        } else {
            b.jump
        },
        gesture: if next == Phase::Done {
            None
        } else {
            Some(Gesture::Dragging { since: now })
        },
        ..b
    }
}

/// A benchmark after a frame of the settle phase, and the phase that ended.
pub open spec fn slider_settled(
    b: SliderView,
    now: u64,
    cpu: Option<u64>,
    has_texture: bool,
    settled: bool,
) -> (SliderView, Option<PhaseEnd>) {
    let since = stats::elapsed_of(now, b.run_start) as u64;
    let b = SliderView {
        settle_first_image: if has_texture && b.settle_first_image is None {
            Some(since)
        } else {
            b.settle_first_image
        },
        ..b
    };
    let timed_out = since > SETTLE_TIMEOUT;
    if (has_texture && settled) || timed_out {
        let b = SliderView {
            settle_timed_out: b.settle_timed_out || timed_out,
            settle_done: if timed_out {
                b.settle_done
            } else {
                Some(since)
            },
            ..b
        };
        (entered(b, Phase::Settle, now, cpu), Some(PhaseEnd(Phase::Settle)))
    } else {
        (b, None)
    }
}

/// How far to one side of its anchor a scrub is. Each pass goes from the
/// anchor to one side, to the other, and back.
pub open spec fn swing_of(time: int, passes: int, full: int) -> int {
    let e = (time * passes) % full;
    if time >= full {
        0
    } else if 3 * e < full {
        3 * e
    } else if 3 * e < 2 * full {
        3 * full - 6 * e
    } else {
        3 * e - 3 * full
    }
}

/// What stands in for the pointer, while it is down.
pub open spec fn drag_of(b: SliderView, now: u64) -> Option<BenchDrag> {
    match b.gesture {
        Some(Gesture::Dragging { since }) => {
            let time = stats::elapsed_of(now, since);
            match b.phase {
                Phase::Sweep => {
                    let done = if time < b.sweep_time {
                        time
                    } else {
                        b.sweep_time as int
                    };
                    Some(
                        BenchDrag {
                            spot: Spot::At(
                                Share {
                                    num: (if b.cursor == 0 {
                                        done
                                    } else {
                                        b.sweep_time - done
                                    }) as u64,
                                    denom: b.sweep_time,
                                },
                            ),
                            released: time >= b.sweep_time,
                        },
                    )
                },
                Phase::Scrub => Some(
                    BenchDrag {
                        spot: Spot::Around {
                            anchor: b.scrub_anchors[b.cursor],
                            swing: swing_of(time, b.scrub_passes, b.scrub_time as int) as i128,
                            full: b.scrub_time,
                        },
                        released: time >= b.scrub_time,
                    },
                ),
                Phase::Jump => Some(
                    BenchDrag { spot: Spot::At(b.jump_targets[b.cursor]), released: true },
                ),
                Phase::Settle => None,
                Phase::Done => None,
            }
        },
        _ => None,
    }
}

/// A benchmark with the figures of a phase changed.
pub open spec fn with_stats(
    b: SliderView,
    phase: Phase,
    change: spec_fn(GestureView) -> GestureView,
) -> SliderView {
    let changed = |g: Option<GestureView>|
        match g {
            Some(s) => Some(change(s)),
            None => None,
        };
    match phase {
        Phase::Sweep => SliderView { sweep: changed(b.sweep), ..b },
        Phase::Scrub => SliderView { scrub: changed(b.scrub), ..b },
        Phase::Jump => SliderView { jump: changed(b.jump), ..b },
        Phase::Settle => b,
        Phase::Done => b,
    }
}

/// A benchmark after the pointer was let go.
pub open spec fn let_go(b: SliderView, now: u64) -> SliderView {
    SliderView {
        gesture: Some(
            if b.phase == Phase::Jump {
                Gesture::Landing {
                    clicked_at: now,
                    target: index_at(b.num_images, b.jump_targets[b.cursor]) as usize,
                }
            } else {
                Gesture::Refilling { released_at: now }
            },
        ),
        ..with_stats(b, b.phase, |g: GestureView| GestureView { releases: g.releases + 1, ..g })
    }
}

/// A benchmark that looks for the picture it clicked on. It stops looking when
/// the picture is there, or when it has taken too long.
pub open spec fn landed(b: SliderView, now: u64, frame: SliderFrame) -> SliderView {
    match b.gesture {
        Some(Gesture::Landing { clicked_at, target }) => {
            let there = frame.has_texture && frame.current_index == target;
            let waited = stats::elapsed_of(now, clicked_at) as u64;
            if there || waited > WAIT_TIMEOUT {
                SliderView {
                    gesture: Some(Gesture::Refilling { released_at: clicked_at }),
                    ..with_stats(
                        b,
                        b.phase,
                        |g: GestureView|
                            if there {
                                GestureView { jump_times: g.jump_times.push(waited), ..g }
                            } else {
                                GestureView { core: PhaseView { timed_out: true, ..g.core }, ..g }
                            },
                    )
                }
            } else {
                b
            }
        },
        _ => b,
    }
}

/// Whether the wait for the window is over.
pub open spec fn refill_over(b: SliderView, now: u64, frame: SliderFrame) -> bool {
    match b.gesture {
        Some(Gesture::Refilling { released_at }) => frame.settled || stats::elapsed_of(
            now,
            released_at,
        ) > WAIT_TIMEOUT,
        _ => false,
    }
}

/// A benchmark whose wait for the window is over.
pub open spec fn refilled(b: SliderView, now: u64, frame: SliderFrame) -> SliderView {
    let waited = stats::elapsed_of(now, b.gesture->0->released_at) as u64;
    with_stats(
        b,
        b.phase,
        |g: GestureView|
            if frame.settled {
                GestureView { refill_times: g.refill_times.push(waited), ..g }
            } else {
                GestureView { core: PhaseView { timed_out: true, ..g.core }, ..g }
            },
    )
}

/// Whether a phase has another gesture: the sweep comes back once, the scrub
/// has its anchors, the jump its targets.
pub open spec fn has_more(b: SliderView) -> bool {
    match b.phase {
        Phase::Sweep => b.cursor == 0,
        Phase::Scrub => b.cursor + 1 < b.scrub_anchors.len(),
        Phase::Jump => b.cursor + 1 < b.jump_targets.len(),
        Phase::Settle => false,
        Phase::Done => false,
    }
}

/// A benchmark after a gesture, and the phase that ended with it.
pub open spec fn moved_on(b: SliderView, now: u64, cpu: Option<u64>) -> (
    SliderView,
    Option<PhaseEnd>,
) {
    if has_more(b) {
        (
            SliderView {
                cursor: b.cursor + 1,
                gesture: Some(Gesture::Dragging { since: now }),
                ..b
            },
            None,
        )
    } else {
        let ended = with_stats(
            b,
            b.phase,
            |g: GestureView|
                GestureView { core: phase::ended_phase(g.core, now, cpu), ..g },
        );
        (
            entered(SliderView { cursor: 0, ..ended }, b.phase, now, cpu),
            Some(PhaseEnd(b.phase)),
        )
    }
}

/// A benchmark after a frame, and the phase that ended.
pub open spec fn slider_ticked(
    b: SliderView,
    now: u64,
    cpu: Option<u64>,
    released: bool,
    frame: SliderFrame,
) -> (SliderView, Option<PhaseEnd>) {
    if b.phase == Phase::Settle || b.phase == Phase::Done {
        (b, None)
    } else {
        let seen = with_stats(b, b.phase, |g: GestureView| observed(g, now, frame));
        if b.gesture matches Some(Gesture::Dragging { .. }) && released {
            (let_go(seen, now), None)
        } else {
            let there = landed(seen, now, frame);
            if refill_over(there, now, frame) {
                moved_on(refilled(there, now, frame), now, cpu)
            } else {
                (there, None)
            }
        }
    }
}

/// What a benchmark measured.
#[derive(Debug, Clone, Copy, PartialEq, Eq, Structural)]
pub struct SliderReport {
    pub images: usize,
    pub sweep_time: u64,
    pub scrub_anchors: usize,
    pub scrub_passes: usize,
    pub scrub_time: u64,
    pub jumps: usize,
    pub settle_first_image: Option<u64>,
    pub settle_settled: Option<u64>,
    pub settle_timed_out: bool,
    pub sweep: Option<SliderPhaseReport>,
    pub scrub: Option<SliderPhaseReport>,
    pub jump: Option<SliderPhaseReport>,
}

/// The report of a phase, where it was started.
pub open spec fn report_in(g: Option<GestureView>, phase: Phase) -> Option<SliderPhaseReport> {
    match g {
        Some(s) => Some(gesture_report(s, phase)),
        None => None,
    }
}

/// What a benchmark measured.
pub open spec fn slider_report(b: SliderView) -> SliderReport {
    SliderReport {
        images: b.num_images as usize,
        sweep_time: b.sweep_time,
        scrub_anchors: b.scrub_anchors.len() as usize,
        scrub_passes: b.scrub_passes as usize,
        scrub_time: b.scrub_time,
        jumps: b.jump_targets.len() as usize,
        settle_first_image: b.settle_first_image,
        settle_settled: b.settle_done,
        settle_timed_out: b.settle_timed_out,
        sweep: report_in(b.sweep, Phase::Sweep),
        scrub: report_in(b.scrub, Phase::Scrub),
        jump: report_in(b.jump, Phase::Jump),
    }
}

/// The phase in progress has been started and is at one of its gestures, and
/// every position is on the rail.
pub open spec fn slider_wf(b: SliderView) -> bool {
    &&& b.num_images >= 1
    &&& b.sweep_time >= MIN_GESTURE_TIME
    &&& b.scrub_time >= MIN_GESTURE_TIME
    &&& forall|i: int| 0 <= i < b.jump_targets.len() ==> is_share(#[trigger] b.jump_targets[i])
    &&& b.phase == Phase::Sweep ==> b.sweep is Some && b.cursor <= 1
    &&& b.phase == Phase::Scrub ==> b.scrub is Some && b.cursor < b.scrub_anchors.len()
    &&& b.phase == Phase::Jump ==> b.jump is Some && b.cursor < b.jump_targets.len()
    &&& b.phase == Phase::Settle ==> b.cursor == 0
}

/// No count is at the end of its range.
pub open spec fn slider_has_room(b: SliderView) -> bool {
    &&& b.sweep matches Some(g) ==> gestures_have_room(g)
    &&& b.scrub matches Some(g) ==> gestures_have_room(g)
    &&& b.jump matches Some(g) ==> gestures_have_room(g)
}

/// The figures of a phase.
pub open spec fn stats_in(b: SliderView, phase: Phase) -> Option<GestureView> {
    match phase {
        Phase::Sweep => b.sweep,
        Phase::Scrub => b.scrub,
        Phase::Jump => b.jump,
        Phase::Settle => None,
        Phase::Done => None,
    }
}

impl SliderBench {
    /// The phase in progress has been started and is at one of its gestures.
    pub open spec fn wf(&self) -> bool {
        slider_wf(self@)
    }

    /// No count is at the end of its range.
    pub open spec fn has_room(&self) -> bool {
        slider_has_room(self@)
    }

    /// A benchmark of a folder. Sweeps and scrubs take at least a tenth of a
    /// second, and a scrub has at least one pass.
    pub fn new(
        num_images: usize,
        sweep_time: u64,
        skip_sweep: bool,
        anchors: usize,
        passes: usize,
        scrub_time: u64,
        jumps: usize,
        run_start: u64,
    ) -> (r: Self)
        requires
            num_images >= 1,
            2 * jumps <= u64::MAX,
        ensures
            r.wf(),
            r@ == new_slider(
                num_images as int,
                sweep_time,
                skip_sweep,
                anchors as int,
                passes as int,
                scrub_time,
                jumps as int,
                run_start,
            ),
    {
        proof {
            lemma_shares_are_on_the_rail(anchors as int, jumps as int);
        }
        SliderBench {
            num_images,
            sweep_time: if sweep_time < MIN_GESTURE_TIME {
                MIN_GESTURE_TIME
            } else {
                sweep_time
            },
            skip_sweep,
            scrub_passes: if passes < 1 {
                1
            } else {
                passes
            },
            scrub_time: if scrub_time < MIN_GESTURE_TIME {
                MIN_GESTURE_TIME
            } else {
                scrub_time
            },
            scrub_anchors: scrub_anchors(anchors),
            jump_targets: jump_targets(jumps),
            run_start,
            phase: Phase::Settle,
            settle_first_image: None,
            settle_done: None,
            settle_timed_out: false,
            cursor: 0,
            gesture: None,
            sweep: None,
            scrub: None,
            jump: None,
        }
    }

    /// The anchors of the scrub.
    pub fn scrub_anchors(&self) -> (r: &Vec<Share>)
        ensures
            r@ == self@.scrub_anchors,
    {
        &self.scrub_anchors
    }

    /// The targets of the jumps.
    pub fn jump_targets(&self) -> (r: &Vec<Share>)
        ensures
            r@ == self@.jump_targets,
    {
        &self.jump_targets
    }

    /// The phase in progress.
    pub fn phase(&self) -> (r: Phase)
        ensures
            r == self@.phase,
    {
        self.phase
    }

    /// Whether every phase is over.
    pub fn is_done(&self) -> (r: bool)
        ensures
            r == (self@.phase == Phase::Done),
    {
        self.phase == Phase::Done
    }

    /// Whether the benchmark still waits for the first picture.
    pub fn phase_is_settle(&self) -> (r: bool)
        ensures
            r == (self@.phase == Phase::Settle),
    {
        self.phase == Phase::Settle
    }

    /// The picture that a position on the rail stands for.
    pub fn index_of(&self, s: Share) -> (r: usize)
        requires
            self.wf(),
            is_share(s),
        ensures
            r == index_at(self@.num_images, s),
    {
        if s.num == 0 {
            return 0;
        }
        let last: u128 = rounded((self.num_images - 1) as u128);
        let (parts, one) = share_parts(s.num, s.denom);
        assert(last * parts <= 0x2_0000_0000_0000_0000 * 0x100_0000) by (nonlinear_arith)
            requires
                0 <= last <= 0x2_0000_0000_0000_0000,
                0 <= parts <= 0x100_0000,
        ;
        let place: u128 = rounded(last * parts);
        let nearest: u128 = (2 * place + one) / (2 * one);
        if nearest > usize::MAX as u128 {
            usize::MAX
        } else {
            nearest as usize
        }
    }

    /// Enters the phase after another.
    fn start_phase_after(&mut self, phase: Phase, now: u64, cpu: Option<u64>)
        ensures
            final(self)@ == entered(old(self)@, phase, now, cpu),
    {
        let settle = phase == Phase::Settle;
        let sweep = phase == Phase::Sweep;
        let scrub = phase == Phase::Scrub;
        if settle && !self.skip_sweep {
            self.phase = Phase::Sweep;
            self.sweep = Some(GestureStats::start(now, cpu));
            self.gesture = Some(Gesture::Dragging { since: now });
        } else if (settle || sweep) && self.scrub_anchors.len() > 0 {
            self.phase = Phase::Scrub;
            self.scrub = Some(GestureStats::start(now, cpu));
            self.gesture = Some(Gesture::Dragging { since: now });
        } else if (settle || sweep || scrub) && self.jump_targets.len() > 0 {
            self.phase = Phase::Jump;
            self.jump = Some(GestureStats::start(now, cpu));
            self.gesture = Some(Gesture::Dragging { since: now });
        } else {
            self.phase = Phase::Done;
            self.gesture = None;
        }
    }

    /// A frame of the settle phase: whether a picture shows, and whether the
    /// window has nothing in flight.
    pub fn tick_settle(
        &mut self,
        now: u64,
        cpu: Option<u64>,
        has_texture: bool,
        settled: bool,
    ) -> (r: Option<PhaseEnd>)
        requires
            old(self).wf(),
            old(self)@.phase == Phase::Settle,
        ensures
            final(self).wf(),
            (final(self)@, r) == slider_settled(old(self)@, now, cpu, has_texture, settled),
    {
        let since: u64 = elapsed(now, self.run_start);
        if has_texture && self.settle_first_image.is_none() {
            self.settle_first_image = Some(since);
        }
        let timed_out = since > SETTLE_TIMEOUT;
        if (has_texture && settled) || timed_out {
            if timed_out {
                self.settle_timed_out = true;
            } else {
                self.settle_done = Some(since);
            }
            let ghost before = self@;
            self.start_phase_after(Phase::Settle, now, cpu);
            assert(self@.jump_targets == before.jump_targets);
            return Some(PhaseEnd(Phase::Settle));
        }
        None
    }

    /// What stands in for the pointer in this frame, or nothing while it is
    /// up.
    pub fn drag(&self, now: u64) -> (r: Option<BenchDrag>)
        requires
            self.wf(),
        ensures
            r == drag_of(self@, now),
    {
        let since: u64 = match self.gesture {
            Some(Gesture::Dragging { since }) => since,
            _ => {
                return None;
            },
        };
        let time: u64 = elapsed(now, since);
        match self.phase {
            Phase::Sweep => {
                let done: u64 = if time < self.sweep_time {
                    time
                } else {
                    self.sweep_time
                };
                let num: u64 = if self.cursor == 0 {
                    done
                } else {
                    self.sweep_time - done
                };
                Some(
                    BenchDrag {
                        spot: Spot::At(Share { num, denom: self.sweep_time }),
                        released: time >= self.sweep_time,
                    },
                )
            },
            Phase::Scrub => {
                let full: u128 = self.scrub_time as u128;
                assert(time * self.scrub_passes <= 0xffff_ffff_ffff_ffff * 0xffff_ffff_ffff_ffff)
                    by (nonlinear_arith)
                    requires
                        0 <= time <= 0xffff_ffff_ffff_ffff,
                        0 <= self.scrub_passes <= 0xffff_ffff_ffff_ffff,
                ;
                let e: i128 = ((time as u128 * self.scrub_passes as u128) % full) as i128;
                let full: i128 = self.scrub_time as i128;
                let swing: i128 = if time >= self.scrub_time {
                    0
                } else if 3 * e < full {
                    3 * e
                } else if 3 * e < 2 * full {
                    3 * full - 6 * e
                } else {
                    3 * e - 3 * full
                };
                Some(
                    BenchDrag {
                        spot: Spot::Around {
                            anchor: self.scrub_anchors[self.cursor],
                            swing,
                            full: self.scrub_time,
                        },
                        released: time >= self.scrub_time,
                    },
                )
            },
            Phase::Jump => Some(
                BenchDrag { spot: Spot::At(self.jump_targets[self.cursor]), released: true },
            ),
            Phase::Settle => None,
            Phase::Done => None,
        }
    }

    /// Exchanges the figures of a phase.
    fn swap_stats(&mut self, phase: Phase, g: &mut Option<GestureStats>)
        ensures
            phase == Phase::Sweep ==> final(self)@ == (SliderView {
                sweep: gestures_in(*old(g)),
                ..old(self)@
            }),
            phase == Phase::Scrub ==> final(self)@ == (SliderView {
                scrub: gestures_in(*old(g)),
                ..old(self)@
            }),
            phase == Phase::Jump ==> final(self)@ == (SliderView {
                jump: gestures_in(*old(g)),
                ..old(self)@
            }),
            phase == Phase::Settle || phase == Phase::Done ==> final(self)@ == old(self)@
                && *final(g) == *old(g),
            phase != Phase::Settle && phase != Phase::Done ==> gestures_in(*final(g)) == stats_in(
                old(self)@,
                phase,
            ),
    {
        match phase {
            Phase::Sweep => std::mem::swap(&mut self.sweep, g),
            Phase::Scrub => std::mem::swap(&mut self.scrub, g),
            Phase::Jump => std::mem::swap(&mut self.jump, g),
            Phase::Settle => {},
            Phase::Done => {},
        }
    }

    /// Notes a frame in the figures of the phase in progress.
    fn note_frame(&mut self, now: u64, frame: &SliderFrame)
        requires
            old(self).has_room(),
        ensures
            final(self)@ == with_stats(
                old(self)@,
                old(self)@.phase,
                |g: GestureView| observed(g, now, *frame),
            ),
    {
        let phase = self.phase;
        let mut g: Option<GestureStats> = None;
        self.swap_stats(phase, &mut g);
        if let Some(mut s) = g.take() {
            s.observe(now, frame);
            g = Some(s);
        }
        self.swap_stats(phase, &mut g);
    }

    /// Notes that the pointer was let go.
    fn note_release(&mut self)
        requires
            stats_in(old(self)@, old(self)@.phase) matches Some(g) ==> g.releases < usize::MAX,
        ensures
            final(self)@ == with_stats(
                old(self)@,
                old(self)@.phase,
                |g: GestureView| GestureView { releases: g.releases + 1, ..g },
            ),
    {
        let phase = self.phase;
        let mut g: Option<GestureStats> = None;
        self.swap_stats(phase, &mut g);
        if let Some(mut s) = g.take() {
            s.releases += 1;
            g = Some(s);
        }
        self.swap_stats(phase, &mut g);
    }

    /// Notes how a wait for a picture ended.
    fn note_landing(&mut self, there: bool, waited: u64)
        ensures
            final(self)@ == with_stats(
                old(self)@,
                old(self)@.phase,
                |g: GestureView|
                    if there {
                        GestureView { jump_times: g.jump_times.push(waited), ..g }
                    } else {
                        GestureView { core: PhaseView { timed_out: true, ..g.core }, ..g }
                    },
            ),
    {
        let phase = self.phase;
        let mut g: Option<GestureStats> = None;
        self.swap_stats(phase, &mut g);
        if let Some(mut s) = g.take() {
            if there {
                s.jump_times.push(waited);
            } else {
                s.core.timed_out = true;
            }
            g = Some(s);
        }
        self.swap_stats(phase, &mut g);
    }

    /// Notes how a wait for the window ended.
    fn note_refill(&mut self, settled: bool, waited: u64)
        ensures
            final(self)@ == with_stats(
                old(self)@,
                old(self)@.phase,
                |g: GestureView|
                    if settled {
                        GestureView { refill_times: g.refill_times.push(waited), ..g }
                    } else {
                        GestureView { core: PhaseView { timed_out: true, ..g.core }, ..g }
                    },
            ),
    {
        let phase = self.phase;
        let mut g: Option<GestureStats> = None;
        self.swap_stats(phase, &mut g);
        if let Some(mut s) = g.take() {
            if settled {
                s.refill_times.push(waited);
            } else {
                s.core.timed_out = true;
            }
            g = Some(s);
        }
        self.swap_stats(phase, &mut g);
    }

    /// Ends the figures of the phase in progress.
    fn end_stats(&mut self, now: u64, cpu: Option<u64>)
        ensures
            final(self)@ == with_stats(
                old(self)@,
                old(self)@.phase,
                |g: GestureView| GestureView { core: phase::ended_phase(g.core, now, cpu), ..g },
            ),
    {
        let phase = self.phase;
        let mut g: Option<GestureStats> = None;
        self.swap_stats(phase, &mut g);
        if let Some(mut s) = g.take() {
            s.core.end(now, cpu);
            g = Some(s);
        }
        self.swap_stats(phase, &mut g);
    }

    /// Looks for the picture that was clicked on.
    fn land(&mut self, now: u64, frame: &SliderFrame)
        ensures
            final(self)@ == landed(old(self)@, now, *frame),
    {
        if let Some(Gesture::Landing { clicked_at, target }) = self.gesture {
            let there = frame.has_texture && frame.current_index == target;
            let waited: u64 = elapsed(now, clicked_at);
            if there || waited > WAIT_TIMEOUT {
                self.note_landing(there, waited);
                self.gesture = Some(Gesture::Refilling { released_at: clicked_at });
            }
        }
    }

    /// Goes on to the next gesture, or to the next phase.
    fn move_on(&mut self, now: u64, cpu: Option<u64>) -> (r: Option<PhaseEnd>)
        requires
            old(self).wf(),
        ensures
            (final(self)@, r) == moved_on(old(self)@, now, cpu),
    {
        let more = match self.phase {
            Phase::Sweep => self.cursor == 0,
            Phase::Scrub => self.cursor < self.scrub_anchors.len() - 1,
            Phase::Jump => self.cursor < self.jump_targets.len() - 1,
            Phase::Settle => false,
            Phase::Done => false,
        };
        if more {
            self.cursor += 1;
            self.gesture = Some(Gesture::Dragging { since: now });
            return None;
        }
        let phase = self.phase;
        self.end_stats(now, cpu);
        self.cursor = 0;
        self.start_phase_after(phase, now, cpu);
        Some(PhaseEnd(phase))
    }

    /// A frame: what stood in for the pointer, and what the application saw.
    pub fn tick(
        &mut self,
        now: u64,
        cpu: Option<u64>,
        drag: Option<BenchDrag>,
        frame: SliderFrame,
    ) -> (r: Option<PhaseEnd>)
        requires
            old(self).wf(),
            old(self).has_room(),
        ensures
            final(self).wf(),
            (final(self)@, r) == slider_ticked(
                old(self)@,
                now,
                cpu,
                drag matches Some(d) && d.released,
                frame,
            ),
    {
        let ghost released = drag matches Some(d) && d.released;
        proof {
            law_phases_only_go_on(self@, now, cpu, released, frame);
        }
        if self.phase == Phase::Settle || self.phase == Phase::Done {
            return None;
        }
        self.note_frame(now, &frame);
        let dragging = match self.gesture {
            Some(Gesture::Dragging { .. }) => true,
            _ => false,
        };
        let let_go_now = match drag {
            Some(d) => d.released,
            None => false,
        };
        if dragging && let_go_now {
            self.note_release();
            let next = if self.phase == Phase::Jump {
                let target: usize = self.index_of(self.jump_targets[self.cursor]);
                Gesture::Landing { clicked_at: now, target }
            } else {
                Gesture::Refilling { released_at: now }
            };
            self.gesture = Some(next);
            return None;
        }
        // A click on a cached picture can end both waits in one frame.
        self.land(now, &frame);
        if let Some(Gesture::Refilling { released_at }) = self.gesture {
            let waited: u64 = elapsed(now, released_at);
            if frame.settled || waited > WAIT_TIMEOUT {
                self.note_refill(frame.settled, waited);
                return self.move_on(now, cpu);
            }
        }
        None
    }

    /// A reading of the memory, kept as peaks of the phase in progress.
    pub fn observe_memory(&mut self, rss_bytes: u64, gpu_bytes: u64)
        requires
            old(self).wf(),
        ensures
            final(self).wf(),
            final(self)@ == with_stats(
                old(self)@,
                old(self)@.phase,
                |g: GestureView|
                    GestureView {
                        core: phase::observed_phase(g.core, rss_bytes, gpu_bytes),
                        ..g
                    },
            ),
    {
        let phase = self.phase;
        let mut g: Option<GestureStats> = None;
        self.swap_stats(phase, &mut g);
        if let Some(mut s) = g.take() {
            s.core.observe_memory(rss_bytes, gpu_bytes);
            g = Some(s);
        }
        self.swap_stats(phase, &mut g);
    }

    /// What was recorded during a phase that ended: the loads on the main
    /// thread, how many pictures came from the cache instead, and the
    /// background decodes.
    pub fn set_timings(
        &mut self,
        phase: Phase,
        sync_loads: Vec<SyncLoadTiming>,
        lru_hits: usize,
        decode_times: Vec<u64>,
    )
        requires
            old(self).wf(),
        ensures
            final(self).wf(),
            final(self)@ == with_stats(
                old(self)@,
                phase,
                |g: GestureView|
                    GestureView {
                        sync_loads: sync_loads@,
                        lru_hits: lru_hits as int,
                        core: PhaseView { decode_times: decode_times@, ..g.core },
                        ..g
                    },
            ),
    {
        let mut g: Option<GestureStats> = None;
        self.swap_stats(phase, &mut g);
        if let Some(mut s) = g.take() {
            s.sync_loads = sync_loads;
            s.lru_hits = lru_hits;
            s.core.decode_times = decode_times;
            g = Some(s);
        }
        self.swap_stats(phase, &mut g);
    }

    /// What the benchmark measured.
    pub fn report(&self) -> (r: SliderReport)
        ensures
            r == slider_report(self@),
    {
        SliderReport {
            images: self.num_images,
            sweep_time: self.sweep_time,
            scrub_anchors: self.scrub_anchors.len(),
            scrub_passes: self.scrub_passes,
            scrub_time: self.scrub_time,
            jumps: self.jump_targets.len(),
            settle_first_image: self.settle_first_image,
            settle_settled: self.settle_done,
            settle_timed_out: self.settle_timed_out,
            sweep: match &self.sweep {
                Some(s) => Some(s.report(Phase::Sweep)),
                None => None,
            },
            scrub: match &self.scrub {
                Some(s) => Some(s.report(Phase::Scrub)),
                None => None,
            },
            jump: match &self.jump {
                Some(s) => Some(s.report(Phase::Jump)),
                None => None,
            },
        }
    }
}

/// A position stands for no picture behind the last one, as far as its number
/// has its digits.
proof fn lemma_positions(num_images: int, s: Share)
    requires
        1 <= num_images <= usize::MAX,
        is_share(s),
    ensures
        0 <= index_at(num_images, s) <= single::single(num_images - 1),
        s.num == s.denom && single::single(num_images - 1) <= usize::MAX ==> index_at(num_images, s)
            == single::single(num_images - 1),
{
    let x = num_images - 1;
    let last = single::single(x);
    let d = single::two(single::surplus(x));
    single::lemma_two_is_positive(single::surplus(x));
    single::lemma_surplus(x);
    let m = single::to_nearest(x, d);
    single::lemma_not_past(x, d, single::DIGITS as int);
    single::lemma_to_nearest(x, d);
    assert(last >= 0) by (nonlinear_arith)
        requires
            last == m * d,
            m >= 0,
            d >= 1,
    ;
    if s.num > 0 {
        let (num, denom) = (s.num as int, s.denom as int);
        let k = single::doublings(num, denom);
        let one = single::two(k);
        let parts = single::share_digits(num, denom);
        single::lemma_two_is_positive(k);
        assert(0 <= num * one <= one * denom) by (nonlinear_arith)
            requires
                0 <= num <= denom,
                one >= 1,
        ;
        single::lemma_not_past(num * one, denom, one);
        single::lemma_to_nearest(num * one, denom);
        let e = single::surplus(x) + k;
        single::lemma_two_divides(e, k);
        assert(last * one == m * single::two(e)) by (nonlinear_arith)
            requires
                last == m * d,
                single::two(e) == d * one,
        ;
        assert(0 <= last * parts <= last * one) by (nonlinear_arith)
            requires
                last >= 0,
                0 <= parts <= one,
        ;
        single::lemma_single_of_scaled(last * parts, m, e);
        let place = single::single(last * parts);
        single::lemma_single_is_positive(last * parts);
        assert(0 <= (2 * place + one) / (2 * one) <= last) by (nonlinear_arith)
            requires
                0 <= place <= last * one,
                one >= 1,
        ;
        if s.num == s.denom {
            assert(num * one == one * denom) by (nonlinear_arith)
                requires
                    num == denom,
            ;
            single::lemma_exact(num * one, one, denom);
            assert(place == last * one);
            assert((2 * place + one) / (2 * one) == last) by (nonlinear_arith)
                requires
                    place == last * one,
                    one >= 1,
            ;
        }
    }
}

/// No position is past the number of the last picture, rounded to the digits
/// that a fraction has. So every position is a picture of the folder, unless
/// that number is rounded up. The ends of the rail are the first and the last
/// picture, unless it is rounded at all.
pub proof fn law_positions_are_pictures(num_images: int, s: Share)
    requires
        1 <= num_images <= usize::MAX,
        is_share(s),
    ensures
        0 <= index_at(num_images, s) <= single::single(num_images - 1),
        single::single(num_images - 1) <= num_images - 1 ==> index_at(num_images, s) < num_images,
        s.num == 0 ==> index_at(num_images, s) == 0,
        s.num == s.denom && single::single(num_images - 1) == num_images - 1 ==> index_at(num_images, s)
            == num_images - 1,
{
    lemma_positions(num_images, s);
}

/// The anchors go from one end of the rail to the other, unless the number of
/// the last picture has more digits than a fraction and is rounded.
pub proof fn law_anchors_span_the_folder(num_images: int, k: int)
    requires
        1 <= num_images <= usize::MAX,
        single::single(num_images - 1) == num_images - 1,
        2 <= k <= u64::MAX,
    ensures
        anchors_of(k).len() == k,
        index_at(num_images, anchors_of(k)[0]) == 0,
        index_at(num_images, anchors_of(k)[k - 1]) == num_images - 1,
{
    law_positions_are_pictures(num_images, anchors_of(k)[0]);
    law_positions_are_pictures(num_images, anchors_of(k)[k - 1]);
}

/// A scrub stays within its widest way, starts at its anchor, and is back at
/// it when the pointer is let go.
pub proof fn law_a_scrub_stays_near_its_anchor(time: int, passes: int, full: int)
    requires
        time >= 0,
        passes >= 1,
        full > 0,
    ensures
        -full <= swing_of(time, passes, full) <= full,
        time == 0 ==> swing_of(time, passes, full) == 0,
        time >= full ==> swing_of(time, passes, full) == 0,
{
    let e = (time * passes) % full;
    assert(0 <= e < full) by (nonlinear_arith)
        requires
            e == (time * passes) % full,
            full > 0,
    ;
    assert(time == 0 ==> time * passes == 0) by (nonlinear_arith);
    assert(time == 0 ==> e == 0) by (nonlinear_arith)
        requires
            e == (time * passes) % full,
            time == 0 ==> time * passes == 0,
            full > 0,
    ;
}

/// A wait that never ends is given up: once it has taken too long, the frame
/// ends the gesture whatever the application saw, and the run moves on.
pub proof fn law_a_wait_that_never_ends_is_given_up(
    b: SliderView,
    now: u64,
    cpu: Option<u64>,
    frame: SliderFrame,
    released_at: u64,
)
    requires
        slider_wf(b),
        b.phase == Phase::Sweep || b.phase == Phase::Scrub || b.phase == Phase::Jump,
        b.gesture == Some(Gesture::Refilling { released_at }),
        stats::elapsed_of(now, released_at) > WAIT_TIMEOUT,
    ensures
        ({
            let (after, end) = slider_ticked(b, now, cpu, false, frame);
            if has_more(b) {
                end is None && after.cursor == b.cursor + 1 && after.gesture == Some(
                    Gesture::Dragging { since: now },
                )
            } else {
                end == Some(PhaseEnd(b.phase)) && after.phase == phase_after(b, b.phase)
            }
        }),
{
}

/// The place of a phase in the run.
pub open spec fn place_of(p: Phase) -> int {
    match p {
        Phase::Settle => 0,
        Phase::Sweep => 1,
        Phase::Scrub => 2,
        Phase::Jump => 3,
        Phase::Done => 4,
    }
}

/// A frame ends a phase and starts a later one, or it leaves the phase as it
/// is. A phase with nothing to do is never started.
pub proof fn law_phases_only_go_on(
    b: SliderView,
    now: u64,
    cpu: Option<u64>,
    released: bool,
    frame: SliderFrame,
)
    requires
        slider_wf(b),
    ensures
        ({
            let (after, end) = slider_ticked(b, now, cpu, released, frame);
            &&& slider_wf(after)
            &&& match end {
                Some(e) => {
                    &&& e.0 == b.phase
                    &&& place_of(after.phase) > place_of(b.phase)
                    &&& after.phase == Phase::Scrub ==> b.scrub_anchors.len() > 0
                    &&& after.phase == Phase::Jump ==> b.jump_targets.len() > 0
                },
                None => after.phase == b.phase,
            }
        }),
{
}

/// The sweep goes over the rail at a steady pace, from its start to its end and,
/// at the second gesture, back; the pointer is let go just when the time is over.
pub proof fn law_the_sweep_goes_there_and_back(b: SliderView, since: u64, now: u64)
    requires
        slider_wf(b),
        b.phase == Phase::Sweep,
        b.gesture == Some(Gesture::Dragging { since }),
        since <= now,
        0 <= b.cursor,
    ensures
        drag_of(b, now) matches Some(d) && {
            &&& d.released <==> now - since >= b.sweep_time
            &&& d.spot matches Spot::At(s) && {
                &&& s.denom == b.sweep_time
                &&& !d.released && b.cursor == 0 ==> s.num == now - since
                &&& !d.released && b.cursor == 1 ==> s.num == b.sweep_time - (now - since)
                &&& d.released && b.cursor == 0 ==> s.num == s.denom
                &&& d.released && b.cursor == 1 ==> s.num == 0
            }
        },
{
}

/// A scrub is held around its own anchor and let go when its time is over; a jump
/// is a click on its own target.
pub proof fn law_scrubs_and_jumps_go_where_they_should(b: SliderView, since: u64, now: u64)
    requires
        slider_wf(b),
        b.gesture == Some(Gesture::Dragging { since }),
        since <= now,
    ensures
        b.phase == Phase::Scrub ==> (drag_of(b, now) matches Some(d) && {
            &&& d.released <==> now - since >= b.scrub_time
            &&& d.spot matches Spot::Around { anchor, swing, full }
            &&& anchor == b.scrub_anchors[b.cursor]
            &&& full == b.scrub_time
        }),
        b.phase == Phase::Jump ==> (drag_of(b, now) matches Some(d) && d.released && d.spot == Spot::At(
            b.jump_targets[b.cursor],
        )),
        b.phase == Phase::Settle || b.phase == Phase::Done ==> drag_of(b, now) is None,
{
}

/// A pass of a scrub reaches its widest way on one side after a third of it and on
/// the other after two thirds.
pub proof fn law_a_pass_goes_to_both_sides(time: int, full: int)
    requires
        0 <= time < full,
    ensures
        3 * time == full ==> swing_of(time, 1, full) == full,
        3 * time == 2 * full ==> swing_of(time, 1, full) == -full,
        6 * time == full ==> 2 * swing_of(time, 1, full) == full,
        2 * time == full ==> swing_of(time, 1, full) == 0,
{
    assert((time * 1) % full == time) by (nonlinear_arith)
        requires
            0 <= time < full,
    ;
}

/// The anchors are as far from each other as from one end to the other in equal
/// parts; a single one is in the middle. The jumps go to the middles of equal
/// parts.
pub proof fn law_anchors_and_targets_are_even(k: int, jumps: int, i: int)
    requires
        0 <= k <= u64::MAX,
        0 <= 2 * jumps <= u64::MAX,
    ensures
        k == 1 ==> anchors_of(k).len() == 1 && 2 * anchors_of(k)[0].num == anchors_of(k)[0].denom,
        k > 1 && 0 <= i < k ==> anchors_of(k).len() == k && anchors_of(k)[i].num == i && anchors_of(k)[i].denom == k - 1,
        jump_targets_of(jumps).len() == jumps,
        0 <= i < jumps ==> jump_targets_of(jumps)[i].denom == 2 * jumps && jump_targets_of(jumps)[i].num == 2
            * stats::scrambled(jumps, i) + 1,
{
}

/// Letting the pointer go counts as a release and starts the wait for the window;
/// after a click it starts the wait for the picture that was clicked on.
pub proof fn law_what_a_release_starts(b: SliderView, now: u64, cpu: Option<u64>, frame: SliderFrame, since: u64)
    requires
        slider_wf(b),
        b.gesture == Some(Gesture::Dragging { since }),
        b.phase == Phase::Sweep || b.phase == Phase::Scrub || b.phase == Phase::Jump,
    ensures
        ({
            let (after, end) = slider_ticked(b, now, cpu, true, frame);
            &&& end is None
            &&& stats_in(after, b.phase)->0.releases == stats_in(b, b.phase)->0.releases + 1
            &&& b.phase != Phase::Jump ==> after.gesture == Some(Gesture::Refilling { released_at: now })
            &&& b.phase == Phase::Jump ==> after.gesture == Some(
                Gesture::Landing {
                    clicked_at: now,
                    target: index_at(b.num_images, b.jump_targets[b.cursor]) as usize,
                },
            )
        }),
{
}

/// The wait for the window is measured from the release, and given up after more
/// than ten seconds.
pub proof fn law_the_refill_is_timed_from_the_release(
    b: SliderView,
    now: u64,
    cpu: Option<u64>,
    frame: SliderFrame,
    released_at: u64,
)
    requires
        slider_wf(b),
        b.phase == Phase::Sweep || b.phase == Phase::Scrub || b.phase == Phase::Jump,
        b.gesture == Some(Gesture::Refilling { released_at }),
        released_at <= now,
    ensures
        ({
            let after = slider_ticked(b, now, cpu, false, frame).0;
            let before = stats_in(b, b.phase)->0;
            let noted = stats_in(after, b.phase)->0;
            &&& frame.settled ==> noted.refill_times == before.refill_times.push((now - released_at) as u64)
            &&& !frame.settled ==> noted.refill_times == before.refill_times
            &&& !frame.settled && now - released_at > 10_000_000_000 ==> noted.core.timed_out
            &&& !frame.settled && now - released_at <= 10_000_000_000 ==> after.gesture == b.gesture && after.phase
                == b.phase && noted.core.timed_out == before.core.timed_out
        }),
{
}

/// A jump is timed from the click to the frame in which its own picture is on
/// screen, and given up after more than ten seconds.
pub proof fn law_a_jump_is_timed_from_the_click(
    b: SliderView,
    now: u64,
    cpu: Option<u64>,
    frame: SliderFrame,
    clicked_at: u64,
    target: usize,
)
    requires
        slider_wf(b),
        b.phase == Phase::Jump,
        b.gesture == Some(Gesture::Landing { clicked_at, target }),
        clicked_at <= now,
    ensures
        ({
            let after = slider_ticked(b, now, cpu, false, frame).0;
            let before = b.jump->0;
            let noted = after.jump->0;
            let there = frame.has_texture && frame.current_index == target;
            &&& there ==> noted.jump_times == before.jump_times.push((now - clicked_at) as u64)
            &&& !there ==> noted.jump_times == before.jump_times
            &&& !there && now - clicked_at > 10_000_000_000 ==> noted.core.timed_out
            &&& !there && now - clicked_at <= 10_000_000_000 ==> after.gesture == b.gesture && after.phase == b.phase
        }),
{
}

/// Frames count by what the application saw in them.
pub proof fn law_what_a_frame_counts(g: GestureView, now: u64, frame: SliderFrame)
    ensures
        observed(g, now, frame).positions == g.positions + if frame.target_changed { 1int } else { 0 },
        observed(g, now, frame).shown == g.shown + if frame.shown { 1int } else { 0 },
        observed(g, now, frame).core.frames == phase::ticked(g.core.frames, now),
        observed(g, now, frame).releases == g.releases,
        observed(g, now, frame).refill_times == g.refill_times,
{
}

/// A run goes from one phase to the next that has something to do: the sweep
/// unless it is left out, the scrub where it has anchors, the jumps where there
/// are any.
pub proof fn law_which_phase_comes_next(b: SliderView)
    ensures
        !b.skip_sweep ==> phase_after(b, Phase::Settle) == Phase::Sweep,
        b.skip_sweep && b.scrub_anchors.len() > 0 ==> phase_after(b, Phase::Settle) == Phase::Scrub,
        b.skip_sweep && b.scrub_anchors.len() == 0 && b.jump_targets.len() > 0 ==> phase_after(b, Phase::Settle)
            == Phase::Jump,
        b.scrub_anchors.len() > 0 ==> phase_after(b, Phase::Sweep) == Phase::Scrub,
        b.scrub_anchors.len() == 0 && b.jump_targets.len() > 0 ==> phase_after(b, Phase::Sweep) == Phase::Jump,
        b.jump_targets.len() > 0 ==> phase_after(b, Phase::Scrub) == Phase::Jump,
        b.jump_targets.len() == 0 ==> phase_after(b, Phase::Scrub) == Phase::Done,
        phase_after(b, Phase::Jump) == Phase::Done,
        b.skip_sweep && b.scrub_anchors.len() == 0 && b.jump_targets.len() == 0 ==> phase_after(b, Phase::Settle)
            == Phase::Done,
{
}

/// The time that a load blocks a frame is that of its three steps together.
pub proof fn law_a_load_takes_its_steps(t: SyncLoadTiming)
    requires
        t.decode + t.convert + t.upload <= u64::MAX,
    ensures
        part_of(t, LoadPart::Total) == t.decode + t.convert + t.upload,
        part_of(t, LoadPart::Decode) == t.decode,
        part_of(t, LoadPart::Convert) == t.convert,
        part_of(t, LoadPart::Upload) == t.upload,
{
}

/// The settle phase is over once a picture shows and the window is full, or after
/// more than a minute.
pub proof fn law_when_the_rail_is_used(b: SliderView, now: u64, cpu: Option<u64>, has_texture: bool, settled: bool)
    requires
        b.phase == Phase::Settle,
        b.run_start <= now,
    ensures
        ({
            let (after, end) = slider_settled(b, now, cpu, has_texture, settled);
            let late = now - b.run_start > 60_000_000_000;
            &&& end is Some <==> (has_texture && settled) || late
            &&& end is None ==> after.phase == Phase::Settle
            &&& has_texture && b.settle_first_image is None ==> after.settle_first_image == Some(
                (now - b.run_start) as u64,
            )
            &&& b.settle_first_image is Some ==> after.settle_first_image == b.settle_first_image
            &&& has_texture && settled && !late ==> after.settle_done == Some((now - b.run_start) as u64)
            &&& late ==> after.settle_timed_out
        }),
{
}

/// A run has at least a tenth of a second for each gesture, one pass for each
/// scrub, the anchors and the jumps that were asked for, and starts by settling.
pub proof fn law_what_a_run_starts_with(
    num_images: int,
    sweep_time: u64,
    skip_sweep: bool,
    anchors: int,
    passes: int,
    scrub_time: u64,
    jumps: int,
    start: u64,
)
    requires
        0 <= anchors <= u64::MAX,
        0 <= 2 * jumps <= u64::MAX,
        0 <= passes,
    ensures
        ({
            let b = new_slider(num_images, sweep_time, skip_sweep, anchors, passes, scrub_time, jumps, start);
            &&& b.sweep_time >= 100_000_000 && b.sweep_time >= sweep_time && (b.sweep_time == 100_000_000
                || b.sweep_time == sweep_time)
            &&& b.scrub_time >= 100_000_000 && b.scrub_time >= scrub_time && (b.scrub_time == 100_000_000
                || b.scrub_time == scrub_time)
            &&& b.scrub_passes >= 1 && (passes >= 1 ==> b.scrub_passes == passes)
            &&& b.scrub_anchors.len() == anchors
            &&& b.jump_targets.len() == jumps
            &&& b.num_images == num_images && b.run_start == start && b.skip_sweep == skip_sweep
            &&& b.phase == Phase::Settle && !b.settle_timed_out && b.gesture is None
        }),
{
}

/// Each phase reports what was counted in it: the loads that blocked a frame by
/// their steps, the waits for the window and, where there were clicks, the waits
/// for their pictures.
pub proof fn law_what_a_phase_reports(g: GestureView, phase: Phase, i: int)
    requires
        g.sync_loads.len() <= usize::MAX,
        0 <= g.positions <= usize::MAX,
        0 <= g.shown <= usize::MAX,
        0 <= g.releases <= usize::MAX,
        0 <= i < g.sync_loads.len(),
    ensures
        ({
            let r = gesture_report(g, phase);
            &&& r.phase == phase
            &&& r.positions == g.positions && r.images_shown == g.shown && r.releases == g.releases
            &&& r.sync.count == g.sync_loads.len()
            &&& r.sync.decode.max >= g.sync_loads[i].decode
            &&& r.sync.convert.max >= g.sync_loads[i].convert
            &&& r.sync.upload.max >= g.sync_loads[i].upload
            &&& r.refill == stats::stats_of(g.refill_times)
            &&& r.jump is Some <==> g.jump_times.len() > 0
            &&& r.jump is Some ==> r.jump == Some(stats::stats_of(g.jump_times))
            &&& r.frame_times == stats::stats_of(g.core.frames.deltas)
            &&& r.timed_out == g.core.timed_out
        }),
{
    stats::law_the_summary_of_samples(parts_of(g.sync_loads, LoadPart::Decode), i);
    stats::law_the_summary_of_samples(parts_of(g.sync_loads, LoadPart::Convert), i);
    stats::law_the_summary_of_samples(parts_of(g.sync_loads, LoadPart::Upload), i);
}

/// A run reports each of its phases under its own name, and none that did not
/// run.
pub proof fn law_what_a_run_reports(b: SliderView)
    ensures
        ({
            let r = slider_report(b);
            &&& r.sweep is Some <==> b.sweep is Some
            &&& r.scrub is Some <==> b.scrub is Some
            &&& r.jump is Some <==> b.jump is Some
            &&& r.sweep matches Some(p) ==> p.phase == Phase::Sweep
            &&& r.scrub matches Some(p) ==> p.phase == Phase::Scrub
            &&& r.jump matches Some(p) ==> p.phase == Phase::Jump
            &&& r.settle_first_image == b.settle_first_image
            &&& r.settle_settled == b.settle_done
            &&& r.settle_timed_out == b.settle_timed_out
        }),
{
}

} // verus!
