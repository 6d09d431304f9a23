//! The benchmarks: what they do frame by frame, and what they measure.
use viewskater::bench::nav::{Direction, Drive, NavBench, NavOutcome, Phase, PhaseEnd, DEFAULT_TAP_STEPS};
use viewskater::bench::options::{runs_wanted, AfterRun, BenchOptions, BenchStep, RunCursor, ScrubParams, SkipPhase};
use viewskater::bench::phase::{FrameTimer, PhaseStats};
use viewskater::bench::slider;
use viewskater::bench::slider::{BenchDrag, Share, SliderBench, SliderFrame, Spot, SyncLoadTiming};
use viewskater::bench::stats::{elapsed, percentile, scrambled_order, sorted, LatencyStats};

/// A millisecond in nanoseconds.
const MS: u64 = 1_000_000;
/// When a run starts, on the clock of the tests.
const T0: u64 = 1_000 * MS;

const ADV: NavOutcome = NavOutcome { advanced: true, blocked: false, at_end: false };
const STALL: NavOutcome = NavOutcome { advanced: false, blocked: true, at_end: false };
const END: NavOutcome = NavOutcome { advanced: false, blocked: false, at_end: true };

fn ms(t0: u64, ms: u64) -> u64 {
    t0 + ms * MS
}

fn average(s: &LatencyStats) -> f64 {
    s.total as f64 / s.count as f64
}

// ---- samples -------------------------------------------------------

#[test]
fn stats_of_empty_are_zero() {
    let s = LatencyStats::from_samples(&Vec::new());
    assert_eq!(s, LatencyStats::default());
}

#[test]
fn stats_of_one_sample_are_that_sample() {
    // 7.5 ms
    let sample = 7_500_000;
    let s = LatencyStats::from_samples(&vec![sample]);
    assert_eq!(s.count, 1);
    assert_eq!((average(&s), s.median, s.p95, s.p99, s.max), (7_500_000.0, sample, sample, sample, sample));
}

#[test]
fn percentiles_use_nearest_rank() {
    // 1..=100 in scrambled order: p50 = 50, p95 = 95, p99 = 99, max = 100.
    let mut v: Vec<u64> = (1..=100).collect();
    v.reverse();
    v.swap(3, 60);
    let s = LatencyStats::from_samples(&v);
    assert_eq!(s.count, 100);
    assert_eq!(s.median, 50);
    assert_eq!(s.p95, 95);
    assert_eq!(s.p99, 99);
    assert_eq!(s.max, 100);
    assert!((average(&s) - 50.5).abs() < 1e-9);
}

#[test]
fn percentiles_of_small_sets_round_up_to_a_real_sample() {
    // Four samples: p50 is the 2nd, p95 and p99 the 4th. Never interpolated.
    let s = LatencyStats::from_samples(&vec![10, 20, 30, 40]);
    assert_eq!(s.median, 20);
    assert_eq!(s.p95, 40);
    assert_eq!(s.p99, 40);
}

#[test]
fn sorting_keeps_the_samples() {
    assert_eq!(sorted(&[3, 1, 2, 3, 0]), [0, 1, 2, 3, 3]);
    assert_eq!(percentile(&vec![10, 20, 30, 40], 0), 10);
    assert_eq!(percentile(&vec![10, 20, 30, 40], 51), 30);
    assert_eq!(percentile(&vec![10, 20, 30, 40], 100), 40);
    assert_eq!(elapsed(5, 3), 2);
    assert_eq!(elapsed(3, 5), 0);
}

#[test]
fn the_scrambled_order_visits_each_once() {
    assert_eq!(scrambled_order(5), [0, 4, 1, 3, 2]);
    assert_eq!(scrambled_order(4), [0, 3, 1, 2]);
    assert_eq!(scrambled_order(0), [0usize; 0]);
}

/// The first tick of a timer has nothing to count from.
#[test]
fn frames_are_timed_from_the_one_before() {
    let mut timer = FrameTimer::new();
    for t in [100, 116, 132, 180] {
        timer.tick(t);
    }
    assert_eq!(timer.deltas, [16, 16, 48]);
    assert_eq!(timer.stats().max, 48);
}

#[test]
fn a_phase_measures_its_time_its_processor_and_its_peaks() {
    let mut p = PhaseStats::start(100, Some(7));
    p.observe_memory(50, 5);
    p.observe_memory(40, 8);
    assert_eq!((p.peak_rss_bytes, p.peak_gpu_bytes), (50, 8));
    assert_eq!(p.wall(), 0);
    p.end(400, Some(19));
    assert_eq!(p.wall(), 300);
    assert_eq!(p.cpu, Some(12));
    let mut unknown = PhaseStats::start(100, None);
    unknown.end(200, Some(19));
    assert_eq!(unknown.cpu, None);
}

// ---- navigation ----------------------------------------------------

/// A tap interval for a rate per second.
fn interval(rate: f64) -> u64 {
    (1e9 / rate) as u64
}

#[test]
fn settle_waits_for_texture_and_quiet_window() {
    let mut b = NavBench::new(10, 2, None, interval(6.0), DEFAULT_TAP_STEPS, T0);
    assert_eq!(b.drive(T0), Drive::Settle);
    assert_eq!(b.tick_settle(ms(T0, 100), None, false, true), None);
    assert_eq!(b.tick_settle(ms(T0, 200), None, true, false), None);
    assert_eq!(b.tick_settle(ms(T0, 300), None, true, true), Some(PhaseEnd(Phase::Settle)));
    assert_eq!(b.phase(), Phase::SkateRight);
    let r = b.report();
    assert_eq!(r.settle.first_image, Some(200 * MS));
    assert_eq!(r.settle.settled, Some(300 * MS));
}

#[test]
fn skate_rate_excludes_prefetched_images_and_counts_stalls() {
    let mut b = NavBench::new(10, 2, None, interval(6.0), DEFAULT_TAP_STEPS, T0);
    b.tick_settle(T0, None, true, true);
    // Two prefetched advances at 10 ms spacing, then 4 counted advances
    // with one stall in between, then the end.
    let mut t = T0;
    for _ in 0..2 {
        t += 10 * MS;
        assert_eq!(b.tick_nav(t, None, ADV), None);
    }
    let rate_start = t;
    for outcome in [ADV, STALL, ADV, ADV, ADV] {
        t += 10 * MS;
        assert_eq!(b.tick_nav(t, None, outcome), None);
    }
    let last = t;
    t += 10 * MS;
    assert_eq!(b.tick_nav(t, None, END), Some(PhaseEnd(Phase::SkateRight)));
    assert_eq!(b.phase(), Phase::SkateLeft);

    let r = b.report().skate_right.unwrap();
    assert_eq!(r.direction, Direction::Right);
    assert_eq!(r.skipped_images, 2);
    assert_eq!(r.images, 4);
    // 4 images over the 50 ms between the skip point and the last advance.
    assert_eq!(r.rate_time, last - rate_start);
    let secs = (last - rate_start) as f64 / 1e9;
    let images_per_sec = r.images as f64 / (r.rate_time as f64 / 1e9);
    assert!((images_per_sec - 4.0 / secs).abs() < 1e-6);
    // Frames counted after the skip point: 5 stepping frames + the end frame.
    assert_eq!(r.frames, 6);
    assert_eq!(r.stall_frames, 1);
    assert!(!r.timed_out);
}

#[test]
fn skate_gives_up_after_no_progress() {
    let mut b = NavBench::new(10, 0, None, interval(6.0), DEFAULT_TAP_STEPS, T0);
    b.tick_settle(T0, None, true, true);
    assert_eq!(b.tick_nav(ms(T0, 10), None, ADV), None);
    assert_eq!(b.tick_nav(ms(T0, 5_000), None, STALL), None);
    assert_eq!(b.tick_nav(ms(T0, 10_100), None, STALL), Some(PhaseEnd(Phase::SkateRight)));
    assert!(b.report().skate_right.unwrap().timed_out);
}

#[test]
fn tap_presses_on_schedule_and_measures_latency() {
    let mut b = NavBench::new(5, 0, None, interval(10.0), DEFAULT_TAP_STEPS, T0); // 100 ms interval
    b.tick_settle(T0, None, true, true);
    assert_eq!(b.tick_nav(T0, None, END), Some(PhaseEnd(Phase::SkateRight)));
    assert_eq!(b.tick_nav(T0, None, END), Some(PhaseEnd(Phase::SkateLeft)));
    assert_eq!(b.phase(), Phase::Tap);

    // Due immediately: press, image appears two frames later (16 ms each).
    assert_eq!(b.drive(T0), Drive::Step(1));
    assert_eq!(b.tick_nav(T0, None, STALL), None);
    assert_eq!(b.drive(ms(T0, 16)), Drive::Step(1)); // still pending
    assert_eq!(b.tick_nav(ms(T0, 16), None, STALL), None);
    assert_eq!(b.tick_nav(ms(T0, 32), None, ADV), None);
    // Not due again until t0 + 100 ms.
    assert_eq!(b.drive(ms(T0, 48)), Drive::Idle);
    b.tick_idle(ms(T0, 48));
    assert_eq!(b.drive(ms(T0, 100)), Drive::Step(1));
    assert_eq!(b.tick_nav(ms(T0, 100), None, ADV), None);

    let r = b.report().tap.unwrap();
    assert_eq!(r.steps, 2);
    assert_eq!(r.stall_frames, 2);
    assert_eq!(r.step_latencies.max, 32 * MS);
    assert_eq!(r.step_latencies.median, 0);
}

#[test]
fn max_images_caps_both_skate_passes() {
    let mut b = NavBench::new(1000, 0, Some(3), interval(6.0), 1, T0);
    b.tick_settle(T0, None, true, true);
    // Right pass stops after 3 advances without seeing the end.
    assert_eq!(b.tick_nav(ms(T0, 1), None, ADV), None);
    assert_eq!(b.tick_nav(ms(T0, 2), None, ADV), None);
    assert_eq!(b.tick_nav(ms(T0, 3), None, ADV), Some(PhaseEnd(Phase::SkateRight)));
    // Left pass walks back the same 3, also without an at_end.
    assert_eq!(b.tick_nav(ms(T0, 4), None, ADV), None);
    assert_eq!(b.tick_nav(ms(T0, 5), None, ADV), None);
    assert_eq!(b.tick_nav(ms(T0, 6), None, ADV), Some(PhaseEnd(Phase::SkateLeft)));
    let r = b.report();
    assert_eq!(r.skate_right.unwrap().images, 3);
    assert_eq!(r.skate_left.unwrap().images, 3);
}

#[test]
fn tap_step_count_is_configurable() {
    let mut b = NavBench::new(100, 0, None, interval(10.0), 2, T0);
    b.tick_settle(T0, None, true, true);
    b.tick_nav(T0, None, END);
    b.tick_nav(T0, None, END);
    assert_eq!(b.tick_nav(T0, None, ADV), None);
    assert_eq!(b.tick_nav(ms(T0, 100), None, ADV), Some(PhaseEnd(Phase::Tap)));
    assert!(b.is_done());
}

#[test]
fn tap_ends_at_step_count_or_folder_end() {
    let mut b = NavBench::new(3, 0, None, interval(10.0), DEFAULT_TAP_STEPS, T0); // 2 tap steps possible
    b.tick_settle(T0, None, true, true);
    b.tick_nav(T0, None, END);
    b.tick_nav(T0, None, END);
    assert_eq!(b.tick_nav(T0, None, ADV), None);
    assert_eq!(b.tick_nav(ms(T0, 100), None, ADV), Some(PhaseEnd(Phase::Tap)));
    assert!(b.is_done());
    assert_eq!(b.drive(ms(T0, 200)), Drive::Done);
}

/// The skate to the left can be left out, and without taps the run ends with
/// the skates.
#[test]
fn phases_that_are_left_out_do_not_run() {
    let mut b = NavBench::new(10, 0, None, interval(6.0), 3, T0).without_skate_left();
    b.tick_settle(T0, None, true, true);
    assert_eq!(b.tick_nav(ms(T0, 1), None, END), Some(PhaseEnd(Phase::SkateRight)));
    assert_eq!(b.phase(), Phase::Tap);
    assert!(b.report().skate_left.is_none());

    let mut b = NavBench::new(10, 0, None, interval(6.0), 0, T0);
    b.tick_settle(T0, None, true, true);
    b.tick_nav(ms(T0, 1), None, END);
    assert_eq!(b.tick_nav(ms(T0, 2), None, END), Some(PhaseEnd(Phase::SkateLeft)));
    assert!(b.is_done());
    assert!(b.report().tap.is_none());
}

/// Samples and peaks go to the phase they were taken in.
#[test]
fn samples_and_peaks_belong_to_their_phase() {
    let mut b = NavBench::new(10, 0, None, interval(6.0), 1, T0);
    b.observe_memory(9, 9);
    b.tick_settle(T0, Some(1), true, true);
    b.observe_memory(100, 10);
    assert_eq!(b.tick_nav(ms(T0, 1), Some(4), END), Some(PhaseEnd(Phase::SkateRight)));
    b.set_decode_samples(Phase::SkateRight, vec![3 * MS, 5 * MS]);
    b.observe_memory(200, 20);
    let r = b.report();
    let right = r.skate_right.unwrap();
    assert_eq!((right.peak_rss_bytes, right.peak_gpu_bytes, right.cpu), (100, 10, Some(3)));
    assert_eq!(right.decode_times.max, 5 * MS);
    assert_eq!(r.skate_left.unwrap().peak_rss_bytes, 200);
    assert!(r.tap.is_none());
}

/// A picture that never shows ends the wait for it.
#[test]
fn settling_is_given_up_after_a_minute() {
    let mut b = NavBench::new(10, 0, None, interval(6.0), 1, T0);
    assert_eq!(b.tick_settle(ms(T0, 59_000), None, false, false), None);
    assert_eq!(b.tick_settle(ms(T0, 61_000), None, false, false), Some(PhaseEnd(Phase::Settle)));
    assert!(b.report().settle.timed_out);
    assert_eq!(b.report().settle.settled, None);
}

// ---- the slider ----------------------------------------------------

fn frame(target_changed: bool, shown: bool, current_index: usize, settled: bool) -> SliderFrame {
    SliderFrame { target_changed, shown, current_index, has_texture: true, settled }
}

fn share(num: u64, denom: u64) -> Share {
    Share { num, denom }
}

fn value(s: Share) -> f64 {
    s.num as f64 / s.denom as f64
}

fn values(shares: &[Share]) -> Vec<f64> {
    shares.iter().map(|s| value(*s)).collect()
}

/// The place on the rail, from 0 to 1, for a scrub over `span` of it.
fn place(d: BenchDrag, span: f64) -> f64 {
    match d.spot {
        Spot::At(s) => value(s),
        Spot::Around { anchor, swing, full } => {
            (value(anchor) + swing as f64 / full as f64 * span / 2.0).clamp(0.0, 1.0)
        }
    }
}

const SPAN: f64 = 0.1;

/// A bench of one second gestures, with one pass a scrub.
fn bench(n: usize, skip_sweep: bool, anchors: usize, jumps: usize, t0: u64) -> SliderBench {
    SliderBench::new(n, 1_000 * MS, skip_sweep, anchors, 1, 1_000 * MS, jumps, t0)
}

fn settled_bench(n: usize, anchors: usize, jumps: usize, t0: u64) -> SliderBench {
    let mut b = bench(n, false, anchors, jumps, t0);
    assert_eq!(b.tick_settle(t0, None, true, true), Some(slider::PhaseEnd(slider::Phase::Settle)));
    assert_eq!(b.phase(), slider::Phase::Sweep);
    b
}

/// Run both sweep passes with instant refills. Returns the time the
/// sweep phase ended.
fn finish_sweep(b: &mut SliderBench, t0: u64) -> u64 {
    let d = b.drag(ms(t0, 1000)).unwrap();
    b.tick(ms(t0, 1000), None, Some(d), frame(true, true, 100, false));
    assert_eq!(b.tick(ms(t0, 1001), None, None, frame(false, false, 100, true)), None);
    let d = b.drag(ms(t0, 2001)).unwrap();
    assert_eq!((place(d, SPAN), d.released), (0.0, true));
    b.tick(ms(t0, 2001), None, Some(d), frame(true, true, 0, false));
    assert_eq!(
        b.tick(ms(t0, 2002), None, None, frame(false, false, 0, true)),
        Some(slider::PhaseEnd(slider::Phase::Sweep))
    );
    ms(t0, 2002)
}

#[test]
fn anchors_span_the_folder_and_jumps_are_spread_far_apart() {
    let b = bench(101, false, 3, 4, T0);
    assert_eq!(values(b.scrub_anchors()), [0.0, 0.5, 1.0]);
    assert_eq!(values(bench(101, false, 5, 0, T0).scrub_anchors()), [0.0, 0.25, 0.5, 0.75, 1.0]);
    assert_eq!(values(bench(101, false, 1, 0, T0).scrub_anchors()), [0.5]);
    // Four jumps at 1/8, 3/8, 5/8, 7/8, visited first, last, second,
    // second to last.
    assert_eq!(values(b.jump_targets()), [0.125, 0.875, 0.375, 0.625]);
    assert_eq!(b.index_of(share(7, 8)), 88);
    assert_eq!(bench(140, false, 5, 20, T0).jump_targets().len(), 20);
}

/// A position stands for the picture that the rail maps it to.
#[test]
fn positions_round_as_the_rail_does() {
    assert_eq!(bench(61, false, 1, 20, T0).index_of(share(21, 40)), 31);
    for n in [2, 3, 61, 101, 1_000, 16_777_217, 16_777_218, 16_777_220, 40_000_001, usize::MAX] {
        let b = bench(n, false, 1, 1, T0);
        for jumps in 1..45u64 {
            for i in 0..jumps {
                let t = (i as f32 + 0.5) / jumps as f32;
                let wanted = ((n - 1) as f32 * t).round() as usize;
                assert_eq!(b.index_of(share(2 * i + 1, 2 * jumps)), wanted, "{i} of {jumps} in {n}");
            }
            let whole = ((n - 1) as f32).round() as usize;
            assert_eq!(b.index_of(share(jumps, jumps)), whole);
            assert_eq!(b.index_of(share(0, jumps)), 0);
        }
    }
}

#[test]
fn sweep_goes_right_releases_refills_then_comes_back() {
    let t0 = T0;
    let mut b = settled_bench(101, 0, 0, t0);
    // Halfway through the second: halfway along the rail, not released.
    let d = b.drag(ms(t0, 500)).unwrap();
    assert!((place(d, SPAN) - 0.5).abs() < 1e-6 && !d.released);
    assert_eq!(b.tick(ms(t0, 500), None, Some(d), frame(true, true, 50, false)), None);
    // At the end: released at t = 1.
    let d = b.drag(ms(t0, 1000)).unwrap();
    assert_eq!((place(d, SPAN), d.released), (1.0, true));
    assert_eq!(b.tick(ms(t0, 1000), None, Some(d), frame(true, false, 100, false)), None);
    // Finger up while the window refills.
    assert_eq!(b.drag(ms(t0, 1010)), None);
    assert_eq!(b.tick(ms(t0, 1010), None, None, frame(false, false, 100, false)), None);
    // Refilled: the phase is not over, the return pass starts here.
    assert_eq!(b.tick(ms(t0, 1200), None, None, frame(false, false, 100, true)), None);
    let back = b.drag(ms(t0, 1700)).unwrap();
    assert!((place(back, SPAN) - 0.5).abs() < 1e-6 && !back.released, "{back:?}");
    b.tick(ms(t0, 1700), None, Some(back), frame(true, true, 50, false));
    let home = b.drag(ms(t0, 2200)).unwrap();
    assert_eq!((place(home, SPAN), home.released), (0.0, true));
    b.tick(ms(t0, 2200), None, Some(home), frame(true, true, 0, false));
    assert_eq!(
        b.tick(ms(t0, 2300), None, None, frame(false, false, 0, true)),
        Some(slider::PhaseEnd(slider::Phase::Sweep))
    );
    assert!(b.is_done(), "no anchors and no jumps: done after the sweep");
    let r = b.report().sweep.unwrap();
    assert_eq!(r.positions, 4);
    assert_eq!(r.images_shown, 3);
    assert_eq!(r.releases, 2);
    assert_eq!(r.refill.count, 2);
    assert_eq!(r.refill.max, 200 * MS);
}

#[test]
fn scrub_repeats_its_passes_across_the_span() {
    let t0 = T0;
    let span = 0.4;
    let mut b = SliderBench::new(101, 1_000 * MS, false, 1, 2, 2_000 * MS, 0, t0);
    b.tick_settle(t0, None, true, true);
    let s0 = finish_sweep(&mut b, t0);
    assert_eq!(b.phase(), slider::Phase::Scrub);
    // One anchor sits at the middle, half span 0.2. Each pass is
    // anchor -> +0.2 -> -0.2 -> anchor over one second; two passes.
    let at = |time: u64| place(b.drag(ms(s0, time)).unwrap(), span);
    assert!((at(333) - 0.7).abs() < 2e-3, "{}", at(333));
    assert!((at(667) - 0.3).abs() < 2e-3, "{}", at(667));
    assert!((at(1000) - 0.5).abs() < 2e-3, "{}", at(1000));
    assert!((at(1333) - 0.7).abs() < 2e-3, "second pass peak: {}", at(1333));
    let end = b.drag(ms(s0, 2000)).unwrap();
    assert!(end.released && (place(end, span) - 0.5).abs() < 1e-6);
}

#[test]
fn scrub_moves_to_the_next_anchor_after_each_refill() {
    let t0 = T0;
    let mut b = settled_bench(101, 2, 0, t0);
    let s0 = finish_sweep(&mut b, t0);
    assert_eq!(b.phase(), slider::Phase::Scrub);
    // Two anchors: the first image and the last. Around the first,
    // the left half of the motion clamps at the rail start.
    let first = b.drag(s0).unwrap();
    assert_eq!(place(first, SPAN), 0.0);
    let trough = b.drag(ms(s0, 667)).unwrap();
    assert_eq!(place(trough, SPAN), 0.0, "clamped at the rail start");
    let end = b.drag(ms(s0, 1000)).unwrap();
    assert!(end.released);
    b.tick(ms(s0, 1000), None, Some(end), frame(true, true, 0, false));
    // Refilled: on to the second anchor, a fresh press.
    assert_eq!(b.tick(ms(s0, 1050), None, None, frame(false, false, 0, true)), None);
    assert_eq!(b.phase(), slider::Phase::Scrub);
    let d = b.drag(ms(s0, 1050)).unwrap();
    assert_eq!(place(d, SPAN), 1.0, "{d:?}");
}

#[test]
fn jump_measures_click_to_target_on_screen_then_refill() {
    let t0 = T0;
    let mut b = settled_bench(101, 0, 2, t0);
    let j0 = finish_sweep(&mut b, t0);
    assert_eq!(b.phase(), slider::Phase::Jump);
    // Two jumps: 1/4 and 3/4 of the rail.
    let click = b.drag(j0).unwrap();
    assert_eq!((place(click, SPAN), click.released), (0.25, true));
    let target = b.index_of(share(1, 4));
    assert_eq!(target, 25);
    // The sync decode blocks the click frame; the next tick shows it.
    assert_eq!(b.tick(j0, None, Some(click), frame(true, false, 0, false)), None);
    assert_eq!(b.drag(ms(j0, 90)), None);
    assert_eq!(b.tick(ms(j0, 90), None, None, frame(false, true, target, false)), None);
    assert_eq!(b.tick(ms(j0, 300), None, None, frame(false, false, target, true)), None);
    // Second jump, to 3/4.
    let click2 = b.drag(ms(j0, 300)).unwrap();
    assert_eq!(place(click2, SPAN), 0.75);
    let target2 = b.index_of(share(3, 4));
    b.tick(ms(j0, 300), None, Some(click2), frame(true, true, target2, false));
    assert_eq!(
        b.tick(ms(j0, 310), None, None, frame(false, false, target2, true)),
        Some(slider::PhaseEnd(slider::Phase::Jump))
    );
    assert!(b.is_done());
    let r = b.report().jump.unwrap();
    assert_eq!(r.jump.unwrap().max, 90 * MS);
    assert_eq!(r.refill.count, 2);
    assert_eq!(r.refill.max, 300 * MS);
}

#[test]
fn every_phase_can_be_skipped() {
    let t0 = T0;
    // Sweep skipped: settle goes straight to the scrub.
    let mut b = bench(101, true, 2, 2, t0);
    b.tick_settle(t0, None, true, true);
    assert_eq!(b.phase(), slider::Phase::Scrub);
    assert!(b.drag(t0).is_some());
    // Sweep and scrub skipped: straight to the jumps.
    let mut b = bench(101, true, 0, 2, t0);
    b.tick_settle(t0, None, true, true);
    assert_eq!(b.phase(), slider::Phase::Jump);
    // Everything skipped: done at settle.
    let mut b = bench(101, true, 0, 0, t0);
    b.tick_settle(t0, None, true, true);
    assert!(b.is_done());
    let r = b.report();
    assert!(r.sweep.is_none() && r.scrub.is_none() && r.jump.is_none());
}

#[test]
fn a_wait_that_never_ends_times_out_and_moves_on() {
    let t0 = T0;
    let mut b = settled_bench(101, 0, 0, t0);
    let d = b.drag(ms(t0, 1000)).unwrap();
    b.tick(ms(t0, 1000), None, Some(d), frame(true, true, 100, false));
    assert_eq!(b.tick(ms(t0, 5000), None, None, frame(false, false, 100, false)), None);
    // Timed out after the first pass: the return pass still runs.
    assert_eq!(b.tick(ms(t0, 11_100), None, None, frame(false, false, 100, false)), None);
    assert!(b.drag(ms(t0, 11_100)).is_some(), "return pass begins");
    let d = b.drag(ms(t0, 12_200)).unwrap();
    assert!(d.released);
    b.tick(ms(t0, 12_200), None, Some(d), frame(true, true, 0, false));
    assert_eq!(
        b.tick(ms(t0, 12_300), None, None, frame(false, false, 0, true)),
        Some(slider::PhaseEnd(slider::Phase::Sweep))
    );
    assert!(b.report().sweep.unwrap().timed_out);
}

/// Short gestures are stretched, and a scrub has a pass.
#[test]
fn gestures_have_a_shortest_time() {
    let b = SliderBench::new(101, 0, false, 1, 0, 5, 0, T0);
    let r = b.report();
    assert_eq!((r.sweep_time, r.scrub_time, r.scrub_passes), (100 * MS, 100 * MS, 1));
    assert!(b.phase_is_settle());
}

/// The loads of a phase are reported with the phase.
#[test]
fn loads_are_reported_with_their_phase() {
    let mut b = settled_bench(101, 0, 0, T0);
    b.observe_memory(70, 7);
    let loads = vec![
        SyncLoadTiming { decode: 10, convert: 2, upload: 1 },
        SyncLoadTiming { decode: 20, convert: 4, upload: 3 },
    ];
    b.set_timings(slider::Phase::Sweep, loads, 5, vec![8]);
    let r = b.report().sweep.unwrap();
    assert_eq!((r.sync.count, r.sync.decode.max, r.sync.total.max, r.lru_hits), (2, 20, 27, 5));
    assert_eq!((r.decode_times.max, r.peak_rss_bytes, r.peak_gpu_bytes), (8, 70, 7));
}

// ---- runs over folders ---------------------------------------------

/// Each folder gets all its runs before the next folder is opened.
#[test]
fn every_folder_gets_its_runs() {
    assert_eq!(runs_wanted(0), 1);
    assert_eq!(runs_wanted(3), 3);
    let mut cursor = RunCursor::first();
    let mut visits = vec![(cursor.dir, cursor.run)];
    let mut opened = 0;
    loop {
        match cursor.after_run(2, 2) {
            AfterRun::Again(next) => cursor = next,
            AfterRun::NextDir(next) => {
                opened += 1;
                cursor = next;
            }
            AfterRun::Finished => break,
        }
        visits.push((cursor.dir, cursor.run));
    }
    assert_eq!(visits, [(0, 1), (0, 2), (1, 1), (1, 2)]);
    assert_eq!(opened, 1);
}

fn options(nav: bool, slider: bool, preview: bool, skip: Vec<SkipPhase>) -> BenchOptions {
    BenchOptions {
        nav,
        slider,
        preview,
        skip,
        dirs: Vec::new(),
        max_images: None,
        tap_interval: interval(6.0),
        tap_steps: DEFAULT_TAP_STEPS,
        sweep_time: 1_000 * MS,
        scrub: ScrubParams { anchors: 5, passes: 1, time: 1_000 * MS },
        jumps: 20,
        runs: 1,
        out_dir: None,
        label: None,
    }
}

#[test]
fn benchmarks_come_in_their_order() {
    let all = options(true, true, true, Vec::new());
    assert_eq!(all.first_step(2), BenchStep::Nav);
    assert_eq!(all.first_step(1), BenchStep::TooFew);
    assert_eq!(all.after_nav(), BenchStep::Slider);
    assert_eq!(all.after_all(), BenchStep::Preview);
    let nav = options(true, false, false, Vec::new());
    assert_eq!(nav.after_nav(), BenchStep::EndRun);
    assert_eq!(nav.after_all(), BenchStep::Close);
    assert_eq!(nav.next_folder_step(1), BenchStep::Close);
    assert_eq!(nav.next_folder_step(2), BenchStep::Nav);
    assert_eq!(all.next_folder_step(0), BenchStep::Preview);
    assert_eq!(options(false, true, false, Vec::new()).run_step(), BenchStep::Slider);
    assert_eq!(options(false, true, true, Vec::new()).first_step(2), BenchStep::Slider);
    assert_eq!(options(false, false, true, Vec::new()).first_step(2), BenchStep::Preview);
    assert_eq!(options(false, false, false, Vec::new()).first_step(9), BenchStep::Nothing);
    assert!(!options(false, false, false, Vec::new()).any());
}

#[test]
fn skipped_phases_have_nothing_to_do() {
    let o = options(true, true, false, vec![SkipPhase::Scrub, SkipPhase::SkateLeft]);
    assert!(o.skips(SkipPhase::SkateLeft));
    assert!(!o.skips(SkipPhase::Sweep));
    assert_eq!((o.anchors(), o.jump_count()), (0, 20));
    let o = options(true, true, false, vec![SkipPhase::Jump]);
    assert_eq!((o.anchors(), o.jump_count()), (5, 0));
}
