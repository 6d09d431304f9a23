//! What is kept about one phase of a benchmark: when it ran, its frame times,
//! the processor time it took, its peaks of memory, the background decode
//! times, and whether it was given up. Moments and times are nanoseconds, those
//! of the processor too.
use vstd::prelude::*;

use crate::bench::stats;
use crate::bench::stats::{elapsed, LatencyStats};

verus! {

/// The time from frame to frame within a phase.
pub struct FrameTimer {
    pub last: Option<u64>,
    pub deltas: Vec<u64>,
}

/// What a frame timer holds.
#[verifier::ext_equal]
pub struct TimerView {
    pub last: Option<u64>,
    pub deltas: Seq<u64>,
}

impl View for FrameTimer {
    type V = TimerView;

    open spec fn view(&self) -> TimerView {
        TimerView { last: self.last, deltas: self.deltas@ }
    }
}

/// A timer after a frame: the first frame of a phase only starts the clock.
pub open spec fn ticked(t: TimerView, now: u64) -> TimerView {
    TimerView {
        last: Some(now),
        deltas: match t.last {
            Some(last) => t.deltas.push(stats::elapsed_of(now, last) as u64),
            None => t.deltas,
        },
    }
}

/// A timer before the first frame.
pub open spec fn fresh_timer() -> TimerView {
    TimerView { last: None, deltas: Seq::empty() }
}

impl FrameTimer {
    /// A timer before the first frame.
    pub fn new() -> (r: Self)
        ensures
            r@ == fresh_timer(),
    {
        FrameTimer { last: None, deltas: Vec::new() }
    }

    /// Notes a frame.
    pub fn tick(&mut self, now: u64)
        ensures
            final(self)@ == ticked(old(self)@, now),
    {
        if let Some(last) = self.last {
            self.deltas.push(elapsed(now, last));
        }
        self.last = Some(now);
    }

    /// The summary of the times from frame to frame.
    pub fn stats(&self) -> (r: LatencyStats)
        ensures
            r == stats::stats_of(self@.deltas),
    {
        LatencyStats::from_samples(&self.deltas)
    }
}

/// What is kept about one phase.
pub struct PhaseStats {
    pub started: u64,
    pub ended: Option<u64>,
    pub frames: FrameTimer,
    /// The processor time of the process at the start, where the system says.
    pub cpu_start: Option<u64>,
    /// The processor time of the phase.
    pub cpu: Option<u64>,
    pub peak_rss_bytes: u64,
    pub peak_gpu_bytes: u64,
    /// Background decode times, handed over when the phase ends.
    pub decode_times: Vec<u64>,
    pub timed_out: bool,
}

/// What is known about one phase.
#[verifier::ext_equal]
pub struct PhaseView {
    pub started: u64,
    pub ended: Option<u64>,
    pub frames: TimerView,
    pub cpu_start: Option<u64>,
    pub cpu: Option<u64>,
    pub peak_rss_bytes: u64,
    pub peak_gpu_bytes: u64,
    pub decode_times: Seq<u64>,
    pub timed_out: bool,
}

impl View for PhaseStats {
    type V = PhaseView;

    open spec fn view(&self) -> PhaseView {
        PhaseView {
            started: self.started,
            ended: self.ended,
            frames: self.frames@,
            cpu_start: self.cpu_start,
            cpu: self.cpu,
            peak_rss_bytes: self.peak_rss_bytes,
            peak_gpu_bytes: self.peak_gpu_bytes,
            decode_times: self.decode_times@,
            timed_out: self.timed_out,
        }
    }
}

/// A phase at its start.
pub open spec fn started_phase(now: u64, cpu: Option<u64>) -> PhaseView {
    PhaseView {
        started: now,
        ended: None,
        frames: fresh_timer(),
        cpu_start: cpu,
        cpu: None,
        peak_rss_bytes: 0,
        peak_gpu_bytes: 0,
        decode_times: Seq::empty(),
        timed_out: false,
    }
}

/// A phase at its end. Its processor time is known where both readings are.
pub open spec fn ended_phase(p: PhaseView, now: u64, cpu: Option<u64>) -> PhaseView {
    PhaseView {
        ended: Some(now),
        cpu: match (p.cpu_start, cpu) {
            (Some(a), Some(b)) => Some(stats::elapsed_of(b, a) as u64),
            _ => None,
        },
        ..p
    }
}

/// The larger of two numbers.
pub open spec fn larger(a: u64, b: u64) -> u64 {
    if a >= b {
        a
    } else {
        b
    }
}

/// A phase after a reading of the memory.
pub open spec fn observed_phase(p: PhaseView, rss: u64, gpu: u64) -> PhaseView {
    PhaseView {
        peak_rss_bytes: larger(p.peak_rss_bytes, rss),
        peak_gpu_bytes: larger(p.peak_gpu_bytes, gpu),
        ..p
    }
}

/// How long a phase took, or nothing while it runs.
pub open spec fn wall_of(p: PhaseView) -> u64 {
    match p.ended {
        Some(e) => stats::elapsed_of(e, p.started) as u64,
        None => 0,
    }
}

impl PhaseStats {
    /// Starts a phase. `cpu` is the processor time of the process so far.
    pub fn start(now: u64, cpu: Option<u64>) -> (r: Self)
        ensures
            r@ == started_phase(now, cpu),
    {
        PhaseStats {
            started: now,
            ended: None,
            frames: FrameTimer::new(),
            cpu_start: cpu,
            cpu: None,
            peak_rss_bytes: 0,
            peak_gpu_bytes: 0,
            decode_times: Vec::new(),
            timed_out: false,
        }
    }

    /// Notes a frame.
    pub fn tick_frame(&mut self, now: u64)
        ensures
            final(self)@ == (PhaseView { frames: ticked(old(self)@.frames, now), ..old(self)@ }),
    {
        self.frames.tick(now);
    }

    /// Ends a phase. `cpu` is the processor time of the process so far.
    pub fn end(&mut self, now: u64, cpu: Option<u64>)
        ensures
            final(self)@ == ended_phase(old(self)@, now, cpu),
    {
        self.ended = Some(now);
        self.cpu = match (self.cpu_start, cpu) {
            (Some(a), Some(b)) => Some(elapsed(b, a)),
            _ => None,
        };
    }

    /// How long the phase took, or nothing while it runs.
    pub fn wall(&self) -> (r: u64)
        ensures
            r == wall_of(self@),
    {
        match self.ended {
            Some(e) => elapsed(e, self.started),
            None => 0,
        }
    }

    /// Notes a reading of the memory; the peaks are kept.
    pub fn observe_memory(&mut self, rss_bytes: u64, gpu_bytes: u64)
        ensures
            final(self)@ == observed_phase(old(self)@, rss_bytes, gpu_bytes),
    {
        if rss_bytes > self.peak_rss_bytes {
            self.peak_rss_bytes = rss_bytes;
        }
        if gpu_bytes > self.peak_gpu_bytes {
            self.peak_gpu_bytes = gpu_bytes;
        }
    }

    /// The summary of the times from frame to frame.
    pub fn frame_stats(&self) -> (r: LatencyStats)
        ensures
            r == stats::stats_of(self@.frames.deltas),
    {
        self.frames.stats()
    }

    /// The summary of the background decode times.
    pub fn decode_stats(&self) -> (r: LatencyStats)
        ensures
            r == stats::stats_of(self@.decode_times),
    {
        LatencyStats::from_samples(&self.decode_times)
    }
}

/// A frame notes the time since the frame before it; the first one only starts
/// the clock.
pub proof fn law_frames_are_timed_from_one_to_the_next(t: TimerView, last: u64, now: u64)
    requires
        last <= now,
    ensures
        ticked(TimerView { last: Some(last), ..t }, now).deltas == t.deltas.push((now - last) as u64),
        ticked(TimerView { last: None, ..t }, now).deltas == t.deltas,
        ticked(t, now).last == Some(now),
        fresh_timer().last is None,
        fresh_timer().deltas.len() == 0,
{
}

/// A phase takes the time from its start to its end, and the processor time
/// between the two readings where both are known.
pub proof fn law_how_long_a_phase_took(p: PhaseView, now: u64, cpu: Option<u64>)
    requires
        p.started <= now,
    ensures
        p.started + wall_of(ended_phase(p, now, cpu)) == now,
        p.ended is None ==> wall_of(p) == 0,
        p.cpu_start matches Some(a) ==> (cpu matches Some(b) ==> (a <= b ==> ended_phase(p, now, cpu).cpu == Some(
            (b - a) as u64,
        ))),
        p.cpu_start is None || cpu is None ==> ended_phase(p, now, cpu).cpu is None,
        started_phase(now, cpu).started == now,
        started_phase(now, cpu).cpu_start == cpu,
        !started_phase(now, cpu).timed_out,
{
}

/// The peaks are the largest readings: no reading is above them, and each is one
/// of the readings.
pub proof fn law_the_largest_readings_are_kept(p: PhaseView, rss: u64, gpu: u64)
    ensures
        ({
            let after = observed_phase(p, rss, gpu);
            &&& after.peak_rss_bytes >= rss && after.peak_rss_bytes >= p.peak_rss_bytes
            &&& after.peak_rss_bytes == rss || after.peak_rss_bytes == p.peak_rss_bytes
            &&& after.peak_gpu_bytes >= gpu && after.peak_gpu_bytes >= p.peak_gpu_bytes
            &&& after.peak_gpu_bytes == gpu || after.peak_gpu_bytes == p.peak_gpu_bytes
        }),
{
}

} // verus!
