//! Which benchmarks run, and in what order.
use vstd::prelude::*;

verus! {

/// Phases that can be left out. The skate to the right stays, because the
/// skate to the left needs it to reach the far end; the taps are asked for by
/// their number.
#[derive(Debug, Clone, Copy, PartialEq, Eq, Structural)]
pub enum SkipPhase {
    SkateLeft,
    Sweep,
    Scrub,
    Jump,
}

/// The shape of one scrub.
#[derive(Debug, Clone, Copy, PartialEq, Eq, Structural)]
pub struct ScrubParams {
    /// How many anchors there are; with none the phase is left out.
    pub anchors: usize,
    /// How often each scrub goes to and fro.
    pub passes: usize,
    /// How long one scrub takes, in nanoseconds.
    pub time: u64,
}

/// Which benchmarks to run and how. The keyboard comes first, then the slider,
/// then the previews, on the same folder.
#[derive(Debug)]
pub struct BenchOptions {
    pub nav: bool,
    pub slider: bool,
    pub preview: bool,
    pub skip: Vec<SkipPhase>,
    /// The folders in order. With none, the folder that is open.
    pub dirs: Vec<String>,
    /// The limit of each skate; the whole folder where there is none.
    pub max_images: Option<usize>,
    /// The time from tap to tap, in nanoseconds.
    pub tap_interval: u64,
    pub tap_steps: usize,
    /// The time of the sweep across the rail, in nanoseconds.
    pub sweep_time: u64,
    pub scrub: ScrubParams,
    pub jumps: usize,
    /// How often the whole sequence runs.
    pub runs: usize,
    /// Where the reports are written; only printed where it is not said.
    pub out_dir: Option<String>,
    /// Free text that tells runs apart.
    pub label: Option<String>,
}

/// How often the sequence runs: at least once.
pub fn runs_wanted(runs: usize) -> (r: usize)
    ensures
        r == if runs < 1 {
            1
        } else {
            runs
        },
{
    if runs < 1 {
        1
    } else {
        runs
    }
}

impl BenchOptions {
    /// Whether any benchmark was asked for.
    pub fn any(&self) -> (r: bool)
        ensures
            r == (self.nav || self.slider || self.preview),
    {
        self.nav || self.slider || self.preview
    }

    /// Whether a phase is left out.
    pub fn skips(&self, phase: SkipPhase) -> (r: bool)
        ensures
            r == self.skip@.contains(phase),
    {
        let mut i: usize = 0;
        while i < self.skip.len()
            invariant
                i <= self.skip@.len(),
                forall|k: int| 0 <= k < i ==> self.skip@[k] != phase,
            decreases self.skip@.len() - i,
        {
            if self.skip[i] == phase {
                assert(self.skip@.contains(self.skip@[i as int]));
                return true;
            }
            i += 1;
        }
        false
    }

    /// How many anchors the scrub has, none where it is left out.
    pub fn anchors(&self) -> (r: usize)
        ensures
            r == if self.skip@.contains(SkipPhase::Scrub) {
                0
            } else {
                self.scrub.anchors
            },
    {
        if self.skips(SkipPhase::Scrub) {
            0
        } else {
            self.scrub.anchors
        }
    }

    /// How many jumps there are, none where they are left out.
    pub fn jump_count(&self) -> (r: usize)
        ensures
            r == if self.skip@.contains(SkipPhase::Jump) {
                0
            } else {
                self.jumps
            },
    {
        if self.skips(SkipPhase::Jump) {
            0
        } else {
            self.jumps
        }
    }

    /// What is done with the folder that is open at the start.
    pub fn first_step(&self, images: usize) -> (r: BenchStep)
        ensures
            r == first_step_of(self.nav, self.slider, self.preview, images),
    {
        if !self.any() {
            BenchStep::Nothing
        } else if images < 2 {
            BenchStep::TooFew
        } else if self.nav {
            BenchStep::Nav
        } else if self.slider {
            BenchStep::Slider
        } else {
            BenchStep::Preview
        }
    }

    /// What a run of a folder begins with.
    pub fn run_step(&self) -> (r: BenchStep)
        ensures
            r == run_step_of(self.nav),
    {
        if self.nav {
            BenchStep::Nav
        } else {
            BenchStep::Slider
        }
    }

    /// What is done once the next folder is open. A folder with too few
    /// pictures ends the benchmarks.
    pub fn next_folder_step(&self, images: usize) -> (r: BenchStep)
        ensures
            r == if images < 2 {
                after_all_of(self.preview)
            } else {
                run_step_of(self.nav)
            },
    {
        if images < 2 {
            self.after_all()
        } else {
            self.run_step()
        }
    }

    /// What comes after the keyboard benchmark of a run.
    pub fn after_nav(&self) -> (r: BenchStep)
        ensures
            r == if self.slider {
                BenchStep::Slider
            } else {
                BenchStep::EndRun
            },
    {
        if self.slider {
            BenchStep::Slider
        } else {
            BenchStep::EndRun
        }
    }

    /// What comes after all runs.
    pub fn after_all(&self) -> (r: BenchStep)
        ensures
            r == after_all_of(self.preview),
    {
        if self.preview {
            BenchStep::Preview
        } else {
            BenchStep::Close
        }
    }
}

/// What the application does next for its benchmarks.
#[derive(Debug, Clone, Copy, PartialEq, Eq, Structural)]
pub enum BenchStep {
    /// No benchmark was asked for.
    Nothing,
    /// The folder has too few pictures to move between.
    TooFew,
    Nav,
    Slider,
    Preview,
    /// The run is over.
    EndRun,
    Close,
}

/// What a run of a folder begins with.
pub open spec fn run_step_of(nav: bool) -> BenchStep {
    if nav {
        BenchStep::Nav
    } else {
        BenchStep::Slider
    }
}

/// What comes after all runs.
pub open spec fn after_all_of(preview: bool) -> BenchStep {
    if preview {
        BenchStep::Preview
    } else {
        BenchStep::Close
    }
}

/// What is done with the folder that is open at the start. A benchmark needs
/// two pictures.
pub open spec fn first_step_of(nav: bool, slider: bool, preview: bool, images: usize) -> BenchStep {
    if !nav && !slider && !preview {
        BenchStep::Nothing
    } else if images < 2 {
        BenchStep::TooFew
    } else if nav {
        BenchStep::Nav
    } else if slider {
        BenchStep::Slider
    } else {
        BenchStep::Preview
    }
}

/// Which run of which folder is under way. Runs are counted from 1.
#[derive(Debug, Clone, Copy, PartialEq, Eq, Structural)]
pub struct RunCursor {
    pub run: usize,
    pub dir: usize,
}

/// What comes after a run.
#[derive(Debug, Clone, Copy, PartialEq, Eq, Structural)]
pub enum AfterRun {
    /// The same folder once more.
    Again(RunCursor),
    /// The next folder.
    NextDir(RunCursor),
    /// Nothing is left.
    Finished,
}

/// What comes after a run: the same folder until it has had its runs, then the
/// next one.
pub open spec fn after_run_of(at: RunCursor, runs: usize, dirs: int) -> AfterRun {
    if at.run < runs {
        AfterRun::Again(RunCursor { run: (at.run + 1) as usize, dir: at.dir })
    } else if at.dir + 1 < dirs {
        AfterRun::NextDir(RunCursor { run: 1, dir: (at.dir + 1) as usize })
    } else {
        AfterRun::Finished
    }
}

impl RunCursor {
    /// The first run of the first folder.
    pub fn first() -> (r: Self)
        ensures
            r == (RunCursor { run: 1, dir: 0 }),
    {
        RunCursor { run: 1, dir: 0 }
    }

    /// What comes after a run.
    pub fn after_run(self, runs: usize, dirs: usize) -> (r: AfterRun)
        ensures
            r == after_run_of(self, runs, dirs as int),
    {
        if self.run < runs {
            AfterRun::Again(RunCursor { run: self.run + 1, dir: self.dir })
        } else if self.dir < dirs && self.dir + 1 < dirs {
            AfterRun::NextDir(RunCursor { run: 1, dir: self.dir + 1 })
        } else {
            AfterRun::Finished
        }
    }
}

/// How many runs are left behind one.
pub open spec fn runs_left(at: RunCursor, runs: usize, dirs: int) -> int {
    let behind = if dirs - 1 - at.dir > 0 {
        dirs - 1 - at.dir
    } else {
        0
    };
    behind * runs + (runs - at.run)
}

/// Every folder gets its runs: each step takes one of the runs that are left,
/// and the sequence is finished when none is.
pub proof fn law_every_folder_gets_its_runs(at: RunCursor, runs: usize, dirs: int)
    requires
        1 <= at.run <= runs,
        at.dir < dirs || dirs == 0 && at.dir == 0,
        dirs <= usize::MAX,
    ensures
        match after_run_of(at, runs, dirs) {
            AfterRun::Again(next) => next.dir == at.dir && 1 <= next.run <= runs && runs_left(
                next,
                runs,
                dirs,
            ) == runs_left(at, runs, dirs) - 1,
            AfterRun::NextDir(next) => next.dir == at.dir + 1 && 1 <= next.run <= runs && runs_left(
                next,
                runs,
                dirs,
            ) == runs_left(at, runs, dirs) - 1,
            AfterRun::Finished => runs_left(at, runs, dirs) == 0,
        },
{
    let behind = if dirs - 1 - at.dir > 0 {
        dirs - 1 - at.dir
    } else {
        0
    };
    assert(behind * runs - runs == (behind - 1) * runs) by (nonlinear_arith);
    assert(behind == 0 ==> behind * runs == 0) by (nonlinear_arith);
}

/// The benchmarks start with the first that was asked for, of the keyboard, the
/// slider and the previews, where the folder has two pictures; after all runs come
/// the previews, where they were asked for.
pub proof fn law_what_the_benchmarks_start_with(nav: bool, slider: bool, preview: bool, images: usize)
    ensures
        first_step_of(false, false, false, images) == BenchStep::Nothing,
        (nav || slider || preview) && images <= 1 ==> first_step_of(nav, slider, preview, images) == BenchStep::TooFew,
        nav && images >= 2 ==> first_step_of(nav, slider, preview, images) == BenchStep::Nav,
        !nav && slider && images >= 2 ==> first_step_of(nav, slider, preview, images) == BenchStep::Slider,
        !nav && !slider && preview && images >= 2 ==> first_step_of(nav, slider, preview, images)
            == BenchStep::Preview,
        nav ==> run_step_of(nav) == BenchStep::Nav,
        !nav ==> run_step_of(nav) == BenchStep::Slider,
        preview ==> after_all_of(preview) == BenchStep::Preview,
        !preview ==> after_all_of(preview) == BenchStep::Close,
{
}

/// A folder is run again until it has had its runs, then the next one starts with
/// its first run, and after the last folder it is over.
pub proof fn law_which_run_comes_next(at: RunCursor, runs: usize, dirs: int)
    requires
        at.run < usize::MAX,
        at.dir < usize::MAX,
    ensures
        at.run < runs ==> (after_run_of(at, runs, dirs) matches AfterRun::Again(next) && next.run == at.run + 1
            && next.dir == at.dir),
        at.run >= runs && at.dir + 1 < dirs ==> (after_run_of(at, runs, dirs) matches AfterRun::NextDir(next)
            && next.run == 1 && next.dir == at.dir + 1),
        at.run >= runs && at.dir + 1 >= dirs ==> after_run_of(at, runs, dirs) is Finished,
{
}

} // verus!
