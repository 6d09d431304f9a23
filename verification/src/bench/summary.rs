//! All runs of one invocation, averaged folder by folder.
//!
//! Averages and ranges come as texts: whoever calls works them out over the
//! runs that the groups name.
use vstd::prelude::*;

use crate::bench::report;
use crate::bench::report::{
    name_of_folder, num_text, push_label, BenchReport, SettingsSnapshot, SkateFigures, SliderPhaseFigures,
};
use crate::metadata::curated;
use crate::path;
use crate::path::same_path;
use crate::picked;
use crate::text;
use crate::text::fill;

verus! {

/// A phase of a run, or the whole of one of its benchmarks.
#[derive(Debug, Clone, Copy, PartialEq, Eq, Structural)]
pub enum Part {
    Nav,
    SkateRight,
    SkateLeft,
    Tap,
    Sweep,
    Scrub,
    Jump,
}

/// Whether a run has a part.
pub open spec fn has_part(r: BenchReport, part: Part) -> bool {
    match part {
        Part::Nav => r.nav is Some,
        Part::SkateRight => r.nav matches Some(n) && n.skate_right is Some,
        Part::SkateLeft => r.nav matches Some(n) && n.skate_left is Some,
        Part::Tap => r.nav matches Some(n) && n.tap is Some,
        Part::Sweep => r.slider matches Some(s) && s.sweep is Some,
        Part::Scrub => r.slider matches Some(s) && s.scrub is Some,
        Part::Jump => r.slider matches Some(s) && s.jump is Some,
    }
}

/// Whether a run has a part that was given up.
pub open spec fn gave_up(r: BenchReport, part: Part) -> bool {
    match part {
        Part::Nav => r.nav matches Some(n) && n.settle.timed_out,
        Part::SkateRight => r.nav matches Some(n) && (n.skate_right matches Some(s) && s.timed_out),
        Part::SkateLeft => r.nav matches Some(n) && (n.skate_left matches Some(s) && s.timed_out),
        Part::Tap => r.nav matches Some(n) && (n.tap matches Some(t) && t.timed_out),
        Part::Sweep => r.slider matches Some(s) && (s.sweep matches Some(p) && p.timed_out),
        Part::Scrub => r.slider matches Some(s) && (s.scrub matches Some(p) && p.timed_out),
        Part::Jump => r.slider matches Some(s) && (s.jump matches Some(p) && p.timed_out),
    }
}

/// Whether a run has a part that measured clicks.
pub open spec fn has_clicks(r: BenchReport, part: Part) -> bool {
    match part {
        Part::Sweep => r.slider matches Some(s) && (s.sweep matches Some(p) && p.jump is Some),
        Part::Scrub => r.slider matches Some(s) && (s.scrub matches Some(p) && p.jump is Some),
        Part::Jump => r.slider matches Some(s) && (s.jump matches Some(p) && p.jump is Some),
        _ => false,
    }
}

fn part_in(r: &BenchReport, part: Part) -> (b: bool)
    ensures
        b == has_part(*r, part),
{
    match part {
        Part::Nav => r.nav.is_some(),
        Part::SkateRight => match &r.nav {
            Some(n) => n.skate_right.is_some(),
            None => false,
        },
        Part::SkateLeft => match &r.nav {
            Some(n) => n.skate_left.is_some(),
            None => false,
        },
        Part::Tap => match &r.nav {
            Some(n) => n.tap.is_some(),
            None => false,
        },
        Part::Sweep => match &r.slider {
            Some(s) => s.sweep.is_some(),
            None => false,
        },
        Part::Scrub => match &r.slider {
            Some(s) => s.scrub.is_some(),
            None => false,
        },
        Part::Jump => match &r.slider {
            Some(s) => s.jump.is_some(),
            None => false,
        },
    }
}

fn part_gave_up(r: &BenchReport, part: Part) -> (b: bool)
    ensures
        b == gave_up(*r, part),
{
    match part {
        Part::Nav => match &r.nav {
            Some(n) => n.settle.timed_out,
            None => false,
        },
        Part::SkateRight => match &r.nav {
            Some(n) => match &n.skate_right {
                Some(s) => s.timed_out,
                None => false,
            },
            None => false,
        },
        Part::SkateLeft => match &r.nav {
            Some(n) => match &n.skate_left {
                Some(s) => s.timed_out,
                None => false,
            },
            None => false,
        },
        Part::Tap => match &r.nav {
            Some(n) => match &n.tap {
                Some(t) => t.timed_out,
                None => false,
            },
            None => false,
        },
        Part::Sweep => match &r.slider {
            Some(s) => match &s.sweep {
                Some(p) => p.timed_out,
                None => false,
            },
            None => false,
        },
        Part::Scrub => match &r.slider {
            Some(s) => match &s.scrub {
                Some(p) => p.timed_out,
                None => false,
            },
            None => false,
        },
        Part::Jump => match &r.slider {
            Some(s) => match &s.jump {
                Some(p) => p.timed_out,
                None => false,
            },
            None => false,
        },
    }
}

fn part_has_clicks(r: &BenchReport, part: Part) -> (b: bool)
    ensures
        b == has_clicks(*r, part),
{
    match part {
        Part::Sweep => match &r.slider {
            Some(s) => match &s.sweep {
                Some(p) => p.jump.is_some(),
                None => false,
            },
            None => false,
        },
        Part::Scrub => match &r.slider {
            Some(s) => match &s.scrub {
                Some(p) => p.jump.is_some(),
                None => false,
            },
            None => false,
        },
        Part::Jump => match &r.slider {
            Some(s) => match &s.jump {
                Some(p) => p.jump.is_some(),
                None => false,
            },
            None => false,
        },
        _ => false,
    }
}

/// Whether a run is of a folder.
pub open spec fn is_of(reports: Seq<BenchReport>, folder: Seq<char>) -> spec_fn(int) -> bool {
    |i: int| path::is_same_path(reports[i].header.folder@, folder)
}

/// Whether a run is the first of its folder.
pub open spec fn is_first(reports: Seq<BenchReport>, i: int) -> bool {
    forall|j: int|
        0 <= j < i ==> !path::is_same_path((#[trigger] reports[j]).header.folder@, reports[i].header.folder@)
}

/// The first run of each folder, in order.
pub open spec fn firsts(reports: Seq<BenchReport>) -> Seq<usize> {
    picked::picked(reports.len() as int, |i: int| is_first(reports, i))
}

/// The runs of a folder that have a part.
pub open spec fn runs_with(reports: Seq<BenchReport>, folder: Seq<char>, part: Part) -> Seq<usize> {
    picked::picked(
        reports.len() as int,
        |i: int| path::is_same_path(reports[i].header.folder@, folder) && has_part(reports[i], part),
    )
}

/// The runs of a folder that gave a part up.
pub open spec fn runs_given_up(reports: Seq<BenchReport>, folder: Seq<char>, part: Part) -> Seq<
    usize,
> {
    picked::picked(
        reports.len() as int,
        |i: int| path::is_same_path(reports[i].header.folder@, folder) && gave_up(reports[i], part),
    )
}

/// The runs of a folder that measured clicks in a part.
pub open spec fn runs_with_clicks(
    reports: Seq<BenchReport>,
    folder: Seq<char>,
    part: Part,
) -> Seq<usize> {
    picked::picked(
        reports.len() as int,
        |i: int| path::is_same_path(reports[i].header.folder@, folder) && has_clicks(reports[i], part),
    )
}

/// The runs of one part: which have it, how many gave it up, and which
/// measured clicks.
#[derive(Debug)]
pub struct PartGroup {
    pub runs: Vec<usize>,
    pub timeouts: usize,
    pub with_clicks: Vec<usize>,
}

/// The runs of one folder.
#[derive(Debug)]
pub struct FolderGroup {
    pub folder: String,
    pub image_count: usize,
    pub runs: Vec<usize>,
    pub nav: PartGroup,
    pub skate_right: PartGroup,
    pub skate_left: PartGroup,
    pub tap: PartGroup,
    pub sweep: PartGroup,
    pub scrub: PartGroup,
    pub jump: PartGroup,
}

/// Whether a group holds the runs of a part.
pub open spec fn is_part_group(
    g: PartGroup,
    reports: Seq<BenchReport>,
    folder: Seq<char>,
    part: Part,
) -> bool {
    &&& g.runs@ == runs_with(reports, folder, part)
    &&& g.timeouts == runs_given_up(reports, folder, part).len()
    &&& g.with_clicks@ == runs_with_clicks(reports, folder, part)
}

/// Whether a group holds the runs of the folder of a run.
pub open spec fn is_folder_group(g: FolderGroup, reports: Seq<BenchReport>, first: int) -> bool {
    let folder = reports[first].header.folder@;
    &&& g.folder@ == folder
    &&& g.image_count == reports[first].header.image_count
    &&& g.runs@ == picked::picked(reports.len() as int, is_of(reports, folder))
    &&& is_part_group(g.nav, reports, folder, Part::Nav)
    &&& is_part_group(g.skate_right, reports, folder, Part::SkateRight)
    &&& is_part_group(g.skate_left, reports, folder, Part::SkateLeft)
    &&& is_part_group(g.tap, reports, folder, Part::Tap)
    &&& is_part_group(g.sweep, reports, folder, Part::Sweep)
    &&& is_part_group(g.scrub, reports, folder, Part::Scrub)
    &&& is_part_group(g.jump, reports, folder, Part::Jump)
}

/// The runs of one part.
fn part_group(reports: &Vec<BenchReport>, folder: &str, part: Part) -> (r: PartGroup)
    ensures
        is_part_group(r, reports@, folder@, part),
{
    let ghost with = |i: int| path::is_same_path(reports@[i].header.folder@, folder@) && has_part(reports@[i], part);
    let ghost given_up = |i: int|
        path::is_same_path(reports@[i].header.folder@, folder@) && gave_up(reports@[i], part);
    let ghost clicks = |i: int|
        path::is_same_path(reports@[i].header.folder@, folder@) && has_clicks(reports@[i], part);
    let mut g = PartGroup { runs: Vec::new(), timeouts: 0, with_clicks: Vec::new() };
    let mut i: usize = 0;
    while i < reports.len()
        invariant
            i <= reports@.len(),
            with == (|i: int|
                path::is_same_path(reports@[i].header.folder@, folder@) && has_part(reports@[i], part)),
            given_up == (|i: int|
                path::is_same_path(reports@[i].header.folder@, folder@) && gave_up(reports@[i], part)),
            clicks == (|i: int|
                path::is_same_path(reports@[i].header.folder@, folder@) && has_clicks(reports@[i], part)),
            g.runs@ == picked::picked(i as int, with),
            g.timeouts == picked::picked(i as int, given_up).len(),
            g.timeouts <= i,
            g.with_clicks@ == picked::picked(i as int, clicks),
        decreases reports@.len() - i,
    {
        let r = &reports[i];
        if same_path(r.header.folder.as_str(), folder) {
            if part_in(r, part) {
                g.runs.push(i);
            }
            if part_gave_up(r, part) {
                g.timeouts += 1;
            }
            if part_has_clicks(r, part) {
                g.with_clicks.push(i);
            }
        }
        i += 1;
    }
    g
}

/// The runs of the folder of a run.
fn folder_group(reports: &Vec<BenchReport>, first: usize) -> (r: FolderGroup)
    requires
        first < reports@.len(),
    ensures
        is_folder_group(r, reports@, first as int),
{
    let folder = reports[first].header.folder.clone();
    let ghost pick = is_of(reports@, folder@);
    let mut runs: Vec<usize> = Vec::new();
    let mut i: usize = 0;
    while i < reports.len()
        invariant
            i <= reports@.len(),
            pick == is_of(reports@, folder@),
            runs@ == picked::picked(i as int, pick),
        decreases reports@.len() - i,
    {
        if same_path(reports[i].header.folder.as_str(), folder.as_str()) {
            runs.push(i);
        }
        i += 1;
    }
    let nav = part_group(reports, folder.as_str(), Part::Nav);
    let skate_right = part_group(reports, folder.as_str(), Part::SkateRight);
    let skate_left = part_group(reports, folder.as_str(), Part::SkateLeft);
    let tap = part_group(reports, folder.as_str(), Part::Tap);
    let sweep = part_group(reports, folder.as_str(), Part::Sweep);
    let scrub = part_group(reports, folder.as_str(), Part::Scrub);
    let jump = part_group(reports, folder.as_str(), Part::Jump);
    FolderGroup {
        folder,
        image_count: reports[first].header.image_count,
        runs,
        nav,
        skate_right,
        skate_left,
        tap,
        sweep,
        scrub,
        jump,
    }
}

/// Whether a run is the first of its folder.
fn first_of_folder(reports: &Vec<BenchReport>, i: usize) -> (r: bool)
    requires
        i < reports@.len(),
    ensures
        r == is_first(reports@, i as int),
{
    let mut j: usize = 0;
    while j < i
        invariant
            j <= i < reports@.len(),
            forall|k: int|
                0 <= k < j ==> !path::is_same_path(
                    (#[trigger] reports@[k]).header.folder@,
                    reports@[i as int].header.folder@,
                ),
        decreases i - j,
    {
        if same_path(reports[j].header.folder.as_str(), reports[i].header.folder.as_str()) {
            assert(path::is_same_path(
                reports@[j as int].header.folder@,
                reports@[i as int].header.folder@,
            ));
            return false;
        }
        j += 1;
    }
    true
}

/// Whether groups hold the runs, folder by folder, in the order in which the
/// folders were first seen.
pub open spec fn are_groups(groups: Seq<FolderGroup>, reports: Seq<BenchReport>) -> bool {
    &&& groups.len() == firsts(reports).len()
    &&& forall|k: int|
        0 <= k < groups.len() ==> is_folder_group(
            #[trigger] groups[k],
            reports,
            firsts(reports)[k] as int,
        )
}

/// The runs, folder by folder, in the order in which the folders were first
/// seen. Without runs there is no summary.
pub fn groups_of(reports: &Vec<BenchReport>) -> (r: Option<Vec<FolderGroup>>)
    ensures
        match r {
            Some(groups) => reports@.len() > 0 && are_groups(groups@, reports@),
            None => reports@.len() == 0,
        },
{
    if reports.len() == 0 {
        return None;
    }
    let ghost pick = |i: int| is_first(reports@, i);
    let mut groups: Vec<FolderGroup> = Vec::new();
    let mut i: usize = 0;
    while i < reports.len()
        invariant
            i <= reports@.len(),
            pick == (|i: int| is_first(reports@, i)),
            groups@.len() == picked::picked(i as int, pick).len(),
            forall|k: int|
                0 <= k < groups@.len() ==> is_folder_group(
                    #[trigger] groups@[k],
                    reports@,
                    picked::picked(i as int, pick)[k] as int,
                ),
        decreases reports@.len() - i,
    {
        if first_of_folder(reports, i) {
            groups.push(folder_group(reports, i));
        }
        i += 1;
    }
    Some(groups)
}

/// Every run is in the group of its folder, and in no other one.
pub proof fn law_every_run_is_in_one_group(
    groups: Seq<FolderGroup>,
    reports: Seq<BenchReport>,
    run: usize,
)
    requires
        are_groups(groups, reports),
        run < reports.len() <= usize::MAX,
    ensures
        exists|k: int|
            0 <= k < groups.len() && #[trigger] groups[k].runs@.contains(run) && path::is_same_path(
                groups[k].folder@,
                reports[run as int].header.folder@,
            ),
        forall|a: int, b: int|
            0 <= a < groups.len() && 0 <= b < groups.len() && #[trigger] groups[a].runs@.contains(
                run,
            ) && #[trigger] groups[b].runs@.contains(run) ==> a == b,
{
    let n = reports.len() as int;
    let pick = |i: int| is_first(reports, i);
    picked::law_picked_numbers(n, pick);
    let first = lemma_first_run(reports, run as int);
    assert(pick(first));
    assert(firsts(reports).contains(first as usize));
    let k = choose|k: int| 0 <= k < firsts(reports).len() && firsts(reports)[k] == first as usize;
    let folder = reports[first].header.folder@;
    picked::law_picked_numbers(n, is_of(reports, folder));
    assert(is_folder_group(groups[k], reports, first));
    assert(is_of(reports, folder)(run as int));
    assert(groups[k].runs@.contains(run));
    assert forall|a: int, b: int|
        0 <= a < groups.len() && 0 <= b < groups.len() && #[trigger] groups[a].runs@.contains(run)
            && #[trigger] groups[b].runs@.contains(run) implies a == b by {
        let fa = firsts(reports)[a] as int;
        let fb = firsts(reports)[b] as int;
        assert(is_folder_group(groups[a], reports, fa));
        assert(is_folder_group(groups[b], reports, fb));
        picked::law_picked_numbers(n, is_of(reports, reports[fa].header.folder@));
        picked::law_picked_numbers(n, is_of(reports, reports[fb].header.folder@));
        let ra = groups[a].runs@;
        let rb = groups[b].runs@;
        let ia = choose|i: int| 0 <= i < ra.len() && ra[i] == run;
        let ib = choose|i: int| 0 <= i < rb.len() && rb[i] == run;
        assert(is_of(reports, reports[fa].header.folder@)(ra[ia] as int));
        assert(is_of(reports, reports[fb].header.folder@)(rb[ib] as int));
        assert(path::is_same_path(reports[fa].header.folder@, reports[fb].header.folder@));
        assert(pick(fa) && pick(fb));
        if fa < fb {
            assert(!path::is_same_path(reports[fa].header.folder@, reports[fb].header.folder@));
        }
        if fb < fa {
            assert(!path::is_same_path(reports[fb].header.folder@, reports[fa].header.folder@));
        }
        if a < b {
            assert(firsts(reports)[a] < firsts(reports)[b]);
        }
        if b < a {
            assert(firsts(reports)[b] < firsts(reports)[a]);
        }
    }
}

/// The first run of the folder of a run.
proof fn lemma_first_run(reports: Seq<BenchReport>, run: int) -> (first: int)
    requires
        0 <= run < reports.len(),
    ensures
        0 <= first <= run,
        is_first(reports, first),
        path::is_same_path(reports[first].header.folder@, reports[run].header.folder@),
    decreases run,
{
    if is_first(reports, run) {
        run
    } else {
        let j = choose|j: int|
            0 <= j < run && path::is_same_path(
                (#[trigger] reports[j]).header.folder@,
                reports[run].header.folder@,
            );
        lemma_first_run(reports, j)
    }
}

/// One metric over the runs: the average, with its range in brackets where
/// there are several values.
pub open spec fn spread_cell(
    n: int,
    equal: bool,
    mean: Seq<char>,
    min: Seq<char>,
    max: Seq<char>,
) -> Seq<char> {
    if n <= 1 || equal {
        mean
    } else {
        mean + " ("@ + min + " to "@ + max + ")"@
    }
}

/// One metric over `n` runs: the average, with its range in brackets where
/// there are several values.
pub fn cell(n: usize, equal: bool, mean: &str, min: &str, max: &str) -> (r: String)
    ensures
        r@ == spread_cell(n as int, equal, mean@, min@, max@),
{
    let mut out = mean.to_owned();
    if n <= 1 || equal {
        return out;
    }
    out.append(" (");
    out.append(min);
    out.append(" to ");
    out.append(max);
    out.append(")");
    out
}

/// One skate over the runs.
pub struct SkateSummary {
    pub direction: String,
    pub images: usize,
    pub images_per_sec: String,
    pub stall_percent: String,
    pub frame_p50: String,
    pub frame_p99: String,
    pub decode_p50: String,
    pub decode_p95: String,
    pub cpu: String,
    pub peak_rss: String,
    pub timeouts: usize,
}

/// The taps over the runs.
pub struct TapSummary {
    pub rate: String,
    pub steps: usize,
    pub latency_p50: String,
    pub latency_p95: String,
    pub latency_max: String,
    pub frame_p99: String,
    pub decode_p50: String,
    pub cpu: String,
    pub timeouts: usize,
}

/// One phase of the slider over the runs.
pub struct SliderPhaseSummary {
    pub phase: String,
    pub positions: usize,
    pub shown_percent: String,
    pub block_p50: String,
    pub block_p95: String,
    pub lru_hits: String,
    pub refill_p50: String,
    pub jump_p50: Option<String>,
    pub jump_p95: Option<String>,
    pub frame_p99: String,
    pub cpu: String,
    pub timeouts: usize,
}

/// One folder over its runs.
pub struct FolderSummary {
    pub folder: String,
    pub image_count: usize,
    pub runs: usize,
    pub first_image: String,
    pub settled: String,
    pub skate_right: Option<SkateSummary>,
    pub skate_left: Option<SkateSummary>,
    pub tap: Option<TapSummary>,
    pub slider: Vec<SliderPhaseSummary>,
}

/// All runs of one invocation.
pub struct Summary {
    pub date_utc: String,
    pub version: String,
    pub git_hash: String,
    pub profile: String,
    pub platform: String,
    pub hostname: String,
    pub label: Option<String>,
    pub settings: SettingsSnapshot,
    pub folders: Vec<FolderSummary>,
}

/// What was measured in the skates of one folder. The numbers are texts.
pub struct SkateTexts {
    pub images_per_sec: String,
    pub stall_percent: String,
    pub frame_p50: String,
    pub frame_p99: String,
    pub decode_p50: String,
    pub decode_p95: String,
    pub cpu: String,
    pub peak_rss: String,
}

/// What was measured in the taps of one folder.
pub struct TapTexts {
    pub latency_p50: String,
    pub latency_p95: String,
    pub latency_max: String,
    pub frame_p99: String,
    pub decode_p50: String,
    pub cpu: String,
}

/// What was measured in one phase of the slider in one folder.
pub struct PhaseTexts {
    pub shown_percent: String,
    pub block_p50: String,
    pub block_p95: String,
    pub lru_hits: String,
    pub refill_p50: String,
    pub jump_p50: String,
    pub jump_p95: String,
    pub frame_p99: String,
    pub cpu: String,
}

/// What was measured in one folder over its runs. The texts of a part that no
/// run has are not used.
pub struct FolderFigures {
    pub first_image: String,
    pub settled: String,
    pub skate_right: SkateTexts,
    pub skate_left: SkateTexts,
    pub tap: TapTexts,
    pub sweep: PhaseTexts,
    pub scrub: PhaseTexts,
    pub jump: PhaseTexts,
}

/// The figures of a skate of a run that has it.
pub open spec fn skate_of(r: BenchReport, part: Part) -> SkateFigures {
    if part is SkateRight {
        r.nav->0.skate_right->0
    } else {
        r.nav->0.skate_left->0
    }
}

/// The figures of a phase of the slider of a run that has it.
pub open spec fn phase_of(r: BenchReport, part: Part) -> SliderPhaseFigures {
    if part is Sweep {
        r.slider->0.sweep->0
    } else if part is Scrub {
        r.slider->0.scrub->0
    } else {
        r.slider->0.jump->0
    }
}

/// Whether a row is that of a skate: there is one where some run has the skate,
/// with the direction and the number of pictures of the first such run, and the
/// number of runs that gave it up.
pub open spec fn is_skate_row(
    row: Option<SkateSummary>,
    reports: Seq<BenchReport>,
    folder: Seq<char>,
    part: Part,
    t: SkateTexts,
) -> bool {
    let runs = runs_with(reports, folder, part);
    if runs.len() == 0 {
        row is None
    } else {
        let first = skate_of(reports[runs[0] as int], part);
        row matches Some(s) && {
            &&& s.direction@ == first.direction@
            &&& s.images == first.images
            &&& s.images_per_sec == t.images_per_sec
            &&& s.stall_percent == t.stall_percent
            &&& s.frame_p50 == t.frame_p50
            &&& s.frame_p99 == t.frame_p99
            &&& s.decode_p50 == t.decode_p50
            &&& s.decode_p95 == t.decode_p95
            &&& s.cpu == t.cpu
            &&& s.peak_rss == t.peak_rss
            &&& s.timeouts == runs_given_up(reports, folder, part).len()
        }
    }
}

/// Whether a row is that of the taps: there is one where some run has taps, with
/// the rate and the number of steps of the first such run, and the number of
/// runs that gave them up.
pub open spec fn is_tap_row(
    row: Option<TapSummary>,
    reports: Seq<BenchReport>,
    folder: Seq<char>,
    t: TapTexts,
) -> bool {
    let runs = runs_with(reports, folder, Part::Tap);
    if runs.len() == 0 {
        row is None
    } else {
        let first = reports[runs[0] as int].nav->0.tap->0;
        row matches Some(s) && {
            &&& s.rate@ == first.whole_rate@
            &&& s.steps == first.steps
            &&& s.latency_p50 == t.latency_p50
            &&& s.latency_p95 == t.latency_p95
            &&& s.latency_max == t.latency_max
            &&& s.frame_p99 == t.frame_p99
            &&& s.decode_p50 == t.decode_p50
            &&& s.cpu == t.cpu
            &&& s.timeouts == runs_given_up(reports, folder, Part::Tap).len()
        }
    }
}

/// Whether a row is that of a phase of the slider: there is one where some run
/// has the phase, with the name and the number of positions of the first such
/// run, the clicks where some run measured them, and the number of runs that
/// gave it up.
pub open spec fn is_phase_row(
    row: Option<SliderPhaseSummary>,
    reports: Seq<BenchReport>,
    folder: Seq<char>,
    part: Part,
    t: PhaseTexts,
) -> bool {
    let runs = runs_with(reports, folder, part);
    if runs.len() == 0 {
        row is None
    } else {
        let first = phase_of(reports[runs[0] as int], part);
        let clicks = runs_with_clicks(reports, folder, part).len() > 0;
        row matches Some(s) && {
            &&& s.phase@ == first.phase@
            &&& s.positions == first.positions
            &&& s.shown_percent == t.shown_percent
            &&& s.block_p50 == t.block_p50
            &&& s.block_p95 == t.block_p95
            &&& s.lru_hits == t.lru_hits
            &&& s.refill_p50 == t.refill_p50
            &&& s.jump_p50 == if clicks { Some(t.jump_p50) } else { None }
            &&& s.jump_p95 == if clicks { Some(t.jump_p95) } else { None }
            &&& s.frame_p99 == t.frame_p99
            &&& s.cpu == t.cpu
            &&& s.timeouts == runs_given_up(reports, folder, part).len()
        }
    }
}

/// The rows that are there.
pub open spec fn parts_there(
    sweep: Option<SliderPhaseSummary>,
    scrub: Option<SliderPhaseSummary>,
    jump: Option<SliderPhaseSummary>,
) -> Seq<SliderPhaseSummary> {
    part_there(sweep) + part_there(scrub) + part_there(jump)
}

/// A row, where it is there.
pub open spec fn part_there(row: Option<SliderPhaseSummary>) -> Seq<SliderPhaseSummary> {
    match row {
        Some(row) => seq![row],
        None => Seq::empty(),
    }
}

/// Whether rows are those of the phases of the slider that some run has, in
/// their order.
pub open spec fn are_slider_rows(
    rows: Seq<SliderPhaseSummary>,
    reports: Seq<BenchReport>,
    folder: Seq<char>,
    figures: FolderFigures,
) -> bool {
    exists|sweep: Option<SliderPhaseSummary>, scrub: Option<SliderPhaseSummary>, jump: Option<SliderPhaseSummary>|
        rows == #[trigger] parts_there(sweep, scrub, jump) && is_phase_row(
            sweep,
            reports,
            folder,
            Part::Sweep,
            figures.sweep,
        ) && is_phase_row(scrub, reports, folder, Part::Scrub, figures.scrub) && is_phase_row(
            jump,
            reports,
            folder,
            Part::Jump,
            figures.jump,
        )
}

/// Whether a summary of a folder says which folder it is of, and has a row of
/// figures for each part that some run has.
pub open spec fn is_folder_summary(f: FolderSummary, reports: Seq<BenchReport>, first: int, figures: FolderFigures) -> bool {
    let folder = reports[first].header.folder@;
    &&& f.folder@ == folder
    &&& f.image_count == reports[first].header.image_count
    &&& f.runs == picked::picked(reports.len() as int, is_of(reports, folder)).len()
    &&& f.first_image == figures.first_image
    &&& f.settled == figures.settled
    &&& is_skate_row(f.skate_right, reports, folder, Part::SkateRight, figures.skate_right)
    &&& is_skate_row(f.skate_left, reports, folder, Part::SkateLeft, figures.skate_left)
    &&& is_tap_row(f.tap, reports, folder, figures.tap)
    &&& are_slider_rows(f.slider@, reports, folder, figures)
}

/// The first run of a group has the part.
proof fn lemma_first_has_part(reports: Seq<BenchReport>, folder: Seq<char>, part: Part)
    requires
        runs_with(reports, folder, part).len() > 0,
        reports.len() <= usize::MAX,
    ensures
        runs_with(reports, folder, part)[0] < reports.len(),
        has_part(reports[runs_with(reports, folder, part)[0] as int], part),
{
    let pick = |i: int| path::is_same_path(reports[i].header.folder@, folder) && has_part(reports[i], part);
    picked::law_picked_numbers(reports.len() as int, pick);
    let runs = runs_with(reports, folder, part);
    assert(runs == picked::picked(reports.len() as int, pick));
    assert(pick(runs[0] as int));
}

/// The row of a skate.
fn skate_part(
    reports: &Vec<BenchReport>,
    Ghost(folder): Ghost<Seq<char>>,
    part: Part,
    g: &PartGroup,
    t: SkateTexts,
) -> (r: Option<SkateSummary>)
    requires
        is_part_group(*g, reports@, folder, part),
        part is SkateRight || part is SkateLeft,
    ensures
        is_skate_row(r, reports@, folder, part, t),
{
    if g.runs.len() == 0 {
        return None;
    }
    assert(reports@.len() == reports.len());
    proof {
        lemma_first_has_part(reports@, folder, part);
    }
    let nav = reports[g.runs[0]].nav.as_ref().unwrap();
    let first = match part {
        Part::SkateRight => nav.skate_right.as_ref().unwrap(),
        _ => nav.skate_left.as_ref().unwrap(),
    };
    Some(
        SkateSummary {
            direction: first.direction.clone(),
            images: first.images,
            images_per_sec: t.images_per_sec,
            stall_percent: t.stall_percent,
            frame_p50: t.frame_p50,
            frame_p99: t.frame_p99,
            decode_p50: t.decode_p50,
            decode_p95: t.decode_p95,
            cpu: t.cpu,
            peak_rss: t.peak_rss,
            timeouts: g.timeouts,
        },
    )
}

/// The row of the taps.
fn tap_part(
    reports: &Vec<BenchReport>,
    Ghost(folder): Ghost<Seq<char>>,
    g: &PartGroup,
    t: TapTexts,
) -> (r: Option<TapSummary>)
    requires
        is_part_group(*g, reports@, folder, Part::Tap),
    ensures
        is_tap_row(r, reports@, folder, t),
{
    if g.runs.len() == 0 {
        return None;
    }
    assert(reports@.len() == reports.len());
    proof {
        lemma_first_has_part(reports@, folder, Part::Tap);
    }
    let first = reports[g.runs[0]].nav.as_ref().unwrap().tap.as_ref().unwrap();
    Some(
        TapSummary {
            rate: first.whole_rate.clone(),
            steps: first.steps,
            latency_p50: t.latency_p50,
            latency_p95: t.latency_p95,
            latency_max: t.latency_max,
            frame_p99: t.frame_p99,
            decode_p50: t.decode_p50,
            cpu: t.cpu,
            timeouts: g.timeouts,
        },
    )
}

/// The row of a phase of the slider.
fn phase_part(
    reports: &Vec<BenchReport>,
    Ghost(folder): Ghost<Seq<char>>,
    part: Part,
    g: &PartGroup,
    t: PhaseTexts,
) -> (r: Option<SliderPhaseSummary>)
    requires
        is_part_group(*g, reports@, folder, part),
        part is Sweep || part is Scrub || part is Jump,
    ensures
        is_phase_row(r, reports@, folder, part, t),
{
    if g.runs.len() == 0 {
        return None;
    }
    assert(reports@.len() == reports.len());
    proof {
        lemma_first_has_part(reports@, folder, part);
    }
    let slider = reports[g.runs[0]].slider.as_ref().unwrap();
    let first = match part {
        Part::Sweep => slider.sweep.as_ref().unwrap(),
        Part::Scrub => slider.scrub.as_ref().unwrap(),
        _ => slider.jump.as_ref().unwrap(),
    };
    let (jump_p50, jump_p95) = if g.with_clicks.len() > 0 {
        (Some(t.jump_p50), Some(t.jump_p95))
    } else {
        (None, None)
    };
    Some(
        SliderPhaseSummary {
            phase: first.phase.clone(),
            positions: first.positions,
            shown_percent: t.shown_percent,
            block_p50: t.block_p50,
            block_p95: t.block_p95,
            lru_hits: t.lru_hits,
            refill_p50: t.refill_p50,
            jump_p50,
            jump_p95,
            frame_p99: t.frame_p99,
            cpu: t.cpu,
            timeouts: g.timeouts,
        },
    )
}

/// Appends a row, where it is there.
fn push_part(rows: &mut Vec<SliderPhaseSummary>, row: Option<SliderPhaseSummary>)
    ensures
        final(rows)@ == old(rows)@ + part_there(row),
{
    if let Some(row) = row {
        rows.push(row);
    }
    assert(rows@ =~= old(rows)@ + part_there(row));
}

/// The summary of one folder.
fn folder_summary(reports: &Vec<BenchReport>, g: &FolderGroup, Ghost(first): Ghost<int>, f: FolderFigures) -> (r: FolderSummary)
    requires
        is_folder_group(*g, reports@, first),
    ensures
        is_folder_summary(r, reports@, first, f),
{
    let ghost folder = reports@[first].header.folder@;
    let ghost figures = f;
    let sweep = phase_part(reports, Ghost(folder), Part::Sweep, &g.sweep, f.sweep);
    let scrub = phase_part(reports, Ghost(folder), Part::Scrub, &g.scrub, f.scrub);
    let jump = phase_part(reports, Ghost(folder), Part::Jump, &g.jump, f.jump);
    let ghost rows = parts_there(sweep, scrub, jump);
    let mut slider: Vec<SliderPhaseSummary> = Vec::new();
    push_part(&mut slider, sweep);
    push_part(&mut slider, scrub);
    push_part(&mut slider, jump);
    assert(slider@ =~= rows);
    assert(are_slider_rows(slider@, reports@, folder, figures));
    FolderSummary {
        folder: g.folder.clone(),
        image_count: g.image_count,
        runs: g.runs.len(),
        first_image: f.first_image,
        settled: f.settled,
        skate_right: skate_part(reports, Ghost(folder), Part::SkateRight, &g.skate_right, f.skate_right),
        skate_left: skate_part(reports, Ghost(folder), Part::SkateLeft, &g.skate_left, f.skate_left),
        tap: tap_part(reports, Ghost(folder), &g.tap, f.tap),
        slider,
    }
}

/// Whether a summary has the head of a run: the program, the machine, the label
/// and the settings.
pub open spec fn has_head_of(s: Summary, h: report::Header) -> bool {
    &&& s.version@ == h.version@
    &&& s.git_hash@ == h.git_hash@
    &&& s.profile@ == h.profile@
    &&& s.platform@ == h.platform@
    &&& s.hostname@ == h.hostname@
    &&& curated::text_in(s.label) == curated::text_in(h.label)
    &&& s.settings.cache_count == h.settings.cache_count
    &&& s.settings.decode_threads == h.settings.decode_threads
    &&& s.settings.lru_budget_mb == h.settings.lru_budget_mb
    &&& s.settings.gpu_memory_mode@ == h.settings.gpu_memory_mode@
    &&& s.settings.preview_budget_mb == h.settings.preview_budget_mb
}

/// Whether a summary is that of some runs: the head of the first of them, and
/// the folders in the order in which they were first seen.
pub open spec fn is_summary(s: Summary, reports: Seq<BenchReport>, date_utc: Seq<char>, figures: Seq<FolderFigures>) -> bool {
    &&& s.date_utc@ == date_utc
    &&& has_head_of(s, reports[0].header)
    &&& s.folders@.len() == firsts(reports).len()
    &&& forall|k: int|
        0 <= k < s.folders@.len() ==> is_folder_summary(
            #[trigger] s.folders@[k],
            reports,
            firsts(reports)[k] as int,
            figures[k],
        )
}

/// The mark of a phase that some runs gave up.
pub open spec fn timeouts_cell(n: usize) -> Seq<char> {
    if n > 0 {
        " ("@ + report::num(n) + " timed out)"@
    } else {
        ""@
    }
}

fn timeouts_text(n: usize) -> (r: String)
    ensures
        r@ == timeouts_cell(n),
{
    if n > 0 {
        let mut out = " (".to_owned();
        out.append(num_text(n).as_str());
        out.append(" timed out)");
        out
    } else {
        "".to_owned()
    }
}

/// A cell, or a dash.
pub open spec fn or_dash(v: Option<String>) -> Seq<char> {
    match v {
        Some(s) => s@,
        None => "-"@,
    }
}

fn dash_text(v: &Option<String>) -> (r: String)
    ensures
        r@ == or_dash(*v),
{
    match v {
        Some(s) => s.clone(),
        None => "-".to_owned(),
    }
}

/// The name of a folder in the tables.
pub open spec fn name_cell(f: FolderSummary) -> Seq<char> {
    report::folder_name_of(f.folder@, ""@)
}

fn name_text(f: &FolderSummary) -> (r: String)
    ensures
        r@ == name_cell(*f),
{
    name_of_folder(f.folder.as_str(), "")
}

/// The cells of the head of the summary.
pub open spec fn summary_head_cells(s: Summary) -> Seq<Seq<char>> {
    seq![
        s.date_utc@,
        s.version@,
        s.git_hash@,
        s.profile@,
        s.platform@,
        s.hostname@,
        report::num(s.settings.cache_count),
        report::num(s.settings.decode_threads),
        report::num(s.settings.lru_budget_mb),
        s.settings.gpu_memory_mode@,
    ]
}

/// The head of the summary.
pub open spec fn summary_head_of(s: Summary) -> Seq<char> {
    text::filled(
        "# Benchmark summary\n\n- Date: {}\n- Build: {} {} {} {}\n- Machine: {}\n- Settings: cache_count {}, decode_threads {}, lru_budget_mb {}, gpu {}\n"@,
        summary_head_cells(s),
    )
}

/// The head of the summary.
pub fn summary_head(s: &Summary) -> (r: String)
    ensures
        r@ == summary_head_of(*s),
{
    let cells: Vec<String> = vec![
        s.date_utc.clone(),
        s.version.clone(),
        s.git_hash.clone(),
        s.profile.clone(),
        s.platform.clone(),
        s.hostname.clone(),
        num_text(s.settings.cache_count),
        num_text(s.settings.decode_threads),
        num_text(s.settings.lru_budget_mb),
        s.settings.gpu_memory_mode.clone(),
    ];
    assert(text::texts_of(cells@) =~= summary_head_cells(*s));
    fill(
        "# Benchmark summary\n\n- Date: {}\n- Build: {} {} {} {}\n- Machine: {}\n- Settings: cache_count {}, decode_threads {}, lru_budget_mb {}, gpu {}\n",
        &cells,
    )
}

/// The cells of the row of a skate.
pub open spec fn skate_row_cells(f: FolderSummary, s: SkateSummary) -> Seq<Seq<char>> {
    seq![
        name_cell(f),
        report::num(f.runs),
        s.direction@,
        timeouts_cell(s.timeouts),
        report::num(s.images),
        s.images_per_sec@,
        s.stall_percent@,
        s.frame_p50@,
        s.frame_p99@,
        s.decode_p50@,
        s.decode_p95@,
        s.cpu@,
        s.peak_rss@,
    ]
}

/// The row of a skate.
pub open spec fn skate_row_of(f: FolderSummary, s: SkateSummary) -> Seq<char> {
    text::filled(
        "| {} | {} | {}{} | {} | {} | {} | {} | {} | {} | {} | {} | {} |\n"@,
        skate_row_cells(f, s),
    )
}

/// The row of a skate.
pub fn skate_row(f: &FolderSummary, s: &SkateSummary) -> (r: String)
    ensures
        r@ == skate_row_of(*f, *s),
{
    let cells: Vec<String> = vec![
        name_text(f),
        num_text(f.runs),
        s.direction.clone(),
        timeouts_text(s.timeouts),
        num_text(s.images),
        s.images_per_sec.clone(),
        s.stall_percent.clone(),
        s.frame_p50.clone(),
        s.frame_p99.clone(),
        s.decode_p50.clone(),
        s.decode_p95.clone(),
        s.cpu.clone(),
        s.peak_rss.clone(),
    ];
    assert(text::texts_of(cells@) =~= skate_row_cells(*f, *s));
    fill(
        "| {} | {} | {}{} | {} | {} | {} | {} | {} | {} | {} | {} | {} |\n",
        &cells,
    )
}

/// The cells of the row of the taps.
pub open spec fn tap_row_cells(f: FolderSummary, s: TapSummary) -> Seq<Seq<char>> {
    seq![
        name_cell(f),
        report::num(f.runs),
        s.rate@,
        timeouts_cell(s.timeouts),
        report::num(s.steps),
        s.latency_p50@,
        s.latency_p95@,
        s.latency_max@,
        s.frame_p99@,
        s.decode_p50@,
        s.cpu@,
    ]
}

/// The row of the taps.
pub open spec fn tap_row_of(f: FolderSummary, s: TapSummary) -> Seq<char> {
    text::filled(
        "| {} | {} | {}/s{} | {} | {} | {} | {} | {} | {} | {} |\n"@,
        tap_row_cells(f, s),
    )
}

/// The row of the taps.
pub fn tap_row(f: &FolderSummary, s: &TapSummary) -> (r: String)
    ensures
        r@ == tap_row_of(*f, *s),
{
    let cells: Vec<String> = vec![
        name_text(f),
        num_text(f.runs),
        s.rate.clone(),
        timeouts_text(s.timeouts),
        num_text(s.steps),
        s.latency_p50.clone(),
        s.latency_p95.clone(),
        s.latency_max.clone(),
        s.frame_p99.clone(),
        s.decode_p50.clone(),
        s.cpu.clone(),
    ];
    assert(text::texts_of(cells@) =~= tap_row_cells(*f, *s));
    fill(
        "| {} | {} | {}/s{} | {} | {} | {} | {} | {} | {} | {} |\n",
        &cells,
    )
}

/// The cells of the row of a phase of the slider.
pub open spec fn slider_row_cells(f: FolderSummary, s: SliderPhaseSummary) -> Seq<Seq<char>> {
    seq![
        name_cell(f),
        report::num(f.runs),
        s.phase@,
        timeouts_cell(s.timeouts),
        report::num(s.positions),
        s.shown_percent@,
        s.block_p50@,
        s.block_p95@,
        s.lru_hits@,
        s.refill_p50@,
        or_dash(s.jump_p50),
        or_dash(s.jump_p95),
        s.frame_p99@,
        s.cpu@,
    ]
}

/// The row of a phase of the slider.
pub open spec fn slider_row_of(f: FolderSummary, s: SliderPhaseSummary) -> Seq<char> {
    text::filled(
        "| {} | {} | {}{} | {} | {} | {} | {} | {} | {} | {} | {} | {} | {} |\n"@,
        slider_row_cells(f, s),
    )
}

/// The row of a phase of the slider.
pub fn slider_row(f: &FolderSummary, s: &SliderPhaseSummary) -> (r: String)
    ensures
        r@ == slider_row_of(*f, *s),
{
    let cells: Vec<String> = vec![
        name_text(f),
        num_text(f.runs),
        s.phase.clone(),
        timeouts_text(s.timeouts),
        num_text(s.positions),
        s.shown_percent.clone(),
        s.block_p50.clone(),
        s.block_p95.clone(),
        s.lru_hits.clone(),
        s.refill_p50.clone(),
        dash_text(&s.jump_p50),
        dash_text(&s.jump_p95),
        s.frame_p99.clone(),
        s.cpu.clone(),
    ];
    assert(text::texts_of(cells@) =~= slider_row_cells(*f, *s));
    fill(
        "| {} | {} | {}{} | {} | {} | {} | {} | {} | {} | {} | {} | {} | {} |\n",
        &cells,
    )
}

/// The cells of the row of the settle phase.
pub open spec fn settle_row_cells(f: FolderSummary) -> Seq<Seq<char>> {
    seq![
        name_cell(f),
        report::num(f.runs),
        f.first_image@,
        f.settled@,
    ]
}

/// The row of the settle phase.
pub open spec fn settle_row_of(f: FolderSummary) -> Seq<char> {
    text::filled(
        "| {} | {} | {} | {} |\n"@,
        settle_row_cells(f),
    )
}

/// The row of the settle phase.
pub fn settle_row(f: &FolderSummary) -> (r: String)
    ensures
        r@ == settle_row_of(*f),
{
    let cells: Vec<String> = vec![
        name_text(f),
        num_text(f.runs),
        f.first_image.clone(),
        f.settled.clone(),
    ];
    assert(text::texts_of(cells@) =~= settle_row_cells(*f));
    fill(
        "| {} | {} | {} | {} |\n",
        &cells,
    )
}

/// The rows of the skates of a folder.
pub open spec fn skate_rows(f: FolderSummary) -> Seq<char> {
    (match f.skate_right {
        Some(s) => skate_row_of(f, s),
        None => Seq::empty(),
    }) + match f.skate_left {
        Some(s) => skate_row_of(f, s),
        None => Seq::empty(),
    }
}

/// The row of the taps of a folder.
pub open spec fn tap_rows(f: FolderSummary) -> Seq<char> {
    match f.tap {
        Some(t) => tap_row_of(f, t),
        None => Seq::empty(),
    }
}

/// The rows of the first phases of the slider of a folder.
pub open spec fn slider_rows_to(f: FolderSummary, n: int) -> Seq<char>
    decreases n,
{
    if n <= 0 {
        Seq::empty()
    } else {
        slider_rows_to(f, n - 1) + slider_row_of(f, f.slider@[n - 1])
    }
}

/// The rows of the slider of a folder.
pub open spec fn slider_rows(f: FolderSummary) -> Seq<char> {
    slider_rows_to(f, f.slider@.len() as int)
}

/// A table of the summary.
#[derive(Debug, Clone, Copy, PartialEq, Eq, Structural)]
pub enum Table {
    Skate,
    Tap,
    Slider,
    Settle,
}

/// The rows of a folder in a table.
pub open spec fn rows_of(f: FolderSummary, table: Table) -> Seq<char> {
    match table {
        Table::Skate => skate_rows(f),
        Table::Tap => tap_rows(f),
        Table::Slider => slider_rows(f),
        Table::Settle => settle_row_of(f),
    }
}

/// The rows of the first folders in a table.
pub open spec fn rows_to(folders: Seq<FolderSummary>, n: int, table: Table) -> Seq<char>
    decreases n,
{
    if n <= 0 {
        Seq::empty()
    } else {
        rows_to(folders, n - 1, table) + rows_of(folders[n - 1], table)
    }
}

/// The rows of all folders in a table.
pub open spec fn table_rows(folders: Seq<FolderSummary>, table: Table) -> Seq<char> {
    rows_to(folders, folders.len() as int, table)
}

/// Whether any folder has a phase of the slider.
pub open spec fn any_slider(folders: Seq<FolderSummary>) -> bool {
    exists|k: int| 0 <= k < folders.len() && #[trigger] folders[k].slider@.len() > 0
}

/// The summary as it is written. The table of the slider is left out where no
/// folder has a row in it.
pub open spec fn markdown_of(s: Summary) -> Seq<char> {
    summary_head_of(s) + report::label_line(s.label)
        + "\nValues are the mean over runs, with the min to max range in brackets when there is more than one run. p50 means median.\n\n## Keyboard navigation, skate\n\n| Folder | Runs | Pass | Images | img/s | Stall % | Frame p50 ms | Frame p99 ms | Decode p50 ms | Decode p95 ms | CPU s | Peak RSS MB |\n|---|---|---|---|---|---|---|---|---|---|---|---|\n"@
        + table_rows(s.folders@, Table::Skate)
        + "\n## Keyboard navigation, tap\n\n| Folder | Runs | Rate | Steps | Press-to-image p50 ms | p95 ms | max ms | Frame p99 ms | Decode p50 ms | CPU s |\n|---|---|---|---|---|---|---|---|---|---|\n"@
        + table_rows(s.folders@, Table::Tap) + (if any_slider(s.folders@) {
        "\n## Slider navigation\n\n| Folder | Runs | Phase | Positions | Shown % | Sync block p50 ms | Sync block p95 ms | LRU hits | Refill p50 ms | Click-to-image p50 ms | p95 ms | Frame p99 ms | CPU s |\n|---|---|---|---|---|---|---|---|---|---|---|---|---|\n"@
            + table_rows(s.folders@, Table::Slider)
    } else {
        Seq::empty()
    }) + "\n## Settle\n\n| Folder | Runs | First image ms | Window full ms |\n|---|---|---|---|\n"@
        + table_rows(s.folders@, Table::Settle)
}

/// Appends the rows of a folder in a table.
fn push_rows(out: &mut String, f: &FolderSummary, table: Table)
    ensures
        final(out)@ == old(out)@ + rows_of(*f, table),
{
    let ghost before = out@;
    match table {
        Table::Skate => {
            if let Some(s) = &f.skate_right {
                out.append(skate_row(f, s).as_str());
            }
            if let Some(s) = &f.skate_left {
                out.append(skate_row(f, s).as_str());
            }
        },
        Table::Tap => {
            if let Some(t) = &f.tap {
                out.append(tap_row(f, t).as_str());
            }
        },
        Table::Slider => {
            let mut i: usize = 0;
            assert(out@ =~= before + slider_rows_to(*f, 0));
            while i < f.slider.len()
                invariant
                    i <= f.slider@.len(),
                    out@ == before + slider_rows_to(*f, i as int),
                decreases f.slider@.len() - i,
            {
                out.append(slider_row(f, &f.slider[i]).as_str());
                i += 1;
                assert(out@ =~= before + slider_rows_to(*f, i as int));
            }
        },
        Table::Settle => {
            out.append(settle_row(f).as_str());
        },
    }
    assert(out@ =~= before + rows_of(*f, table));
}

/// Appends the rows of all folders in a table.
fn push_table(out: &mut String, folders: &Vec<FolderSummary>, table: Table)
    ensures
        final(out)@ == old(out)@ + table_rows(folders@, table),
{
    let ghost before = out@;
    let mut i: usize = 0;
    assert(out@ =~= before + rows_to(folders@, 0, table));
    while i < folders.len()
        invariant
            i <= folders@.len(),
            out@ == before + rows_to(folders@, i as int, table),
        decreases folders@.len() - i,
    {
        push_rows(out, &folders[i], table);
        i += 1;
        assert(out@ =~= before + rows_to(folders@, i as int, table));
    }
}

/// Whether any folder has a phase of the slider.
fn has_slider(folders: &Vec<FolderSummary>) -> (r: bool)
    ensures
        r == any_slider(folders@),
{
    let mut i: usize = 0;
    while i < folders.len()
        invariant
            i <= folders@.len(),
            forall|k: int| 0 <= k < i ==> #[trigger] folders@[k].slider@.len() == 0,
        decreases folders@.len() - i,
    {
        if folders[i].slider.len() > 0 {
            assert(folders@[i as int].slider@.len() > 0);
            return true;
        }
        i += 1;
    }
    false
}

impl Summary {
    /// The summary of some runs, written at a date, with what was measured in
    /// each of their folders. Without runs there is none.
    pub fn of(reports: &Vec<BenchReport>, date_utc: String, figures: Vec<FolderFigures>) -> (r: Option<Self>)
        requires
            figures@.len() == firsts(reports@).len(),
        ensures
            match r {
                Some(s) => reports@.len() > 0 && is_summary(s, reports@, date_utc@, figures@),
                None => reports@.len() == 0,
            },
    {
        let groups = match groups_of(reports) {
            Some(groups) => groups,
            None => {
                return None;
            },
        };
        let ghost all = figures@;
        let mut rest = figures;
        let mut folders: Vec<FolderSummary> = Vec::new();
        while rest.len() > 0
            invariant
                are_groups(groups@, reports@),
                groups@.len() == all.len(),
                folders@.len() + rest@.len() == all.len(),
                rest@ == all.skip(folders@.len() as int),
                forall|k: int|
                    0 <= k < folders@.len() ==> is_folder_summary(
                        #[trigger] folders@[k],
                        reports@,
                        firsts(reports@)[k] as int,
                        all[k],
                    ),
            decreases rest@.len(),
        {
            let at: usize = folders.len();
            let ghost before = rest@;
            let f = rest.remove(0);
            assert(f == all[at as int]);
            assert(rest@ =~= all.skip(at + 1));
            assert(is_folder_group(groups@[at as int], reports@, firsts(reports@)[at as int] as int));
            folders.push(folder_summary(reports, &groups[at], Ghost(firsts(reports@)[at as int] as int), f));
        }
        let h = &reports[0].header;
        let settings = SettingsSnapshot {
            cache_count: h.settings.cache_count,
            decode_threads: h.settings.decode_threads,
            lru_budget_mb: h.settings.lru_budget_mb,
            gpu_memory_mode: h.settings.gpu_memory_mode.clone(),
            preview_budget_mb: h.settings.preview_budget_mb,
        };
        let label = match &h.label {
            Some(label) => Some(label.clone()),
            None => None,
        };
        Some(
            Summary {
                date_utc,
                version: h.version.clone(),
                git_hash: h.git_hash.clone(),
                profile: h.profile.clone(),
                platform: h.platform.clone(),
                hostname: h.hostname.clone(),
                label,
                settings,
                folders,
            },
        )
    }

    /// The summary as it is written.
    pub fn to_markdown(&self) -> (r: String)
        ensures
            r@ == markdown_of(*self),
    {
        let mut out = summary_head(self);
        push_label(&mut out, &self.label);
        out.append(
            "\nValues are the mean over runs, with the min to max range in brackets when there is more than one run. p50 means median.\n\n## Keyboard navigation, skate\n\n| Folder | Runs | Pass | Images | img/s | Stall % | Frame p50 ms | Frame p99 ms | Decode p50 ms | Decode p95 ms | CPU s | Peak RSS MB |\n|---|---|---|---|---|---|---|---|---|---|---|---|\n",
        );
        push_table(&mut out, &self.folders, Table::Skate);
        out.append(
            "\n## Keyboard navigation, tap\n\n| Folder | Runs | Rate | Steps | Press-to-image p50 ms | p95 ms | max ms | Frame p99 ms | Decode p50 ms | CPU s |\n|---|---|---|---|---|---|---|---|---|---|\n",
        );
        push_table(&mut out, &self.folders, Table::Tap);
        if has_slider(&self.folders) {
            let ghost before = out@;
            out.append(
                "\n## Slider navigation\n\n| Folder | Runs | Phase | Positions | Shown % | Sync block p50 ms | Sync block p95 ms | LRU hits | Refill p50 ms | Click-to-image p50 ms | p95 ms | Frame p99 ms | CPU s |\n|---|---|---|---|---|---|---|---|---|---|---|---|---|\n",
            );
            push_table(&mut out, &self.folders, Table::Slider);
            assert(out@ =~= before
                + ("\n## Slider navigation\n\n| Folder | Runs | Phase | Positions | Shown % | Sync block p50 ms | Sync block p95 ms | LRU hits | Refill p50 ms | Click-to-image p50 ms | p95 ms | Frame p99 ms | CPU s |\n|---|---|---|---|---|---|---|---|---|---|---|---|---|\n"@
                + table_rows(self.folders@, Table::Slider)));
        } else {
            assert(out@ =~= out@ + Seq::<char>::empty());
        }
        out.append(
            "\n## Settle\n\n| Folder | Runs | First image ms | Window full ms |\n|---|---|---|---|\n",
        );
        push_table(&mut out, &self.folders, Table::Settle);
        out
    }

    /// What the names of the two files of the summary have in common.
    pub fn file_stem(&self, stamp: &str) -> (r: String)
        ensures
            r@ == stamp@ + "_"@ + self.hostname@ + "_summary"@,
    {
        let mut out = stamp.to_owned();
        out.append("_");
        out.append(self.hostname.as_str());
        out.append("_summary");
        out
    }
}

/// What a run gave up, and what it measured clicks in, is a part that it has.
/// The keyboard is given up by its settle phase, and each phase by itself.
pub proof fn law_only_parts_of_a_run_count(r: BenchReport, part: Part)
    ensures
        gave_up(r, part) ==> has_part(r, part),
        has_clicks(r, part) ==> has_part(r, part),
        r.nav matches Some(n) ==> (gave_up(r, Part::Nav) <==> n.settle.timed_out),
        r.nav matches Some(n) ==> (n.skate_right matches Some(s) ==> (gave_up(r, Part::SkateRight)
            <==> s.timed_out)),
        r.nav matches Some(n) ==> (n.skate_left matches Some(s) ==> (gave_up(r, Part::SkateLeft)
            <==> s.timed_out)),
        r.nav matches Some(n) ==> (n.tap matches Some(t) ==> (gave_up(r, Part::Tap) <==> t.timed_out)),
        r.slider matches Some(s) ==> (s.sweep matches Some(p) ==> (gave_up(r, Part::Sweep) <==> p.timed_out)),
        r.slider matches Some(s) ==> (s.scrub matches Some(p) ==> (gave_up(r, Part::Scrub) <==> p.timed_out)),
        r.slider matches Some(s) ==> (s.jump matches Some(p) ==> (gave_up(r, Part::Jump) <==> p.timed_out)),
        r.nav is None ==> !has_part(r, Part::Nav) && !has_part(r, Part::SkateRight) && !has_part(
            r,
            Part::SkateLeft,
        ) && !has_part(r, Part::Tap),
        r.slider is None ==> !has_part(r, Part::Sweep) && !has_part(r, Part::Scrub) && !has_part(r, Part::Jump),
{
}

} // verus!
