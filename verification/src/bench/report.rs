//! The reports of a benchmark run: the text that is printed, and the markdown
//! that is written.
//!
//! Numbers with a fraction come as texts: whoever calls rounds them, and what
//! stands here decides which rows there are and how they read.
use vstd::prelude::*;

use crate::path;
use crate::settings::AppSettings;
use crate::text;
use crate::text::{decimal_text, fill};

verus! {

/// The settings that matter to a run.
pub struct SettingsSnapshot {
    pub cache_count: usize,
    pub decode_threads: usize,
    pub lru_budget_mb: usize,
    pub gpu_memory_mode: String,
    pub preview_budget_mb: usize,
}

impl SettingsSnapshot {
    /// The settings that matter to a run.
    pub fn from(settings: &AppSettings) -> (r: Self)
        ensures
            r.cache_count == settings.cache_count,
            r.decode_threads == settings.decode_threads,
            r.lru_budget_mb == settings.lru_budget_mb,
            r.gpu_memory_mode@ == settings.gpu_memory_mode.name_spec(),
            r.preview_budget_mb == settings.preview_budget_mb,
    {
        SettingsSnapshot {
            cache_count: settings.cache_count,
            decode_threads: settings.decode_threads,
            lru_budget_mb: settings.lru_budget_mb,
            gpu_memory_mode: settings.gpu_memory_mode.name(),
            preview_budget_mb: settings.preview_budget_mb,
        }
    }
}

/// What identifies a run.
pub struct Header {
    pub date_utc: String,
    pub version: String,
    pub git_hash: String,
    pub profile: String,
    pub platform: String,
    pub hostname: String,
    pub folder: String,
    pub image_count: usize,
    pub total_mb: String,
    pub label: Option<String>,
    pub run: usize,
    pub runs: usize,
    pub settings: SettingsSnapshot,
}

/// The name of a folder, or a stand-in where it has none.
pub open spec fn folder_name_of(folder: Seq<char>, unnamed: Seq<char>) -> Seq<char> {
    match path::file_name_of(folder) {
        Some(name) => name,
        None => unnamed,
    }
}

/// The name of a folder, or a stand-in where it has none.
pub fn name_of_folder(folder: &str, unnamed: &str) -> (r: String)
    ensures
        r@ == folder_name_of(folder@, unnamed@),
{
    match path::file_name(folder) {
        Some(name) => name,
        None => unnamed.to_owned(),
    }
}

impl Header {
    /// The name of the folder.
    pub fn folder_name(&self) -> (r: String)
        ensures
            r@ == folder_name_of(self.folder@, "folder"@),
    {
        name_of_folder(self.folder.as_str(), "folder")
    }
}

/// The summary of some times, as texts.
pub struct Figures {
    pub count: usize,
    pub median: String,
    pub p95: String,
    pub p99: String,
    pub max: String,
}

/// The settle phase.
pub struct SettleFigures {
    pub first_image: Option<String>,
    pub settled: Option<String>,
    pub timed_out: bool,
}

/// One pass through the folder.
pub struct SkateFigures {
    pub direction: String,
    pub images: usize,
    pub skipped_images: usize,
    pub wall: String,
    pub rate: String,
    pub frames: usize,
    pub stall_frames: usize,
    pub stall_percent: String,
    pub frame: Figures,
    pub decode: Figures,
    pub cpu: Option<String>,
    pub peak_rss: String,
    pub peak_gpu: String,
    pub timed_out: bool,
}

/// The taps. The rate comes in two precisions.
pub struct TapFigures {
    pub rate: String,
    pub whole_rate: String,
    pub steps: usize,
    pub wall: String,
    pub latency: Figures,
    pub frames: usize,
    pub stall_frames: usize,
    pub frame: Figures,
    pub decode: Figures,
    pub cpu: Option<String>,
    pub peak_rss: String,
    pub peak_gpu: String,
    pub timed_out: bool,
}

/// The keyboard benchmark.
pub struct NavFigures {
    pub settle: SettleFigures,
    pub skate_right: Option<SkateFigures>,
    pub skate_left: Option<SkateFigures>,
    pub tap: Option<TapFigures>,
}

/// One phase of the slider benchmark.
pub struct SliderPhaseFigures {
    pub phase: String,
    pub positions: usize,
    pub images_shown: usize,
    pub shown_percent: String,
    pub wall: String,
    pub block: Figures,
    pub sync_decode: String,
    pub sync_convert: String,
    pub lru_hits: usize,
    pub releases: usize,
    pub refill: Figures,
    pub jump: Option<Figures>,
    pub frame: Figures,
    pub decode: Figures,
    pub cpu: Option<String>,
    pub peak_rss: String,
    pub peak_gpu: String,
    pub timed_out: bool,
}

/// The slider benchmark.
pub struct SliderFigures {
    pub sweep_secs: String,
    pub scrub_anchors: usize,
    pub jumps: usize,
    pub settle: SettleFigures,
    pub sweep: Option<SliderPhaseFigures>,
    pub scrub: Option<SliderPhaseFigures>,
    pub jump: Option<SliderPhaseFigures>,
}

/// One run.
pub struct BenchReport {
    pub header: Header,
    pub nav: Option<NavFigures>,
    pub slider: Option<SliderFigures>,
}

/// Seconds, or "n/a" where they are not known.
pub open spec fn secs_cell(v: Option<String>) -> Seq<char> {
    match v {
        Some(s) => s@,
        None => "n/a"@,
    }
}

/// Seconds, or "n/a" where they are not known.
pub fn opt_secs(v: &Option<String>) -> (r: String)
    ensures
        r@ == secs_cell(*v),
{
    match v {
        Some(s) => s.clone(),
        None => "n/a".to_owned(),
    }
}

/// Milliseconds with their unit, or "n/a" where they are not known.
pub open spec fn ms_cell(v: Option<String>) -> Seq<char> {
    match v {
        Some(s) => s@ + " ms"@,
        None => "n/a"@,
    }
}

/// Milliseconds with their unit, or "n/a" where they are not known.
pub fn opt_ms(v: &Option<String>) -> (r: String)
    ensures
        r@ == ms_cell(*v),
{
    match v {
        Some(s) => {
            let mut out = s.clone();
            out.append(" ms");
            out
        },
        None => "n/a".to_owned(),
    }
}

/// The mark of a phase that was given up.
pub open spec fn flag_of(timed_out: bool) -> Seq<char> {
    if timed_out {
        " (timed out)"@
    } else {
        ""@
    }
}

/// The mark of a phase that was given up.
pub fn flag(timed_out: bool) -> (r: String)
    ensures
        r@ == flag_of(timed_out),
{
    if timed_out {
        " (timed out)".to_owned()
    } else {
        "".to_owned()
    }
}

/// A text that stands out on a terminal: bold cyan.
pub open spec fn highlighted(s: Seq<char>, bright: bool) -> Seq<char> {
    if bright {
        seq!['\u{1b}'] + "[1;36m"@ + s + seq!['\u{1b}'] + "[0m"@
    } else {
        s
    }
}

/// A text that stands out on a terminal, and reads as it is elsewhere.
pub fn highlight(s: &str, bright: bool) -> (r: String)
    ensures
        r@ == highlighted(s@, bright),
{
    if bright {
        let mut out = String::new();
        out.push('\u{1b}');
        out.append("[1;36m");
        out.append(s);
        out.push('\u{1b}');
        out.append("[0m");
        assert(out@ =~= highlighted(s@, bright));
        out
    } else {
        s.to_owned()
    }
}

/// A number with a unit behind it, made to stand out.
fn bright_unit(s: &str, unit: &str, bright: bool) -> (r: String)
    ensures
        r@ == highlighted(s@ + unit@, bright),
{
    let mut out = s.to_owned();
    out.append(unit);
    highlight(out.as_str(), bright)
}

/// A number in decimal.
pub open spec fn num(v: usize) -> Seq<char> {
    text::decimal(v as nat)
}

/// A number in decimal.
pub fn num_text(v: usize) -> (r: String)
    ensures
        r@ == num(v),
{
    decimal_text(v as u64)
}

/// The label of a run in square brackets, where it has one.
pub open spec fn label_cell(label: Option<String>) -> Seq<char> {
    match label {
        Some(l) => " ["@ + l@ + "]"@,
        None => ""@,
    }
}

fn label_text(label: &Option<String>) -> (r: String)
    ensures
        r@ == label_cell(*label),
{
    match label {
        Some(l) => {
            let mut out = " [".to_owned();
            out.append(l.as_str());
            out.append("]");
            out
        },
        None => "".to_owned(),
    }
}

/// The cells of the first lines of the printed report.
pub open spec fn header_text_cells(h: Header) -> Seq<Seq<char>> {
    seq![
        h.folder@,
        num(h.image_count),
        h.total_mb@,
        num(h.run),
        num(h.runs),
        label_cell(h.label),
        h.version@,
        h.git_hash@,
        h.profile@,
        h.platform@,
        h.hostname@,
        num(h.settings.cache_count),
        num(h.settings.decode_threads),
        num(h.settings.lru_budget_mb),
        h.settings.gpu_memory_mode@,
    ]
}

/// The first lines of the printed report.
pub open spec fn header_text_of(h: Header) -> Seq<char> {
    text::filled(
        "bench report: {} ({} images, {} MB) run {}/{}{}\n{} {} {} {} on {}; cache_count={} decode_threads={} lru_budget_mb={} gpu={}\n"@,
        header_text_cells(h),
    )
}

/// The first lines of the printed report.
pub fn header_text(h: &Header) -> (r: String)
    ensures
        r@ == header_text_of(*h),
{
    let cells: Vec<String> = vec![
        h.folder.clone(),
        num_text(h.image_count),
        h.total_mb.clone(),
        num_text(h.run),
        num_text(h.runs),
        label_text(&h.label),
        h.version.clone(),
        h.git_hash.clone(),
        h.profile.clone(),
        h.platform.clone(),
        h.hostname.clone(),
        num_text(h.settings.cache_count),
        num_text(h.settings.decode_threads),
        num_text(h.settings.lru_budget_mb),
        h.settings.gpu_memory_mode.clone(),
    ];
    assert(text::texts_of(cells@) =~= header_text_cells(*h));
    fill(
        "bench report: {} ({} images, {} MB) run {}/{}{}\n{} {} {} {} on {}; cache_count={} decode_threads={} lru_budget_mb={} gpu={}\n",
        &cells,
    )
}

/// The cells of the printed line of the settle phase.
pub open spec fn settle_text_cells(s: SettleFigures) -> Seq<Seq<char>> {
    seq![
        ms_cell(s.first_image),
        ms_cell(s.settled),
        flag_of(s.timed_out),
    ]
}

/// The printed line of the settle phase.
pub open spec fn settle_text_of(s: SettleFigures) -> Seq<char> {
    text::filled(
        "settle: first image {}, window full {}{}; p50 below means median\n"@,
        settle_text_cells(s),
    )
}

/// The printed line of the settle phase.
pub fn settle_text(s: &SettleFigures) -> (r: String)
    ensures
        r@ == settle_text_of(*s),
{
    let cells: Vec<String> = vec![
        opt_ms(&s.first_image),
        opt_ms(&s.settled),
        flag(s.timed_out),
    ];
    assert(text::texts_of(cells@) =~= settle_text_cells(*s));
    fill(
        "settle: first image {}, window full {}{}; p50 below means median\n",
        &cells,
    )
}

/// The cells of the printed line of a skate.
pub open spec fn skate_text_cells(s: SkateFigures, bright: bool) -> Seq<Seq<char>> {
    seq![
        s.direction@,
        num(s.images),
        s.wall@,
        highlighted(s.rate@ + " img/s"@, bright),
        num(s.skipped_images),
        num(s.stall_frames),
        num(s.frames),
        highlighted(s.stall_percent@ + "%"@, bright),
        s.frame.median@,
        s.frame.p99@,
        s.frame.max@,
        num(s.decode.count),
        s.decode.median@,
        s.decode.p95@,
        s.decode.max@,
        secs_cell(s.cpu),
        s.peak_rss@,
        s.peak_gpu@,
        flag_of(s.timed_out),
    ]
}

/// The printed line of a skate.
pub open spec fn skate_text_of(s: SkateFigures, bright: bool) -> Seq<char> {
    text::filled(
        "skate {}: {} images in {}s = {} (+{} prefetched), stalls {}/{} frames ({}), frame p50={} p99={} max={} ms, decode n={} p50={} p95={} max={} ms, cpu {}s, peak rss {} MB gpu {} MB{}\n"@,
        skate_text_cells(s, bright),
    )
}

/// The printed line of a skate.
pub fn skate_text(s: &SkateFigures, bright: bool) -> (r: String)
    ensures
        r@ == skate_text_of(*s, bright),
{
    let cells: Vec<String> = vec![
        s.direction.clone(),
        num_text(s.images),
        s.wall.clone(),
        bright_unit(s.rate.as_str(), " img/s", bright),
        num_text(s.skipped_images),
        num_text(s.stall_frames),
        num_text(s.frames),
        bright_unit(s.stall_percent.as_str(), "%", bright),
        s.frame.median.clone(),
        s.frame.p99.clone(),
        s.frame.max.clone(),
        num_text(s.decode.count),
        s.decode.median.clone(),
        s.decode.p95.clone(),
        s.decode.max.clone(),
        opt_secs(&s.cpu),
        s.peak_rss.clone(),
        s.peak_gpu.clone(),
        flag(s.timed_out),
    ];
    assert(text::texts_of(cells@) =~= skate_text_cells(*s, bright));
    fill(
        "skate {}: {} images in {}s = {} (+{} prefetched), stalls {}/{} frames ({}), frame p50={} p99={} max={} ms, decode n={} p50={} p95={} max={} ms, cpu {}s, peak rss {} MB gpu {} MB{}\n",
        &cells,
    )
}

/// The cells of the printed line of the taps.
pub open spec fn tap_text_cells(s: TapFigures, bright: bool) -> Seq<Seq<char>> {
    seq![
        s.rate@,
        num(s.steps),
        s.wall@,
        highlighted(s.latency.median@, bright),
        highlighted(s.latency.p95@, bright),
        s.latency.max@,
        num(s.stall_frames),
        num(s.frames),
        s.frame.median@,
        s.frame.p99@,
        s.frame.max@,
        num(s.decode.count),
        s.decode.median@,
        s.decode.p95@,
        s.decode.max@,
        secs_cell(s.cpu),
        s.peak_rss@,
        s.peak_gpu@,
        flag_of(s.timed_out),
    ]
}

/// The printed line of the taps.
pub open spec fn tap_text_of(s: TapFigures, bright: bool) -> Seq<char> {
    text::filled(
        "tap {}/s: {} steps in {}s, press-to-image p50={} p95={} max={} ms, stalls {}/{} frames, frame p50={} p99={} max={} ms, decode n={} p50={} p95={} max={} ms, cpu {}s, peak rss {} MB gpu {} MB{}\n"@,
        tap_text_cells(s, bright),
    )
}

/// The printed line of the taps.
pub fn tap_text(s: &TapFigures, bright: bool) -> (r: String)
    ensures
        r@ == tap_text_of(*s, bright),
{
    let cells: Vec<String> = vec![
        s.rate.clone(),
        num_text(s.steps),
        s.wall.clone(),
        highlight(s.latency.median.as_str(), bright),
        highlight(s.latency.p95.as_str(), bright),
        s.latency.max.clone(),
        num_text(s.stall_frames),
        num_text(s.frames),
        s.frame.median.clone(),
        s.frame.p99.clone(),
        s.frame.max.clone(),
        num_text(s.decode.count),
        s.decode.median.clone(),
        s.decode.p95.clone(),
        s.decode.max.clone(),
        opt_secs(&s.cpu),
        s.peak_rss.clone(),
        s.peak_gpu.clone(),
        flag(s.timed_out),
    ];
    assert(text::texts_of(cells@) =~= tap_text_cells(*s, bright));
    fill(
        "tap {}/s: {} steps in {}s, press-to-image p50={} p95={} max={} ms, stalls {}/{} frames, frame p50={} p99={} max={} ms, decode n={} p50={} p95={} max={} ms, cpu {}s, peak rss {} MB gpu {} MB{}\n",
        &cells,
    )
}

/// The cells of the first printed line of the slider.
pub open spec fn slider_text_cells(s: SliderFigures) -> Seq<Seq<char>> {
    seq![
        s.sweep_secs@,
        num(s.scrub_anchors),
        num(s.jumps),
        ms_cell(s.settle.first_image),
        ms_cell(s.settle.settled),
        flag_of(s.settle.timed_out),
    ]
}

/// The first printed line of the slider.
pub open spec fn slider_text_of(s: SliderFigures) -> Seq<char> {
    text::filled(
        "slider (sweep {}s, {} scrub anchors, {} jumps): settle first image {}, window full {}{}\n"@,
        slider_text_cells(s),
    )
}

/// The first printed line of the slider.
pub fn slider_text(s: &SliderFigures) -> (r: String)
    ensures
        r@ == slider_text_of(*s),
{
    let cells: Vec<String> = vec![
        s.sweep_secs.clone(),
        num_text(s.scrub_anchors),
        num_text(s.jumps),
        opt_ms(&s.settle.first_image),
        opt_ms(&s.settle.settled),
        flag(s.settle.timed_out),
    ];
    assert(text::texts_of(cells@) =~= slider_text_cells(*s));
    fill(
        "slider (sweep {}s, {} scrub anchors, {} jumps): settle first image {}, window full {}{}\n",
        &cells,
    )
}

/// The cells of the printed part about the clicks.
pub open spec fn jump_text_cells(s: Figures, bright: bool) -> Seq<Seq<char>> {
    seq![
        highlighted(s.median@, bright),
        s.p95@,
        s.max@,
    ]
}

/// The printed part about the clicks.
pub open spec fn jump_text_of(s: Figures, bright: bool) -> Seq<char> {
    text::filled(
        ", click-to-image p50={} p95={} max={} ms"@,
        jump_text_cells(s, bright),
    )
}

/// The printed part about the clicks.
pub fn jump_text(s: &Figures, bright: bool) -> (r: String)
    ensures
        r@ == jump_text_of(*s, bright),
{
    let cells: Vec<String> = vec![
        highlight(s.median.as_str(), bright),
        s.p95.clone(),
        s.max.clone(),
    ];
    assert(text::texts_of(cells@) =~= jump_text_cells(*s, bright));
    fill(
        ", click-to-image p50={} p95={} max={} ms",
        &cells,
    )
}

/// The printed part about the clicks, where there were any.
pub open spec fn jump_part(jump: Option<Figures>, bright: bool) -> Seq<char> {
    match jump {
        Some(j) => jump_text_of(j, bright),
        None => ""@,
    }
}

fn jump_part_text(jump: &Option<Figures>, bright: bool) -> (r: String)
    ensures
        r@ == jump_part(*jump, bright),
{
    match jump {
        Some(j) => jump_text(j, bright),
        None => "".to_owned(),
    }
}

/// The cells of the printed line of a phase of the slider.
pub open spec fn slider_phase_text_cells(s: SliderPhaseFigures, bright: bool) -> Seq<Seq<char>> {
    seq![
        s.phase@,
        num(s.positions),
        num(s.images_shown),
        highlighted(s.shown_percent@ + "%"@, bright),
        s.wall@,
        num(s.block.count),
        highlighted(s.block.median@, bright),
        s.block.p95@,
        s.block.max@,
        s.sync_decode@,
        s.sync_convert@,
        num(s.lru_hits),
        num(s.releases),
        s.refill.median@,
        s.refill.max@,
        jump_part(s.jump, bright),
        s.frame.median@,
        s.frame.p99@,
        s.frame.max@,
        num(s.decode.count),
        s.decode.median@,
        secs_cell(s.cpu),
        s.peak_rss@,
        s.peak_gpu@,
        flag_of(s.timed_out),
    ]
}

/// The printed line of a phase of the slider.
pub open spec fn slider_phase_text_of(s: SliderPhaseFigures, bright: bool) -> Seq<char> {
    text::filled(
        "slider {}: {} positions, {} shown ({}) in {}s, sync loads n={} block p50={} p95={} max={} ms (decode {} convert {} p50), lru hits {}, refill after {} releases p50={} max={} ms{}, frame p50={} p99={} max={} ms, bg decode n={} p50={} ms, cpu {}s, peak rss {} MB gpu {} MB{}\n"@,
        slider_phase_text_cells(s, bright),
    )
}

/// The printed line of a phase of the slider.
pub fn slider_phase_text(s: &SliderPhaseFigures, bright: bool) -> (r: String)
    ensures
        r@ == slider_phase_text_of(*s, bright),
{
    let cells: Vec<String> = vec![
        s.phase.clone(),
        num_text(s.positions),
        num_text(s.images_shown),
        bright_unit(s.shown_percent.as_str(), "%", bright),
        s.wall.clone(),
        num_text(s.block.count),
        highlight(s.block.median.as_str(), bright),
        s.block.p95.clone(),
        s.block.max.clone(),
        s.sync_decode.clone(),
        s.sync_convert.clone(),
        num_text(s.lru_hits),
        num_text(s.releases),
        s.refill.median.clone(),
        s.refill.max.clone(),
        jump_part_text(&s.jump, bright),
        s.frame.median.clone(),
        s.frame.p99.clone(),
        s.frame.max.clone(),
        num_text(s.decode.count),
        s.decode.median.clone(),
        opt_secs(&s.cpu),
        s.peak_rss.clone(),
        s.peak_gpu.clone(),
        flag(s.timed_out),
    ];
    assert(text::texts_of(cells@) =~= slider_phase_text_cells(*s, bright));
    fill(
        "slider {}: {} positions, {} shown ({}) in {}s, sync loads n={} block p50={} p95={} max={} ms (decode {} convert {} p50), lru hits {}, refill after {} releases p50={} max={} ms{}, frame p50={} p99={} max={} ms, bg decode n={} p50={} ms, cpu {}s, peak rss {} MB gpu {} MB{}\n",
        &cells,
    )
}

/// The cells of the head of the written report.
pub open spec fn header_markdown_cells(h: Header) -> Seq<Seq<char>> {
    seq![
        folder_name_of(h.folder@, "folder"@),
        num(h.run),
        num(h.runs),
        h.date_utc@,
        h.version@,
        h.git_hash@,
        h.profile@,
        h.platform@,
        h.hostname@,
        h.folder@,
        num(h.image_count),
        h.total_mb@,
        num(h.settings.cache_count),
        num(h.settings.decode_threads),
        num(h.settings.lru_budget_mb),
        h.settings.gpu_memory_mode@,
    ]
}

/// The head of the written report.
pub open spec fn header_markdown_of(h: Header) -> Seq<char> {
    text::filled(
        "# Benchmark: {} run {}/{}\n\n- Date: {}\n- Build: {} {} {} {}\n- Machine: {}\n- Folder: `{}` ({} images, {} MB)\n- Settings: cache_count {}, decode_threads {}, lru_budget_mb {}, gpu {}\n"@,
        header_markdown_cells(h),
    )
}

/// The head of the written report.
pub fn header_markdown(h: &Header) -> (r: String)
    ensures
        r@ == header_markdown_of(*h),
{
    let cells: Vec<String> = vec![
        h.folder_name(),
        num_text(h.run),
        num_text(h.runs),
        h.date_utc.clone(),
        h.version.clone(),
        h.git_hash.clone(),
        h.profile.clone(),
        h.platform.clone(),
        h.hostname.clone(),
        h.folder.clone(),
        num_text(h.image_count),
        h.total_mb.clone(),
        num_text(h.settings.cache_count),
        num_text(h.settings.decode_threads),
        num_text(h.settings.lru_budget_mb),
        h.settings.gpu_memory_mode.clone(),
    ];
    assert(text::texts_of(cells@) =~= header_markdown_cells(*h));
    fill(
        "# Benchmark: {} run {}/{}\n\n- Date: {}\n- Build: {} {} {} {}\n- Machine: {}\n- Folder: `{}` ({} images, {} MB)\n- Settings: cache_count {}, decode_threads {}, lru_budget_mb {}, gpu {}\n",
        &cells,
    )
}

/// The cells of the head of the written table of the keyboard.
pub open spec fn settle_markdown_cells(s: SettleFigures) -> Seq<Seq<char>> {
    seq![
        ms_cell(s.first_image),
        ms_cell(s.settled),
        flag_of(s.timed_out),
    ]
}

/// The head of the written table of the keyboard.
pub open spec fn settle_markdown_of(s: SettleFigures) -> Seq<char> {
    text::filled(
        "\n## Keyboard navigation\n\nSettle: first image {}, window full {}{}.\n\n| Phase | Images | Rate | Stalls | Frame ms p50(median) / p99 / max | Decode ms n, p50(median) / p95 / max | CPU s | Peak RSS MB | Peak GPU MB |\n|---|---|---|---|---|---|---|---|---|\n"@,
        settle_markdown_cells(s),
    )
}

/// The head of the written table of the keyboard.
pub fn settle_markdown(s: &SettleFigures) -> (r: String)
    ensures
        r@ == settle_markdown_of(*s),
{
    let cells: Vec<String> = vec![
        opt_ms(&s.first_image),
        opt_ms(&s.settled),
        flag(s.timed_out),
    ];
    assert(text::texts_of(cells@) =~= settle_markdown_cells(*s));
    fill(
        "\n## Keyboard navigation\n\nSettle: first image {}, window full {}{}.\n\n| Phase | Images | Rate | Stalls | Frame ms p50(median) / p99 / max | Decode ms n, p50(median) / p95 / max | CPU s | Peak RSS MB | Peak GPU MB |\n|---|---|---|---|---|---|---|---|---|\n",
        &cells,
    )
}

/// The cells of the written row of a skate.
pub open spec fn skate_markdown_cells(s: SkateFigures) -> Seq<Seq<char>> {
    seq![
        s.direction@,
        flag_of(s.timed_out),
        num(s.images),
        num(s.skipped_images),
        s.rate@,
        num(s.stall_frames),
        num(s.frames),
        s.stall_percent@,
        s.frame.median@,
        s.frame.p99@,
        s.frame.max@,
        num(s.decode.count),
        s.decode.median@,
        s.decode.p95@,
        s.decode.max@,
        secs_cell(s.cpu),
        s.peak_rss@,
        s.peak_gpu@,
    ]
}

/// The written row of a skate.
pub open spec fn skate_markdown_of(s: SkateFigures) -> Seq<char> {
    text::filled(
        "| skate {}{} | {} (+{} prefetched) | {} img/s | {}/{} ({}%) | {} / {} / {} | {}, {} / {} / {} | {} | {} | {} |\n"@,
        skate_markdown_cells(s),
    )
}

/// The written row of a skate.
pub fn skate_markdown(s: &SkateFigures) -> (r: String)
    ensures
        r@ == skate_markdown_of(*s),
{
    let cells: Vec<String> = vec![
        s.direction.clone(),
        flag(s.timed_out),
        num_text(s.images),
        num_text(s.skipped_images),
        s.rate.clone(),
        num_text(s.stall_frames),
        num_text(s.frames),
        s.stall_percent.clone(),
        s.frame.median.clone(),
        s.frame.p99.clone(),
        s.frame.max.clone(),
        num_text(s.decode.count),
        s.decode.median.clone(),
        s.decode.p95.clone(),
        s.decode.max.clone(),
        opt_secs(&s.cpu),
        s.peak_rss.clone(),
        s.peak_gpu.clone(),
    ];
    assert(text::texts_of(cells@) =~= skate_markdown_cells(*s));
    fill(
        "| skate {}{} | {} (+{} prefetched) | {} img/s | {}/{} ({}%) | {} / {} / {} | {}, {} / {} / {} | {} | {} | {} |\n",
        &cells,
    )
}

/// The cells of the written row of the taps.
pub open spec fn tap_markdown_cells(s: TapFigures) -> Seq<Seq<char>> {
    seq![
        s.whole_rate@,
        flag_of(s.timed_out),
        num(s.steps),
        s.latency.median@,
        s.latency.p95@,
        s.latency.max@,
        num(s.stall_frames),
        num(s.frames),
        s.frame.median@,
        s.frame.p99@,
        s.frame.max@,
        num(s.decode.count),
        s.decode.median@,
        s.decode.p95@,
        s.decode.max@,
        secs_cell(s.cpu),
        s.peak_rss@,
        s.peak_gpu@,
    ]
}

/// The written row of the taps.
pub open spec fn tap_markdown_of(s: TapFigures) -> Seq<char> {
    text::filled(
        "| tap {}/s{} | {} steps | press-to-image {} / {} / {} ms (p50(median) / p95 / max) | {}/{} | {} / {} / {} | {}, {} / {} / {} | {} | {} | {} |\n"@,
        tap_markdown_cells(s),
    )
}

/// The written row of the taps.
pub fn tap_markdown(s: &TapFigures) -> (r: String)
    ensures
        r@ == tap_markdown_of(*s),
{
    let cells: Vec<String> = vec![
        s.whole_rate.clone(),
        flag(s.timed_out),
        num_text(s.steps),
        s.latency.median.clone(),
        s.latency.p95.clone(),
        s.latency.max.clone(),
        num_text(s.stall_frames),
        num_text(s.frames),
        s.frame.median.clone(),
        s.frame.p99.clone(),
        s.frame.max.clone(),
        num_text(s.decode.count),
        s.decode.median.clone(),
        s.decode.p95.clone(),
        s.decode.max.clone(),
        opt_secs(&s.cpu),
        s.peak_rss.clone(),
        s.peak_gpu.clone(),
    ];
    assert(text::texts_of(cells@) =~= tap_markdown_cells(*s));
    fill(
        "| tap {}/s{} | {} steps | press-to-image {} / {} / {} ms (p50(median) / p95 / max) | {}/{} | {} / {} / {} | {}, {} / {} / {} | {} | {} | {} |\n",
        &cells,
    )
}

/// The cells of the head of the written table of the slider.
pub open spec fn slider_markdown_cells(s: SliderFigures) -> Seq<Seq<char>> {
    seq![
        s.sweep_secs@,
        num(s.scrub_anchors),
        num(s.jumps),
        ms_cell(s.settle.first_image),
        ms_cell(s.settle.settled),
        flag_of(s.settle.timed_out),
    ]
}

/// The head of the written table of the slider.
pub open spec fn slider_markdown_of(s: SliderFigures) -> Seq<char> {
    text::filled(
        "\n## Slider navigation\n\nSweep {} s, {} scrub anchors, {} jumps. Settle: first image {}, window full {}{}.\n\n| Phase | Positions | Shown | Sync block ms n, p50(median) / p95 / max | Sync p50 decode / convert ms | LRU hits | Refill ms p50 / max (releases) | Click-to-image ms p50 / p95 / max | Frame ms p50 / p99 / max | CPU s | Peak RSS MB | Peak GPU MB |\n|---|---|---|---|---|---|---|---|---|---|---|---|\n"@,
        slider_markdown_cells(s),
    )
}

/// The head of the written table of the slider.
pub fn slider_markdown(s: &SliderFigures) -> (r: String)
    ensures
        r@ == slider_markdown_of(*s),
{
    let cells: Vec<String> = vec![
        s.sweep_secs.clone(),
        num_text(s.scrub_anchors),
        num_text(s.jumps),
        opt_ms(&s.settle.first_image),
        opt_ms(&s.settle.settled),
        flag(s.settle.timed_out),
    ];
    assert(text::texts_of(cells@) =~= slider_markdown_cells(*s));
    fill(
        "\n## Slider navigation\n\nSweep {} s, {} scrub anchors, {} jumps. Settle: first image {}, window full {}{}.\n\n| Phase | Positions | Shown | Sync block ms n, p50(median) / p95 / max | Sync p50 decode / convert ms | LRU hits | Refill ms p50 / max (releases) | Click-to-image ms p50 / p95 / max | Frame ms p50 / p99 / max | CPU s | Peak RSS MB | Peak GPU MB |\n|---|---|---|---|---|---|---|---|---|---|---|---|\n",
        &cells,
    )
}

/// The cells of the written cell about the clicks.
pub open spec fn jump_markdown_cells(s: Figures) -> Seq<Seq<char>> {
    seq![
        s.median@,
        s.p95@,
        s.max@,
    ]
}

/// The written cell about the clicks.
pub open spec fn jump_markdown_of(s: Figures) -> Seq<char> {
    text::filled(
        "{} / {} / {}"@,
        jump_markdown_cells(s),
    )
}

/// The written cell about the clicks.
pub fn jump_markdown(s: &Figures) -> (r: String)
    ensures
        r@ == jump_markdown_of(*s),
{
    let cells: Vec<String> = vec![
        s.median.clone(),
        s.p95.clone(),
        s.max.clone(),
    ];
    assert(text::texts_of(cells@) =~= jump_markdown_cells(*s));
    fill(
        "{} / {} / {}",
        &cells,
    )
}

/// The written cell about the clicks, a dash where there were none.
pub open spec fn jump_cell(jump: Option<Figures>) -> Seq<char> {
    match jump {
        Some(j) => jump_markdown_of(j),
        None => "-"@,
    }
}

fn jump_cell_text(jump: &Option<Figures>) -> (r: String)
    ensures
        r@ == jump_cell(*jump),
{
    match jump {
        Some(j) => jump_markdown(j),
        None => "-".to_owned(),
    }
}

/// The cells of the written row of a phase of the slider.
pub open spec fn slider_phase_markdown_cells(s: SliderPhaseFigures) -> Seq<Seq<char>> {
    seq![
        s.phase@,
        flag_of(s.timed_out),
        num(s.positions),
        num(s.images_shown),
        s.shown_percent@,
        num(s.block.count),
        s.block.median@,
        s.block.p95@,
        s.block.max@,
        s.sync_decode@,
        s.sync_convert@,
        num(s.lru_hits),
        s.refill.median@,
        s.refill.max@,
        num(s.releases),
        jump_cell(s.jump),
        s.frame.median@,
        s.frame.p99@,
        s.frame.max@,
        secs_cell(s.cpu),
        s.peak_rss@,
        s.peak_gpu@,
    ]
}

/// The written row of a phase of the slider.
pub open spec fn slider_phase_markdown_of(s: SliderPhaseFigures) -> Seq<char> {
    text::filled(
        "| {}{} | {} | {} ({}%) | {}, {} / {} / {} | {} / {} | {} | {} / {} ({}) | {} | {} / {} / {} | {} | {} | {} |\n"@,
        slider_phase_markdown_cells(s),
    )
}

/// The written row of a phase of the slider.
pub fn slider_phase_markdown(s: &SliderPhaseFigures) -> (r: String)
    ensures
        r@ == slider_phase_markdown_of(*s),
{
    let cells: Vec<String> = vec![
        s.phase.clone(),
        flag(s.timed_out),
        num_text(s.positions),
        num_text(s.images_shown),
        s.shown_percent.clone(),
        num_text(s.block.count),
        s.block.median.clone(),
        s.block.p95.clone(),
        s.block.max.clone(),
        s.sync_decode.clone(),
        s.sync_convert.clone(),
        num_text(s.lru_hits),
        s.refill.median.clone(),
        s.refill.max.clone(),
        num_text(s.releases),
        jump_cell_text(&s.jump),
        s.frame.median.clone(),
        s.frame.p99.clone(),
        s.frame.max.clone(),
        opt_secs(&s.cpu),
        s.peak_rss.clone(),
        s.peak_gpu.clone(),
    ];
    assert(text::texts_of(cells@) =~= slider_phase_markdown_cells(*s));
    fill(
        "| {}{} | {} | {} ({}%) | {}, {} / {} / {} | {} / {} | {} | {} / {} ({}) | {} | {} / {} / {} | {} | {} | {} |\n",
        &cells,
    )
}

/// The printed lines of the skates and the taps, where they ran.
pub open spec fn skate_part(s: Option<SkateFigures>, bright: bool) -> Seq<char> {
    match s {
        Some(s) => skate_text_of(s, bright),
        None => Seq::empty(),
    }
}

/// The printed lines of the keyboard benchmark.
pub open spec fn nav_text_of(n: NavFigures, bright: bool) -> Seq<char> {
    settle_text_of(n.settle) + skate_part(n.skate_right, bright) + skate_part(n.skate_left, bright)
        + match n.tap {
        Some(t) => tap_text_of(t, bright),
        None => Seq::empty(),
    }
}

/// The printed lines of the keyboard benchmark.
fn nav_text(n: &NavFigures, bright: bool) -> (r: String)
    ensures
        r@ == nav_text_of(*n, bright),
{
    let mut out = settle_text(&n.settle);
    if let Some(s) = &n.skate_right {
        out.append(skate_text(s, bright).as_str());
    }
    if let Some(s) = &n.skate_left {
        out.append(skate_text(s, bright).as_str());
    }
    if let Some(t) = &n.tap {
        out.append(tap_text(t, bright).as_str());
    }
    assert(out@ =~= nav_text_of(*n, bright));
    out
}

/// The printed line of a phase of the slider, where it ran.
pub open spec fn slider_phase_part(p: Option<SliderPhaseFigures>, bright: bool) -> Seq<char> {
    match p {
        Some(p) => slider_phase_text_of(p, bright),
        None => Seq::empty(),
    }
}

/// The printed lines of the slider benchmark.
pub open spec fn slider_lines_of(s: SliderFigures, bright: bool) -> Seq<char> {
    slider_text_of(s) + slider_phase_part(s.sweep, bright) + slider_phase_part(s.scrub, bright)
        + slider_phase_part(s.jump, bright)
}

/// The printed lines of the slider benchmark.
fn slider_lines(s: &SliderFigures, bright: bool) -> (r: String)
    ensures
        r@ == slider_lines_of(*s, bright),
{
    let mut out = slider_text(s);
    if let Some(p) = &s.sweep {
        out.append(slider_phase_text(p, bright).as_str());
    }
    if let Some(p) = &s.scrub {
        out.append(slider_phase_text(p, bright).as_str());
    }
    if let Some(p) = &s.jump {
        out.append(slider_phase_text(p, bright).as_str());
    }
    assert(out@ =~= slider_lines_of(*s, bright));
    out
}

/// The written row of a skate, where it ran.
pub open spec fn skate_row(s: Option<SkateFigures>) -> Seq<char> {
    match s {
        Some(s) => skate_markdown_of(s),
        None => Seq::empty(),
    }
}

/// The written table of the keyboard benchmark.
pub open spec fn nav_markdown_of(n: NavFigures) -> Seq<char> {
    settle_markdown_of(n.settle) + skate_row(n.skate_right) + skate_row(n.skate_left)
        + match n.tap {
        Some(t) => tap_markdown_of(t),
        None => Seq::empty(),
    }
}

/// The written table of the keyboard benchmark.
fn nav_markdown(n: &NavFigures) -> (r: String)
    ensures
        r@ == nav_markdown_of(*n),
{
    let mut out = settle_markdown(&n.settle);
    if let Some(s) = &n.skate_right {
        out.append(skate_markdown(s).as_str());
    }
    if let Some(s) = &n.skate_left {
        out.append(skate_markdown(s).as_str());
    }
    if let Some(t) = &n.tap {
        out.append(tap_markdown(t).as_str());
    }
    assert(out@ =~= nav_markdown_of(*n));
    out
}

/// The written row of a phase of the slider, where it ran.
pub open spec fn slider_phase_row(p: Option<SliderPhaseFigures>) -> Seq<char> {
    match p {
        Some(p) => slider_phase_markdown_of(p),
        None => Seq::empty(),
    }
}

/// The written table of the slider benchmark.
pub open spec fn slider_table_of(s: SliderFigures) -> Seq<char> {
    slider_markdown_of(s) + slider_phase_row(s.sweep) + slider_phase_row(s.scrub)
        + slider_phase_row(s.jump)
}

/// The written table of the slider benchmark.
fn slider_table(s: &SliderFigures) -> (r: String)
    ensures
        r@ == slider_table_of(*s),
{
    let mut out = slider_markdown(s);
    if let Some(p) = &s.sweep {
        out.append(slider_phase_markdown(p).as_str());
    }
    if let Some(p) = &s.scrub {
        out.append(slider_phase_markdown(p).as_str());
    }
    if let Some(p) = &s.jump {
        out.append(slider_phase_markdown(p).as_str());
    }
    assert(out@ =~= slider_table_of(*s));
    out
}

/// The written line of the label, where there is one.
pub open spec fn label_line(label: Option<String>) -> Seq<char> {
    match label {
        Some(l) => "- Label: "@ + l@ + "\n"@,
        None => Seq::empty(),
    }
}

/// Appends the written line of the label, where there is one.
pub fn push_label(out: &mut String, label: &Option<String>)
    ensures
        final(out)@ == old(out)@ + label_line(*label),
{
    if let Some(l) = label {
        out.append("- Label: ");
        out.append(l.as_str());
        out.append("\n");
    }
    assert(out@ =~= old(out)@ + label_line(*label));
}

/// The report as it is printed: the header, then the lines of each benchmark
/// that ran.
pub open spec fn text_of(r: BenchReport, bright: bool) -> Seq<char> {
    header_text_of(r.header) + match r.nav {
        Some(n) => nav_text_of(n, bright),
        None => Seq::empty(),
    } + match r.slider {
        Some(s) => slider_lines_of(s, bright),
        None => Seq::empty(),
    }
}

/// The report as it is written: the header, the label, then the table of each
/// benchmark that ran, with a row for each of its phases.
pub open spec fn markdown_of(r: BenchReport) -> Seq<char> {
    header_markdown_of(r.header) + label_line(r.header.label) + match r.nav {
        Some(n) => nav_markdown_of(n),
        None => Seq::empty(),
    } + match r.slider {
        Some(s) => slider_table_of(s),
        None => Seq::empty(),
    }
}

impl BenchReport {
    /// The report as it is printed. On a terminal, `bright`, the headline
    /// numbers stand out.
    pub fn to_text(&self, bright: bool) -> (r: String)
        ensures
            r@ == text_of(*self, bright),
    {
        let mut out = header_text(&self.header);
        if let Some(n) = &self.nav {
            out.append(nav_text(n, bright).as_str());
        }
        if let Some(s) = &self.slider {
            out.append(slider_lines(s, bright).as_str());
        }
        assert(out@ =~= text_of(*self, bright));
        out
    }

    /// The report as it is written.
    pub fn to_markdown(&self) -> (r: String)
        ensures
            r@ == markdown_of(*self),
    {
        let mut out = header_markdown(&self.header);
        push_label(&mut out, &self.header.label);
        if let Some(n) = &self.nav {
            out.append(nav_markdown(n).as_str());
        }
        if let Some(s) = &self.slider {
            out.append(slider_table(s).as_str());
        }
        assert(out@ =~= markdown_of(*self));
        out
    }

    /// What the names of the two files of a report have in common: the time,
    /// the machine, the folder and the run.
    pub fn file_stem(&self, stamp: &str) -> (r: String)
        ensures
            r@ == stamp@ + "_"@ + self.header.hostname@ + "_"@ + folder_name_of(
                self.header.folder@,
                "folder"@,
            ) + "_run"@ + num(self.header.run),
    {
        let mut out = stamp.to_owned();
        out.append("_");
        out.append(self.header.hostname.as_str());
        out.append("_");
        out.append(self.header.folder_name().as_str());
        out.append("_run");
        out.append(num_text(self.header.run).as_str());
        out
    }
}

} // verus!
