//! The reports of the benchmarks, and the summary over several runs.
use viewskater::bench::report::{
    flag, highlight, name_of_folder, opt_ms, opt_secs, BenchReport, Figures, Header, NavFigures, SettingsSnapshot,
    SettleFigures, SkateFigures, SliderFigures, SliderPhaseFigures, TapFigures,
};
use viewskater::bench::stats::LatencyStats;
use viewskater::bench::summary::{
    cell, groups_of, FolderFigures, PhaseTexts, SkateTexts, Summary, TapSummary, TapTexts,
};
use viewskater::settings::AppSettings;

/// The figures of some times in milliseconds, with a number of places.
fn figures(samples_ms: &[f64], decimals: usize) -> Figures {
    let s = LatencyStats::from_samples(&samples_ms.iter().map(|v| (v * 1e6) as u64).collect());
    let text = |ns: u64| format!("{:.*}", decimals, ns as f64 / 1e6);
    Figures { count: s.count, median: text(s.median), p95: text(s.p95), p99: text(s.p99), max: text(s.max) }
}

fn skate(direction: &str, images_per_sec: f64) -> SkateFigures {
    SkateFigures {
        direction: direction.into(),
        images: 95,
        skipped_images: 5,
        wall: format!("{:.2}", 1.5),
        rate: format!("{images_per_sec:.1}"),
        frames: 120,
        stall_frames: 25,
        stall_percent: format!("{:.0}", 25.0 / 120.0 * 100.0),
        frame: figures(&[16.0, 17.0, 33.0], 1),
        decode: figures(&[40.0, 45.0, 80.0], 1),
        cpu: Some(format!("{:.2}", 2.5)),
        peak_rss: format!("{:.0}", 800.0),
        peak_gpu: format!("{:.0}", 400.0),
        timed_out: false,
    }
}

fn settings() -> SettingsSnapshot {
    SettingsSnapshot {
        cache_count: 5,
        decode_threads: 10,
        lru_budget_mb: 1024,
        gpu_memory_mode: "Balanced".into(),
        preview_budget_mb: 200,
    }
}

/// A run whose skate to the right has a rate.
fn sample_with(images_per_sec: f64) -> BenchReport {
    BenchReport {
        header: Header {
            date_utc: "2026-09-14 00:00:00 UTC".into(),
            version: "0.3.0".into(),
            git_hash: "abc1234".into(),
            profile: "opt-dev".into(),
            platform: "linux-x86_64".into(),
            hostname: "host".into(),
            folder: "/data/4k_PNG_10MB".into(),
            image_count: 100,
            total_mb: format!("{:.1}", 1_048_576_000.0 / (1024.0 * 1024.0)),
            label: Some("warm".into()),
            run: 1,
            runs: 2,
            settings: settings(),
        },
        nav: Some(NavFigures {
            settle: SettleFigures { first_image: Some("350".into()), settled: Some("900".into()), timed_out: false },
            skate_right: Some(skate("right", images_per_sec)),
            skate_left: Some(skate("left", 63.3)),
            tap: None,
        }),
        slider: None,
    }
}

fn sample() -> BenchReport {
    sample_with(63.3)
}

#[test]
fn markdown_has_one_row_per_phase() {
    let md = sample().to_markdown();
    assert!(md.starts_with("# Benchmark: 4k_PNG_10MB run 1/2"));
    assert!(md.contains("- Label: warm"));
    assert_eq!(md.matches("\n| skate ").count(), 2);
    assert!(!md.contains("| tap "));
}

/// A report that has every part.
fn whole() -> BenchReport {
    let mut r = sample();
    r.nav.as_mut().unwrap().tap = Some(TapFigures {
        rate: "6.0".into(),
        whole_rate: "6".into(),
        steps: 200,
        wall: "33.40".into(),
        latency: figures(&[20.0, 30.0], 1),
        frames: 2000,
        stall_frames: 4,
        frame: figures(&[16.0], 1),
        decode: figures(&[], 1),
        cpu: None,
        peak_rss: "800".into(),
        peak_gpu: "400".into(),
        timed_out: true,
    });
    r.slider = Some(slider(phase("jump", 80.0)));
    r
}

#[test]
fn a_text_has_a_line_for_each_part() {
    let plain = whole().to_text(false);
    assert!(plain.contains("4k_PNG_10MB"));
    assert!(plain.contains("63.3"));
    assert!(plain.contains("jump"));
    assert!(!plain.contains("\u{1b}["));
    let bright = whole().to_text(true);
    assert!(bright.contains("\u{1b}["));
    assert!(plain.lines().count() == bright.lines().count());
    let md = whole().to_markdown();
    assert!(md.contains("| tap "), "{md}");
    assert!(md.contains("| jump | 20 | 20 (100%) | 20, 80.0 / 80.0 / 80.0 |"), "{md}");
}

#[test]
fn the_small_parts_of_a_report() {
    assert_eq!(opt_secs(&Some("2.50".into())), "2.50");
    assert_eq!(opt_ms(&None), opt_ms(&None));
    assert!(flag(true).contains("timed out"));
    assert_eq!(flag(false), "");
    assert_eq!(highlight("a", false), "a");
    assert!(highlight("a", true).contains('a') && highlight("a", true) != "a");
    assert_eq!(name_of_folder("/data/4k_PNG_10MB", "unnamed"), "4k_PNG_10MB");
    assert_eq!(name_of_folder("/", "unnamed"), "unnamed");
    assert_eq!(sample().header.folder_name(), "4k_PNG_10MB");
    assert_eq!(sample().file_stem("20260914_000000"), "20260914_000000_host_4k_PNG_10MB_run1");
}

#[test]
fn the_settings_of_a_run_are_noted() {
    let s = SettingsSnapshot::from(&AppSettings::default());
    let d = AppSettings::default();
    assert_eq!(s.cache_count, d.cache_count);
    assert_eq!(s.lru_budget_mb, d.lru_budget_mb);
    assert_eq!(s.decode_threads, d.decode_threads);
}

// ---- the summary ---------------------------------------------------

/// The values of a metric over some runs, as one cell.
fn spread(values: &[f64], decimals: usize) -> String {
    let n = values.len();
    let (mut sum, mut min, mut max) = (0.0, f64::INFINITY, f64::NEG_INFINITY);
    for v in values {
        sum += v;
        min = v.min(min);
        max = v.max(max);
    }
    let (mean, min, max) = if n == 0 { (0.0, 0.0, 0.0) } else { (sum / n as f64, min, max) };
    let text = |v: f64| format!("{v:.decimals$}");
    cell(n, min == max, &text(mean), &text(min), &text(max))
}

fn number(text: &str) -> f64 {
    text.parse().unwrap()
}

fn over<'a, T>(list: &[&'a T], decimals: usize, pick: fn(&'a T) -> &'a String) -> String {
    spread(&list.iter().map(|v| number(pick(v))).collect::<Vec<_>>(), decimals)
}

fn cpu_over(list: &[&Option<String>]) -> String {
    spread(&list.iter().filter_map(|v| v.as_ref().map(|s| number(s))).collect::<Vec<_>>(), 2)
}

fn skate_texts(runs: &[&SkateFigures]) -> SkateTexts {
    SkateTexts {
        images_per_sec: over(runs, 1, |r| &r.rate),
        stall_percent: over(runs, 0, |r| &r.stall_percent),
        frame_p50: over(runs, 1, |r| &r.frame.median),
        frame_p99: over(runs, 1, |r| &r.frame.p99),
        decode_p50: over(runs, 1, |r| &r.decode.median),
        decode_p95: over(runs, 1, |r| &r.decode.p95),
        cpu: cpu_over(&runs.iter().map(|r| &r.cpu).collect::<Vec<_>>()),
        peak_rss: over(runs, 0, |r| &r.peak_rss),
    }
}

fn phase_texts(runs: &[&SliderPhaseFigures], clicks: &[&Figures]) -> PhaseTexts {
    PhaseTexts {
        shown_percent: over(runs, 0, |r| &r.shown_percent),
        block_p50: over(runs, 1, |r| &r.block.median),
        block_p95: over(runs, 1, |r| &r.block.p95),
        lru_hits: spread(&runs.iter().map(|r| r.lru_hits as f64).collect::<Vec<_>>(), 0),
        refill_p50: over(runs, 0, |r| &r.refill.median),
        jump_p50: over(clicks, 1, |j| &j.median),
        jump_p95: over(clicks, 1, |j| &j.p95),
        frame_p99: over(runs, 1, |r| &r.frame.p99),
        cpu: cpu_over(&runs.iter().map(|r| &r.cpu).collect::<Vec<_>>()),
    }
}

fn tap_texts(runs: &[&TapFigures]) -> TapTexts {
    TapTexts {
        latency_p50: over(runs, 1, |r| &r.latency.median),
        latency_p95: over(runs, 1, |r| &r.latency.p95),
        latency_max: over(runs, 1, |r| &r.latency.max),
        frame_p99: over(runs, 1, |r| &r.frame.p99),
        decode_p50: over(runs, 1, |r| &r.decode.median),
        cpu: cpu_over(&runs.iter().map(|r| &r.cpu).collect::<Vec<_>>()),
    }
}

fn summarized(reports: &Vec<BenchReport>) -> Option<Summary> {
    let groups = groups_of(reports)?;
    let nav = |i: &usize| reports[*i].nav.as_ref().unwrap();
    let slider = |i: &usize| reports[*i].slider.as_ref().unwrap();
    let mut figures = Vec::new();
    for g in &groups {
        let first: Vec<f64> =
            g.nav.runs.iter().filter_map(|i| nav(i).settle.first_image.as_ref().map(|s| number(s))).collect();
        let settled: Vec<f64> =
            g.nav.runs.iter().filter_map(|i| nav(i).settle.settled.as_ref().map(|s| number(s))).collect();
        let rights: Vec<_> = g.skate_right.runs.iter().map(|i| nav(i).skate_right.as_ref().unwrap()).collect();
        let lefts: Vec<_> = g.skate_left.runs.iter().map(|i| nav(i).skate_left.as_ref().unwrap()).collect();
        let taps: Vec<_> = g.tap.runs.iter().map(|i| nav(i).tap.as_ref().unwrap()).collect();
        let sweeps: Vec<_> = g.sweep.runs.iter().map(|i| slider(i).sweep.as_ref().unwrap()).collect();
        let scrubs: Vec<_> = g.scrub.runs.iter().map(|i| slider(i).scrub.as_ref().unwrap()).collect();
        let jumps: Vec<_> = g.jump.runs.iter().map(|i| slider(i).jump.as_ref().unwrap()).collect();
        let clicks: Vec<_> =
            g.jump.with_clicks.iter().map(|i| slider(i).jump.as_ref().unwrap().jump.as_ref().unwrap()).collect();
        figures.push(FolderFigures {
            first_image: spread(&first, 0),
            settled: spread(&settled, 0),
            skate_right: skate_texts(&rights),
            skate_left: skate_texts(&lefts),
            tap: tap_texts(&taps),
            sweep: phase_texts(&sweeps, &[]),
            scrub: phase_texts(&scrubs, &[]),
            jump: phase_texts(&jumps, &clicks),
        });
    }
    Summary::of(reports, reports[0].header.date_utc.clone(), figures)
}

#[test]
fn a_summary_has_the_head_of_its_first_run() {
    let a = sample();
    let mut b = sample();
    b.header.version = "9.9.9".into();
    b.header.label = Some("later".into());
    b.header.folder = format!("{}/", b.header.folder);
    let first = a.header.folder.clone();
    let reports = vec![a, b];
    let summary = summarized(&reports).unwrap();
    let h = &reports[0].header;
    assert_eq!(summary.version, h.version);
    assert_eq!(summary.git_hash, h.git_hash);
    assert_eq!(summary.profile, h.profile);
    assert_eq!(summary.platform, h.platform);
    assert_eq!(summary.hostname, h.hostname);
    assert_eq!(summary.label, h.label);
    assert_eq!(summary.settings.cache_count, h.settings.cache_count);
    assert_eq!(summary.settings.gpu_memory_mode, h.settings.gpu_memory_mode);
    // A separator at the end names the same folder.
    assert_eq!(summary.folders.len(), 1);
    assert_eq!(summary.folders[0].folder, first);
    assert_eq!(summary.folders[0].runs, 2);
    assert_eq!(summary.folders[0].image_count, h.image_count);
    assert!(Summary::of(&Vec::new(), "now".into(), Vec::new()).is_none());
}

#[test]
fn summary_groups_runs_by_folder_in_order() {
    let a1 = sample();
    let mut a2 = sample_with(43.3);
    a2.header.run = 2;
    let mut b = sample();
    b.header.folder = "/data/small_images".into();
    let reports = vec![a1, b, a2];
    let groups = groups_of(&reports).unwrap();
    assert_eq!(groups[0].runs, [0, 2]);
    assert_eq!(groups[1].runs, [1]);
    let summary = summarized(&reports).unwrap();
    assert_eq!(summary.folders.len(), 2);
    assert_eq!(summary.folders[0].runs, 2);
    assert_eq!(summary.folders[1].runs, 1);
    let right = summary.folders[0].skate_right.as_ref().unwrap();
    assert_eq!(right.images_per_sec, "53.3 (43.3 to 63.3)");
    assert!(groups_of(&Vec::new()).is_none());
}

fn phase(name: &str, p50: f64) -> SliderPhaseFigures {
    SliderPhaseFigures {
        phase: name.into(),
        positions: 20,
        images_shown: 20,
        shown_percent: "100".into(),
        wall: "3.00".into(),
        block: Figures { count: 20, ..figures(&[p50], 1) },
        sync_decode: "0.0".into(),
        sync_convert: "0.0".into(),
        lru_hits: 0,
        releases: 20,
        refill: figures(&[300.0], 0),
        jump: Some(figures(&[p50], 1)),
        frame: figures(&[7.0], 1),
        decode: figures(&[], 1),
        cpu: Some("1.00".into()),
        peak_rss: "500".into(),
        peak_gpu: "200".into(),
        timed_out: false,
    }
}

fn slider(jump: SliderPhaseFigures) -> SliderFigures {
    SliderFigures {
        sweep_secs: "4.0".into(),
        scrub_anchors: 0,
        jumps: 20,
        settle: SettleFigures { first_image: None, settled: None, timed_out: false },
        sweep: None,
        scrub: None,
        jump: Some(jump),
    }
}

#[test]
fn summary_aggregates_slider_phases() {
    let mut a = sample();
    a.slider = Some(slider(phase("jump", 80.0)));
    let mut b = sample();
    b.header.run = 2;
    b.slider = Some(slider(SliderPhaseFigures { jump: Some(figures(&[100.0], 1)), ..phase("jump", 80.0) }));
    let summary = summarized(&vec![a, b]).unwrap();
    let sl = &summary.folders[0].slider;
    assert_eq!(sl.len(), 1);
    assert_eq!(sl[0].phase, "jump");
    assert_eq!(sl[0].jump_p50.as_deref(), Some("90.0 (80.0 to 100.0)"));
    let md = summary.to_markdown();
    assert!(md.contains("| 4k_PNG_10MB | 2 | jump | 20 | 100 | 80.0 |"), "{md}");
    assert!(md.contains("| 90.0 (80.0 to 100.0) |"), "{md}");
}

#[test]
fn summary_markdown_shows_ranges_only_for_repeated_runs() {
    let mut a2 = sample_with(43.3);
    a2.header.run = 2;
    let md = summarized(&vec![sample(), a2]).unwrap().to_markdown();
    assert!(md.contains("| 4k_PNG_10MB | 2 | right | 95 | 53.3 (43.3 to 63.3) |"), "{md}");
    let single = summarized(&vec![sample()]).unwrap().to_markdown();
    assert!(single.contains("| 4k_PNG_10MB | 1 | right | 95 | 63.3 |"), "{single}");
}

/// A run that gave up is counted, and a part that did not run is in no group.
#[test]
fn groups_count_what_ran_and_what_gave_up() {
    let mut gave_up = whole();
    gave_up.nav.as_mut().unwrap().skate_left.as_mut().unwrap().timed_out = true;
    let mut no_nav = whole();
    no_nav.nav = None;
    let groups = groups_of(&vec![gave_up, no_nav]).unwrap();
    assert_eq!(groups.len(), 1);
    let g = &groups[0];
    assert_eq!((g.folder.as_str(), g.image_count), ("/data/4k_PNG_10MB", 100));
    assert_eq!(g.nav.runs, [0]);
    assert_eq!((g.skate_left.runs.len(), g.skate_left.timeouts), (1, 1));
    assert_eq!(g.skate_right.timeouts, 0);
    assert_eq!((g.tap.runs.len(), g.tap.timeouts), (1, 1));
    assert_eq!(g.jump.runs, [0, 1]);
    assert_eq!(g.jump.with_clicks, [0, 1]);
    assert!(g.sweep.runs.is_empty());
}

/// The rows name the parts that ran, with what the first of their runs did.
#[test]
fn a_summary_has_a_row_for_each_part_that_ran() {
    let mut gave_up = whole();
    let left = gave_up.nav.as_mut().unwrap().skate_left.as_mut().unwrap();
    left.timed_out = true;
    left.images = 7;
    let mut no_nav = whole();
    no_nav.nav = None;
    let summary = summarized(&vec![no_nav, gave_up, whole()]).unwrap();
    let f = &summary.folders[0];
    let left = f.skate_left.as_ref().unwrap();
    assert_eq!((left.direction.as_str(), left.images, left.timeouts), ("left", 7, 1));
    assert_eq!(f.skate_right.as_ref().unwrap().timeouts, 0);
    let first = whole().nav.unwrap().tap.unwrap();
    let tap = f.tap.as_ref().unwrap();
    assert_eq!((tap.steps, tap.rate.clone(), tap.timeouts), (first.steps, first.whole_rate, 2));
    assert_eq!(f.slider.len(), 1);
    assert_eq!((f.slider[0].phase.as_str(), f.slider[0].positions), ("jump", 20));
    assert!(f.slider[0].jump_p95.is_some());

    let mut quiet = whole();
    quiet.nav = None;
    quiet.slider.as_mut().unwrap().jump.as_mut().unwrap().jump = None;
    let summary = summarized(&vec![quiet]).unwrap();
    let f = &summary.folders[0];
    assert!(f.skate_left.is_none() && f.skate_right.is_none() && f.tap.is_none());
    assert!(f.slider[0].jump_p50.is_none());
}

#[test]
fn a_summary_has_a_row_for_the_taps_and_its_own_file() {
    let mut summary = summarized(&vec![sample()]).unwrap();
    summary.folders[0].tap = Some(TapSummary {
        rate: "6".into(),
        steps: 200,
        latency_p50: "20.0".into(),
        latency_p95: "30.0".into(),
        latency_max: "31.0".into(),
        frame_p99: "16.0".into(),
        decode_p50: "0.0".into(),
        cpu: "0.00".into(),
        timeouts: 1,
    });
    let md = summary.to_markdown();
    assert!(md.starts_with("# Benchmark summary\n"));
    assert!(md.contains("| 4k_PNG_10MB | 1 | 6/s (1 timed out) | 200 | 20.0 | 30.0 | 31.0 | 16.0 | 0.0 | 0.00 |"), "{md}");
    assert!(md.contains("| 4k_PNG_10MB | 1 | 350 | 900 |"), "{md}");
    assert!(!md.contains("## Slider navigation"));
    assert_eq!(summary.file_stem("20260914_000000"), "20260914_000000_host_summary");
}

#[test]
fn a_cell_has_a_range_where_values_differ() {
    assert_eq!(cell(1, false, "5", "5", "5"), "5");
    assert_eq!(cell(3, true, "5", "5", "5"), "5");
    assert_eq!(cell(3, false, "5", "4", "6"), "5 (4 to 6)");
}
