//! The parts around the picture: files and formats, the panel, culling,
//! animations, the log, colours and the trash.
use viewskater::animation::{
    frame_delay, DecoderEvent, Player, PlayerStep, Worker, WorkerMessage, WorkerStep,
};
use viewskater::culling::{
    after_trash, filter_message, filter_turns_on, moved_message, not_moved_message, permanent_delete_decision,
    star_flash, star_menu_state, star_plan, targets, toast_shows, toggle_starred_only, trash_step, DeleteFrame,
    PaneState, TrashStep,
};
use viewskater::path::{plain, same_path};
use viewskater::decode::{
    convert_image, image_to_color_image, image_to_thumbnail, needs_downscale, picture_from_rgb, picture_from_rgba,
    Pixel, Samples, Stored, MAX_TEXTURE_SIZE,
};
use viewskater::file_io::format::{
    exif_from, exif_with_tail, format_label, format_name, has_frames, resolve_path, searches_tail, ExifRead, ImageKind,
};
use viewskater::file_io::listing::{
    apply_sort_direction, descends_into, enumerate_images, is_supported_image, join_ranks, may_have_animation,
    rank_files, EntryKind, FolderEntry, Rank,
};
use viewskater::file_io::log_buffer::{is_kept, log_line, LogBuffer, MAX_LOG_LINES};
use viewskater::file_io::png::{find_trailing_exif, tail_start};
use viewskater::metadata::ExifData;
use viewskater::metadata_panel::{
    active_pane, camera_rows, dims_line, elide_start, exif_note, exposure_line, file_rows, filter_tags, list_title,
    shows_orientation, size_line, tag_is_listed, visible_rows, whole_megapixels, CameraRow, CameraValues,
};
use viewskater::pane::PaneList;
use viewskater::path;
use viewskater::raw::found::Orientation;
use viewskater::settings::{
    settings_outcome, AppSettings, ImageDiscoveryOptions, ImageSortKey, ImageSortOrder, SettingsFrame, SortDirection,
};
use viewskater::stars::Stars;
use viewskater::text::{contains_text, fill, first_word_of, trim_text};
use viewskater::theme::{blend_accent, gray, teal, Rgb, UiTheme};
use viewskater::trash_bin::{describe, folder_to_check, lacks_recycle_bin, refusal, TrashFailure, Volume};

// ---- PNG -----------------------------------------------------------

fn chunk(kind: &[u8; 4], data: &[u8]) -> Vec<u8> {
    let mut out = (data.len() as u32).to_be_bytes().to_vec();
    out.extend_from_slice(kind);
    out.extend_from_slice(data);
    out.extend_from_slice(&[0, 0, 0, 0]); // CRC, not checked
    out
}

#[test]
fn trailing_exif_is_found_behind_the_pixel_data() {
    // The end of some IDAT data that happens to contain "eXIf", then
    // the real chunk, a text chunk and IEND, as ImageMagick writes.
    let mut tail = b"\x9c\x00\x00\x10\x00eXIf compressed bytes that are not a chunk".to_vec();
    tail.extend(chunk(b"eXIf", b"MM\0*real exif"));
    tail.extend(chunk(b"tEXt", b"exif:Make\0Apple"));
    tail.extend(chunk(b"IEND", b""));
    assert_eq!(find_trailing_exif(&tail), Some(&b"MM\0*real exif"[..]));

    // Only the decoy: nothing.
    let mut decoy = b"\x00\x00\x00\x05eXIfabcde".to_vec();
    decoy.extend(chunk(b"IDAT", b"more pixels"));
    assert_eq!(find_trailing_exif(&decoy), None);

    // No eXIf at all.
    let mut plain = chunk(b"IDAT", b"pixels");
    plain.extend(chunk(b"IEND", b""));
    assert_eq!(find_trailing_exif(&plain), None);

    // A chunk whose length runs past the end is refused.
    let mut cut = (1000u32).to_be_bytes().to_vec();
    cut.extend_from_slice(b"eXIfshort");
    assert_eq!(find_trailing_exif(&cut), None);
}

// ---- formats and paths ---------------------------------------------

#[test]
fn a_format_has_its_name_or_the_extension() {
    assert_eq!(format_label(&ImageKind::WebP).as_deref(), Some("WebP"));
    assert_eq!(format_label(&ImageKind::Unknown), None);
    assert_eq!(format_name(&ImageKind::Jpeg, "a.png").as_deref(), Some("JPEG"));
    assert_eq!(format_name(&ImageKind::Other("avif".into()), "a.png").as_deref(), Some("AVIF"));
    assert_eq!(format_name(&ImageKind::Unknown, "/photos/a.jxl").as_deref(), Some("JXL"));
    assert_eq!(format_name(&ImageKind::Unknown, "/photos/a"), None);
}

#[test]
fn a_block_is_read_searched_for_or_unreadable() {
    assert!(matches!(exif_from(ExifRead::Absent), ExifData::Absent));
    assert!(matches!(exif_from(ExifRead::Failed), ExifData::Unreadable));
    assert!(matches!(exif_from(ExifRead::Bytes(b"no block".to_vec())), ExifData::Unreadable));
    assert!(searches_tail(&ImageKind::Png, &ExifData::Absent));
    assert!(!searches_tail(&ImageKind::Png, &ExifData::Unreadable));
    assert!(!searches_tail(&ImageKind::Jpeg, &ExifData::Absent));
    let block = [&chunk(b"eXIf", b"no block")[..], &chunk(b"IEND", b"")].concat();
    assert!(matches!(exif_with_tail(&ImageKind::Png, ExifData::Absent, &block), ExifData::Unreadable));
    assert!(matches!(exif_with_tail(&ImageKind::Jpeg, ExifData::Absent, &block), ExifData::Absent));
    assert!(matches!(exif_with_tail(&ImageKind::Png, ExifData::Absent, b""), ExifData::Absent));
    assert_eq!(tail_start(128 * 1024 + 7), 7);
    assert_eq!(tail_start(100), 0);
    assert!(has_frames(&ImageKind::Gif, false));
    assert!(has_frames(&ImageKind::WebP, true));
    assert!(!has_frames(&ImageKind::WebP, false));
    assert!(!has_frames(&ImageKind::Jpeg, true));
}

#[test]
fn a_path_names_a_folder_or_a_file_in_it() {
    assert_eq!(resolve_path("/photos/a.jpg", true), ("/photos".into(), Some("a.jpg".into())));
    assert_eq!(resolve_path("/photos", false), ("/photos".into(), None));
    assert_eq!(path::file_name("/photos/day/").as_deref(), Some("day"));
    assert_eq!(path::file_name("/photos/.."), None);
    assert_eq!(path::extension("/photos/a.tar.gz").as_deref(), Some("gz"));
    assert_eq!(path::extension("/photos/.hidden"), None);
    assert_eq!(path::parent("/photos/a.jpg").as_deref(), Some("/photos"));
    assert_eq!(path::parent("a.jpg").as_deref(), Some(""));
    assert_eq!(path::parent("/"), None);
    assert_eq!(path::join("/photos", "a.jpg"), "/photos/a.jpg");
}

// ---- listing -------------------------------------------------------

fn file(path: &str, modified: Option<i128>, size: Option<u64>) -> FolderEntry {
    FolderEntry { path: path.into(), kind: EntryKind::File, modified, created: None, size }
}

fn opts(key: ImageSortKey, direction: SortDirection) -> ImageDiscoveryOptions {
    ImageDiscoveryOptions { sort_order: ImageSortOrder { key, direction }, ..Default::default() }
}

#[test]
fn pictures_are_told_by_their_extensions() {
    assert!(is_supported_image("/photos/a.JPG"));
    assert!(is_supported_image("a.jxl"));
    assert!(!is_supported_image("a.txt"));
    assert!(!is_supported_image("jpg"));
    assert!(may_have_animation("a.GIF"));
    assert!(may_have_animation("a.webp"));
    assert!(!may_have_animation("a.jpg"));
}

/// Numbers in names count as numbers.
#[test]
fn names_are_in_natural_order() {
    let entries = vec![
        file("/p/img10.png", None, None),
        file("/p/img2.png", None, None),
        file("/p/notes.txt", None, None),
        file("/p/.hidden.png", None, None),
        file("/p/img1.png", None, None),
    ];
    let up = enumerate_images(&entries, opts(ImageSortKey::Name, SortDirection::Ascending));
    assert_eq!(up.images, ["/p/img1.png", "/p/img2.png", "/p/img10.png"]);
    assert!(up.star_files.is_empty());
    let down = enumerate_images(&entries, opts(ImageSortKey::Name, SortDirection::Descending));
    assert_eq!(down.images, ["/p/img10.png", "/p/img2.png", "/p/img1.png"]);
    let hidden = ImageDiscoveryOptions { include_hidden: true, ..Default::default() };
    assert_eq!(enumerate_images(&entries, hidden).images.len(), 4);
}

/// Files that a key does not tell apart are in the order of their names.
#[test]
fn a_key_comes_before_the_name() {
    let entries = vec![
        file("/p/c.png", Some(5), Some(10)),
        file("/p/b.png", Some(9), Some(10)),
        file("/p/a.png", None, Some(30)),
    ];
    let by = |key, direction| enumerate_images(&entries, opts(key, direction)).images;
    assert_eq!(by(ImageSortKey::Size, SortDirection::Ascending), ["/p/b.png", "/p/c.png", "/p/a.png"]);
    assert_eq!(by(ImageSortKey::Size, SortDirection::Descending), ["/p/a.png", "/p/c.png", "/p/b.png"]);
    assert_eq!(by(ImageSortKey::Modified, SortDirection::Ascending), ["/p/a.png", "/p/c.png", "/p/b.png"]);
    assert_eq!(by(ImageSortKey::Created, SortDirection::Ascending), ["/p/a.png", "/p/b.png", "/p/c.png"]);
    let order = ImageSortOrder { key: ImageSortKey::Extension, direction: SortDirection::Ascending };
    assert_eq!(rank_files(&file("z.bmp", None, None), &file("a.png", None, None), order), Rank::Before);
    assert_eq!(rank_files(&file("z.bmp", None, None), &file("a.bmp", None, None), order), Rank::After);
}

#[test]
fn ranks_are_joined_and_turned() {
    let down = SortDirection::Descending;
    assert_eq!(apply_sort_direction(Rank::Before, down), Rank::After);
    assert_eq!(apply_sort_direction(Rank::Before, SortDirection::Ascending), Rank::Before);
    assert_eq!(join_ranks(Rank::Same, Rank::Before, down), Rank::After);
    assert_eq!(join_ranks(Rank::After, Rank::After, down), Rank::Before);
    assert_eq!(join_ranks(Rank::Same, Rank::Same, down), Rank::Same);
}

#[test]
fn folders_are_entered_only_when_asked_for() {
    let folder = |path: &str| FolderEntry { kind: EntryKind::Folder, ..file(path, None, None) };
    let deep = ImageDiscoveryOptions { recursive: true, ..Default::default() };
    assert!(descends_into(&folder("/p/sub"), deep));
    assert!(!descends_into(&folder("/p/.git"), deep));
    assert!(!descends_into(&folder("/p/sub"), ImageDiscoveryOptions::default()));
    assert!(!descends_into(&file("/p/a.png", None, None), deep));
}

// ---- the panel -----------------------------------------------------

#[test]
fn exposure_line_joins_what_exists() {
    assert_eq!(exposure_line(None, None, None), None);
    assert_eq!(exposure_line(Some("1/60 s"), None, Some("ISO 160")).as_deref(), Some("1/60 s  ISO 160"));
    assert_eq!(
        exposure_line(Some("1/60 s"), Some("f/1.78"), Some("ISO 160")).as_deref(),
        Some("1/60 s  f/1.78  ISO 160")
    );
}

/// The list stands in for the rows outside the viewport with empty space, so
/// its height must be the same whatever part is visible.
#[test]
fn tag_list_height_does_not_depend_on_scroll_offset() {
    let row_height = 18.0_f32;
    for offset in [0.0_f32, 300.0, 1500.0, 3000.0, 3400.0, 9000.0] {
        let first = (offset / row_height).floor() as usize;
        let last = ((offset + 600.0) / row_height).ceil() as usize;
        let (from, to) = visible_rows(first, last, 200);
        assert!(from <= to && to <= 200);
        let height = from as f32 * row_height + (to - from) as f32 * row_height + (200 - to) as f32 * row_height;
        assert!((height - 200.0 * row_height).abs() < 0.5, "{height}");
    }
    assert_eq!(visible_rows(16, 50, 200), (16, 51));
    assert_eq!(visible_rows(500, 540, 200), (200, 200));
}

/// Lays texts out as the panel does.
fn elided(text: &str, max_width: f32) -> (String, bool) {
    let ctx = egui::Context::default();
    let font = egui::FontId::proportional(12.0);
    let input = egui::RawInput {
        screen_rect: Some(egui::Rect::from_min_size(egui::Pos2::ZERO, egui::vec2(400.0, 300.0))),
        ..Default::default()
    };
    let mut out = (String::new(), false);
    let _ = ctx.run(input, |ctx| {
        let fits = |s: &str| {
            ctx.fonts(|f| f.layout_no_wrap(s.to_string(), font.clone(), egui::Color32::WHITE).size().x) <= max_width
        };
        out = elide_start(text, &fits);
    });
    out
}

#[test]
fn folder_is_cut_from_the_left_at_a_separator() {
    let path = "/home/someone/pictures/2026/bali/day-3/raw";
    let short = elided(path, 1000.0);
    let long = elided(path, 120.0);
    assert_eq!(short, (path.to_string(), false));
    assert!(long.1);
    assert!(long.0.starts_with("…/"), "{}", long.0);
    assert!(long.0.ends_with("/day-3/raw") || long.0.ends_with("/raw"), "{}", long.0);
    assert!(path.ends_with(long.0.trim_start_matches('…')), "{}", long.0);

    // Windows separators are cut at too.
    let windows = r"C:\Users\someone\Pictures\2026\bali\day-3\raw";
    let cut = elided(windows, 120.0);
    assert!(cut.1);
    assert!(cut.0.starts_with("…\\"), "{}", cut.0);
    assert!(windows.ends_with(cut.0.trim_start_matches('…')), "{}", cut.0);
}

/// The longest end that fits is kept where there is no separator in it.
#[test]
fn a_text_without_a_separator_is_cut_where_it_fits() {
    let fits = |s: &str| s.chars().count() <= 4;
    assert_eq!(elide_start("abcdef", &fits), ("…def".to_string(), true));
    assert_eq!(elide_start("abcd", &fits), ("abcd".to_string(), false));
    let never = |_: &str| false;
    assert_eq!(elide_start("abc", &never), ("…".to_string(), true));
}

#[test]
fn the_panel_shows_what_there_is() {
    assert_eq!(active_pane(1, 2), 1);
    assert_eq!(active_pane(5, 2), 1);
    assert_eq!(active_pane(1, 1), 0);
    assert_eq!(exif_note(Some(&ExifData::Unreadable)), Some("EXIF unreadable"));
    assert_eq!(exif_note(None), Some("No EXIF data"));
    assert_eq!(size_line(Some("1.0 MB"), None).as_deref(), Some("1.0 MB"));
    assert!(!shows_orientation("Normal"));
    assert!(shows_orientation("Rotate 180°"));
    let rows = camera_rows(CameraValues {
        exposure: true,
        compensation: false,
        focal: true,
        camera: false,
        lens: false,
        taken: true,
    });
    assert_eq!(rows, [CameraRow::Exposure, CameraRow::Focal, CameraRow::Taken]);
    let rows = file_rows(
        "/photos/46.jpg",
        Some("2.0 MB"),
        Some("JPEG"),
        Some(&dims_line(4000, 3000, "12 MP")),
        Some("Normal"),
        None,
    );
    let rows: Vec<(&str, &str)> = rows.iter().map(|r| (r.label, r.value.as_str())).collect();
    assert_eq!(rows, [
        ("Name", "46.jpg"),
        ("Folder", "/photos"),
        ("Size", "2.0 MB · JPEG"),
        ("Dims", "4000x3000 · 12 MP"),
    ]);
    let turned = file_rows("46.jpg", None, None, None, Some("Rotate 180°"), Some("2026-09-14 10:00"));
    assert_eq!(turned.iter().map(|r| r.label).collect::<Vec<_>>(), ["Name", "Folder", "Orientation", "Modified"]);
    assert!(whole_megapixels(4000, 3000));
    assert!(!whole_megapixels(2000, 1000));
}

#[test]
fn the_tag_list_is_filtered_by_name_or_value() {
    let tags: Vec<(String, String)> =
        vec![("Model".into(), "NIKON D750".into()), ("FNumber".into(), "f/2.8".into()), ("Make".into(), "NIKON".into())];
    assert_eq!(filter_tags(&tags, ""), [0, 1, 2]);
    assert_eq!(filter_tags(&tags, " nikon "), [0, 2]);
    assert_eq!(filter_tags(&tags, "fnum"), [1]);
    assert!(tag_is_listed("make", "nikon", "nik"));
    assert!(tag_is_listed("make", "nikon", ""));
    assert!(!tag_is_listed("make", "nikon", "canon"));
    assert!(list_title(true, 1, 3).contains('1') && list_title(true, 1, 3).contains('3'));
    assert!(list_title(false, 3, 3).contains('3'));
}

// ---- culling -------------------------------------------------------

fn pane(selected: bool, current: Option<&str>, starred: bool, starred_only: bool) -> PaneState {
    PaneState { selected, current: current.map(String::from), starred, starred_only }
}

/// Both panes on one picture name it once.
#[test]
fn an_action_is_for_the_active_panes() {
    let panes = vec![pane(true, Some("/p/a"), false, false), pane(false, Some("/p/b"), false, false)];
    assert_eq!(targets(&panes, false), ["/p/a", "/p/b"]);
    assert_eq!(targets(&panes, true), ["/p/a"]);
    let same = vec![pane(true, Some("/p/a"), false, false), pane(true, Some("/p/a"), false, false)];
    assert_eq!(targets(&same, false), ["/p/a"]);
    assert!(targets(&vec![pane(true, None, false, false)], false).is_empty());
}

#[test]
fn a_file_that_would_be_deleted_is_asked_about() {
    assert_eq!(trash_step(0, true), TrashStep::Nothing);
    assert_eq!(trash_step(2, true), TrashStep::Confirm);
    assert_eq!(trash_step(2, false), TrashStep::Trash);
    let quiet = DeleteFrame {
        backdrop_clicked: false,
        cancel_clicked: false,
        delete_clicked: false,
        enter: false,
        escape: false,
    };
    assert_eq!(permanent_delete_decision(quiet), None);
    assert_eq!(permanent_delete_decision(DeleteFrame { enter: true, ..quiet }), Some(true));
    assert_eq!(permanent_delete_decision(DeleteFrame { escape: true, delete_clicked: true, ..quiet }), Some(false));
    assert_eq!(permanent_delete_decision(DeleteFrame { delete_clicked: true, ..quiet }), Some(true));
    assert_eq!(permanent_delete_decision(DeleteFrame { backdrop_clicked: true, ..quiet }), Some(false));
    assert!(moved_message("/p/a.jpg").contains("a.jpg"));
    assert!(not_moved_message("/p/a.jpg", "why").contains("why"));
}

fn open(paths: &[&str], current: usize, stars: &Stars) -> PaneList {
    PaneList::open(paths.iter().map(|p| p.to_string()).collect(), current, stars)
}

/// A picture that was moved leaves both panes, and its star goes. A move that
/// failed changes nothing.
#[test]
fn a_trashed_picture_leaves_every_pane() {
    let mut stars = Stars::new(&Vec::new());
    stars.star("/p/b", 1, "now".into()).unwrap();
    let mut panes = vec![open(&["/p/a", "/p/b", "/p/c"], 1, &stars), open(&["/p/b", "/p/d"], 1, &stars)];

    let kept = after_trash(&mut panes, &mut stars, "/p/b", Err("no trash here".into()));
    assert!(kept.is_error && kept.star.is_none());
    assert_eq!(kept.message, "Could not move b to Trash: no trash here");
    assert_eq!(panes[0].image_paths.len(), 3);
    assert!(stars.is_starred("/p/b"));

    let gone = after_trash(&mut panes, &mut stars, "/p/b", Ok(()));
    assert!(!gone.is_error);
    assert_eq!(gone.message, "Moved to Trash: b");
    assert!(matches!(gone.star, Some(Ok(job)) if job.name == "b"));
    assert_eq!(panes[0].image_paths, ["/p/a", "/p/c"]);
    assert_eq!(panes[0].current_index, 1);
    assert_eq!(panes[1].image_paths, ["/p/d"]);
    assert_eq!(panes[1].current_index, 0);
    assert!(!stars.is_starred("/p/b"));
    assert!(after_trash(&mut panes, &mut stars, "/p/a", Ok(())).star.is_none());
}

/// The key stars all pictures unless all have a star.
#[test]
fn the_star_key_makes_pictures_equal() {
    let mut stars = Stars::new(&Vec::new());
    stars.star("/p/a", 1, "now".into()).unwrap();
    let paths: Vec<String> = vec!["/p/a".into(), "/p/b".into()];
    let plan = star_plan(&paths, &stars);
    assert!(plan.star);
    assert_eq!(plan.paths, ["/p/b"]);
    stars.star("/p/b", 1, "now".into()).unwrap();
    let plan = star_plan(&paths, &stars);
    assert!(!plan.star);
    assert_eq!(plan.paths, paths);
    assert!(!star_plan(&Vec::new(), &stars).star);
}

#[test]
fn the_menus_show_the_active_panes() {
    let panes = vec![pane(true, Some("/p/a"), true, true), pane(true, Some("/p/b"), false, false)];
    assert_eq!(star_menu_state(&panes, false), (false, true));
    assert!(!filter_turns_on(&panes, false));
    assert_eq!(star_menu_state(&vec![pane(true, None, false, false)], false), (false, false));
    assert_eq!(filter_message(&vec![0, 1], 2).as_deref(), Some("No starred images in this folder"));
    assert_eq!(filter_message(&vec![1], 2).as_deref(), Some("No starred images in pane 2"));
    assert_eq!(filter_message(&Vec::new(), 2), None);
}

/// The key turns the filter on where no active pane has it on.
#[test]
fn the_filter_key_acts_on_the_active_panes() {
    let mut stars = Stars::new(&Vec::new());
    stars.star("/p/b", 1, "now".into()).unwrap();
    let mut panes = vec![open(&["/p/a", "/p/b"], 0, &stars), open(&["/p/c"], 0, &stars)];
    let both = vec![true, true];
    let message = toggle_starred_only(&mut panes, &both, false, &stars);
    assert_eq!(message.as_deref(), Some("No starred images in pane 2"));
    assert!(panes[0].starred_only() && !panes[1].starred_only());
    assert_eq!(toggle_starred_only(&mut panes, &both, false, &stars), None);
    assert!(!panes[0].starred_only());
    let message = toggle_starred_only(&mut panes, &vec![false, true], true, &stars);
    assert_eq!(message.as_deref(), Some("No starred images in this folder"));
    assert!(!panes[0].starred_only());
}

#[test]
fn a_star_flashes_and_a_message_goes() {
    let ms = 1_000_000;
    assert_eq!(star_flash(100 * ms), Some(0));
    assert_eq!(star_flash(500 * ms), Some(100 * ms));
    assert_eq!(star_flash(800 * ms), None);
    assert!(toast_shows(2_400 * ms));
    assert!(!toast_shows(2_500 * ms));
}

// ---- the rest ------------------------------------------------------

#[test]
fn a_still_picture_is_played_once() {
    assert_eq!(frame_delay(40, 1), 40);
    assert_eq!(frame_delay(0, 1), 10);
    let mut still = Worker::new();
    assert_eq!(still.request(), WorkerStep::Open);
    assert_eq!(still.event(DecoderEvent::Opened), WorkerStep::Next);
    assert_eq!(still.event(DecoderEvent::Frame), WorkerStep::Deliver);
    assert_eq!(still.request(), WorkerStep::Next);
    assert_eq!(still.event(DecoderEvent::End), WorkerStep::Finish);

    let mut moving = Worker::new();
    moving.event(DecoderEvent::Opened);
    moving.event(DecoderEvent::Frame);
    moving.event(DecoderEvent::Frame);
    assert_eq!(moving.event(DecoderEvent::End), WorkerStep::Open);
    assert_eq!(moving.event(DecoderEvent::Failed), WorkerStep::Finish);
}

#[test]
fn frames_are_asked_for_when_they_are_due() {
    let mut player = Player::new(0);
    assert_eq!(player.step(5), PlayerStep::Repaint);
    assert!(player.message(WorkerMessage::Frame(40), 10));
    assert_eq!(player.step(20), PlayerStep::RepaintAfter(30));
    assert_eq!(player.step(50), PlayerStep::Ask);
    assert_eq!(player.step(51), PlayerStep::Repaint);
    assert!(!player.message(WorkerMessage::Finished, 60));
}

#[test]
fn the_log_keeps_its_newest_lines() {
    let mut log = LogBuffer::new();
    for i in 0..MAX_LOG_LINES + 2 {
        log.push(format!("{i}"));
    }
    assert_eq!(log.len(), MAX_LOG_LINES);
    assert_eq!(log.line(0).map(|s| s.as_str()), Some("2"));
    assert_eq!(log.line(MAX_LOG_LINES), None);
    assert_eq!(log_line("INFO", "started"), "INFO  started");
    assert!(is_kept("viewskater_egui::cache", None));
    assert!(!is_kept("wgpu", None));
    assert!(is_kept("log", Some("viewskater_egui")));
    assert!(!is_kept("viewskater_egui", Some("wgpu")));
}

/// A decoded picture of three bytes for each pixel.
fn stored_rgb(img: image::RgbImage) -> Stored {
    Stored { width: img.width(), height: img.height(), samples: Samples::Rgb(img.into_raw()) }
}

/// Red left of blue, turned a quarter clockwise, is red above blue.
#[test]
fn conversion_applies_the_orientation() {
    let mut stored = image::RgbImage::new(2, 1);
    stored.put_pixel(0, 0, image::Rgb([255, 0, 0]));
    stored.put_pixel(1, 0, image::Rgb([0, 0, 255]));
    let red = Pixel { r: 255, g: 0, b: 0, a: 255 };
    let blue = Pixel { r: 0, g: 0, b: 255, a: 255 };
    let shown = |turn: Orientation| image_to_color_image(stored_rgb(stored.clone()), (0, 0), turn);

    let turned = shown(Orientation::Rotate90);
    assert_eq!((turned.width, turned.height), (1, 2));
    assert_eq!(turned.pixels, [red, blue]);

    let plain = shown(Orientation::NoTransforms);
    assert_eq!((plain.width, plain.height), (2, 1));
    assert_eq!(plain.pixels, [red, blue]);

    assert_eq!(shown(Orientation::Rotate270).pixels, [blue, red]);
    assert_eq!(picture_from_rgb(2, 1, stored.as_raw(), Orientation::Rotate180).pixels, [blue, red]);
}

#[test]
fn thumbnail_is_turned_after_the_downscale() {
    let img = image::RgbImage::new(1000, 500);
    let plain = image_to_thumbnail(stored_rgb(img.clone()), Orientation::NoTransforms);
    assert_eq!([plain.width, plain.height], [400, 200]);
    let turned = image_to_thumbnail(stored_rgb(img), Orientation::Rotate90);
    assert_eq!([turned.width, turned.height], [200, 400]);
    assert_eq!(turned.pixels.len(), 80_000);
}

/// Left half red, right half blue: the halves stay where they are in a smaller
/// picture.
#[test]
fn a_smaller_picture_shows_the_same() {
    let red = Pixel { r: 255, g: 0, b: 0, a: 255 };
    let blue = Pixel { r: 0, g: 0, b: 255, a: 255 };
    let halves = |w: u32, h: u32| {
        image::RgbImage::from_fn(w, h, |x, _| image::Rgb(if x < w / 2 { [255, 0, 0] } else { [0, 0, 255] }))
    };
    let small = image_to_thumbnail(stored_rgb(halves(800, 4)), Orientation::NoTransforms);
    assert_eq!([small.width, small.height], [400, 2]);
    assert_eq!((small.pixels[0], small.pixels[399]), (red, blue));
    let fits = image_to_thumbnail(stored_rgb(halves(4, 4)), Orientation::NoTransforms);
    assert_eq!(fits.pixels[..4], [red, red, blue, blue]);

    let large = halves(16384, 2);
    let scaled = image_to_color_image(stored_rgb(large), (8192, 1), Orientation::Rotate180);
    assert_eq!([scaled.width, scaled.height], [8192, 1]);
    assert_eq!((scaled.pixels[0], scaled.pixels[8191]), (blue, red));

    let clear = Stored { width: 1, height: 1, samples: Samples::Rgba(vec![9, 8, 7, 0]) };
    assert_eq!(convert_image(clear, Orientation::NoTransforms).pixels, [Pixel { r: 0, g: 0, b: 0, a: 0 }]);

    let dark = Stored { width: 1, height: 1, samples: Samples::Rgba(vec![10, 3, 0, 128]) };
    assert_eq!(convert_image(dark, Orientation::NoTransforms).pixels, [Pixel { r: 5, g: 2, b: 0, a: 128 }]);
}

/// Every turn brings each pixel to its place, and the opacity is multiplied
/// in.
#[test]
fn pixels_go_to_their_places() {
    // 0 1 2
    // 3 4 5
    let numbered: Vec<u8> = (0..6u8).flat_map(|i| [i, 0, 0, 255]).collect();
    let order = |turn: Orientation| {
        let p = picture_from_rgba(3, 2, numbered.clone(), turn);
        (p.width, p.pixels.iter().map(|p| p.r).collect::<Vec<_>>())
    };
    assert_eq!(order(Orientation::Rotate90), (2, vec![3, 0, 4, 1, 5, 2]));
    assert_eq!(order(Orientation::Rotate180), (3, vec![5, 4, 3, 2, 1, 0]));
    assert_eq!(order(Orientation::Rotate270), (2, vec![2, 5, 1, 4, 0, 3]));
    assert_eq!(order(Orientation::FlipHorizontal), (3, vec![2, 1, 0, 5, 4, 3]));
    assert_eq!(order(Orientation::FlipVertical), (3, vec![3, 4, 5, 0, 1, 2]));
    assert_eq!(order(Orientation::Rotate90FlipH), (2, vec![0, 3, 1, 4, 2, 5]));
    assert_eq!(order(Orientation::Rotate270FlipH), (2, vec![5, 2, 4, 1, 3, 0]));

    let p = picture_from_rgba(2, 1, vec![9, 8, 7, 0, 200, 100, 50, 128], Orientation::NoTransforms);
    assert_eq!(p.pixels[0], Pixel { r: 0, g: 0, b: 0, a: 0 });
    assert_eq!(p.pixels[1].a, 128);
    assert!(p.pixels[1].r < 200 && p.pixels[1].r > p.pixels[1].g);
}

#[test]
fn large_pictures_are_scaled_down() {
    assert!(needs_downscale(MAX_TEXTURE_SIZE + 1, 10, MAX_TEXTURE_SIZE));
    assert!(needs_downscale(10, MAX_TEXTURE_SIZE + 1, MAX_TEXTURE_SIZE));
    assert!(!needs_downscale(MAX_TEXTURE_SIZE, MAX_TEXTURE_SIZE, MAX_TEXTURE_SIZE));
}

#[test]
fn a_colour_is_mixed_with_gray() {
    let accent = teal();
    assert_eq!(blend_accent(accent, 100, 30), accent);
    assert_eq!(blend_accent(accent, 0, 30), Rgb { r: 30, g: 30, b: 30 });
    assert_eq!(blend_accent(Rgb { r: 200, g: 100, b: 0 }, 25, 40), Rgb { r: 80, g: 55, b: 30 });
    let theme = UiTheme::teal_dark();
    assert_eq!(theme.hover_bg, blend_accent(accent, 35, 30));
    assert_eq!(theme.card_bg, gray(40));
}

#[test]
fn the_trash_says_why() {
    assert_eq!(describe(TrashFailure::PermissionDenied), "permission denied");
    assert_eq!(describe(TrashFailure::CouldNotAccess("/p".into())), "could not access /p");
    assert_eq!(describe(TrashFailure::Described("full".into())), "full");
    assert_eq!(describe(TrashFailure::NotFound), "file not found");
    assert_eq!(describe(TrashFailure::TargetedRoot), "cannot trash the root directory");
    assert_eq!(folder_to_check("/p/locked.txt").as_deref(), Some("/p"));
    assert_eq!(folder_to_check("relative.txt").as_deref(), Some("."));
    assert_eq!(refusal(false).as_deref(), Some("the folder is read-only"));
    assert_eq!(refusal(true), None);
    assert!(lacks_recycle_bin(Volume::RemovableDrive));
    assert!(!lacks_recycle_bin(Volume::Other));
}

#[test]
fn the_settings_dialog_closes_and_resizes() {
    let before = AppSettings::default();
    let quiet = SettingsFrame { backdrop_clicked: false, escape_pressed: false };
    let same = settings_outcome(true, &before, &before, quiet);
    assert!(same.show && !same.performance_changed);
    let larger = AppSettings { cache_count: 6, ..before };
    let r = settings_outcome(true, &before, &larger, SettingsFrame { escape_pressed: true, ..quiet });
    assert!(!r.show && r.performance_changed);
    assert!(!settings_outcome(false, &before, &larger, quiet).performance_changed);
    assert_eq!((before.cache_count, before.decode_threads, before.lru_budget_mb), (5, 10, 1024));
}

#[test]
fn texts_are_cut_and_filled() {
    assert_eq!(trim_text("  a b \n"), "a b");
    assert_eq!(first_word_of("NIKON CORPORATION"), "NIKON");
    assert!(contains_text("abc", "bc") && contains_text("abc", "") && !contains_text("abc", "cb"));
    assert_eq!(fill("{} of {}", &vec!["1".into(), "2".into()]), "1 of 2");
}

/// Texts that name one path have one plain text.
#[test]
fn a_path_has_one_plain_text() {
    for (text, wanted) in [
        ("/data/x", "/data/x"),
        ("/data/x/", "/data/x"),
        ("/data//x/.", "/data/x"),
        ("/data/./x", "/data/x"),
        ("//", "/"),
        ("/.", "/"),
        ("./a", "./a"),
        ("././a/", "./a"),
        ("a/../b", "a/../b"),
        (".", "."),
        ("", ""),
    ] {
        assert_eq!(plain(text), wanted);
        assert!(same_path(text, wanted));
        assert_eq!(same_path(text, "/data/x"), std::path::Path::new(text) == std::path::Path::new("/data/x"));
        assert_eq!(same_path(text, "a"), std::path::Path::new(text) == std::path::Path::new("a"));
    }
    assert_eq!(path::parent(&plain("/data//x/")).as_deref(), Some("/data"));
    assert_eq!(path::join(&plain("/data/"), "x.png"), "/data/x.png");
    assert!(!same_path("./a", "a"));
    assert!(!same_path("/a", "a"));
}
