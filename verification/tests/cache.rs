//! The caches around the picture on screen: textures known by their names.
use viewskater::cache::entry::Cached;
use viewskater::cache::index::shift_index;
use viewskater::cache::lru::DecodeLruCache;
use viewskater::cache::slider::SliderLoader;
use viewskater::cache::thumbnails::{evict_thumb_cache_with_budget, ThumbnailCache, ThumbnailPlan};
use viewskater::cache::window::{
    CellState, DecodeJob, DecodeResult, Decoded, Loaded, PendingUpload, RunningDecode, SlidingWindowCache,
};

const TEST_BUDGET: usize = 1024;

/// A texture, by its name.
type Texture = String;

/// A thumbnail by its pixels, four bytes each.
type Thumb = Vec<u32>;

fn make_thumb(size: usize) -> Thumb {
    vec![0; size / 4]
}

fn insert(cache: &mut Vec<Cached<Thumb>>, bytes: &mut usize, idx: usize, size: usize) {
    let img = make_thumb(size);
    *bytes += img.len() * 4;
    cache.push(Cached { file_index: idx, bytes: img.len() * 4, item: img });
}

fn contains<T>(cache: &Vec<Cached<T>>, idx: usize) -> bool {
    cache.iter().any(|e| e.file_index == idx)
}

fn evict(cache: &mut Vec<Cached<Thumb>>, bytes: &mut usize, current_idx: usize) {
    evict_thumb_cache_with_budget(cache, bytes, current_idx, TEST_BUDGET);
}

#[test]
fn cache_evicts_furthest_entry() {
    let mut cache = Vec::new();
    let mut bytes = 0;
    let each = TEST_BUDGET / 2 + 1;

    insert(&mut cache, &mut bytes, 0, each);
    insert(&mut cache, &mut bytes, 50, each);
    insert(&mut cache, &mut bytes, 45, each);

    evict(&mut cache, &mut bytes, 45);

    assert!(!contains(&cache, 0), "furthest entry (0) should be evicted");
    assert!(contains(&cache, 45), "current position should remain");
}

#[test]
fn cache_evicts_multiple_until_under_budget() {
    let mut cache = Vec::new();
    let mut bytes = 0;
    let chunk = TEST_BUDGET / 3 + 1;

    insert(&mut cache, &mut bytes, 0, chunk);
    insert(&mut cache, &mut bytes, 100, chunk);
    insert(&mut cache, &mut bytes, 50, chunk);
    insert(&mut cache, &mut bytes, 200, chunk);

    evict(&mut cache, &mut bytes, 50);

    assert!(bytes <= TEST_BUDGET);
    assert!(contains(&cache, 50), "current position should remain");
    assert!(!contains(&cache, 200), "furthest entry (200) should be evicted first");
}

#[test]
fn cache_no_eviction_under_budget() {
    let mut cache = Vec::new();
    let mut bytes = 0;
    let small = TEST_BUDGET / 10;

    insert(&mut cache, &mut bytes, 5, small);
    insert(&mut cache, &mut bytes, 10, small);

    evict(&mut cache, &mut bytes, 5);

    assert_eq!(cache.len(), 2);
}

#[test]
fn cache_keeps_at_least_one_entry() {
    let mut cache = Vec::new();
    let mut bytes = 0;

    insert(&mut cache, &mut bytes, 42, TEST_BUDGET + 1000);

    evict(&mut cache, &mut bytes, 42);

    assert_eq!(cache.len(), 1, "should never evict the last entry");
}

#[test]
fn cache_set_budget_evicts_existing_entries() {
    let mut tc: ThumbnailCache<Thumb> = ThumbnailCache::new(0);
    let mb = 1024 * 1024;

    insert(&mut tc.cache, &mut tc.cache_bytes, 0, mb);
    insert(&mut tc.cache, &mut tc.cache_bytes, 10, mb);
    insert(&mut tc.cache, &mut tc.cache_bytes, 100, mb);
    tc.texture_idx = Some(10);

    tc.set_budget_mb(2);

    assert!(tc.cache_bytes <= 2 * mb);
    assert!(contains(&tc.cache, 10), "displayed entry should remain");
    assert!(!contains(&tc.cache, 100), "furthest entry should be evicted");
}

#[test]
fn cache_bytes_tracking_stays_consistent() {
    let mut cache = Vec::new();
    let mut bytes = 0;
    let chunk = TEST_BUDGET / 2 + 1;

    insert(&mut cache, &mut bytes, 0, chunk);
    insert(&mut cache, &mut bytes, 50, chunk);
    insert(&mut cache, &mut bytes, 100, chunk);

    evict(&mut cache, &mut bytes, 50);

    let actual: usize = cache.iter().map(|e| e.item.len() * 4).sum();
    assert_eq!(bytes, actual);
}

// ---- index removal -------------------------------------------------
//
// A file leaves the list (moved to the trash). Every structure keyed by
// file index must keep pointing at the same files afterwards.

#[test]
fn cache_shift_index_maps_around_the_removed_file() {
    assert_eq!(shift_index(0, 3), Some(0));
    assert_eq!(shift_index(2, 3), Some(2));
    assert_eq!(shift_index(3, 3), None);
    assert_eq!(shift_index(4, 3), Some(3));
    assert_eq!(shift_index(100, 3), Some(99));
    assert_eq!(shift_index(0, 0), None);
    assert_eq!(shift_index(1, 0), Some(0));
}

fn one_pixel() -> Thumb {
    vec![0xFFFF_FFFF]
}

fn fake_paths(n: usize) -> Vec<String> {
    (0..n).map(|i| format!("/nonexistent/f{i}.png")).collect()
}

fn texture(name: String) -> Texture {
    name
}

fn name(t: &Texture) -> String {
    t.clone()
}

/// Texture named after the original file index, so the mapping can be
/// checked by name after a removal.
fn loaded(original_index: usize) -> Decoded<Texture, String> {
    Decoded::Image(Loaded { texture: texture(format!("f{original_index}")), width: 1, height: 1 })
}

type Window = SlidingWindowCache<Texture, Thumb, String>;

/// Window over files [first, first + 2 * cache_count + 1), every slot
/// loaded with a texture named after its original file index.
fn window(cache_count: usize, first: usize) -> Window {
    let mut c: Window = SlidingWindowCache::new(cache_count, 1);
    c.first_file_index = first;
    for (k, slot) in c.slots.iter_mut().enumerate() {
        *slot = Some(loaded(first + k));
    }
    c
}

/// The texture of a slot, by name.
fn slot_name(slot: &Option<Decoded<Texture, String>>) -> Option<String> {
    match slot {
        Some(Decoded::Image(l)) => Some(name(&l.texture)),
        _ => None,
    }
}

fn names(c: &Window) -> Vec<String> {
    c.slots.iter().map(|s| slot_name(s).unwrap()).collect()
}

/// The file index that a running decode of a path is for.
fn running(c: &Window, path: &str) -> Option<usize> {
    c.running_decodes.iter().find(|r| r.path == path).map(|r| r.file_index)
}

/// What the upload hands back for an image: a texture with the image's name.
fn upload(name: String, image: Thumb) -> Loaded<Texture> {
    Loaded { texture: texture(name), width: image.len(), height: 1 }
}

/// Every loaded slot must hold the texture of the file that now has
/// that index: original index `i` for `i < removed`, `i + 1` above.
fn assert_slots_consistent(c: &Window, removed: usize) {
    for (k, slot) in c.slots.iter().enumerate() {
        let new_index = c.first_file_index + k;
        let original = if new_index >= removed { new_index + 1 } else { new_index };
        if let Some(name) = slot_name(slot) {
            assert_eq!(
                name,
                format!("f{original}"),
                "slot {k} (file {new_index}) holds the wrong texture"
            );
        }
    }
}

/// Dual-pane case: the other pane, on the same folder, trashed a file
/// this pane does not have loaded. The loaded images are the same photos
/// with indices one lower, so only `first_file_index` moves and nothing
/// is decoded.
#[test]
fn cache_remove_before_window_shifts_first_only() {
    let paths = fake_paths(20);
    let mut c = window(2, 10); // files 10..14
    let before = names(&c);

    let mut after = paths.clone();
    after.remove(3);
    c.remove_index(3, &after);

    assert_eq!(c.first_file_index, 9);
    assert_eq!(names(&c), before, "slot contents must not change");
    assert_slots_consistent(&c, 3);
    assert!(c.running_decodes.is_empty(), "nothing to load when the window is untouched");
}

/// Dual-pane case, other side: the other pane trashed a file past this
/// pane's loaded images. Nothing about this pane changes.
#[test]
fn cache_remove_after_window_changes_nothing() {
    let paths = fake_paths(20);
    let mut c = window(2, 3); // files 3..7
    let before = names(&c);

    let mut after = paths.clone();
    after.remove(15);
    c.remove_index(15, &after);

    assert_eq!(c.first_file_index, 3);
    assert_eq!(names(&c), before);
    assert!(c.running_decodes.is_empty());
}

/// The typical culling case. Window over files 5..9 (all loaded), file 7
/// is trashed. Expected: slot for 7 dropped, the four other textures kept
/// (no re-decode), and one new load queued for the file that is now
/// index 9 (it used to be 10). `assert_slots_consistent` checks every
/// slot holds the texture of the file that now has that index.
#[test]
fn cache_remove_center_fills_from_the_right() {
    let paths = fake_paths(20);
    let mut c = window(2, 5); // files 5..9, center 7

    let mut after = paths.clone();
    after.remove(7);
    c.remove_index(7, &after);

    assert_eq!(c.first_file_index, 5);
    assert_eq!(c.slots.len(), 5);
    assert_slots_consistent(&c, 7);
    // Slot 4 is now file 9 (originally f10) and is being loaded.
    assert!(c.slots[4].is_none());
    assert_eq!(running(&c, &after[9]), Some(9));
    // The first four slots kept their textures: f5 f6 f8 f9.
    let names: Vec<_> = c.slots.iter().take(4).map(|s| slot_name(s).unwrap()).collect();
    assert_eq!(names, ["f5", "f6", "f8", "f9"]);
}

#[test]
fn cache_remove_first_slot_fills_from_the_right() {
    let paths = fake_paths(20);
    let mut c = window(2, 5);

    let mut after = paths.clone();
    after.remove(5);
    c.remove_index(5, &after);

    assert_eq!(c.first_file_index, 5);
    assert_slots_consistent(&c, 5);
    let names: Vec<_> = c.slots.iter().take(4).map(|s| slot_name(s).unwrap()).collect();
    assert_eq!(names, ["f6", "f7", "f8", "f9"]);
    assert!(c.slots[4].is_none());
}

#[test]
fn cache_remove_at_end_of_list_fills_from_the_left() {
    let paths = fake_paths(10);
    let mut c = window(2, 5); // files 5..9, the last five files

    let mut after = paths.clone();
    after.remove(9); // last file
    c.remove_index(9, &after);

    // No file 9 exists any more, so the window slides back to 4..8.
    assert_eq!(c.first_file_index, 4);
    assert_eq!(c.slots.len(), 5);
    assert!(c.slots[0].is_none(), "new leftmost slot is loading");
    assert_eq!(running(&c, &after[4]), Some(4));
    let names: Vec<_> = c.slots.iter().skip(1).map(|s| slot_name(s).unwrap()).collect();
    assert_eq!(names, ["f5", "f6", "f7", "f8"]);
    assert_slots_consistent(&c, 9);
}

#[test]
fn cache_remove_when_list_is_shorter_than_window_leaves_empty_slot() {
    let paths = fake_paths(3);
    let mut c: Window = SlidingWindowCache::new(2, 1); // 5 slots, 3 files
    for k in 0..3 {
        c.slots[k] = Some(loaded(k));
    }

    let mut after = paths.clone();
    after.remove(1);
    c.remove_index(1, &after);

    assert_eq!(c.first_file_index, 0);
    assert_eq!(c.slots.len(), 5);
    let names: Vec<_> = c.slots.iter().map(slot_name).collect();
    assert_eq!(names, [Some("f0".into()), Some("f2".into()), None, None, None]);
    assert!(c.running_decodes.is_empty(), "nothing exists to load");
}

#[test]
fn cache_remove_only_file_leaves_no_bookkeeping() {
    let mut c: Window = SlidingWindowCache::new(2, 1);
    c.slots[0] = Some(loaded(0));

    c.remove_index(0, &Vec::new());

    assert_eq!(c.first_file_index, 0);
    assert!(c.slots.iter().all(|s| s.is_none()));
    assert!(c.running_decodes.is_empty());
    assert!(c.pending_decodes.is_empty());
    assert!(c.pending_uploads.is_empty());
}

#[test]
fn remove_renumbers_in_flight_and_queues() {
    let paths = fake_paths(20);
    let mut c = window(2, 5); // files 5..9
    c.max_decode_threads = 4;
    c.slots[3] = None; // file 8 loading
    c.slots[4] = None; // file 9 queued
    c.running_decodes.push(RunningDecode { path: paths[8].clone(), file_index: 8 });
    c.pending_decodes.push(DecodeJob { file_index: 9, path: paths[9].clone() });
    c.pending_uploads.push(PendingUpload { file_index: 6, image: one_pixel(), name: "f6".into() });
    c.pending_uploads.push(PendingUpload { file_index: 7, image: one_pixel(), name: "f7".into() });

    let mut after = paths.clone();
    after.remove(7);
    c.remove_index(7, &after);

    // file 8 is now 7; plus the new rightmost (9, was f10).
    assert_eq!(running(&c, &paths[8]), Some(7));
    assert_eq!(running(&c, &paths[10]), Some(9));
    assert_eq!(c.running_decodes.len(), 2);
    // queued decode for file 9 is now 8
    assert_eq!(c.pending_decodes.len(), 1);
    assert_eq!(c.pending_decodes[0].file_index, 8);
    // upload for the removed file is dropped, the one for 6 stays
    let uploads: Vec<_> = c.pending_uploads.iter().map(|u| u.file_index).collect();
    assert_eq!(uploads, [6]);
}

/// The race. A background thread was told to decode file 8. While it
/// works, file 8 is trashed, so a different file is now number 8 (the one
/// that used to be 9). When the thread reports back, its result must not
/// land in slot 8.
///
/// This works because threads report the path they decoded, not the
/// number, and `poll` looks the number up in `running_decodes`. The removal
/// took the trashed path out of `running_decodes`, so the late result finds no
/// entry and is dropped.
#[test]
fn cache_stale_decode_result_is_dropped_by_poll() {
    let paths = fake_paths(20);
    let mut c = window(2, 5);
    c.slots[3] = None;
    c.running_decodes.push(RunningDecode { path: paths[8].clone(), file_index: 8 });

    let mut after = paths.clone();
    after.remove(8); // the file being decoded is the one removed
    c.remove_index(8, &after);
    assert!(running(&c, &paths[8]).is_none());

    // The thread finishes and reports the old path.
    let results = vec![DecodeResult { path: paths[8].clone(), image: Ok(one_pixel()) }];
    c.poll(results, &after, &upload);

    assert!(c.pending_uploads.is_empty(), "stale result must not be uploaded");
    // Slot 3 is now file 8 (originally f9), which had a texture.
    assert_eq!(slot_name(&c.slots[3]).unwrap(), "f9");
}

#[test]
fn renumbered_decode_result_lands_in_the_right_slot() {
    let paths = fake_paths(20);
    let mut c = window(2, 5);
    c.slots[4] = None; // file 9 loading
    c.running_decodes.push(RunningDecode { path: paths[9].clone(), file_index: 9 });

    let mut after = paths.clone();
    after.remove(6);
    c.remove_index(6, &after); // file 9 is now file 8, slot 3

    let results = vec![DecodeResult { path: paths[9].clone(), image: Ok(one_pixel()) }];
    c.poll(results, &after, &upload);

    assert_eq!(c.pending_uploads.len(), 0, "uploaded within the frame");
    assert!(c.slots[3].is_some(), "result went to its new slot");
    assert_eq!(name(&c.loaded_for(8).unwrap().texture), "f9.png");
}

#[test]
fn cache_lru_remove_index_shifts_keys_and_keeps_order() {
    let mut lru: DecodeLruCache<Texture> = DecodeLruCache::new(1024);
    for i in [2usize, 5, 7, 9] {
        lru.insert(i, one_pixel().len() * 4, texture(format!("f{i}")));
    }
    let bytes_before = lru.total_bytes;
    let order = |lru: &DecodeLruCache<Texture>| lru.entries.iter().map(|e| e.file_index).collect::<Vec<_>>();
    let held = |lru: &DecodeLruCache<Texture>, i: usize| {
        lru.entries.iter().find(|e| e.file_index == i).map(|e| name(&e.item)).unwrap()
    };

    lru.remove_index(5);

    assert_eq!(lru.len(), 3);
    assert_eq!(lru.total_bytes, bytes_before - 4);
    assert_eq!(held(&lru, 2), "f2");
    assert_eq!(held(&lru, 6), "f7");
    assert_eq!(held(&lru, 8), "f9");
    assert!(!contains(&lru.entries, 5));
    assert_eq!(order(&lru), [2, 6, 8]);

    // A removal outside the cached keys still moves those above.
    lru.remove_index(0);
    assert_eq!(order(&lru), [1, 5, 7]);
    assert_eq!(held(&lru, 7), "f9");
    assert_eq!(lru.total_bytes, bytes_before - 4);
}

#[test]
fn cache_thumbnail_remove_index_shifts_keys_and_displayed_index() {
    let mut tc: ThumbnailCache<Thumb> = ThumbnailCache::new(0);
    insert(&mut tc.cache, &mut tc.cache_bytes, 3, 64);
    insert(&mut tc.cache, &mut tc.cache_bytes, 4, 64);
    insert(&mut tc.cache, &mut tc.cache_bytes, 9, 64);
    tc.texture_idx = Some(9);
    tc.pending_idx = Some(6);

    tc.remove_index(4);

    let mut keys: Vec<_> = tc.cache.iter().map(|e| e.file_index).collect();
    keys.sort();
    assert_eq!(keys, [3, 8]);
    assert_eq!(tc.cache_bytes, 128);
    assert_eq!(tc.texture_idx, Some(8));
    assert_eq!(tc.pending_idx, None);

    // Removing the displayed thumbnail clears the displayed index.
    tc.remove_index(8);
    assert_eq!(tc.texture_idx, None);
    let keys: Vec<_> = tc.cache.iter().map(|e| e.file_index).collect();
    assert_eq!(keys, [3]);
}

#[test]
fn cache_thumbnail_poll_drops_result_whose_path_moved() {
    let mut tc: ThumbnailCache<Thumb> = ThumbnailCache::new(0);
    let paths = fake_paths(5);
    tc.pending_idx = Some(3);

    // The worker finished index 3 for the old list; file 1 was removed
    // meanwhile so that path now sits at index 2.
    let mut after = paths.clone();
    after.remove(1);
    assert!(!tc.poll(3, &paths[3], Some((one_pixel(), 4)), &after));

    assert!(tc.cache.is_empty(), "stale thumbnail must not be cached");
    assert_eq!(tc.pending_idx, None, "the pending marker still clears");

    // A result that still matches its index is accepted.
    assert!(tc.poll(2, &after[2], Some((one_pixel(), 4)), &after));
    assert!(contains(&tc.cache, 2));
}

// ---- the window as it moves ----------------------------------------

fn indices(jobs: &[DecodeJob]) -> Vec<usize> {
    jobs.iter().map(|j| j.file_index).collect()
}

fn done(path: &str) -> DecodeResult<Thumb, String> {
    DecodeResult { path: path.into(), image: Ok(one_pixel()) }
}

/// The window opens around the picture on screen, clamped at the ends of the
/// list. The other pictures are decoded from the left, as many at once as
/// there are threads.
#[test]
fn opening_starts_as_many_decodes_as_there_are_threads() {
    let paths = fake_paths(20);
    let mut c: Window = SlidingWindowCache::new(2, 3);
    let jobs = c.initialize(10, loaded(10), &paths);
    assert_eq!(c.first_file_index, 8);
    assert_eq!(indices(&jobs), [8, 9, 11]);
    assert_eq!(indices(&c.pending_decodes), [12]);
    assert_eq!(slot_name(&c.slots[2]).unwrap(), "f10");
    assert!(!c.is_settled());
    assert_eq!(c.summary(), "[8..12] 1/5 inflight=3");

    c.initialize(0, loaded(0), &paths);
    assert_eq!(c.first_file_index, 0);
    c.jump_to(19, loaded(19), &paths);
    assert_eq!(c.first_file_index, 15);
    assert_eq!(slot_name(&c.slots[4]).unwrap(), "f19");

    // Nothing happens on an empty list.
    assert!(c.initialize(0, loaded(0), &Vec::new()).is_empty());
    assert_eq!(c.first_file_index, 15);
}

/// A finished decode frees a thread for the next one, and at most two pictures
/// are uploaded in a frame.
#[test]
fn polling_starts_the_next_decode_and_uploads_two_a_frame() {
    let paths = fake_paths(20);
    let mut c: Window = SlidingWindowCache::new(2, 3);
    c.initialize(10, loaded(10), &paths);
    let (jobs, again) = c.poll(vec![done(&paths[8]), done(&paths[11]), done(&paths[9])], &paths, &upload);
    assert_eq!(indices(&jobs), [12]);
    assert!(again);
    assert_eq!(slot_name(&c.slots[0]).unwrap(), "f8.png");
    assert_eq!(slot_name(&c.slots[3]).unwrap(), "f11.png");
    assert!(c.slots[1].is_none());
    assert_eq!(c.pending_uploads.len(), 1);

    let (jobs, again) = c.poll(vec![done(&paths[12])], &paths, &upload);
    assert!(jobs.is_empty());
    assert!(!again);
    assert_eq!(slot_name(&c.slots[1]).unwrap(), "f9.png");
    assert!(c.is_settled());
    assert_eq!(c.total_bytes(), 20);
    assert_eq!(c.summary(), "[8..12] 5/5");
}

/// A picture that cannot be decoded takes its slot too, and is not loaded.
#[test]
fn a_failed_decode_fills_its_slot() {
    let paths = fake_paths(20);
    let mut c: Window = SlidingWindowCache::new(1, 3);
    c.initialize(10, loaded(10), &paths);
    let failed = DecodeResult { path: paths[9].clone(), image: Err(String::from("broken")) };
    c.poll(vec![failed, done(&paths[11])], &paths, &upload);
    assert!(matches!(c.decoded_for(9), Some(Decoded::Failed(why)) if why == "broken"));
    assert!(c.loaded_for(9).is_none());
    assert!(c.loaded_for(11).is_some());
    assert!(c.decoded_for(12).is_none());
    assert!(c.is_settled());
}

/// The window follows a step once the picture leaves its middle, and the
/// pictures inside stay with their files.
#[test]
fn a_step_moves_the_window_by_one() {
    let paths = fake_paths(20);
    let mut c = window(2, 5); // files 5..9, center 7
    let job = c.navigate_forward(8, &paths).unwrap();
    assert_eq!((job.file_index, job.path), (10, paths[10].clone()));
    assert_eq!(c.first_file_index, 6);
    let shown: Vec<_> = c.slots.iter().map(slot_name).collect();
    assert_eq!(shown[..4], [Some("f6".into()), Some("f7".into()), Some("f8".into()), Some("f9".into())]);
    assert_eq!(shown[4], None);

    let job = c.navigate_backward(7, &paths);
    assert_eq!(job.map(|j| j.file_index), None, "one thread, which decodes file 10");
    assert_eq!(indices(&c.pending_decodes), [5]);
    assert_eq!(c.first_file_index, 5);
    assert_eq!(slot_name(&c.slots[1]).unwrap(), "f6");

    // Not past the middle: nothing moves.
    let mut c = window(2, 0);
    assert!(c.navigate_forward(1, &paths).is_none());
    assert!(c.navigate_backward(1, &paths).is_none());
    assert_eq!(c.first_file_index, 0);
}

#[test]
fn another_window_size_starts_anew() {
    let paths = fake_paths(20);
    let mut c = window(2, 5);
    assert!(c.set_cache_count(2, 7, loaded(7), &paths).is_empty());
    assert!(c.set_cache_count(2, 0, loaded(7), &Vec::new()).is_empty());
    assert_eq!(names(&c).len(), 5);
    c.set_decode_threads(8);
    let jobs = c.set_cache_count(1, 7, loaded(7), &paths);
    assert_eq!(c.slots.len(), 3);
    assert_eq!(indices(&jobs), [6, 8]);
}

#[test]
fn the_overlay_shows_each_slot() {
    let paths = fake_paths(8);
    let mut c = window(2, 5); // files 5..9, of which 8 and 9 are not there
    c.slots[1] = None;
    c.slots[2] = None;
    c.running_decodes.push(RunningDecode { path: paths[6].clone(), file_index: 6 });
    let overlay = c.debug_overlay(5, 8);
    assert_eq!((overlay.first, overlay.last), (5, 7));
    let states: Vec<_> = overlay.cells.iter().map(|cell| cell.state).collect();
    assert_eq!(states, [
        CellState::Loaded,
        CellState::Loading,
        CellState::Empty,
        CellState::Outside,
        CellState::Outside,
    ]);
    assert!(overlay.cells[0].is_current);
    assert!(!overlay.cells[1].is_current);
}

// ---- the other caches ----------------------------------------------

/// A picture that was asked for stays longest, and one that is stored again
/// takes the place of the old one.
#[test]
fn the_oldest_picture_leaves_first() {
    let mb = 1024 * 1024;
    let mut lru: DecodeLruCache<Texture> = DecodeLruCache::new(3);
    for i in [1usize, 2, 3] {
        lru.insert(i, mb, texture(format!("f{i}")));
    }
    assert_eq!(lru.get(1).map(name).as_deref(), Some("f1"));
    assert!(lru.get(9).is_none());
    lru.insert(4, mb, texture("f4".into()));
    let order: Vec<_> = lru.entries.iter().map(|e| e.file_index).collect();
    assert_eq!(order, [3, 1, 4]);
    lru.insert(3, mb, texture("again".into()));
    assert_eq!(lru.get(3).map(name).as_deref(), Some("again"));
    assert_eq!((lru.len(), lru.total_bytes), (3, 3 * mb));

    lru.set_budget_mb(1);
    assert_eq!((lru.len(), lru.total_bytes), (1, mb));
    lru.clear();
    assert_eq!((lru.len(), lru.total_bytes), (0, 0));
}

#[test]
fn a_hovered_index_shows_the_nearest_thumbnail() {
    let paths = fake_paths(30);
    let mut tc: ThumbnailCache<Thumb> = ThumbnailCache::new(0);
    let plan = tc.current_thumbnail_for(4);
    assert_eq!(plan, ThumbnailPlan { exact: false, upload: None, request: true });
    tc.requested(4);
    assert_eq!(tc.current_thumbnail_for(4), ThumbnailPlan { exact: false, upload: None, request: false });
    assert!(tc.poll(4, &paths[4], Some((one_pixel(), 4)), &paths));
    assert_eq!(tc.current_thumbnail_for(4), ThumbnailPlan { exact: true, upload: None, request: false });
    tc.requested(20);
    assert!(tc.poll(20, &paths[20], Some((one_pixel(), 4)), &paths));
    assert_eq!(tc.current_thumbnail_for(6), ThumbnailPlan { exact: false, upload: Some(4), request: true });
    assert_eq!(tc.current_thumbnail_for(20), ThumbnailPlan { exact: true, upload: Some(20), request: false });
    // A file that gave no thumbnail.
    assert!(!tc.poll(7, &paths[7], None, &paths));
    assert_eq!(tc.cache.len(), 2);
}

#[test]
fn the_slider_decodes_every_ten_milliseconds() {
    let ms = 1_000_000;
    let mut loader = SliderLoader::new(100 * ms);
    assert!(!loader.should_load(109 * ms));
    assert!(loader.should_load(110 * ms));
    assert!(!loader.should_load(119 * ms));
    assert!(loader.should_load(125 * ms));
    assert!(loader.should_load(5 * ms), "the clock went back");
}
