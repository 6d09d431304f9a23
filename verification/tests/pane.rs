//! The pictures of a pane: what leaves the list, and the starred-only filter.
use viewskater::pane::PaneList;
use viewskater::stars::file::FolderStars;
use viewskater::stars::Stars;

fn fake_paths(n: usize) -> Vec<String> {
    (0..n).map(|i| format!("/nonexistent/f{i}.png")).collect()
}

/// A pane over fake paths: exercises the list and index rules on their own.
fn pane_with(n: usize, current: usize) -> PaneList {
    PaneList::open(fake_paths(n), current, &Stars::new(&Vec::new()))
}

/// Moves the picture on screen with `move_out`, which gets its path.
fn remove_with(
    p: &mut PaneList,
    move_out: &mut dyn FnMut(&str) -> Result<(), String>,
) -> Result<Option<String>, String> {
    let moved = match p.current_path() {
        Some(path) => move_out(path),
        None => Ok(()),
    };
    p.remove_current(moved)
}

fn remove(p: &mut PaneList) -> Option<String> {
    p.remove_current(Ok(())).unwrap()
}

#[test]
fn empty_pane_removes_nothing() {
    let mut p = pane_with(0, 0);
    let mut called = false;
    let r = remove_with(&mut p, &mut |_| {
        called = true;
        Ok(())
    });
    assert_eq!(r, Ok(None));
    assert!(!called, "trasher must not run for an empty pane");
}

/// The safety promise. After a move that failed, the list and the index must
/// be exactly what they were: the pane must never drop a file it did not
/// actually move.
#[test]
fn failed_move_leaves_pane_untouched() {
    let mut p = pane_with(5, 2);
    let before = p.image_paths.clone();

    let r = remove_with(&mut p, &mut |_| Err("no trash here".to_string()));

    assert_eq!(r, Err("no trash here".to_string()));
    assert_eq!(p.image_paths, before);
    assert_eq!(p.current_index, 2);
}

#[test]
fn trasher_gets_the_current_path() {
    let mut p = pane_with(5, 3);
    let mut seen = None;
    let r = remove_with(&mut p, &mut |path| {
        seen = Some(path.to_string());
        Ok(())
    });
    assert_eq!(seen.as_deref(), Some("/nonexistent/f3.png"));
    assert_eq!(r, Ok(Some("/nonexistent/f3.png".into())));
}

#[test]
fn remove_middle_shows_the_next_file() {
    let mut p = pane_with(5, 2);

    remove(&mut p);

    assert_eq!(p.image_paths, fake_paths(5).into_iter().filter(|x| x != "/nonexistent/f2.png").collect::<Vec<_>>());
    assert_eq!(p.current_index, 2, "index stays, now naming the next file");
    assert_eq!(p.image_paths[2], "/nonexistent/f3.png");
}

#[test]
fn remove_first_shows_the_new_first() {
    let mut p = pane_with(5, 0);
    remove(&mut p);
    assert_eq!(p.current_index, 0);
    assert_eq!(p.image_paths[0], "/nonexistent/f1.png");
    assert_eq!(p.image_paths.len(), 4);
}

#[test]
fn remove_last_steps_back() {
    let mut p = pane_with(5, 4);
    remove(&mut p);
    assert_eq!(p.current_index, 3);
    assert_eq!(p.image_paths.len(), 4);
    assert_eq!(p.image_paths[3], "/nonexistent/f3.png");
}

#[test]
fn remove_only_file_empties_the_pane() {
    let mut p = pane_with(1, 0);
    remove(&mut p);
    assert!(p.image_paths.is_empty());
    assert_eq!(p.current_index, 0);
    assert!(p.current_path().is_none());
}

#[test]
fn remove_before_current_keeps_the_same_image() {
    let mut p = pane_with(5, 3);
    p.remove_index(1);
    assert_eq!(p.current_index, 2);
    assert_eq!(p.image_paths[p.current_index], "/nonexistent/f3.png");
}

#[test]
fn remove_after_current_changes_nothing_visible() {
    let mut p = pane_with(5, 1);
    p.remove_index(4);
    assert_eq!(p.current_index, 1);
    assert_eq!(p.image_paths.len(), 4);
}

#[test]
fn remove_out_of_range_is_a_no_op() {
    let mut p = pane_with(3, 1);
    p.remove_index(3);
    assert_eq!(p.image_paths.len(), 3);
    assert_eq!(p.current_index, 1);
}

#[test]
fn repeated_removal_walks_the_whole_list() {
    let mut p = pane_with(6, 2);
    let mut removed = Vec::new();
    while !p.image_paths.is_empty() {
        removed.push(remove(&mut p).unwrap());
        assert!(p.image_paths.is_empty() || p.current_index < p.image_paths.len());
    }
    // f2, f3, f4, f5 forward, then f1, f0 stepping back from the end.
    assert_eq!(names(&removed), ["f2.png", "f3.png", "f4.png", "f5.png", "f1.png", "f0.png"]);
}

// ---- stars and the starred-only filter -----------------------------

fn folder_paths() -> Vec<String> {
    (0..6).map(|i| format!("/photos/img{i}.png")).collect()
}

/// Six pictures, img0 to img5, opened at `current`, with `starred` starred.
fn starred_folder(starred: &[usize], current: usize) -> (PaneList, Stars) {
    let paths = folder_paths();
    let mut stars = Stars::new(&Vec::new());
    stars.set_folder("/photos", FolderStars::new());
    for &i in starred {
        stars.star(&paths[i], 68, "now".into()).unwrap();
    }
    (PaneList::open(paths, current, &stars), stars)
}

fn names(paths: &[String]) -> Vec<String> {
    paths.iter().map(|p| p.rsplit('/').next().unwrap().to_string()).collect()
}

fn shown(p: &PaneList) -> String {
    names(&p.image_paths[p.current_index..=p.current_index]).remove(0)
}

#[test]
fn filter_moves_to_the_next_starred_image_and_back() {
    let (mut p, stars) = starred_folder(&[1, 4], 2);
    assert_eq!(p.starred_positions, [1, 4]);

    assert!(p.set_starred_only(true, &stars));
    assert!(p.starred_only());
    assert_eq!(names(&p.image_paths), ["img1.png", "img4.png"]);
    assert_eq!(shown(&p), "img4.png");
    assert_eq!(p.starred_positions, [0, 1]);

    assert!(p.set_starred_only(false, &stars));
    assert!(!p.starred_only());
    assert_eq!(p.image_paths.len(), 6);
    assert_eq!(shown(&p), "img4.png");
    assert_eq!(p.starred_positions, [1, 4]);
}

#[test]
fn filter_keeps_a_starred_image_on_screen() {
    let (mut p, stars) = starred_folder(&[1, 4], 1);
    assert!(p.set_starred_only(true, &stars));
    assert_eq!(shown(&p), "img1.png");
}

#[test]
fn filter_after_the_last_star_moves_back_to_it() {
    let (mut p, stars) = starred_folder(&[1, 4], 5);
    assert!(p.set_starred_only(true, &stars));
    assert_eq!(shown(&p), "img4.png");
}

#[test]
fn filter_without_stars_changes_nothing() {
    let (mut p, stars) = starred_folder(&[], 2);
    let before = p.image_paths.clone();
    assert!(!p.set_starred_only(true, &stars));
    assert!(!p.starred_only());
    assert_eq!(p.image_paths, before);
    assert_eq!(p.current_index, 2);
}

/// Removing a star while the filter is on keeps the image in the list,
/// so the picture does not jump away from under the key press.
#[test]
fn unstarring_under_the_filter_keeps_the_image() {
    let (mut p, mut stars) = starred_folder(&[1, 4], 1);
    assert!(p.set_starred_only(true, &stars));
    let path = p.image_paths[p.current_index].clone();
    stars.unstar(&path).unwrap();
    p.refresh_starred(&stars);
    assert_eq!(names(&p.image_paths), ["img1.png", "img4.png"]);
    assert!(!p.is_current_starred());
    assert_eq!(p.starred_positions, [1]);
}

#[test]
fn trash_under_the_filter_leaves_both_lists() {
    let (mut p, stars) = starred_folder(&[1, 4], 1);
    assert!(p.set_starred_only(true, &stars));

    remove(&mut p).unwrap();
    assert_eq!(names(&p.image_paths), ["img4.png"]);
    assert_eq!(p.starred_positions, [0]);
    assert!(p.set_starred_only(false, &stars));
    assert_eq!(names(&p.image_paths), ["img0.png", "img2.png", "img3.png", "img4.png", "img5.png"]);
    assert_eq!(shown(&p), "img4.png");
}

/// When the last starred image goes to the trash, the filter turns off and
/// the pane shows the folder again where that image was, instead of an
/// empty pane.
#[test]
fn trashing_the_last_starred_image_turns_the_filter_off() {
    let (mut p, stars) = starred_folder(&[3], 0);
    assert!(p.set_starred_only(true, &stars));
    assert_eq!(shown(&p), "img3.png");

    remove(&mut p).unwrap();
    assert!(!p.starred_only());
    assert_eq!(p.image_paths.len(), 5);
    assert_eq!(shown(&p), "img4.png");
}

/// The other pane trashed an image this pane keeps only in its whole list.
#[test]
fn remove_path_reaches_the_whole_list() {
    let (mut p, stars) = starred_folder(&[1, 4], 1);
    assert!(p.set_starred_only(true, &stars));
    let unstarred = p.unfiltered_paths.as_ref().unwrap()[2].clone();

    p.remove_path(&unstarred);
    assert_eq!(names(&p.image_paths), ["img1.png", "img4.png"]);
    assert!(p.set_starred_only(false, &stars));
    assert_eq!(names(&p.image_paths), ["img0.png", "img1.png", "img3.png", "img4.png", "img5.png"]);
}

#[test]
fn remove_index_shifts_the_starred_positions() {
    let mut p = pane_with(6, 0);
    p.starred_positions = vec![1, 3, 5];
    p.remove_index(3);
    assert_eq!(p.starred_positions, [1, 4]);
    p.remove_index(0);
    assert_eq!(p.starred_positions, [0, 3]);
}

#[test]
fn opening_a_folder_turns_the_filter_off() {
    let (mut p, stars) = starred_folder(&[1, 4], 1);
    assert!(p.set_starred_only(true, &stars));
    let p = PaneList::open(folder_paths(), 0, &stars);
    assert!(!p.starred_only());
    assert_eq!(p.image_paths.len(), 6);
    assert_eq!(p.starred_positions, [1, 4]);
}

#[test]
fn starred_neighbor_finds_the_nearest_star_each_way() {
    let mut p = pane_with(6, 0);
    p.starred_positions = vec![1, 4];
    assert_eq!(p.starred_neighbor(1), Some(1));
    assert_eq!(p.starred_neighbor(-1), None);
    p.current_index = 1;
    assert_eq!(p.starred_neighbor(1), Some(4));
    assert_eq!(p.starred_neighbor(-1), None);
    p.current_index = 3;
    assert_eq!(p.starred_neighbor(1), Some(4));
    assert_eq!(p.starred_neighbor(-1), Some(1));
    p.current_index = 5;
    assert_eq!(p.starred_neighbor(1), None);
    assert_eq!(p.starred_neighbor(-1), Some(4));
}
