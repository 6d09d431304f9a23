//! Stars: what shows, what is saved, and what a reload finds.
use std::collections::{BTreeMap, BTreeSet};

use viewskater::file_io::listing::{enumerate_images, EntryKind, FolderEntry};
use viewskater::settings::ImageDiscoveryOptions;
use viewskater::stars::file::{
    checked_file, is_newer, is_plain_name, save_change, Change, FileRead, FolderStars, SaveStep, StarEntry, StarFile,
    StarItem, VERSION,
};
use viewskater::stars::moves::{star_file, temp_file, MoveSeen, StarFileMoves};
use viewskater::stars::{failure_message, name_of, split, FinishedWrite, ListRead, Stars, WriteJob};

const NOW: &str = "2026-09-14T10:00:00+02:00";

/// A star file on disk, or something that does not parse.
#[derive(Clone, Debug, PartialEq)]
enum OnDisk {
    Garbage,
    File { version: u32, stars: BTreeMap<String, (u8, u64, String)> },
}

/// Files by path with their sizes, the star file of each folder, and the list
/// of folders.
#[derive(Default)]
struct Disk {
    files: BTreeMap<String, u64>,
    stars: BTreeMap<String, OnDisk>,
    list: Option<(u32, BTreeSet<String>)>,
    read_only: bool,
}

impl Disk {
    /// The star file of a folder, as an attempt to read it finds it.
    fn read(&self, dir: &str) -> FileRead {
        match self.stars.get(dir) {
            None => FileRead::Missing,
            Some(OnDisk::Garbage) => FileRead::Failed("did not find expected ',' or ']'".into()),
            Some(OnDisk::File { version, stars }) => FileRead::Parsed(StarFile {
                version: *version,
                stars: stars
                    .iter()
                    .map(|(name, (rating, size, changed))| StarItem {
                        name: name.clone(),
                        entry: StarEntry { rating: *rating, size: *size, changed: changed.clone() },
                    })
                    .collect(),
            }),
        }
    }

    /// The stars of a folder, with the sizes that its files have now.
    fn folder(&self, dir: &str) -> FolderStars {
        let read = checked_file(self.read(dir));
        let sizes = match &read {
            Ok(Some(file)) => {
                file.stars.iter().map(|i| self.files.get(&format!("{dir}/{}", i.name)).copied()).collect()
            }
            _ => Vec::new(),
        };
        FolderStars::from_file(read, &sizes)
    }

    /// Saves a change into the star file that is on disk now.
    fn save(&mut self, job: WriteJob) -> FinishedWrite {
        let starred = matches!(job.change, Change::Star(_));
        let result = match checked_file(self.read(&job.dir)) {
            Err(reason) => Err(reason),
            Ok(_) if self.read_only => Err("Permission denied".to_string()),
            Ok(file) => {
                if let SaveStep::Write(file) = save_change(file, &job.name, job.change) {
                    let stars = file
                        .stars
                        .into_iter()
                        .map(|i| (i.name, (i.entry.rating, i.entry.size, i.entry.changed)))
                        .collect();
                    self.stars.insert(job.dir.clone(), OnDisk::File { version: file.version, stars });
                }
                Ok(())
            }
        };
        FinishedWrite {
            dir: job.dir,
            name: job.name,
            starred,
            was_starred: job.was_starred,
            was_in_file: job.was_in_file,
            result,
        }
    }

    fn names(&self, dir: &str) -> Vec<String> {
        match &self.stars[dir] {
            OnDisk::File { stars, .. } => stars.keys().cloned().collect(),
            OnDisk::Garbage => panic!("no star file"),
        }
    }

    fn read_list(&self) -> ListRead {
        match &self.list {
            None => ListRead::Read(Vec::new()),
            Some((version, _)) if is_newer(*version) => ListRead::Failed,
            Some((_, folders)) => ListRead::Read(folders.iter().cloned().collect()),
        }
    }

    fn listed(&self) -> Vec<String> {
        self.list.as_ref().map(|(_, f)| f.iter().cloned().collect()).unwrap_or_default()
    }
}

fn listed(stars: &Stars) -> Vec<String> {
    let mut list = stars.star_file_folders().clone();
    list.sort();
    list
}

fn update_list(stars: &mut Stars, disk: &mut Disk, add: &Vec<String>, remove: &Vec<String>) {
    if stars.update_folder_list(disk.read_list(), add, remove) {
        disk.list = Some((VERSION, stars.star_file_folders().iter().cloned().collect()));
    }
}

/// A folder with three files of 100, 101 and 102 bytes.
fn add_folder(disk: &mut Disk, dir: &str) -> Vec<String> {
    let images: Vec<String> = ["a.jpg", "b.jpg", "c.jpg"].iter().map(|name| format!("{dir}/{name}")).collect();
    for (i, image) in images.iter().enumerate() {
        disk.files.insert(image.clone(), 100 + i as u64);
    }
    images
}

const DIR: &str = "/photos/day";

fn folder() -> (Disk, Vec<String>) {
    let mut disk = Disk::default();
    let images = add_folder(&mut disk, DIR);
    (disk, images)
}

/// Takes what a folder listing found.
fn load(stars: &mut Stars, disk: &mut Disk, images: &Vec<String>) {
    let star_files: Vec<String> = disk.stars.keys().map(|dir| star_file(dir)).collect();
    let dirs: Vec<String> = disk.stars.keys().cloned().collect();
    let unlisted = stars.unlisted(&dirs);
    if !unlisted.is_empty() {
        update_list(stars, disk, &unlisted, &Vec::new());
    }
    for dir in stars.load(images, &star_files) {
        let folder = disk.folder(&dir);
        stars.set_folder(&dir, folder);
    }
}

/// Stars loaded the way a folder listing loads them.
fn loaded(disk: &mut Disk, images: &Vec<String>) -> Stars {
    let on_disk = match disk.read_list() {
        ListRead::Read(list) => list,
        _ => Vec::new(),
    };
    let mut stars = Stars::new(&on_disk);
    load(&mut stars, disk, images);
    stars
}

/// Stars a picture as the window does: its folder joins the list, the star
/// shows, and its save is asked for.
fn star(stars: &mut Stars, disk: &mut Disk, path: &str) -> Result<WriteJob, String> {
    let dir = split(path)?.0;
    if stars.joins_list(path, &dir) {
        update_list(stars, disk, &vec![dir], &Vec::new());
    }
    stars.star(path, disk.files[path], NOW.into())
}

/// Lets a save run to its end. The answer is the message of a failure.
fn finish(stars: &mut Stars, disk: &mut Disk, job: WriteJob) -> Option<String> {
    let done = disk.save(job);
    stars.finished(&done)
}

fn star_and_save(stars: &mut Stars, disk: &mut Disk, path: &str) {
    let job = star(stars, disk, path).unwrap();
    assert_eq!(finish(stars, disk, job), None);
}

#[test]
fn stars_survive_a_reload() {
    let (mut disk, images) = folder();
    let mut stars = loaded(&mut disk, &images);
    let first = star(&mut stars, &mut disk, &images[0]).unwrap();
    let second = star(&mut stars, &mut disk, &images[2]).unwrap();
    assert!(stars.is_starred(&images[0]), "the star shows before the save");
    assert!(stars.has_pending_writes());
    assert_eq!(finish(&mut stars, &mut disk, first), None);
    assert_eq!(finish(&mut stars, &mut disk, second), None);
    assert!(!stars.has_pending_writes());

    let OnDisk::File { version, stars: entries } = disk.stars[DIR].clone() else { panic!("no star file") };
    assert_eq!(version, 1);
    assert_eq!(entries.keys().collect::<Vec<_>>(), ["a.jpg", "c.jpg"]);
    assert_eq!(entries["a.jpg"].0, 1);
    assert_eq!(entries["a.jpg"].1, 100);
    assert_eq!(entries["c.jpg"].1, 102);
    assert_eq!(entries["a.jpg"].2, NOW);

    let again = loaded(&mut disk, &images);
    assert!(again.is_starred(&images[0]));
    assert!(!again.is_starred(&images[1]));
    assert!(again.is_starred(&images[2]));
}

/// A file stays when its last entry goes, with no stars in it.
#[test]
fn removing_the_last_entry_leaves_an_empty_file() {
    let (mut disk, images) = folder();
    let mut stars = loaded(&mut disk, &images);
    star_and_save(&mut stars, &mut disk, &images[1]);

    let job = stars.unstar(&images[1]).unwrap();
    assert!(!stars.is_starred(&images[1]));
    assert_eq!(finish(&mut stars, &mut disk, job), None);
    assert!(disk.names(DIR).is_empty());
    assert!(!loaded(&mut disk, &images).is_starred(&images[1]));
}

/// Two windows on one folder, each with its own copy of the stars. A save
/// reads the file again first, so the second window does not write over
/// the first window's star.
#[test]
fn a_star_from_another_window_survives() {
    let (mut disk, images) = folder();
    let mut first = loaded(&mut disk, &images);
    let mut second = loaded(&mut disk, &images);
    star_and_save(&mut first, &mut disk, &images[0]);
    star_and_save(&mut second, &mut disk, &images[1]);
    assert_eq!(disk.names(DIR), ["a.jpg", "b.jpg"]);
}

#[test]
fn a_file_that_does_not_parse_is_never_written() {
    let (mut disk, images) = folder();
    disk.stars.insert(DIR.into(), OnDisk::Garbage);
    let mut stars = loaded(&mut disk, &images);

    let err = star(&mut stars, &mut disk, &images[0]).unwrap_err();
    assert!(err.starts_with("Could not star a.jpg: .viewskater.yaml could not be read"), "{err}");
    assert!(!stars.is_starred(&images[0]));
    assert!(!stars.has_pending_writes());
    assert_eq!(disk.stars[DIR], OnDisk::Garbage);
}

fn entries(list: &[(&str, u64)]) -> BTreeMap<String, (u8, u64, String)> {
    list.iter().map(|(name, size)| (name.to_string(), (1, *size, "x".to_string()))).collect()
}

#[test]
fn a_file_from_a_newer_version_is_never_written() {
    let (mut disk, images) = folder();
    let newer = OnDisk::File { version: 2, stars: entries(&[("a.jpg", 100)]) };
    disk.stars.insert(DIR.into(), newer.clone());
    let mut stars = loaded(&mut disk, &images);

    assert!(!stars.is_starred(&images[0]), "a file this build cannot write shows no stars");
    let err = stars.unstar(&images[0]).unwrap_err();
    assert!(err.contains("newer version of ViewSkater"), "{err}");
    assert!(!stars.has_pending_writes());
    assert_eq!(disk.stars[DIR], newer);
}

/// An entry whose file now has another size, or is gone, shows no star.
/// It stays in the file: a listing that skipped entries must not cost
/// photos their stars, and a file that comes back gets its star back.
#[test]
fn entries_for_changed_or_missing_files_stay_in_the_file() {
    let (mut disk, images) = folder();
    let file = OnDisk::File { version: 1, stars: entries(&[("a.jpg", 999), ("b.jpg", 101), ("gone.jpg", 5)]) };
    disk.stars.insert(DIR.into(), file);
    let mut stars = loaded(&mut disk, &images);
    assert!(!stars.is_starred(&images[0]), "another size is another photo");
    assert!(stars.is_starred(&images[1]));

    star_and_save(&mut stars, &mut disk, &images[2]);
    let job = stars.unstar(&images[1]).unwrap();
    assert_eq!(finish(&mut stars, &mut disk, job), None);
    assert_eq!(disk.names(DIR), ["a.jpg", "c.jpg", "gone.jpg"]);

    let mut images = images;
    images.push(format!("{DIR}/gone.jpg"));
    disk.files.insert(images[3].clone(), 5);
    let again = loaded(&mut disk, &images);
    assert!(again.is_starred(&images[3]), "the file came back with the same size");
}

#[test]
fn names_that_point_outside_the_folder_are_ignored() {
    assert!(is_plain_name("a.jpg"));
    assert!(!is_plain_name("../a.jpg"));
    assert!(!is_plain_name("sub/a.jpg"));
    assert!(!is_plain_name("/etc/passwd"));
    assert!(!is_plain_name("."));
    assert!(!is_plain_name(""));

    let (mut disk, images) = folder();
    let size = disk.files[&images[0]];
    disk.files.insert("/photos/outside.jpg".into(), size);
    disk.files.insert(format!("{DIR}/../outside.jpg"), size);
    disk.stars.insert(DIR.into(), OnDisk::File { version: 1, stars: entries(&[("../outside.jpg", size)]) });
    let stars = loaded(&mut disk, &images);
    assert!(!stars.is_starred("/photos/outside.jpg"));
    assert!(!stars.is_starred(&format!("{DIR}/../outside.jpg")));
}

#[test]
fn trash_removes_the_entry() {
    let (mut disk, images) = folder();
    let mut stars = loaded(&mut disk, &images);
    star_and_save(&mut stars, &mut disk, &images[0]);
    star_and_save(&mut stars, &mut disk, &images[1]);

    let job = stars.forget(&images[0]).unwrap().unwrap();
    assert_eq!(finish(&mut stars, &mut disk, job), None);
    assert_eq!(disk.names(DIR), ["b.jpg"]);

    let job = stars.forget(&images[1]).unwrap().unwrap();
    assert_eq!(finish(&mut stars, &mut disk, job), None);
    assert!(disk.names(DIR).is_empty());
}

/// Moving an image without a star to the trash writes nothing, so a
/// folder without stars never gets the file.
#[test]
fn trash_without_a_star_writes_nothing() {
    let (mut disk, images) = folder();
    let mut stars = loaded(&mut disk, &images);
    assert!(stars.forget(&images[0]).is_none());
    assert!(!stars.has_pending_writes());
    assert!(!disk.stars.contains_key(DIR));
}

#[test]
fn a_failed_save_takes_the_star_back() {
    let (mut disk, images) = folder();
    let mut stars = loaded(&mut disk, &images);
    disk.read_only = true;

    let job = star(&mut stars, &mut disk, &images[0]).unwrap();
    assert!(stars.is_starred(&images[0]));
    let failure = finish(&mut stars, &mut disk, job).unwrap();
    assert!(failure.starts_with("Could not star a.jpg: "), "{failure}");
    assert!(!stars.is_starred(&images[0]));
    assert!(!disk.stars.contains_key(DIR));
}

/// A save that could not even be asked for takes the change back as well.
#[test]
fn a_save_without_a_writer_takes_the_change_back() {
    let (mut disk, images) = folder();
    let mut stars = loaded(&mut disk, &images);
    star_and_save(&mut stars, &mut disk, &images[0]);
    let job = stars.unstar(&images[0]).unwrap();
    assert_eq!(
        stars.undo(&job, &images[0]),
        "Could not remove the star from a.jpg: the writer thread stopped"
    );
    assert!(stars.is_starred(&images[0]));
    assert!(!stars.has_pending_writes());
}

/// A folder with a save on its way keeps its stars through a listing.
#[test]
fn a_listing_keeps_changes_that_are_not_saved_yet() {
    let (mut disk, images) = folder();
    let mut stars = loaded(&mut disk, &images);
    let job = star(&mut stars, &mut disk, &images[0]).unwrap();
    load(&mut stars, &mut disk, &images);
    assert!(stars.is_starred(&images[0]));
    assert_eq!(finish(&mut stars, &mut disk, job), None);
    load(&mut stars, &mut disk, &images);
    assert!(stars.is_starred(&images[0]));
    // Without its file the folder has no stars.
    disk.stars.clear();
    load(&mut stars, &mut disk, &images);
    assert!(!stars.is_starred(&images[0]));
}

/// A path without a folder or a name cannot be starred.
#[test]
fn some_paths_cannot_be_starred() {
    let mut stars = Stars::new(&Vec::new());
    assert_eq!(stars.star("/", 1, NOW.into()).unwrap_err(), "Could not star /: it is not in a folder");
    assert_eq!(
        stars.unstar("/photos/..").unwrap_err(),
        "Could not remove the star from /photos/..: its name is not valid UTF-8"
    );
    assert!(!stars.is_starred("/"));
    assert_eq!(split("/photos/a.jpg"), Ok(("/photos".into(), "a.jpg".into())));
    assert_eq!(name_of("/photos/a.jpg"), "a.jpg");
    assert_eq!(failure_message(true, "/photos/a.jpg", "why"), "Could not star a.jpg: why");
}

// ---- the listing ---------------------------------------------------

fn entry(path: String, kind: EntryKind) -> FolderEntry {
    FolderEntry { path, kind, modified: None, created: None, size: None }
}

/// The listing walks past the hidden file of every folder it lists,
/// subfolders included, and never lists it as an image.
#[test]
fn the_listing_notes_the_star_files() {
    let file = |path: &str| entry(format!("{DIR}/{path}"), EntryKind::File);
    let whole = vec![
        file("a.jpg"),
        file("b.jpg"),
        file("c.jpg"),
        file(".viewskater.yaml"),
        entry(format!("{DIR}/sub"), EntryKind::Folder),
        file("sub/d.jpg"),
        file("sub/.viewskater.yaml"),
    ];
    let opts = ImageDiscoveryOptions { recursive: true, ..Default::default() };
    let listing = enumerate_images(&whole, opts);
    assert_eq!(listing.images.len(), 4);
    assert!(listing.images.iter().all(|p| !p.ends_with(".viewskater.yaml")));
    let mut star_files = listing.star_files;
    star_files.sort();
    assert_eq!(star_files, [star_file(DIR), star_file(&format!("{DIR}/sub"))]);

    let top = vec![
        file("a.jpg"),
        file("b.jpg"),
        file("c.jpg"),
        file(".viewskater.yaml"),
        entry(format!("{DIR}/sub"), EntryKind::Folder),
    ];
    let with_hidden = ImageDiscoveryOptions { include_hidden: true, ..Default::default() };
    let listing = enumerate_images(&top, with_hidden);
    assert_eq!(listing.images.len(), 3, "the hidden file is no image even when hidden files are listed");
    assert_eq!(listing.star_files, [star_file(DIR)]);
}

// ---- the list of folders and moving the files to the trash ---------

#[test]
fn starring_puts_the_folder_in_the_list() {
    let (mut disk, images) = folder();
    let mut stars = loaded(&mut disk, &images);
    assert!(stars.star_file_folders().is_empty());

    star_and_save(&mut stars, &mut disk, &images[0]);
    assert_eq!(disk.listed(), [DIR]);

    let again = loaded(&mut disk, &images);
    assert_eq!(listed(&again), [DIR]);
    assert!(again.knows(DIR));
}

/// A file from before the list existed, from another computer or in a
/// copied folder joins the list when a listing walks past it.
#[test]
fn a_listed_folder_with_a_file_joins_the_list() {
    let (mut disk, images) = folder();
    disk.stars.insert(DIR.into(), OnDisk::File { version: 1, stars: BTreeMap::new() });
    let stars = loaded(&mut disk, &images);
    assert_eq!(listed(&stars), [DIR]);
    assert_eq!(disk.listed(), [DIR]);
}

#[test]
fn a_folder_another_window_listed_stays_in_the_list() {
    let mut disk = Disk::default();
    let first_images = add_folder(&mut disk, "/photos/first");
    let second_images = add_folder(&mut disk, "/photos/second");
    let mut first = loaded(&mut disk, &first_images);
    let mut second = loaded(&mut disk, &second_images);

    let job = star(&mut first, &mut disk, &first_images[0]).unwrap();
    star_and_save(&mut second, &mut disk, &second_images[0]);
    assert_eq!(finish(&mut first, &mut disk, job), None);

    assert_eq!(disk.listed(), ["/photos/first", "/photos/second"]);
}

#[test]
fn a_list_from_a_newer_version_is_never_written() {
    let (mut disk, images) = folder();
    let newer = Some((2, BTreeSet::from(["/somewhere".to_string()])));
    disk.list = newer.clone();
    let mut stars = loaded(&mut disk, &images);

    star_and_save(&mut stars, &mut disk, &images[0]);
    assert_eq!(disk.list, newer);
    assert!(stars.star_file_folders().contains(&DIR.to_string()), "listed in memory");
}

/// Moves every star file: `lacks_trash` tells where the trash would delete for
/// good, and `refused` is what the trash says to every other file.
fn move_star_files(stars: &mut Stars, disk: &mut Disk, lacks_trash: bool, refused: Option<&str>) -> StarFileMoves {
    let mut moves = StarFileMoves::new();
    for dir in stars.star_file_folders().clone() {
        let seen = if !disk.stars.contains_key(&dir) {
            MoveSeen::Gone
        } else if lacks_trash {
            MoveSeen::NoTrash
        } else if let Some(reason) = refused {
            MoveSeen::Refused(reason.into())
        } else {
            disk.stars.remove(&dir);
            MoveSeen::Moved
        };
        moves.note(&dir, seen);
    }
    let dirs = stars.dirs();
    if stars.after_moves(&dirs, &dirs, &moves.gone, disk.read_list()) {
        disk.list = Some((VERSION, stars.star_file_folders().iter().cloned().collect()));
    }
    moves
}

/// Two folders with stars and one listed folder whose file is gone. Both
/// files leave their folders, and the list ends up empty.
#[test]
fn every_star_file_goes_to_the_trash() {
    let mut disk = Disk::default();
    let first_images = add_folder(&mut disk, "/photos/first");
    let second_images = add_folder(&mut disk, "/photos/second");
    let gone_images = add_folder(&mut disk, "/photos/gone");
    let all_images: Vec<String> = first_images.iter().chain(&second_images).chain(&gone_images).cloned().collect();
    let mut stars = loaded(&mut disk, &all_images);
    star_and_save(&mut stars, &mut disk, &first_images[0]);
    star_and_save(&mut stars, &mut disk, &second_images[1]);
    star_and_save(&mut stars, &mut disk, &gone_images[2]);
    disk.stars.remove("/photos/gone");

    let moves = move_star_files(&mut stars, &mut disk, false, None);

    assert_eq!(moves.moved, 2);
    assert!(moves.left_in_place.is_empty());
    assert!(moves.failed.is_empty());
    assert!(disk.stars.is_empty());
    assert!(!stars.is_starred(&first_images[0]));
    assert!(!stars.is_starred(&second_images[1]));
    assert!(stars.star_file_folders().is_empty());
    assert!(disk.listed().is_empty());
}

/// On a Windows network share or removable drive the trash would delete
/// for good. Those files stay, keep their stars and stay in the list.
#[test]
fn a_file_where_the_trash_would_delete_stays() {
    let (mut disk, images) = folder();
    let mut stars = loaded(&mut disk, &images);
    star_and_save(&mut stars, &mut disk, &images[0]);

    let moves = move_star_files(&mut stars, &mut disk, true, None);

    assert_eq!(moves.moved, 0);
    assert_eq!(moves.left_in_place, [star_file(DIR)]);
    assert!(disk.stars.contains_key(DIR));
    assert!(stars.is_starred(&images[0]));
    assert_eq!(disk.listed(), [DIR]);
}

#[test]
fn a_refused_move_keeps_the_file_and_its_stars() {
    let (mut disk, images) = folder();
    let mut stars = loaded(&mut disk, &images);
    star_and_save(&mut stars, &mut disk, &images[0]);

    let moves = move_star_files(&mut stars, &mut disk, false, Some("no trash here"));

    assert_eq!(moves.moved, 0);
    assert_eq!(moves.failed, [(star_file(DIR), "no trash here".to_string())]);
    assert!(disk.stars.contains_key(DIR));
    assert!(stars.is_starred(&images[0]));
    assert_eq!(disk.listed(), [DIR]);
}

#[test]
fn the_files_of_a_folder_have_their_names() {
    assert_eq!(star_file("/photos"), "/photos/.viewskater.yaml");
    assert_eq!(temp_file("/photos"), "/photos/.viewskater.yaml.tmp");
}
