//! The stars on pictures.
//!
//! Each folder with a starred picture has a hidden file that lists them by
//! name, with the size that each had when it was starred. An entry whose file
//! is gone or has another size shows no star but stays: a folder listing that
//! skipped a few entries must not cost those pictures their stars. An entry
//! leaves the file only when its picture is unstarred or moved to the trash.
//!
//! Saves run in order on a thread of their own. A change shows at once, and a
//! save that fails takes it back. The program also keeps a list of the folders
//! that have such a file.
use vstd::prelude::*;

use crate::path;
use crate::stars::file::{Change, FolderStars, FolderView, StarEntry};
use crate::stars::folders::FolderTable;
use crate::stars::names::NameSet;
use crate::text::same_text;

pub mod file;
pub mod folders;
pub mod moves;
pub mod names;

verus! {

/// The stars of every folder that is listed.
#[derive(Debug)]
pub struct Stars {
    folders: FolderTable,
    /// The folders known to have a star file.
    star_file_folders: NameSet,
}

/// What is known about the stars.
#[verifier::ext_equal]
pub struct StarsView {
    pub folders: Map<Seq<char>, FolderView>,
    pub star_file_folders: Set<Seq<char>>,
}

impl View for Stars {
    type V = StarsView;

    closed spec fn view(&self) -> StarsView {
        StarsView { folders: self.folders@, star_file_folders: self.star_file_folders@ }
    }
}

/// The folder and the name of a picture.
pub open spec fn split_of(p: Seq<char>) -> Option<(Seq<char>, Seq<char>)> {
    match (path::parent_of(p), path::file_name_of(p)) {
        (Some(dir), Some(name)) => Some((dir, name)),
        _ => None,
    }
}

/// Why a path has no folder and name.
pub open spec fn split_reason(p: Seq<char>) -> Seq<char> {
    if path::parent_of(p) is None {
        "it is not in a folder"@
    } else {
        "its name is not valid UTF-8"@
    }
}

/// The folder and the name of a picture.
pub fn split(p: &str) -> (r: Result<(String, String), String>)
    ensures
        match r {
            Ok(parts) => split_of(p@) == Some((parts.0@, parts.1@)),
            Err(reason) => split_of(p@) is None && reason@ == split_reason(p@),
        },
{
    match path::parent(p) {
        None => Err("it is not in a folder".to_owned()),
        Some(dir) => match path::file_name(p) {
            None => Err("its name is not valid UTF-8".to_owned()),
            Some(name) => Ok((dir, name)),
        },
    }
}

/// The name that a path is shown under.
pub open spec fn shown_name(p: Seq<char>) -> Seq<char> {
    match path::file_name_of(p) {
        Some(name) => name,
        None => p,
    }
}

/// The name that a path is shown under.
pub fn name_of(p: &str) -> (r: String)
    ensures
        r@ == shown_name(p@),
{
    match path::file_name(p) {
        Some(name) => name,
        None => p.to_owned(),
    }
}

/// What the user is told when a change fails.
pub open spec fn failure_of(starring: bool, p: Seq<char>, reason: Seq<char>) -> Seq<char> {
    (if starring {
        "Could not star "@
    } else {
        "Could not remove the star from "@
    }) + shown_name(p) + ": "@ + reason
}

/// What the user is told when a change fails.
pub fn failure_message(starring: bool, p: &str, reason: &str) -> (r: String)
    ensures
        r@ == failure_of(starring, p@, reason@),
{
    let mut out = if starring {
        "Could not star ".to_owned()
    } else {
        "Could not remove the star from ".to_owned()
    };
    out.append(name_of(p).as_str());
    out.append(": ");
    out.append(reason);
    out
}

/// The stars of a folder, none where it is not listed.
pub open spec fn folder_in(folders: Map<Seq<char>, FolderView>, dir: Seq<char>) -> FolderView {
    if folders.contains_key(dir) {
        folders[dir]
    } else {
        file::no_stars()
    }
}

/// A set with a name put in or taken out.
pub open spec fn with_name(s: Set<Seq<char>>, name: Seq<char>, present: bool) -> Set<Seq<char>> {
    if present {
        s.insert(name)
    } else {
        s.remove(name)
    }
}

/// A folder after a change: it shows at once, and its save is awaited.
pub open spec fn changed(f: FolderView, name: Seq<char>, starring: bool) -> FolderView {
    FolderView {
        starred: with_name(f.starred, name, starring),
        names_in_file: with_name(f.names_in_file, name, starring),
        pending_writes: f.pending_writes + 1,
        ..f
    }
}

/// A folder with a name as it stood before.
pub open spec fn restored(
    f: FolderView,
    name: Seq<char>,
    was_starred: bool,
    was_in_file: bool,
) -> FolderView {
    FolderView {
        starred: with_name(f.starred, name, was_starred),
        names_in_file: with_name(f.names_in_file, name, was_in_file),
        ..f
    }
}

/// A folder after a save has finished.
pub open spec fn one_less_pending(f: FolderView) -> FolderView {
    FolderView {
        pending_writes: if f.pending_writes > 0 {
            f.pending_writes - 1
        } else {
            0
        },
        ..f
    }
}

/// A save that fails leaves everything as it was before the change.
pub proof fn law_a_failed_save_takes_the_change_back(
    f: FolderView,
    name: Seq<char>,
    starring: bool,
)
    requires
        f.pending_writes >= 0,
    ensures
        restored(
            one_less_pending(changed(f, name, starring)),
            name,
            f.starred.contains(name),
            f.names_in_file.contains(name),
        ) == f,
{
    let r = restored(
        one_less_pending(changed(f, name, starring)),
        name,
        f.starred.contains(name),
        f.names_in_file.contains(name),
    );
    assert(r.starred =~= f.starred);
    assert(r.names_in_file =~= f.names_in_file);
}

/// A change that has to be saved.
#[derive(Debug)]
pub struct WriteJob {
    pub dir: String,
    pub name: String,
    pub change: Change,
    /// How the name stood before, to put back if the save fails.
    pub was_starred: bool,
    pub was_in_file: bool,
}

/// A save that has finished.
#[derive(Debug)]
pub struct FinishedWrite {
    pub dir: String,
    pub name: String,
    pub starred: bool,
    pub was_starred: bool,
    pub was_in_file: bool,
    pub result: Result<(), String>,
}

/// Whether a picture is starred.
pub open spec fn starred_in(s: StarsView, p: Seq<char>) -> bool {
    match split_of(p) {
        Some((dir, name)) => s.folders.contains_key(dir) && s.folders[dir].starred.contains(name),
        None => false,
    }
}

/// Whether a picture's folder has an entry for it.
pub open spec fn in_file(s: StarsView, p: Seq<char>) -> bool {
    match split_of(p) {
        Some((dir, name)) => s.folders.contains_key(dir) && s.folders[dir].names_in_file.contains(
            name,
        ),
        None => false,
    }
}

/// What asking for a change does: it is refused for a path without a folder or
/// name and for a folder whose file must not be written, and then nothing
/// changes; otherwise it shows, and a save is asked for that knows how the name
/// stood before.
pub open spec fn is_change(
    before: StarsView,
    after: StarsView,
    r: Result<WriteJob, String>,
    p: Seq<char>,
    change: Change,
) -> bool {
    let starring = change is Star;
    match split_of(p) {
        None => {
            &&& after == before
            &&& r matches Err(m) && m@ == failure_of(starring, p, split_reason(p))
        },
        Some((dir, name)) => {
            let f = folder_in(before.folders, dir);
            match f.locked {
                Some(reason) => {
                    &&& after == before
                    &&& r matches Err(m) && m@ == failure_of(starring, p, reason)
                },
                None => {
                    &&& after == (StarsView {
                        folders: before.folders.insert(dir, changed(f, name, starring)),
                        ..before
                    })
                    &&& r matches Ok(job) && {
                        &&& job.dir@ == dir
                        &&& job.name@ == name
                        &&& job.change == change
                        &&& job.was_starred == f.starred.contains(name)
                        &&& job.was_in_file == f.names_in_file.contains(name)
                    }
                },
            }
        },
    }
}

/// A folder whose file must not be written is never changed.
pub proof fn law_a_locked_folder_is_never_changed(
    before: StarsView,
    after: StarsView,
    r: Result<WriteJob, String>,
    p: Seq<char>,
    change: Change,
)
    requires
        is_change(before, after, r, p, change),
        split_of(p) matches Some((dir, _)) && folder_in(before.folders, dir).locked is Some,
    ensures
        after == before,
        r is Err,
{
}

/// A change that is taken shows at once.
pub proof fn law_a_change_shows_at_once(
    before: StarsView,
    after: StarsView,
    r: Result<WriteJob, String>,
    p: Seq<char>,
    change: Change,
)
    requires
        is_change(before, after, r, p, change),
        r is Ok,
    ensures
        starred_in(after, p) == (change is Star),
        in_file(after, p) == (change is Star),
{
}

/// A change of one picture leaves the stars of all others as they are.
pub proof fn law_other_pictures_keep_their_stars(
    before: StarsView,
    after: StarsView,
    r: Result<WriteJob, String>,
    p: Seq<char>,
    change: Change,
    other: Seq<char>,
)
    requires
        is_change(before, after, r, p, change),
        split_of(other) != split_of(p),
    ensures
        starred_in(after, other) == starred_in(before, other),
        in_file(after, other) == in_file(before, other),
{
}

/// The stars after a save of a folder has finished. One that failed puts the name
/// back as it stood before.
pub open spec fn after_save(
    s: StarsView,
    dir: Seq<char>,
    name: Seq<char>,
    done: bool,
    was_starred: bool,
    was_in_file: bool,
) -> StarsView {
    let f = one_less_pending(folder_in(s.folders, dir));
    StarsView {
        folders: s.folders.insert(
            dir,
            if done {
                f
            } else {
                restored(f, name, was_starred, was_in_file)
            },
        ),
        ..s
    }
}

/// A picture shows a star just where its folder is known and has its name among
/// the starred ones; that its folder's file has an entry for it is not enough.
pub proof fn law_what_shows_a_star(s: StarsView, p: Seq<char>, dir: Seq<char>, name: Seq<char>)
    requires
        path::parent_of(p) == Some(dir),
        path::file_name_of(p) == Some(name),
    ensures
        s.folders.contains_key(dir) ==> (starred_in(s, p) <==> s.folders[dir].starred.contains(name)),
        s.folders.contains_key(dir) ==> (in_file(s, p) <==> s.folders[dir].names_in_file.contains(name)),
        !s.folders.contains_key(dir) ==> !starred_in(s, p) && !in_file(s, p),
{
}

/// A save that was done leaves every star as it shows; one that failed puts that
/// of its picture back to what it was before the change and leaves the others. In
/// both cases one save less is awaited.
pub proof fn law_a_finished_save(
    s: StarsView,
    p: Seq<char>,
    dir: Seq<char>,
    name: Seq<char>,
    done: bool,
    was_starred: bool,
    was_in_file: bool,
    other: Seq<char>,
)
    requires
        split_of(p) == Some((dir, name)),
        s.folders.contains_key(dir),
        s.folders[dir].pending_writes > 0,
        split_of(other) != split_of(p),
    ensures
        ({
            let t = after_save(s, dir, name, done, was_starred, was_in_file);
            &&& done ==> starred_in(t, p) == starred_in(s, p) && in_file(t, p) == in_file(s, p)
            &&& !done ==> starred_in(t, p) == was_starred && in_file(t, p) == was_in_file
            &&& starred_in(t, other) == starred_in(s, other)
            &&& in_file(t, other) == in_file(s, other)
            &&& t.folders[dir].pending_writes == s.folders[dir].pending_writes - 1
            &&& t.folders[dir].locked == s.folders[dir].locked
            &&& t.star_file_folders == s.star_file_folders
        }),
{
}

/// A change and the save of it that fails leave all stars and all entries as they
/// were.
pub proof fn law_a_failed_save_leaves_no_trace(
    before: StarsView,
    after: StarsView,
    r: Result<WriteJob, String>,
    p: Seq<char>,
    change: Change,
    other: Seq<char>,
)
    requires
        is_change(before, after, r, p, change),
        r is Ok,
    ensures
        ({
            let job = r->Ok_0;
            let t = after_save(after, job.dir@, job.name@, false, job.was_starred, job.was_in_file);
            &&& starred_in(t, p) == starred_in(before, p)
            &&& in_file(t, p) == in_file(before, p)
            &&& starred_in(t, other) == starred_in(before, other)
            &&& in_file(t, other) == in_file(before, other)
        }),
{
}

/// What is asked for is refused only for a path without a folder or a name and
/// for a folder whose file must not be written. A star that is taken counts as
/// one more save.
pub proof fn law_when_a_change_is_taken(
    before: StarsView,
    after: StarsView,
    r: Result<WriteJob, String>,
    p: Seq<char>,
    change: Change,
)
    requires
        is_change(before, after, r, p, change),
    ensures
        path::parent_of(p) is None || path::file_name_of(p) is None ==> r is Err,
        path::parent_of(p) matches Some(dir) ==> (path::file_name_of(p) is Some ==> {
            &&& before.folders.contains_key(dir) ==> (r is Ok <==> before.folders[dir].locked is None)
            &&& !before.folders.contains_key(dir) ==> r is Ok
        }),
        r is Err ==> after == before,
        r matches Ok(job) ==> {
            &&& path::parent_of(p) == Some(job.dir@)
            &&& path::file_name_of(p) == Some(job.name@)
            &&& job.change == change
            &&& after.folders[job.dir@].pending_writes == folder_in(before.folders, job.dir@).pending_writes + 1
        },
{
}

/// There is room to count one more save for every folder.
pub open spec fn has_room(s: StarsView) -> bool {
    forall|d: Seq<char>| #[trigger]
        s.folders.contains_key(d) ==> s.folders[d].pending_writes < usize::MAX
}

/// The folders of a list of paths.
pub open spec fn is_parent_in(paths: Seq<String>, dir: Seq<char>) -> bool {
    exists|i: int| 0 <= i < paths.len() && path::parent_of(#[trigger] paths[i]@) == Some(dir)
}

/// The stars of a folder after a listing. A folder with a save under way keeps
/// what it has, because its file does not have the change yet. A folder without
/// a star file has no stars. A folder with one is read later, and keeps what it
/// has until then.
pub open spec fn folder_after_listing(
    before: Map<Seq<char>, FolderView>,
    images: Seq<String>,
    star_files: Seq<String>,
    dir: Seq<char>,
) -> Option<FolderView> {
    let was = if before.contains_key(dir) {
        Some(before[dir])
    } else {
        None
    };
    if is_parent_in(images, dir) && !is_parent_in(star_files, dir) && folder_in(
        before,
        dir,
    ).pending_writes == 0 {
        Some(file::no_stars())
    } else {
        was
    }
}

/// Whether the star file of a folder is read after a listing.
pub open spec fn is_read(
    before: Map<Seq<char>, FolderView>,
    images: Seq<String>,
    star_files: Seq<String>,
    dir: Seq<char>,
) -> bool {
    is_parent_in(images, dir) && is_parent_in(star_files, dir) && folder_in(
        before,
        dir,
    ).pending_writes == 0
}

/// What became of an attempt to read the list of folders.
#[derive(Debug)]
pub enum ListRead {
    /// The list is kept in memory only.
    InMemory,
    /// The list on disk; without a file it is empty.
    Read(Vec<String>),
    /// The list on disk cannot be read, or comes from a newer program. It is
    /// not written over.
    Failed,
}

/// The folders of the list after some were added and removed. They are added
/// to the list on disk where it can be read, so that folders which another
/// window added stay.
pub open spec fn list_after(
    known: Set<Seq<char>>,
    read: ListRead,
    add: Seq<String>,
    remove: Seq<String>,
) -> Set<Seq<char>> {
    (match read {
        ListRead::Read(on_disk) => names::names_of(on_disk@),
        _ => known,
    }).union(names::names_of(add)).difference(names::names_of(remove))
}

/// Whether the folder of a picture joins the list before the picture is
/// starred. `absolute` is the folder's path from the root. A folder joins
/// before its star file exists, so that the list never misses one.
pub open spec fn joins_list(s: StarsView, p: Seq<char>, absolute: Seq<char>) -> bool {
    match split_of(p) {
        Some((dir, _)) => folder_in(s.folders, dir).locked is None
            && !s.star_file_folders.contains(absolute),
        None => false,
    }
}

/// The folders of the list by the time that a picture is starred.
pub open spec fn list_for_star(
    s: StarsView,
    read: ListRead,
    p: Seq<char>,
    absolute: Seq<char>,
    add: Seq<String>,
) -> Set<Seq<char>> {
    if joins_list(s, p, absolute) {
        list_after(s.star_file_folders, read, add, Seq::empty())
    } else {
        s.star_file_folders
    }
}

/// The folder of a picture that can be starred is in the list, whatever became
/// of reading the list on disk.
pub proof fn law_a_starred_picture_has_its_folder_listed(
    s: StarsView,
    read: ListRead,
    p: Seq<char>,
    absolute: String,
)
    requires
        split_of(p) matches Some((dir, _)) && folder_in(s.folders, dir).locked is None,
    ensures
        list_for_star(s, read, p, absolute@, seq![absolute]).contains(absolute@),
{
    let add = seq![absolute];
    assert(add[0]@ == absolute@);
    assert(names::names_of(add).contains(absolute@));
    assert(!names::names_of(Seq::<String>::empty()).contains(absolute@));
}

/// A folder in the list on disk stays there when others are added, so that a
/// folder which another window added is not lost.
pub proof fn law_folders_of_other_windows_stay_listed(
    known: Set<Seq<char>>,
    on_disk: Vec<String>,
    add: Seq<String>,
    k: int,
)
    requires
        0 <= k < on_disk@.len(),
    ensures
        list_after(known, ListRead::Read(on_disk), add, Seq::empty()).contains(on_disk@[k]@),
{
    assert(names::names_of(on_disk@).contains(on_disk@[k]@));
    assert(!names::names_of(Seq::<String>::empty()).contains(on_disk@[k]@));
}

/// Whether a folder has lost its star file. The folders are given by the path
/// that they are known under and by their path from the root.
pub open spec fn is_gone(
    dirs: Seq<String>,
    absolutes: Seq<String>,
    gone: Seq<String>,
    dir: Seq<char>,
) -> bool {
    exists|i: int|
        0 <= i < dirs.len() && #[trigger] dirs[i]@ == dir && names::names_of(gone).contains(
            absolutes[i]@,
        )
}

/// What becomes of the stars when star files were moved to the trash: a folder
/// without its file has no stars, and leaves the list.
pub open spec fn is_after_moves(
    before: StarsView,
    after: StarsView,
    dirs: Seq<String>,
    absolutes: Seq<String>,
    gone: Seq<String>,
    read: ListRead,
) -> bool {
    &&& forall|d: Seq<char>|
        #![trigger after.folders.contains_key(d)]
        #![trigger after.folders[d]]
        {
            &&& after.folders.contains_key(d) == before.folders.contains_key(d)
            &&& after.folders.contains_key(d) ==> after.folders[d] == (if is_gone(
                dirs,
                absolutes,
                gone,
                d,
            ) {
                file::no_stars()
            } else {
                before.folders[d]
            })
        }
    &&& after.star_file_folders == list_after(
        before.star_file_folders,
        read,
        Seq::empty(),
        gone,
    )
}

/// Once its star file is gone, a folder shows no stars and is not in the list.
/// A folder that keeps its file keeps its stars.
pub proof fn law_moved_star_files_take_their_stars_along(
    before: StarsView,
    after: StarsView,
    dirs: Seq<String>,
    absolutes: Seq<String>,
    gone: Seq<String>,
    read: ListRead,
    p: Seq<char>,
)
    requires
        is_after_moves(before, after, dirs, absolutes, gone, read),
    ensures
        split_of(p) matches Some((dir, _)) && is_gone(dirs, absolutes, gone, dir) ==> !starred_in(
            after,
            p,
        ) && !in_file(after, p),
        split_of(p) matches Some((dir, _)) && !is_gone(dirs, absolutes, gone, dir) ==> starred_in(
            after,
            p,
        ) == starred_in(before, p),
        forall|i: int|
            0 <= i < gone.len() ==> !after.star_file_folders.contains(#[trigger] gone[i]@),
{
    if let Some((dir, _)) = split_of(p) {
        assert(after.folders.contains_key(dir) == before.folders.contains_key(dir));
    }
    assert forall|i: int| 0 <= i < gone.len() implies !after.star_file_folders.contains(
        #[trigger] gone[i]@,
    ) by {
        assert(names::names_of(gone).contains(gone[i]@));
    }
}

/// Whether a folder holds one of some paths.
fn holds_one_of(dir: &str, paths: &Vec<String>) -> (r: bool)
    ensures
        r == is_parent_in(paths@, dir@),
{
    let mut i: usize = 0;
    while i < paths.len()
        invariant
            i <= paths@.len(),
            forall|k: int|
                0 <= k < i ==> path::parent_of(#[trigger] paths@[k]@) != Some(dir@),
        decreases paths@.len() - i,
    {
        if let Some(parent) = path::parent(paths[i].as_str()) {
            if same_text(parent.as_str(), dir) {
                assert(path::parent_of(paths@[i as int]@) == Some(dir@));
                return true;
            }
        }
        i += 1;
    }
    false
}

impl Stars {
    /// Every folder and every name is kept once.
    pub closed spec fn wf(&self) -> bool {
        self.folders.wf() && self.star_file_folders.wf()
    }

    /// No stars, and the folders known to have a star file.
    pub fn new(star_file_folders: &Vec<String>) -> (r: Self)
        ensures
            r.wf(),
            r@.folders == Map::<Seq<char>, FolderView>::empty(),
            r@.star_file_folders == names::names_of(star_file_folders@),
    {
        let mut known = NameSet::new();
        let mut i: usize = 0;
        assert(known@ =~= names::names_of(star_file_folders@.take(0)));
        while i < star_file_folders.len()
            invariant
                i <= star_file_folders@.len(),
                known.wf(),
                known@ == names::names_of(star_file_folders@.take(i as int)),
            decreases star_file_folders@.len() - i,
        {
            known.insert(star_file_folders[i].as_str());
            proof {
                lemma_one_more_name(star_file_folders@, i as int);
            }
            i += 1;
        }
        assert(star_file_folders@.take(i as int) =~= star_file_folders@);
        Stars { folders: FolderTable::new(), star_file_folders: known }
    }

    /// Whether a picture is starred.
    pub fn is_starred(&self, p: &str) -> (r: bool)
        requires
            self.wf(),
        ensures
            r == starred_in(self@, p@),
    {
        match split(p) {
            Ok((dir, name)) => match self.folders.get(dir.as_str()) {
                Some(f) => f.starred.contains(name.as_str()),
                None => false,
            },
            Err(_) => false,
        }
    }

    /// Asks for a change of one picture.
    pub fn change(&mut self, p: &str, change: Change) -> (r: Result<WriteJob, String>)
        requires
            old(self).wf(),
            has_room(old(self)@),
        ensures
            final(self).wf(),
            is_change(old(self)@, final(self)@, r, p@, change),
    {
        let starring = match &change {
            Change::Star(_) => true,
            Change::Unstar => false,
        };
        let (dir, name) = match split(p) {
            Ok(parts) => parts,
            Err(reason) => {
                return Err(failure_message(starring, p, reason.as_str()));
            },
        };
        if let Some(f) = self.folders.get(dir.as_str()) {
            if let Some(reason) = &f.locked {
                return Err(failure_message(starring, p, reason.as_str()));
            }
        }
        let ghost before = self.folders@;
        let mut folder = match self.folders.take(dir.as_str()) {
            Some(f) => f,
            None => FolderStars::new(),
        };
        let was_starred = folder.starred.contains(name.as_str());
        let was_in_file = folder.names_in_file.contains(name.as_str());
        folder.starred.set(name.as_str(), starring);
        folder.names_in_file.set(name.as_str(), starring);
        folder.pending_writes += 1;
        self.folders.insert(dir.as_str(), folder);
        assert(self.folders@ =~= before.insert(
            dir@,
            changed(folder_in(before, dir@), name@, starring),
        ));
        Ok(WriteJob { dir, name, change, was_starred, was_in_file })
    }

    /// Stars a picture whose file has a size now. The star shows at once, and
    /// the save follows. An error is the message for the user.
    pub fn star(&mut self, p: &str, size: u64, now: String) -> (r: Result<WriteJob, String>)
        requires
            old(self).wf(),
            has_room(old(self)@),
        ensures
            final(self).wf(),
            is_change(
                old(self)@,
                final(self)@,
                r,
                p@,
                Change::Star(StarEntry { rating: 1, size, changed: now }),
            ),
    {
        self.change(p, Change::Star(StarEntry { rating: 1, size, changed: now }))
    }

    /// Takes the star from a picture.
    pub fn unstar(&mut self, p: &str) -> (r: Result<WriteJob, String>)
        requires
            old(self).wf(),
            has_room(old(self)@),
        ensures
            final(self).wf(),
            is_change(old(self)@, final(self)@, r, p@, Change::Unstar),
    {
        self.change(p, Change::Unstar)
    }

    /// A picture was moved to the trash. Its entry leaves the folder's file, so
    /// that a new file of the same name shows no star. A picture without an
    /// entry changes nothing.
    pub fn forget(&mut self, p: &str) -> (r: Option<Result<WriteJob, String>>)
        requires
            old(self).wf(),
            has_room(old(self)@),
        ensures
            final(self).wf(),
            match r {
                Some(result) => in_file(old(self)@, p@) && is_change(
                    old(self)@,
                    final(self)@,
                    result,
                    p@,
                    Change::Unstar,
                ),
                None => !in_file(old(self)@, p@) && final(self)@ == old(self)@,
            },
    {
        let listed = match split(p) {
            Ok((dir, name)) => match self.folders.get(dir.as_str()) {
                Some(f) => f.names_in_file.contains(name.as_str()),
                None => false,
            },
            Err(_) => false,
        };
        if listed {
            Some(self.change(p, Change::Unstar))
        } else {
            None
        }
    }

    /// Puts a name back as it stood before a change.
    fn restore(&mut self, dir: &str, name: &str, was_starred: bool, was_in_file: bool)
        requires
            old(self).wf(),
        ensures
            final(self).wf(),
            final(self)@ == (StarsView {
                folders: old(self)@.folders.insert(
                    dir@,
                    restored(
                        folder_in(old(self)@.folders, dir@),
                        name@,
                        was_starred,
                        was_in_file,
                    ),
                ),
                ..old(self)@
            }),
    {
        let ghost before = self.folders@;
        let mut folder = match self.folders.take(dir) {
            Some(f) => f,
            None => FolderStars::new(),
        };
        folder.starred.set(name, was_starred);
        folder.names_in_file.set(name, was_in_file);
        self.folders.insert(dir, folder);
        assert(self.folders@ =~= before.insert(
            dir@,
            restored(folder_in(before, dir@), name@, was_starred, was_in_file),
        ));
    }

    /// Counts a save of a folder as finished.
    fn count_finished(&mut self, dir: &str)
        requires
            old(self).wf(),
        ensures
            final(self).wf(),
            final(self)@ == (StarsView {
                folders: old(self)@.folders.insert(
                    dir@,
                    one_less_pending(folder_in(old(self)@.folders, dir@)),
                ),
                ..old(self)@
            }),
    {
        let ghost before = self.folders@;
        let mut folder = match self.folders.take(dir) {
            Some(f) => f,
            None => FolderStars::new(),
        };
        if folder.pending_writes > 0 {
            folder.pending_writes -= 1;
        }
        self.folders.insert(dir, folder);
        assert(self.folders@ =~= before.insert(
            dir@,
            one_less_pending(folder_in(before, dir@)),
        ));
    }

    /// Takes note of a save that has finished. A failed save takes its change
    /// back, and the answer is the message for the user.
    pub fn finished(&mut self, done: &FinishedWrite) -> (r: Option<String>)
        requires
            old(self).wf(),
        ensures
            final(self).wf(),
            final(self)@ == after_save(
                old(self)@,
                done.dir@,
                done.name@,
                done.result is Ok,
                done.was_starred,
                done.was_in_file,
            ),
            match done.result {
                Ok(_) => r is None,
                Err(reason) => r matches Some(m) && m@ == failure_of(
                    done.starred,
                    path::joined(done.dir@, done.name@),
                    reason@,
                ),
            },
    {
        self.count_finished(done.dir.as_str());
        match &done.result {
            Ok(_) => None,
            Err(reason) => {
                let ghost middle = self@.folders;
                self.restore(
                    done.dir.as_str(),
                    done.name.as_str(),
                    done.was_starred,
                    done.was_in_file,
                );
                assert(self@.folders =~= old(self)@.folders.insert(
                    done.dir@,
                    self@.folders[done.dir@],
                ));
                let p = path::join(done.dir.as_str(), done.name.as_str());
                Some(failure_message(done.starred, p.as_str(), reason.as_str()))
            },
        }
    }

    /// Takes back a change whose save could not be asked for. Answers with the
    /// message for the user.
    pub fn undo(&mut self, job: &WriteJob, p: &str) -> (r: String)
        requires
            old(self).wf(),
        ensures
            final(self).wf(),
            r@ == failure_of(job.change is Star, p@, "the writer thread stopped"@),
            final(self)@ == after_save(
                old(self)@,
                job.dir@,
                job.name@,
                false,
                job.was_starred,
                job.was_in_file,
            ),
    {
        self.count_finished(job.dir.as_str());
        self.restore(job.dir.as_str(), job.name.as_str(), job.was_starred, job.was_in_file);
        assert(self@.folders =~= old(self)@.folders.insert(job.dir@, self@.folders[job.dir@]));
        let starring = match &job.change {
            Change::Star(_) => true,
            Change::Unstar => false,
        };
        failure_message(starring, p, "the writer thread stopped")
    }

    /// Whether any save has not finished.
    pub fn has_pending_writes(&self) -> (r: bool)
        requires
            self.wf(),
        ensures
            r == exists|d: Seq<char>| #[trigger]
                self@.folders.contains_key(d) && self@.folders[d].pending_writes > 0,
    {
        self.folders.any_pending()
    }

    /// The folders known to have a star file, in no order.
    pub fn star_file_folders(&self) -> (r: &Vec<String>)
        requires
            self.wf(),
        ensures
            names::names_of(r@) == self@.star_file_folders,
            names::all_differ(r@),
    {
        self.star_file_folders.names()
    }

    /// Whether a folder is known to have a star file.
    pub fn knows(&self, dir: &str) -> (r: bool)
        ensures
            r == self@.star_file_folders.contains(dir@),
    {
        self.star_file_folders.contains(dir)
    }

    /// The folders that have stars or had them.
    pub fn dirs(&self) -> (r: Vec<String>)
        requires
            self.wf(),
        ensures
            forall|d: Seq<char>|
                #[trigger] self@.folders.contains_key(d) <==> exists|i: int|
                    0 <= i < r@.len() && #[trigger] r@[i]@ == d,
    {
        self.folders.dirs()
    }

    /// Sets the stars of a folder.
    pub fn set_folder(&mut self, dir: &str, folder: FolderStars)
        requires
            old(self).wf(),
            folder.wf(),
        ensures
            final(self).wf(),
            final(self)@ == (StarsView {
                folders: old(self)@.folders.insert(dir@, folder@),
                ..old(self)@
            }),
    {
        self.folders.insert(dir, folder);
    }

    /// After a folder listing: the folders that hold one of the pictures, and
    /// the star files that the listing walked past. Answers which folders'
    /// files have to be read.
    pub fn load(&mut self, images: &Vec<String>, star_files: &Vec<String>) -> (r: Vec<String>)
        requires
            old(self).wf(),
        ensures
            final(self).wf(),
            final(self)@.star_file_folders == old(self)@.star_file_folders,
            forall|d: Seq<char>|
                #![trigger final(self)@.folders.contains_key(d)]
                #![trigger final(self)@.folders[d]]
                match folder_after_listing(old(self)@.folders, images@, star_files@, d) {
                    Some(f) => final(self)@.folders.contains_key(d) && final(self)@.folders[d] == f,
                    None => !final(self)@.folders.contains_key(d),
                },
            forall|d: Seq<char>| #[trigger]
                names::names_of(r@).contains(d) <==> is_read(
                    old(self)@.folders,
                    images@,
                    star_files@,
                    d,
                ),
            names::all_differ(r@),
    {
        let ghost before = self.folders@;
        let mut to_read = NameSet::new();
        let mut i: usize = 0;
        proof {
            assert forall|d: Seq<char>| !is_parent_in(images@.take(0), d) by {}
        }
        while i < images.len()
            invariant
                i <= images@.len(),
                self.wf(),
                self@.star_file_folders == old(self)@.star_file_folders,
                before == old(self)@.folders,
                to_read.wf(),
                forall|d: Seq<char>|
                    #![trigger self@.folders.contains_key(d)]
                    #![trigger self@.folders[d]]
                    match folder_after_listing(before, images@.take(i as int), star_files@, d) {
                        Some(f) => self@.folders.contains_key(d) && self@.folders[d] == f,
                        None => !self@.folders.contains_key(d),
                    },
                forall|d: Seq<char>| #[trigger]
                    to_read@.contains(d) <==> is_read(
                        before,
                        images@.take(i as int),
                        star_files@,
                        d,
                    ),
            decreases images@.len() - i,
        {
            proof {
                assert forall|d: Seq<char>| #[trigger]
                    is_parent_in(images@.take(i + 1), d) == (is_parent_in(
                        images@.take(i as int),
                        d,
                    ) || path::parent_of(images@[i as int]@) == Some(d)) by {
                    lemma_one_more_parent(images@, i as int, d);
                }
            }
            if let Some(dir) = path::parent(images[i].as_str()) {
                let ghost now = self@.folders;
                let with_file = holds_one_of(dir.as_str(), star_files);
                let pending = match self.folders.get(dir.as_str()) {
                    Some(f) => f.pending_writes > 0,
                    None => false,
                };
                assert(pending == (folder_in(before, dir@).pending_writes > 0)) by {
                    assert(now.contains_key(dir@) || !now.contains_key(dir@));
                }
                if !pending {
                    if with_file {
                        to_read.insert(dir.as_str());
                    } else {
                        self.folders.insert(dir.as_str(), FolderStars::new());
                    }
                }
            }
            i += 1;
        }
        assert(images@.take(i as int) =~= images@);
        let names = to_read.names();
        let mut r: Vec<String> = Vec::new();
        let mut k: usize = 0;
        while k < names.len()
            invariant
                k <= names@.len(),
                r@.len() == k,
                forall|j: int| 0 <= j < k ==> #[trigger] r@[j]@ == names@[j]@,
            decreases names@.len() - k,
        {
            r.push(names[k].clone());
            k += 1;
        }
        proof {
            lemma_same_names(names@, r@);
        }
        r
    }

    /// Adds folders to the list and removes some. Answers whether the list has
    /// to be written to disk.
    pub fn update_folder_list(
        &mut self,
        read: ListRead,
        add: &Vec<String>,
        remove: &Vec<String>,
    ) -> (r: bool)
        requires
            old(self).wf(),
        ensures
            final(self).wf(),
            final(self)@ == (StarsView {
                star_file_folders: list_after(old(self)@.star_file_folders, read, add@, remove@),
                ..old(self)@
            }),
            r == (read is Read),
    {
        let ghost known = self.star_file_folders@;
        let written = match &read {
            ListRead::Read(on_disk) => {
                let mut listed = NameSet::new();
                add_names(&mut listed, on_disk);
                assert(listed@ =~= names::names_of(on_disk@));
                self.star_file_folders = listed;
                true
            },
            ListRead::InMemory => false,
            ListRead::Failed => false,
        };
        add_names(&mut self.star_file_folders, add);
        remove_names(&mut self.star_file_folders, remove);
        assert(self.star_file_folders@ =~= list_after(known, read, add@, remove@));
        written
    }

    /// Whether the folder of a picture has to join the list before the picture
    /// is starred.
    pub fn joins_list(&self, p: &str, absolute: &str) -> (r: bool)
        requires
            self.wf(),
        ensures
            r == joins_list(self@, p@, absolute@),
    {
        match split(p) {
            Ok((dir, _)) => {
                let locked = match self.folders.get(dir.as_str()) {
                    Some(f) => f.locked.is_some(),
                    None => false,
                };
                !locked && !self.star_file_folders.contains(absolute)
            },
            Err(_) => false,
        }
    }

    /// Those of some folders with a star file that are not in the list yet.
    pub fn unlisted(&self, dirs: &Vec<String>) -> (r: Vec<String>)
        requires
            self.wf(),
        ensures
            names::names_of(r@) == names::names_of(dirs@).difference(self@.star_file_folders),
    {
        let mut r: Vec<String> = Vec::new();
        let mut i: usize = 0;
        assert(names::names_of(r@) =~= names::names_of(dirs@.take(0)).difference(
            self@.star_file_folders,
        ));
        while i < dirs.len()
            invariant
                i <= dirs@.len(),
                names::names_of(r@) == names::names_of(dirs@.take(i as int)).difference(
                    self@.star_file_folders,
                ),
            decreases dirs@.len() - i,
        {
            let ghost before = r@;
            if !self.star_file_folders.contains(dirs[i].as_str()) {
                r.push(dirs[i].clone());
                proof {
                    lemma_one_more_name(r@, before.len() as int);
                    assert(r@.take(before.len() as int) =~= before);
                    assert(r@.take(before.len() as int + 1) =~= r@);
                }
            }
            proof {
                lemma_one_more_name(dirs@, i as int);
            }
            i += 1;
            assert(names::names_of(r@) =~= names::names_of(dirs@.take(i as int)).difference(
                self@.star_file_folders,
            ));
        }
        assert(dirs@.take(i as int) =~= dirs@);
        r
    }

    /// After star files were moved to the trash: the folders without one have
    /// no stars, and leave the list. `absolutes` are the paths of `dirs` from
    /// the root. Answers whether the list has to be written to disk.
    pub fn after_moves(
        &mut self,
        dirs: &Vec<String>,
        absolutes: &Vec<String>,
        gone: &Vec<String>,
        read: ListRead,
    ) -> (r: bool)
        requires
            old(self).wf(),
            dirs@.len() == absolutes@.len(),
        ensures
            final(self).wf(),
            is_after_moves(old(self)@, final(self)@, dirs@, absolutes@, gone@, read),
            r == (read is Read),
    {
        let ghost before = self@;
        let mut lost = NameSet::new();
        add_names(&mut lost, gone);
        assert(lost@ =~= names::names_of(gone@));
        let mut i: usize = 0;
        while i < dirs.len()
            invariant
                i <= dirs@.len(),
                dirs@.len() == absolutes@.len(),
                self.wf(),
                lost@ == names::names_of(gone@),
                self@.star_file_folders == before.star_file_folders,
                forall|d: Seq<char>|
                    #![trigger self@.folders.contains_key(d)]
                    #![trigger self@.folders[d]]
                    {
                        &&& self@.folders.contains_key(d) == before.folders.contains_key(d)
                        &&& self@.folders.contains_key(d) ==> self@.folders[d] == (if is_gone(
                            dirs@.take(i as int),
                            absolutes@,
                            gone@,
                            d,
                        ) {
                            file::no_stars()
                        } else {
                            before.folders[d]
                        })
                    },
            decreases dirs@.len() - i,
        {
            proof {
                assert forall|d: Seq<char>| #[trigger]
                    is_gone(dirs@.take(i + 1), absolutes@, gone@, d) == (is_gone(
                        dirs@.take(i as int),
                        absolutes@,
                        gone@,
                        d,
                    ) || dirs@[i as int]@ == d && names::names_of(gone@).contains(
                        absolutes@[i as int]@,
                    )) by {
                    lemma_one_more_gone(dirs@, absolutes@, gone@, i as int, d);
                }
            }
            let ghost now = self@.folders;
            if lost.contains(absolutes[i].as_str()) {
                let known = self.folders.get(dirs[i].as_str()).is_some();
                if known {
                    self.folders.insert(dirs[i].as_str(), FolderStars::new());
                }
            }
            assert forall|d: Seq<char>|
                #![trigger self@.folders.contains_key(d)]
                #![trigger self@.folders[d]]
                {
                    &&& self@.folders.contains_key(d) == before.folders.contains_key(d)
                    &&& self@.folders.contains_key(d) ==> self@.folders[d] == (if is_gone(
                        dirs@.take(i + 1),
                        absolutes@,
                        gone@,
                        d,
                    ) {
                        file::no_stars()
                    } else {
                        before.folders[d]
                    })
                } by {
                assert(now.contains_key(d) == before.folders.contains_key(d));
            }
            i += 1;
        }
        assert(dirs@.take(i as int) =~= dirs@);
        let none: Vec<String> = Vec::new();
        assert(none@ =~= Seq::<String>::empty());
        self.update_folder_list(read, &none, gone)
    }
}

proof fn lemma_one_more_gone(
    dirs: Seq<String>,
    absolutes: Seq<String>,
    gone: Seq<String>,
    i: int,
    d: Seq<char>,
)
    requires
        0 <= i < dirs.len(),
    ensures
        is_gone(dirs.take(i + 1), absolutes, gone, d) == (is_gone(
            dirs.take(i),
            absolutes,
            gone,
            d,
        ) || dirs[i]@ == d && names::names_of(gone).contains(absolutes[i]@)),
{
    let before = dirs.take(i);
    let after = dirs.take(i + 1);
    if is_gone(after, absolutes, gone, d) {
        let k = choose|k: int|
            0 <= k < after.len() && #[trigger] after[k]@ == d && names::names_of(gone).contains(
                absolutes[k]@,
            );
        if k < i {
            assert(before[k]@ == d);
        }
    }
    if is_gone(before, absolutes, gone, d) {
        let k = choose|k: int|
            0 <= k < before.len() && #[trigger] before[k]@ == d && names::names_of(gone).contains(
                absolutes[k]@,
            );
        assert(after[k]@ == d);
    }
    assert(after[i]@ == dirs[i]@);
}

/// Puts the names of a list into a set.
fn add_names(set: &mut NameSet, list: &Vec<String>)
    requires
        old(set).wf(),
    ensures
        final(set).wf(),
        final(set)@ == old(set)@.union(names::names_of(list@)),
{
    let ghost first = set@;
    let mut i: usize = 0;
    assert(set@ =~= first.union(names::names_of(list@.take(0))));
    while i < list.len()
        invariant
            i <= list@.len(),
            set.wf(),
            set@ == first.union(names::names_of(list@.take(i as int))),
        decreases list@.len() - i,
    {
        set.insert(list[i].as_str());
        proof {
            lemma_one_more_name(list@, i as int);
        }
        i += 1;
        assert(set@ =~= first.union(names::names_of(list@.take(i as int))));
    }
    assert(list@.take(i as int) =~= list@);
}

/// Takes the names of a list out of a set.
fn remove_names(set: &mut NameSet, list: &Vec<String>)
    requires
        old(set).wf(),
    ensures
        final(set).wf(),
        final(set)@ == old(set)@.difference(names::names_of(list@)),
{
    let ghost first = set@;
    let mut i: usize = 0;
    assert(set@ =~= first.difference(names::names_of(list@.take(0))));
    while i < list.len()
        invariant
            i <= list@.len(),
            set.wf(),
            set@ == first.difference(names::names_of(list@.take(i as int))),
        decreases list@.len() - i,
    {
        set.remove(list[i].as_str());
        proof {
            lemma_one_more_name(list@, i as int);
        }
        i += 1;
        assert(set@ =~= first.difference(names::names_of(list@.take(i as int))));
    }
    assert(list@.take(i as int) =~= list@);
}

proof fn lemma_one_more_name(list: Seq<String>, i: int)
    requires
        0 <= i < list.len(),
    ensures
        names::names_of(list.take(i + 1)) == names::names_of(list.take(i)).insert(list[i]@),
{
    let before = list.take(i);
    let after = list.take(i + 1);
    assert forall|n: Seq<char>| names::names_of(after).contains(n) == names::names_of(before).insert(
        list[i]@,
    ).contains(n) by {
        if names::names_of(after).contains(n) {
            let k = choose|k: int| 0 <= k < after.len() && #[trigger] after[k]@ == n;
            if k < i {
                assert(before[k]@ == n);
            }
        }
        if names::names_of(before).contains(n) {
            let k = choose|k: int| 0 <= k < before.len() && #[trigger] before[k]@ == n;
            assert(after[k]@ == n);
        }
        assert(after[i]@ == list[i]@);
    }
    assert(names::names_of(after) =~= names::names_of(before).insert(list[i]@));
}

proof fn lemma_one_more_parent(paths: Seq<String>, i: int, dir: Seq<char>)
    requires
        0 <= i < paths.len(),
    ensures
        is_parent_in(paths.take(i + 1), dir) == (is_parent_in(paths.take(i), dir)
            || path::parent_of(paths[i]@) == Some(dir)),
{
    let before = paths.take(i);
    let after = paths.take(i + 1);
    if is_parent_in(after, dir) {
        let k = choose|k: int|
            0 <= k < after.len() && path::parent_of(#[trigger] after[k]@) == Some(dir);
        if k < i {
            assert(before[k]@ == after[k]@);
        }
    }
    if is_parent_in(before, dir) {
        let k = choose|k: int|
            0 <= k < before.len() && path::parent_of(#[trigger] before[k]@) == Some(dir);
        assert(after[k]@ == before[k]@);
    }
    assert(after[i]@ == paths[i]@);
}

proof fn lemma_same_names(a: Seq<String>, b: Seq<String>)
    requires
        a.len() == b.len(),
        forall|i: int| 0 <= i < a.len() ==> #[trigger] b[i]@ == a[i]@,
        names::all_differ(a),
    ensures
        names::names_of(a) == names::names_of(b),
        names::all_differ(b),
{
    assert forall|n: Seq<char>| names::names_of(a).contains(n) == names::names_of(b).contains(
        n,
    ) by {
        if names::names_of(a).contains(n) {
            let k = choose|k: int| 0 <= k < a.len() && #[trigger] a[k]@ == n;
            assert(b[k]@ == n);
        }
        if names::names_of(b).contains(n) {
            let k = choose|k: int| 0 <= k < b.len() && #[trigger] b[k]@ == n;
            assert(a[k]@ == n);
        }
    }
    assert(names::names_of(a) =~= names::names_of(b));
    assert forall|i: int, j: int| 0 <= i < j < b.len() implies #[trigger] b[i]@
        != #[trigger] b[j]@ by {
        assert(a[i]@ != a[j]@);
    }
}

/// What a listing does to the stars of a folder with a picture: a save under way
/// keeps them; without a star file they are gone; with one they stay until the
/// file was read, which it is. A folder that was not listed keeps its stars.
pub proof fn law_what_a_listing_does_to_the_stars(
    before: Map<Seq<char>, FolderView>,
    images: Seq<String>,
    star_files: Seq<String>,
    dir: Seq<char>,
    k: int,
    j: int,
)
    requires
        before.contains_key(dir),
    ensures
        before[dir].pending_writes != 0 ==> folder_after_listing(before, images, star_files, dir) == Some(before[dir])
            && !is_read(before, images, star_files, dir),
        before[dir].pending_writes == 0 && 0 <= k < images.len() && path::parent_of(images[k]@) == Some(dir) && (
        forall|i: int| 0 <= i < star_files.len() ==> path::parent_of(#[trigger] star_files[i]@) != Some(dir)) ==> (
        folder_after_listing(before, images, star_files, dir) matches Some(f) && f.starred == Set::<Seq<char>>::empty()
            && f.names_in_file == Set::<Seq<char>>::empty() && f.locked is None && f.pending_writes == 0)
            && !is_read(before, images, star_files, dir),
        before[dir].pending_writes == 0 && 0 <= k < images.len() && path::parent_of(images[k]@) == Some(dir) && 0 <= j
            < star_files.len() && path::parent_of(star_files[j]@) == Some(dir) ==> folder_after_listing(
            before,
            images,
            star_files,
            dir,
        ) == Some(before[dir]) && is_read(before, images, star_files, dir),
        (forall|i: int| 0 <= i < images.len() ==> path::parent_of(#[trigger] images[i]@) != Some(dir))
            ==> folder_after_listing(before, images, star_files, dir) == Some(before[dir]) && !is_read(
            before,
            images,
            star_files,
            dir,
        ),
{
}

/// A folder that was known stays in the list unless it is taken out, also where
/// the list on disk is not used; one that is added joins it, and one that is
/// taken out leaves it.
pub proof fn law_the_list_of_folders(
    known: Set<Seq<char>>,
    read: ListRead,
    add: Seq<String>,
    remove: Seq<String>,
    dir: Seq<char>,
)
    ensures
        ({
            let after = list_after(known, read, add, remove);
            let added = exists|i: int| 0 <= i < add.len() && #[trigger] add[i]@ == dir;
            let taken = exists|i: int| 0 <= i < remove.len() && #[trigger] remove[i]@ == dir;
            &&& taken ==> !after.contains(dir)
            &&& added && !taken ==> after.contains(dir)
            &&& read !is Read && !added && !taken ==> (after.contains(dir) <==> known.contains(dir))
            &&& read matches ListRead::Read(on_disk) ==> (!added && !taken ==> (after.contains(dir) <==> exists|i: int|
                0 <= i < on_disk@.len() && #[trigger] on_disk@[i]@ == dir))
        }),
{
}

/// A save that ends leaves one less on its way, and none where there was none.
pub proof fn law_a_save_ends_once(f: FolderView)
    requires
        0 <= f.pending_writes,
    ensures
        f.pending_writes > 0 ==> one_less_pending(f).pending_writes + 1 == f.pending_writes,
        f.pending_writes == 0 ==> one_less_pending(f).pending_writes == 0,
        one_less_pending(f) == (FolderView { pending_writes: one_less_pending(f).pending_writes, ..f }),
{
}

} // verus!
