//! The file of a folder that lists its starred pictures.
use vstd::prelude::*;

use crate::stars::names;
use crate::stars::names::NameSet;
use crate::text;
use crate::text::same_text;

verus! {

/// The format that is read and written. A file with a higher version comes
/// from a newer program and is never written over.
pub const VERSION: u32 = 1;

/// Whether a file comes from a newer program.
pub fn is_newer(version: u32) -> (r: bool)
    ensures
        r == (version > VERSION),
{
    version > VERSION
}

/// What is kept about a starred picture.
#[derive(Debug)]
pub struct StarEntry {
    /// Always 1 for now.
    pub rating: u8,
    /// The size of the file in bytes when it was starred.
    pub size: u64,
    /// When the star was set.
    pub changed: String,
}

/// What an entry says.
pub struct EntryView {
    pub rating: u8,
    pub size: u64,
    pub changed: Seq<char>,
}

impl View for StarEntry {
    type V = EntryView;

    open spec fn view(&self) -> EntryView {
        EntryView { rating: self.rating, size: self.size, changed: self.changed@ }
    }
}

/// An entry under its name.
#[derive(Debug)]
pub struct StarItem {
    pub name: String,
    pub entry: StarEntry,
}

/// The contents of the file of a folder.
#[derive(Debug)]
pub struct StarFile {
    pub version: u32,
    pub stars: Vec<StarItem>,
}

/// The entry under a name.
pub open spec fn entry_for(items: Seq<StarItem>, name: Seq<char>) -> Option<EntryView>
    decreases items.len(),
{
    if items.len() == 0 {
        None
    } else if items[0].name@ == name {
        Some(items[0].entry@)
    } else {
        entry_for(items.drop_first(), name)
    }
}

/// The items without those of a name.
pub open spec fn without(items: Seq<StarItem>, name: Seq<char>) -> Seq<StarItem>
    decreases items.len(),
{
    if items.len() == 0 {
        Seq::empty()
    } else if items[0].name@ == name {
        without(items.drop_first(), name)
    } else {
        seq![items[0]] + without(items.drop_first(), name)
    }
}

proof fn lemma_without(items: Seq<StarItem>, name: Seq<char>, n: Seq<char>)
    ensures
        entry_for(without(items, name), n) == if n == name {
            None
        } else {
            entry_for(items, n)
        },
    decreases items.len(),
{
    if items.len() > 0 {
        let rest = items.drop_first();
        lemma_without(rest, name, n);
        if items[0].name@ != name {
            assert((seq![items[0]] + without(rest, name)).drop_first() =~= without(rest, name));
        }
    }
}

proof fn lemma_pushed(items: Seq<StarItem>, item: StarItem, n: Seq<char>)
    ensures
        entry_for(items.push(item), n) == match entry_for(items, n) {
            Some(e) => Some(e),
            None => if item.name@ == n {
                Some(item.entry@)
            } else {
                None
            },
        },
    decreases items.len(),
{
    if items.len() == 0 {
        assert(items.push(item).drop_first() =~= Seq::<StarItem>::empty());
        assert(entry_for(items.push(item).drop_first(), n) is None);
    } else {
        assert(items.push(item).drop_first() =~= items.drop_first().push(item));
        lemma_pushed(items.drop_first(), item, n);
    }
}

/// Takes every item of a name out of a list. Answers whether there was one.
fn take_out(items: &mut Vec<StarItem>, name: &str) -> (found: bool)
    ensures
        final(items)@ == without(old(items)@, name@),
        found == (entry_for(old(items)@, name@) is Some),
{
    let ghost all = items@;
    let mut found = false;
    let mut i: usize = 0;
    assert(all.skip(0) =~= all);
    assert(all.take(0) + without(all, name@) =~= without(all, name@));
    let ghost mut at: int = 0;
    while i < items.len()
        invariant
            i <= items@.len(),
            0 <= at <= all.len(),
            items@.skip(i as int) == all.skip(at),
            items@.take(i as int) + without(all.skip(at), name@) == without(all, name@),
            found || entry_for(all.skip(at), name@) == entry_for(all, name@),
            found ==> entry_for(all, name@) is Some,
        decreases items@.len() - i,
    {
        let ghost rest = all.skip(at);
        assert(rest[0] == items@[i as int]);
        assert(rest.drop_first() =~= all.skip(at + 1));
        let ghost kept = items@.take(i as int);
        let ghost before = items@;
        if same_text(items[i].name.as_str(), name) {
            found = true;
            let _ = items.remove(i);
            assert(items@.take(i as int) =~= kept);
            assert(items@.skip(i as int) =~= before.skip(i as int).drop_first());
        } else {
            assert(items@.take(i + 1) =~= kept.push(items@[i as int]));
            assert(items@.skip(i + 1) =~= before.skip(i as int).drop_first());
            assert(kept + (seq![rest[0]] + without(rest.drop_first(), name@)) =~= kept.push(rest[0])
                + without(rest.drop_first(), name@));
            i += 1;
        }
        proof {
            at = at + 1;
        }
    }
    proof {
        assert(items@.skip(i as int).len() == 0);
        assert(all.skip(at) =~= Seq::<StarItem>::empty());
        assert(without(all.skip(at), name@) =~= Seq::<StarItem>::empty());
        assert(items@.take(i as int) =~= items@);
        assert(items@ + Seq::<StarItem>::empty() =~= items@);
        if !found {
            assert(entry_for(all.skip(at), name@) is None);
        }
    }
    found
}

/// A change of one picture.
#[derive(Debug)]
pub enum Change {
    Star(StarEntry),
    Unstar,
}

/// What saving a change takes.
#[derive(Debug)]
pub enum SaveStep {
    /// The file has nothing to change.
    Nothing,
    /// The file as it has to be written.
    Write(StarFile),
}

/// The entries of a folder's file, none where it has no file.
pub open spec fn items_in(file: Option<StarFile>) -> Seq<StarItem> {
    match file {
        Some(f) => f.stars@,
        None => Seq::empty(),
    }
}

/// The entry under a name after a change.
pub open spec fn entry_after(
    items: Seq<StarItem>,
    name: Seq<char>,
    change: Change,
    n: Seq<char>,
) -> Option<EntryView> {
    if n != name {
        entry_for(items, n)
    } else {
        match change {
            Change::Star(entry) => Some(entry@),
            Change::Unstar => None,
        }
    }
}

/// Whether a change is saved as it should be: nothing is written when a name
/// that has no entry loses its star, and otherwise the file has the change.
pub open spec fn is_saved(
    step: SaveStep,
    file: Option<StarFile>,
    name: Seq<char>,
    change: Change,
) -> bool {
    if change is Unstar && entry_for(items_in(file), name) is None {
        step is Nothing
    } else {
        step matches SaveStep::Write(f) && f.version == VERSION && forall|n: Seq<char>|
            #[trigger]
            entry_for(f.stars@, n) == entry_after(items_in(file), name, change, n)
    }
}

/// Applies a change to a folder's file as it is on disk now. Another window
/// may have changed the file since it was loaded, so only the one entry
/// changes. A file whose last entry goes stays, empty.
pub fn save_change(file: Option<StarFile>, name: &str, change: Change) -> (r: SaveStep)
    ensures
        is_saved(r, file, name@, change),
{
    let ghost items = items_in(file);
    let mut stars: Vec<StarItem> = match file {
        Some(f) => f.stars,
        None => Vec::new(),
    };
    let found = take_out(&mut stars, name);
    proof {
        assert forall|n: Seq<char>| #[trigger]
            entry_for(stars@, n) == (if n == name@ {
                None
            } else {
                entry_for(items, n)
            }) by {
            lemma_without(items, name@, n);
        }
    }
    match change {
        Change::Star(entry) => {
            let ghost before = stars@;
            let item = StarItem { name: name.to_owned(), entry };
            stars.push(item);
            proof {
                assert forall|n: Seq<char>| #[trigger]
                    entry_for(stars@, n) == entry_after(items, name@, change, n) by {
                    lemma_pushed(before, item, n);
                    assert(entry_for(before, n) == (if n == name@ {
                        None
                    } else {
                        entry_for(items, n)
                    }));
                }
            }
        },
        Change::Unstar => {
            if !found {
                return SaveStep::Nothing;
            }
        },
    }
    SaveStep::Write(StarFile { version: VERSION, stars })
}

/// A save changes one entry and keeps all others.
pub proof fn law_a_save_changes_one_entry(
    step: SaveStep,
    file: Option<StarFile>,
    name: Seq<char>,
    change: Change,
    other: Seq<char>,
)
    requires
        is_saved(step, file, name, change),
        other != name,
    ensures
        step matches SaveStep::Write(f) ==> entry_for(f.stars@, other) == entry_for(
            items_in(file),
            other,
        ),
{
    if let SaveStep::Write(f) = step {
        assert(entry_for(f.stars@, other) == entry_after(items_in(file), name, change, other));
    }
}

/// What became of an attempt to read a folder's file.
#[derive(Debug)]
pub enum FileRead {
    /// The folder has none.
    Missing,
    /// It could not be read or parsed, for this reason.
    Failed(String),
    Parsed(StarFile),
}

/// Why a file cannot be read.
pub open spec fn unreadable(reason: Seq<char>) -> Seq<char> {
    ".viewskater.yaml could not be read ("@ + reason + ")"@
}

/// Whether a folder's file is taken as it should be.
pub open spec fn is_checked(read: FileRead, r: Result<Option<StarFile>, String>) -> bool {
    match read {
        FileRead::Missing => r == Ok::<Option<StarFile>, String>(None),
        FileRead::Failed(e) => r matches Err(m) && m@ == unreadable(e@),
        FileRead::Parsed(f) => if f.version > VERSION {
            r matches Err(m) && m@ == ".viewskater.yaml was saved by a newer version of ViewSkater"@
        } else {
            r == Ok::<Option<StarFile>, String>(Some(f))
        },
    }
}

/// A file is refused just where it could not be read or has a version above 1,
/// and so nothing is ever written over it; any other is taken as it is.
pub proof fn law_files_of_newer_programs_are_refused(read: FileRead, r: Result<Option<StarFile>, String>)
    requires
        is_checked(read, r),
    ensures
        r is Err <==> read is Failed || (read matches FileRead::Parsed(f) && f.version > 1),
        r matches Ok(file) ==> (file is None <==> read is Missing),
        r matches Ok(Some(f)) ==> read == FileRead::Parsed(f),
{
}

/// A folder's file, checked: nothing where the folder has none, and an error
/// where it could not be read or comes from a newer program.
pub fn checked_file(read: FileRead) -> (r: Result<Option<StarFile>, String>)
    ensures
        is_checked(read, r),
{
    match read {
        FileRead::Missing => Ok(None),
        FileRead::Failed(e) => {
            let mut m = ".viewskater.yaml could not be read (".to_owned();
            m.append(e.as_str());
            m.append(")");
            Err(m)
        },
        FileRead::Parsed(f) => {
            if f.version > VERSION {
                Err(".viewskater.yaml was saved by a newer version of ViewSkater".to_owned())
            } else {
                Ok(Some(f))
            }
        },
    }
}

/// Where the first part of a path ends.
pub open spec fn head_len(s: Seq<char>) -> int
    decreases s.len(),
{
    if s.len() == 0 || s[0] == '/' {
        0
    } else {
        1 + head_len(s.drop_first())
    }
}

/// Whether a name points at a file in the same folder: one part that is not a
/// dot or two, with nothing but empty parts and single dots behind it.
pub open spec fn is_plain(s: Seq<char>) -> bool {
    let head = head_len(s);
    &&& head > 0
    &&& s.take(head) != seq!['.']
    &&& s.take(head) != seq!['.', '.']
    &&& forall|i: int| head <= i < s.len() ==> #[trigger] is_padding(s, i)
}

/// Whether a character stands between the parts of a path, or for a part that
/// is a single dot.
pub open spec fn is_padding(s: Seq<char>, i: int) -> bool {
    s[i] == '/' || (s[i] == '.' && s[i - 1] == '/' && (i + 1 == s.len() || s[i + 1] == '/'))
}

/// Whether a name points at a file in the same folder, not at a path somewhere
/// else.
pub fn is_plain_name(name: &str) -> (r: bool)
    ensures
        r == is_plain(name@),
{
    let s = text::chars_of(name);
    let mut head: usize = 0;
    assert(s@.skip(0) =~= s@);
    while head < s.len() && s[head] != '/'
        invariant
            head <= s@.len(),
            head + head_len(s@.skip(head as int)) == head_len(s@),
        decreases s@.len() - head,
    {
        assert(s@.skip(head as int).drop_first() =~= s@.skip(head + 1));
        head += 1;
    }
    assert(head == head_len(s@));
    let ghost first = s@.take(head as int);
    if head == 0 {
        return false;
    }
    if head == 1 && s[0] == '.' {
        assert(first =~= seq!['.']);
        return false;
    }
    if head == 2 && s[0] == '.' && s[1] == '.' {
        assert(first =~= seq!['.', '.']);
        return false;
    }
    proof {
        if first == seq!['.'] {
            assert(first[0] == '.' && first.len() == 1);
        }
        if first == seq!['.', '.'] {
            assert(first[0] == '.' && first[1] == '.' && first.len() == 2);
        }
    }
    let mut i: usize = head;
    while i < s.len()
        invariant
            s@ == name@,
            head == head_len(s@),
            0 < head <= i <= s@.len(),
            forall|k: int| head <= k < i ==> #[trigger] is_padding(s@, k),
        decreases s@.len() - i,
    {
        let slash = s[i] == '/';
        let dot = s[i] == '.' && s[i - 1] == '/' && (i == s.len() - 1 || s[i + 1] == '/');
        if !slash && !dot {
            assert(!is_padding(s@, i as int));
            return false;
        }
        i += 1;
    }
    true
}

/// The stars of one folder as they are shown.
#[derive(Debug)]
pub struct FolderStars {
    /// Names whose entry is for the file on disk. These show a star.
    pub starred: NameSet,
    /// Every name in the folder's file, starred or not.
    pub names_in_file: NameSet,
    /// Why the folder's file must not be written.
    pub locked: Option<String>,
    /// Saves that have not finished.
    pub pending_writes: usize,
}

/// What is known about the stars of one folder.
#[verifier::ext_equal]
pub struct FolderView {
    pub starred: Set<Seq<char>>,
    pub names_in_file: Set<Seq<char>>,
    pub locked: Option<Seq<char>>,
    pub pending_writes: int,
}

impl View for FolderStars {
    type V = FolderView;

    open spec fn view(&self) -> FolderView {
        FolderView {
            starred: self.starred@,
            names_in_file: self.names_in_file@,
            locked: match self.locked {
                Some(s) => Some(s@),
                None => None,
            },
            pending_writes: self.pending_writes as int,
        }
    }
}

/// A folder without stars.
pub open spec fn no_stars() -> FolderView {
    FolderView {
        starred: Set::empty(),
        names_in_file: Set::empty(),
        locked: None,
        pending_writes: 0,
    }
}

/// The names of a file that are kept: those that point at a file of the
/// folder.
pub open spec fn listed(items: Seq<StarItem>) -> Set<Seq<char>> {
    Set::new(
        |n: Seq<char>|
            is_plain(n) && exists|i: int| 0 <= i < items.len() && #[trigger] items[i].name@ == n,
    )
}

/// The names of a file that show a star: those whose file has the size it had
/// when it was starred.
pub open spec fn matching(items: Seq<StarItem>, sizes: Seq<Option<u64>>) -> Set<Seq<char>> {
    Set::new(
        |n: Seq<char>|
            is_plain(n) && exists|i: int|
                0 <= i < items.len() && #[trigger] items[i].name@ == n && sizes[i] == Some(
                    items[i].entry.size,
                ),
    )
}

impl FolderStars {
    /// The two sets of names hold each name once.
    pub open spec fn wf(&self) -> bool {
        self.starred.wf() && self.names_in_file.wf()
    }

    /// A folder without stars.
    pub fn new() -> (r: Self)
        ensures
            r.wf(),
            r@ == no_stars(),
    {
        FolderStars {
            starred: NameSet::new(),
            names_in_file: NameSet::new(),
            locked: None,
            pending_writes: 0,
        }
    }

    /// The stars that a folder's file gives. `sizes` are the sizes of the
    /// files that its entries name, in the same order, where they exist. A
    /// file that could not be read shows no stars and is locked.
    pub fn from_file(read: Result<Option<StarFile>, String>, sizes: &Vec<Option<u64>>) -> (r: Self)
        requires
            read matches Ok(Some(f)) ==> sizes@.len() == f.stars@.len(),
        ensures
            r.wf(),
            r@ == match read {
                Ok(file) => FolderView {
                    starred: matching(items_in(file), sizes@),
                    names_in_file: listed(items_in(file)),
                    ..no_stars()
                },
                Err(reason) => FolderView { locked: Some(reason@), ..no_stars() },
            },
    {
        let mut folder = FolderStars::new();
        match read {
            Err(reason) => {
                folder.locked = Some(reason);
                folder
            },
            Ok(None) => {
                assert(folder.starred@ =~= matching(Seq::empty(), sizes@));
                assert(folder.names_in_file@ =~= listed(Seq::empty()));
                folder
            },
            Ok(Some(file)) => {
                let ghost items = file.stars@;
                let mut i: usize = 0;
                assert(folder.starred@ =~= matching(items.take(0), sizes@));
                assert(folder.names_in_file@ =~= listed(items.take(0)));
                while i < file.stars.len()
                    invariant
                        i <= items.len(),
                        items == file.stars@,
                        sizes@.len() == items.len(),
                        folder.wf(),
                        folder.locked is None,
                        folder.pending_writes == 0,
                        folder.starred@ == matching(items.take(i as int), sizes@),
                        folder.names_in_file@ == listed(items.take(i as int)),
                    decreases items.len() - i,
                {
                    let item = &file.stars[i];
                    let ghost before = items.take(i as int);
                    let ghost after = items.take(i + 1);
                    let plain = is_plain_name(item.name.as_str());
                    let same = match sizes[i] {
                        Some(size) => size == item.entry.size,
                        None => false,
                    };
                    if plain {
                        if same {
                            folder.starred.insert(item.name.as_str());
                        }
                        folder.names_in_file.insert(item.name.as_str());
                    }
                    proof {
                        lemma_one_more_item(items, sizes@, i as int);
                    }
                    i += 1;
                }
                assert(items.take(i as int) =~= items);
                folder
            },
        }
    }
}

/// What one more entry adds.
proof fn lemma_one_more_item(items: Seq<StarItem>, sizes: Seq<Option<u64>>, i: int)
    requires
        0 <= i < items.len() == sizes.len(),
    ensures
        matching(items.take(i + 1), sizes) == (if is_plain(items[i].name@) && sizes[i] == Some(
            items[i].entry.size,
        ) {
            matching(items.take(i), sizes).insert(items[i].name@)
        } else {
            matching(items.take(i), sizes)
        }),
        listed(items.take(i + 1)) == (if is_plain(items[i].name@) {
            listed(items.take(i)).insert(items[i].name@)
        } else {
            listed(items.take(i))
        }),
{
    let before = items.take(i);
    let after = items.take(i + 1);
    assert(after[i] == items[i]);
    let a = matching(after, sizes);
    let b = matching(before, sizes);
    let hit = is_plain(items[i].name@) && sizes[i] == Some(items[i].entry.size);
    assert forall|n: Seq<char>| #[trigger]
        a.contains(n) == (b.contains(n) || (hit && n == items[i].name@)) by {
        if a.contains(n) {
            let k = choose|k: int|
                0 <= k < after.len() && #[trigger] after[k].name@ == n && sizes[k] == Some(
                    after[k].entry.size,
                );
            if k < i {
                assert(before[k].name@ == n);
            }
        }
        if b.contains(n) {
            let k = choose|k: int|
                0 <= k < before.len() && #[trigger] before[k].name@ == n && sizes[k] == Some(
                    before[k].entry.size,
                );
            assert(after[k].name@ == n);
        }
    }
    assert(a =~= if hit {
        b.insert(items[i].name@)
    } else {
        b
    });
    let c = listed(after);
    let d = listed(before);
    assert forall|n: Seq<char>| #[trigger]
        c.contains(n) == (d.contains(n) || (is_plain(items[i].name@) && n == items[i].name@)) by {
        if c.contains(n) {
            let k = choose|k: int| 0 <= k < after.len() && #[trigger] after[k].name@ == n;
            if k < i {
                assert(before[k].name@ == n);
            }
        }
        if d.contains(n) {
            let k = choose|k: int| 0 <= k < before.len() && #[trigger] before[k].name@ == n;
            assert(after[k].name@ == n);
        }
    }
    assert(c =~= if is_plain(items[i].name@) {
        d.insert(items[i].name@)
    } else {
        d
    });
}

proof fn lemma_entry_has_a_place(items: Seq<StarItem>, name: Seq<char>)
    requires
        entry_for(items, name) is Some,
    ensures
        exists|i: int|
            0 <= i < items.len() && #[trigger] items[i].name@ == name && Some(items[i].entry@)
                == entry_for(items, name),
    decreases items.len(),
{
    if items[0].name@ != name {
        let rest = items.drop_first();
        lemma_entry_has_a_place(rest, name);
        let i = choose|i: int|
            0 <= i < rest.len() && #[trigger] rest[i].name@ == name && Some(rest[i].entry@)
                == entry_for(rest, name);
        assert(items[i + 1].name@ == name);
    } else {
        assert(items[0].name@ == name);
    }
}

/// A star that was saved shows again after a reload, as long as the file has
/// the size it had.
pub proof fn law_a_saved_star_shows_after_a_reload(
    step: SaveStep,
    file: Option<StarFile>,
    name: Seq<char>,
    entry: StarEntry,
    sizes: Seq<Option<u64>>,
)
    requires
        is_saved(step, file, name, Change::Star(entry)),
        is_plain(name),
        forall|i: int|
            0 <= i < step->Write_0.stars@.len() && #[trigger] step->Write_0.stars@[i].name@ == name
                ==> sizes[i] == Some(entry.size),
    ensures
        matching(step->Write_0.stars@, sizes).contains(name),
        listed(step->Write_0.stars@).contains(name),
{
    let items = step->Write_0.stars@;
    assert(entry_for(items, name) == Some(entry@));
    lemma_entry_has_a_place(items, name);
    let i = choose|i: int|
        0 <= i < items.len() && #[trigger] items[i].name@ == name && Some(items[i].entry@)
            == entry_for(items, name);
    assert(items[i].entry@.size == entry.size);
}

/// An entry whose file is gone or has another size shows no star and stays
/// in the list.
pub proof fn law_an_entry_for_another_file_stays(
    items: Seq<StarItem>,
    sizes: Seq<Option<u64>>,
    name: Seq<char>,
)
    requires
        is_plain(name),
        exists|i: int| 0 <= i < items.len() && #[trigger] items[i].name@ == name,
        forall|i: int|
            0 <= i < items.len() && #[trigger] items[i].name@ == name ==> sizes[i] != Some(
                items[i].entry.size,
            ),
    ensures
        !matching(items, sizes).contains(name),
        listed(items).contains(name),
{
}

/// A file that is written has the change: the entry of a starred picture is the
/// new one, that of an unstarred one is gone. Where there was none nothing is
/// written.
pub proof fn law_a_save_has_the_change(step: SaveStep, file: Option<StarFile>, name: Seq<char>, change: Change)
    requires
        is_saved(step, file, name, change),
    ensures
        change matches Change::Star(entry) ==> (step matches SaveStep::Write(f) && f.version == 1 && entry_for(
            f.stars@,
            name,
        ) == Some(entry@)),
        change is Unstar && entry_for(items_in(file), name) is Some ==> (step matches SaveStep::Write(f) && f.version
            == 1 && entry_for(f.stars@, name) is None),
        change is Unstar && entry_for(items_in(file), name) is None ==> step is Nothing,
{
}

/// The entry under a name is that of the first item with the name.
pub proof fn law_the_entry_of_a_name(items: Seq<StarItem>, name: Seq<char>, k: int)
    requires
        0 <= k < items.len(),
        forall|i: int| 0 <= i < k ==> #[trigger] items[i].name@ != name,
    ensures
        items[k].name@ == name ==> entry_for(items, name) == Some(items[k].entry@),
        (forall|i: int| 0 <= i < items.len() ==> #[trigger] items[i].name@ != name) ==> entry_for(items, name) is None,
    decreases items.len(),
{
    if items[0].name@ != name {
        let rest = items.drop_first();
        if k > 0 {
            assert forall|i: int| 0 <= i < k - 1 implies #[trigger] rest[i].name@ != name by {
                assert(rest[i] == items[i + 1]);
            }
            assert(rest[k - 1] == items[k]);
            assert((forall|i: int| 0 <= i < items.len() ==> #[trigger] items[i].name@ != name) ==> (forall|i: int|
                0 <= i < rest.len() ==> #[trigger] rest[i].name@ != name)) by {
                if forall|i: int| 0 <= i < items.len() ==> #[trigger] items[i].name@ != name {
                    assert forall|i: int| 0 <= i < rest.len() implies #[trigger] rest[i].name@ != name by {
                        assert(rest[i] == items[i + 1]);
                    }
                }
            }
            law_the_entry_of_a_name(rest, name, k - 1);
        } else if rest.len() > 0 {
            assert((forall|i: int| 0 <= i < items.len() ==> #[trigger] items[i].name@ != name) ==> (forall|i: int|
                0 <= i < rest.len() ==> #[trigger] rest[i].name@ != name)) by {
                if forall|i: int| 0 <= i < items.len() ==> #[trigger] items[i].name@ != name {
                    assert forall|i: int| 0 <= i < rest.len() implies #[trigger] rest[i].name@ != name by {
                        assert(rest[i] == items[i + 1]);
                    }
                }
            }
            law_the_entry_of_a_name(rest, name, 0);
        }
    }
}

proof fn lemma_head_len(s: Seq<char>)
    ensures
        0 <= head_len(s) <= s.len(),
        forall|i: int| 0 <= i < head_len(s) ==> #[trigger] s[i] != '/',
        head_len(s) < s.len() ==> s[head_len(s)] == '/',
    decreases s.len(),
{
    if s.len() > 0 && s[0] != '/' {
        let rest = s.drop_first();
        lemma_head_len(rest);
        assert forall|i: int| 0 <= i < head_len(s) implies #[trigger] s[i] != '/' by {
            if i > 0 {
                assert(rest[i - 1] == s[i]);
            }
        }
        assert(head_len(s) < s.len() ==> rest[head_len(rest)] == s[head_len(s)]);
    }
}

/// A name without a slash points at a file of the folder unless it is empty, a
/// dot or two dots. One that starts with a slash does not, and neither does one
/// in which a letter follows a slash.
pub proof fn law_names_stay_in_their_folder(s: Seq<char>, k: int)
    ensures
        (forall|i: int| 0 <= i < s.len() ==> #[trigger] s[i] != '/') ==> (is_plain(s) <==> s.len() > 0 && s != seq!['.']
            && s != seq!['.', '.']),
        s.len() > 0 && s[0] == '/' ==> !is_plain(s),
        0 < k < s.len() && s[k - 1] == '/' && s[k] != '/' && s[k] != '.' ==> !is_plain(s),
        0 < k < s.len() - 1 && s[k - 1] == '/' && s[k] == '.' && s[k + 1] == '.' ==> !is_plain(s),
        s.len() >= 3 && s[0] == '.' && s[1] == '.' && s[2] == '/' ==> !is_plain(s),
{
    lemma_head_len(s);
    let head = head_len(s);
    if forall|i: int| 0 <= i < s.len() ==> #[trigger] s[i] != '/' {
        assert(head == s.len());
        assert(s.take(head) =~= s);
    }
    if 0 < k < s.len() && s[k - 1] == '/' && is_plain(s) {
        assert(k > head);
        assert(is_padding(s, k));
    }
    if s.len() >= 3 && s[0] == '.' && s[1] == '.' && s[2] == '/' && is_plain(s) {
        assert(head == 2);
        assert(s.take(2) =~= seq!['.', '.']);
    }
}

} // verus!
