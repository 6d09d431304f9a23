//! Moving the star files to the trash.
use vstd::prelude::*;

use crate::path;
use crate::text;

verus! {

/// The file in each folder that has starred pictures.
pub open spec fn file_name_spec() -> Seq<char> {
    ".viewskater.yaml"@
}

/// The star file of a folder.
pub fn star_file(dir: &str) -> (r: String)
    ensures
        r@ == path::joined(dir@, file_name_spec()),
{
    path::join(dir, ".viewskater.yaml")
}

/// Where the star file of a folder is written before it takes its place.
pub fn temp_file(dir: &str) -> (r: String)
    ensures
        r@ == path::joined(dir@, ".viewskater.yaml.tmp"@),
{
    path::join(dir, ".viewskater.yaml.tmp")
}

/// What was found and done in a folder.
#[derive(Debug)]
pub enum MoveSeen {
    /// The folder has no star file any more.
    Gone,
    /// The trash would delete the file for good, so it stays.
    NoTrash,
    /// The file is in the trash.
    Moved,
    /// The trash refused the file, for this reason.
    Refused(String),
}

/// What moving every star file to the trash did.
#[derive(Debug)]
pub struct StarFileMoves {
    /// How many files are in the trash now.
    pub moved: usize,
    /// Files that stay, because the trash would delete them for good.
    pub left_in_place: Vec<String>,
    /// Files that the trash refused, with the reason.
    pub failed: Vec<(String, String)>,
    /// Folders that have no star file any more. They leave the list and show
    /// no stars.
    pub gone: Vec<String>,
}

/// The texts of a list of pairs.
pub open spec fn pair_texts(list: Seq<(String, String)>) -> Seq<(Seq<char>, Seq<char>)> {
    Seq::new(list.len(), |i: int| (list[i].0@, list[i].1@))
}

impl StarFileMoves {
    /// Nothing was done yet.
    pub fn new() -> (r: Self)
        ensures
            r.moved == 0,
            r.left_in_place@.len() == 0,
            r.failed@.len() == 0,
            r.gone@.len() == 0,
    {
        StarFileMoves {
            moved: 0,
            left_in_place: Vec::new(),
            failed: Vec::new(),
            gone: Vec::new(),
        }
    }

    /// Takes note of what was found and done in a folder. A folder whose file
    /// was moved or was not there is gone; one whose file stays is not.
    pub fn note(&mut self, dir: &str, seen: MoveSeen)
        requires
            old(self).moved < usize::MAX,
        ensures
            final(self).moved == old(self).moved + if seen is Moved {
                1int
            } else {
                0
            },
            text::texts_of(final(self).left_in_place@) == (if seen is NoTrash {
                text::texts_of(old(self).left_in_place@).push(path::joined(dir@, file_name_spec()))
            } else {
                text::texts_of(old(self).left_in_place@)
            }),
            pair_texts(final(self).failed@) == (match seen {
                MoveSeen::Refused(e) => pair_texts(old(self).failed@).push(
                    (path::joined(dir@, file_name_spec()), e@),
                ),
                _ => pair_texts(old(self).failed@),
            }),
            text::texts_of(final(self).gone@) == (if seen is Gone || seen is Moved {
                text::texts_of(old(self).gone@).push(dir@)
            } else {
                text::texts_of(old(self).gone@)
            }),
    {
        match seen {
            MoveSeen::Gone => {
                self.gone.push(dir.to_owned());
                assert(text::texts_of(self.gone@) =~= text::texts_of(old(self).gone@).push(dir@));
            },
            MoveSeen::NoTrash => {
                self.left_in_place.push(star_file(dir));
                assert(text::texts_of(self.left_in_place@) =~= text::texts_of(old(self).left_in_place@).push(
                    path::joined(dir@, file_name_spec()),
                ));
            },
            MoveSeen::Moved => {
                self.moved += 1;
                self.gone.push(dir.to_owned());
                assert(text::texts_of(self.gone@) =~= text::texts_of(old(self).gone@).push(dir@));
            },
            MoveSeen::Refused(e) => {
                let ghost reason = e@;
                self.failed.push((star_file(dir), e));
                assert(pair_texts(self.failed@) =~= pair_texts(old(self).failed@).push(
                    (path::joined(dir@, file_name_spec()), reason),
                ));
            },
        }
    }
}

} // verus!
