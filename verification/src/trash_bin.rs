//! Rules about moving files to the trash. Nothing is ever deleted.
use vstd::prelude::*;

use crate::path;

verus! {

/// Why the trash refused a file.
#[derive(Debug)]
pub enum TrashFailure {
    PermissionDenied,
    NotFound,
    /// The system's own words.
    Described(String),
    CouldNotAccess(String),
    TargetedRoot,
}

/// What the user is told about a refusal.
pub open spec fn reason_of(f: TrashFailure) -> Seq<char> {
    match f {
        TrashFailure::PermissionDenied => "permission denied"@,
        TrashFailure::NotFound => "file not found"@,
        TrashFailure::Described(s) => s@,
        TrashFailure::CouldNotAccess(target) => "could not access "@ + target@,
        TrashFailure::TargetedRoot => "cannot trash the root directory"@,
    }
}

/// What the user is told about a refusal.
pub fn describe(f: TrashFailure) -> (r: String)
    ensures
        r@ == reason_of(f),
{
    match f {
        TrashFailure::PermissionDenied => "permission denied".to_owned(),
        TrashFailure::NotFound => "file not found".to_owned(),
        TrashFailure::Described(s) => s,
        TrashFailure::CouldNotAccess(target) => {
            let mut out = "could not access ".to_owned();
            out.append(target.as_str());
            out
        },
        TrashFailure::TargetedRoot => "cannot trash the root directory".to_owned(),
    }
}

/// The folder that has to be writable for a file to leave it.
pub open spec fn folder_of(p: Seq<char>) -> Option<Seq<char>> {
    match path::parent_of(p) {
        Some(dir) => if dir.len() == 0 {
            Some(seq!['.'])
        } else {
            Some(dir)
        },
        None => None,
    }
}

/// The folder that has to be writable for a file to leave it, where the path
/// has one.
pub fn folder_to_check(p: &str) -> (r: Option<String>)
    ensures
        match r {
            Some(d) => folder_of(p@) == Some(d@),
            None => folder_of(p@) is None,
        },
{
    match path::parent(p) {
        None => None,
        Some(dir) => {
            let empty = crate::text::same_text(dir.as_str(), "");
            proof {
                reveal_strlit("");
                assert(dir@.len() == 0 ==> dir@ =~= ""@);
            }
            if empty {
                let mut dot = String::new();
                dot.push('.');
                assert(dot@ =~= seq!['.']);
                Some(dot)
            } else {
                Some(dir)
            }
        },
    }
}

/// Why a file is refused before the trash is asked: its folder cannot be
/// written, so the file could not leave it.
pub fn refusal(folder_is_writable: bool) -> (r: Option<String>)
    ensures
        match r {
            Some(m) => !folder_is_writable && m@ == "the folder is read-only"@,
            None => folder_is_writable,
        },
{
    if folder_is_writable {
        None
    } else {
        Some("the folder is read-only".to_owned())
    }
}

/// Where a file is, as far as the trash is concerned.
#[derive(Debug, Clone, Copy, PartialEq, Eq, Structural)]
pub enum Volume {
    /// A share that is named by its server.
    NetworkShare,
    /// A drive that stands for a share.
    RemoteDrive,
    RemovableDrive,
    /// Any other drive, and any system whose trash refuses instead of
    /// deleting.
    Other,
}

/// Whether the trash would delete a file for good.
pub open spec fn has_no_bin(v: Volume) -> bool {
    !(v is Other)
}

/// A share, by whatever name, and a removable drive have no trash, so that a
/// file there is never handed to it; every other drive has one.
pub proof fn law_shares_and_removable_drives_have_no_bin(v: Volume)
    ensures
        has_no_bin(v) <==> v is NetworkShare || v is RemoteDrive || v is RemovableDrive,
{
}

/// Whether the trash would delete a file for good: shares and removable drives
/// have none.
pub fn lacks_recycle_bin(v: Volume) -> (r: bool)
    ensures
        r == has_no_bin(v),
{
    match v {
        Volume::NetworkShare => true,
        Volume::RemoteDrive => true,
        Volume::RemovableDrive => true,
        Volume::Other => false,
    }
}

/// A file inside a folder asks for that folder to be writable.
pub proof fn law_the_folder_of_a_file(dir: Seq<char>, name: Seq<char>)
    requires
        path::is_name(name),
        forall|i: int| 0 <= i < name.len() ==> name[i] != '/',
        dir.len() > 0,
        path::trimmed(dir) == dir || dir == seq!['/'],
    ensures
        folder_of(path::joined(dir, name)) == Some(dir),
{
    path::law_a_joined_path_splits_again(dir, name);
}

} // verus!
