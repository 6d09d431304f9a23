//! The pictures of a folder, in the order in which they are shown.
use vstd::multiset::Multiset;
use vstd::prelude::*;
use vstd::slice::slice_subrange;

use crate::path;
use crate::path::{extension, file_name, has_extension};
use crate::settings::{ImageDiscoveryOptions, ImageSortKey, ImageSortOrder, SortDirection};
use crate::text::same_text;

verus! {

/// The extensions of the pictures that are shown.
pub open spec fn supported_extensions() -> Seq<&'static str> {
    seq!["jpg", "jpeg", "jxl", "png", "apng", "bmp", "webp", "gif", "tiff", "tif", "qoi", "tga"]
}

/// The extensions of the pictures that may move.
pub open spec fn animation_extensions() -> Seq<&'static str> {
    seq!["gif", "png", "apng", "webp"]
}

/// Whether a path has the extension of a picture that is shown.
pub fn is_supported_image(path: &str) -> (r: bool)
    ensures
        r == path::has_extension_in(path@, supported_extensions()),
{
    let extensions: [&'static str; 12] = [
        "jpg",
        "jpeg",
        "jxl",
        "png",
        "apng",
        "bmp",
        "webp",
        "gif",
        "tiff",
        "tif",
        "qoi",
        "tga",
    ];
    assert(extensions@ =~= supported_extensions());
    has_extension(path, &extensions)
}

/// Whether a path has the extension of a picture that may move.
pub fn may_have_animation(path: &str) -> (r: bool)
    ensures
        r == path::has_extension_in(path@, animation_extensions()),
{
    let extensions: [&'static str; 4] = ["gif", "png", "apng", "webp"];
    assert(extensions@ =~= animation_extensions());
    has_extension(path, &extensions)
}

/// A picture that may move is one that is shown.
pub proof fn law_animations_are_supported(p: Seq<char>)
    ensures
        path::has_extension_in(p, animation_extensions()) ==> path::has_extension_in(p, supported_extensions()),
{
    if path::has_extension_in(p, animation_extensions()) {
        let e = path::extension_of(p).unwrap();
        let few = animation_extensions();
        let all = supported_extensions();
        let i = choose|i: int| 0 <= i < few.len() && crate::text::same_letters(e, (#[trigger] few[i])@);
        let j = if i == 0 {
            7int
        } else if i == 1 {
            3
        } else if i == 2 {
            4
        } else {
            6
        };
        assert(all[j] == few[i]);
    }
}

/// What an entry of a folder is.
#[derive(Debug, Clone, Copy, PartialEq, Eq, Structural)]
pub enum EntryKind {
    File,
    Folder,
    /// Neither, or its kind could not be told.
    Other,
}

/// An entry of a folder, with what is known about the file.
pub struct FolderEntry {
    pub path: String,
    pub kind: EntryKind,
    /// When the file was changed, in nanoseconds.
    pub modified: Option<i128>,
    /// When the file was made, in nanoseconds.
    pub created: Option<i128>,
    pub size: Option<u64>,
}

/// The pictures of a folder in order, and the star files that were passed.
pub struct FolderListing {
    pub images: Vec<String>,
    pub star_files: Vec<String>,
}

/// The name of the file that keeps a folder's stars.
pub open spec fn star_file_name() -> Seq<char> {
    ".viewskater.yaml"@
}

/// Whether the name of a path starts with a dot.
pub open spec fn is_hidden(p: Seq<char>) -> bool {
    match path::file_name_of(p) {
        Some(n) => n[0] == '.',
        None => false,
    }
}

/// Whether an entry is left out for being hidden.
pub open spec fn passed_over(e: FolderEntry, opts: ImageDiscoveryOptions) -> bool {
    !opts.include_hidden && is_hidden(e.path@)
}

/// Whether an entry is a picture to list.
pub open spec fn is_listed(e: FolderEntry, opts: ImageDiscoveryOptions) -> bool {
    &&& e.kind == EntryKind::File
    &&& !passed_over(e, opts)
    &&& path::has_extension_in(e.path@, supported_extensions())
}

/// Whether an entry is the file that keeps its folder's stars. It is noted
/// whether hidden files are listed or not.
pub open spec fn is_star_file(e: FolderEntry) -> bool {
    e.kind == EntryKind::File && path::file_name_of(e.path@) == Some(star_file_name())
}

/// Whether the name of a path starts with a dot.
fn has_hidden_name(path: &str) -> (r: bool)
    ensures
        r == is_hidden(path@),
{
    match file_name(path) {
        Some(n) => {
            assert(path::is_name(n@));
            n.as_str().get_char(0) == '.'
        },
        None => false,
    }
}

/// Whether a folder inside a listed folder is listed too.
pub fn descends_into(entry: &FolderEntry, opts: ImageDiscoveryOptions) -> (r: bool)
    ensures
        r == (entry.kind == EntryKind::Folder && opts.recursive && !passed_over(*entry, opts)),
{
    entry.kind == EntryKind::Folder && opts.recursive && (opts.include_hidden || !has_hidden_name(
        entry.path.as_str(),
    ))
}

/// Whether an entry is a picture to list.
pub fn lists(entry: &FolderEntry, opts: ImageDiscoveryOptions) -> (r: bool)
    ensures
        r == is_listed(*entry, opts),
{
    entry.kind == EntryKind::File && (opts.include_hidden || !has_hidden_name(entry.path.as_str()))
        && is_supported_image(entry.path.as_str())
}

/// Whether an entry is the file that keeps its folder's stars.
pub fn notes_star_file(entry: &FolderEntry) -> (r: bool)
    ensures
        r == is_star_file(*entry),
{
    match entry.kind {
        EntryKind::File => match file_name(entry.path.as_str()) {
            Some(n) => same_text(n.as_str(), ".viewskater.yaml"),
            None => false,
        },
        _ => false,
    }
}

/// How two things stand in an order.
#[derive(Debug, Clone, Copy, PartialEq, Eq, Structural)]
pub enum Rank {
    Before,
    Same,
    After,
}

/// The rank seen from the other side.
pub open spec fn turned(r: Rank) -> Rank {
    match r {
        Rank::Before => Rank::After,
        Rank::Same => Rank::Same,
        Rank::After => Rank::Before,
    }
}

/// The natural order of two texts, in which numbers inside a text count as
/// numbers.
pub uninterp spec fn natural_rank(a: Seq<char>, b: Seq<char>) -> Rank;

/// `natord::compare`: the natural order of two texts. The two texts alone
/// decide it, and it is turned round when they are swapped.
#[verifier::external_body]
fn natural_rank_of(a: &str, b: &str) -> (r: Rank)
    ensures
        r == natural_rank(a@, b@),
        natural_rank(b@, a@) == turned(r),
{
    match natord::compare(a, b) {
        std::cmp::Ordering::Less => Rank::Before,
        std::cmp::Ordering::Equal => Rank::Same,
        std::cmp::Ordering::Greater => Rank::After,
    }
}

/// The order of two numbers.
pub open spec fn number_rank(a: int, b: int) -> Rank {
    if a < b {
        Rank::Before
    } else if a == b {
        Rank::Same
    } else {
        Rank::After
    }
}

/// The order of two numbers that may not be known. An unknown one comes
/// first.
pub open spec fn known_rank(a: Option<int>, b: Option<int>) -> Rank {
    match (a, b) {
        (Some(a), Some(b)) => number_rank(a, b),
        (None, Some(_)) => Rank::Before,
        (Some(_), None) => Rank::After,
        (None, None) => Rank::Same,
    }
}

/// A number that may not be known.
pub open spec fn known_time(v: Option<i128>) -> Option<int> {
    match v {
        Some(v) => Some(v as int),
        None => None,
    }
}

/// A number that may not be known.
pub open spec fn known_size(v: Option<u64>) -> Option<int> {
    match v {
        Some(v) => Some(v as int),
        None => None,
    }
}

/// The extension of a path, or nothing.
pub open spec fn extension_or_nothing(p: Seq<char>) -> Seq<char> {
    match path::extension_of(p) {
        Some(e) => e,
        None => Seq::empty(),
    }
}

/// The order of two files by a key.
pub open spec fn key_rank(a: FolderEntry, b: FolderEntry, key: ImageSortKey) -> Rank {
    match key {
        ImageSortKey::Name => natural_rank(a.path@, b.path@),
        ImageSortKey::Extension => natural_rank(extension_or_nothing(a.path@), extension_or_nothing(b.path@)),
        ImageSortKey::Modified => known_rank(known_time(a.modified), known_time(b.modified)),
        ImageSortKey::Created => known_rank(known_time(a.created), known_time(b.created)),
        ImageSortKey::Size => known_rank(known_size(a.size), known_size(b.size)),
    }
}

/// The rank in a direction.
pub open spec fn directed(r: Rank, direction: SortDirection) -> Rank {
    match direction {
        SortDirection::Ascending => r,
        SortDirection::Descending => turned(r),
    }
}

/// The order of two files: by the key, and by their names where the key does
/// not tell them apart, both in the same direction.
pub open spec fn file_rank(a: FolderEntry, b: FolderEntry, order: ImageSortOrder) -> Rank {
    joint_rank(key_rank(a, b, order.key), natural_rank(a.path@, b.path@), order.direction)
}

/// The rank by a key, or the rank by name where the key does not tell the two
/// files apart, in a direction.
pub open spec fn joint_rank(by_key: Rank, by_name: Rank, direction: SortDirection) -> Rank {
    if by_key == Rank::Same {
        directed(by_name, direction)
    } else {
        directed(by_key, direction)
    }
}

/// The rank in a direction.
pub fn apply_sort_direction(rank: Rank, direction: SortDirection) -> (r: Rank)
    ensures
        r == directed(rank, direction),
{
    match (direction, rank) {
        (SortDirection::Ascending, rank) => rank,
        (SortDirection::Descending, Rank::Before) => Rank::After,
        (SortDirection::Descending, Rank::Same) => Rank::Same,
        (SortDirection::Descending, Rank::After) => Rank::Before,
    }
}

/// The order of two times that may not be known.
fn rank_times(a: Option<i128>, b: Option<i128>) -> (r: Rank)
    ensures
        r == known_rank(known_time(a), known_time(b)),
        known_rank(known_time(b), known_time(a)) == turned(r),
{
    match (a, b) {
        (Some(a), Some(b)) => if a < b {
            Rank::Before
        } else if a == b {
            Rank::Same
        } else {
            Rank::After
        },
        (None, Some(_)) => Rank::Before,
        (Some(_), None) => Rank::After,
        (None, None) => Rank::Same,
    }
}

/// The order of two sizes that may not be known.
fn rank_sizes(a: Option<u64>, b: Option<u64>) -> (r: Rank)
    ensures
        r == known_rank(known_size(a), known_size(b)),
        known_rank(known_size(b), known_size(a)) == turned(r),
{
    match (a, b) {
        (Some(a), Some(b)) => if a < b {
            Rank::Before
        } else if a == b {
            Rank::Same
        } else {
            Rank::After
        },
        (None, Some(_)) => Rank::Before,
        (Some(_), None) => Rank::After,
        (None, None) => Rank::Same,
    }
}

/// The order of two files by their extensions.
fn rank_extensions(a: &str, b: &str) -> (r: Rank)
    ensures
        r == natural_rank(extension_or_nothing(a@), extension_or_nothing(b@)),
        natural_rank(extension_or_nothing(b@), extension_or_nothing(a@)) == turned(r),
{
    let first: String = match extension(a) {
        Some(e) => e,
        None => String::new(),
    };
    let second: String = match extension(b) {
        Some(e) => e,
        None => String::new(),
    };
    natural_rank_of(first.as_str(), second.as_str())
}

/// The rank of two files from their rank by a key and their rank by name.
pub fn join_ranks(by_key: Rank, by_name: Rank, direction: SortDirection) -> (r: Rank)
    ensures
        r == joint_rank(by_key, by_name, direction),
{
    match by_key {
        Rank::Same => apply_sort_direction(by_name, direction),
        by_key => apply_sort_direction(by_key, direction),
    }
}

/// The order of two files.
pub fn rank_files(a: &FolderEntry, b: &FolderEntry, order: ImageSortOrder) -> (r: Rank)
    ensures
        r == file_rank(*a, *b, order),
        file_rank(*b, *a, order) == turned(r),
{
    let by_key: Rank = match order.key {
        ImageSortKey::Name => natural_rank_of(a.path.as_str(), b.path.as_str()),
        ImageSortKey::Extension => rank_extensions(a.path.as_str(), b.path.as_str()),
        ImageSortKey::Modified => rank_times(a.modified, b.modified),
        ImageSortKey::Created => rank_times(a.created, b.created),
        ImageSortKey::Size => rank_sizes(a.size, b.size),
    };
    let by_name: Rank = natural_rank_of(a.path.as_str(), b.path.as_str());
    join_ranks(by_key, by_name, order.direction)
}

/// Whether the `i`-th file comes before the `j`-th. Files that the order does
/// not tell apart stay as they were.
pub open spec fn goes_before(files: Seq<FolderEntry>, order: ImageSortOrder, i: usize, j: usize) -> bool {
    match file_rank(files[i as int], files[j as int], order) {
        Rank::Before => true,
        Rank::Same => i < j,
        Rank::After => false,
    }
}

/// Whether each file of a list comes before the next one.
pub open spec fn in_order(files: Seq<FolderEntry>, order: ImageSortOrder, list: Seq<usize>) -> bool {
    forall|k: int|
        #![trigger list[k]]
        0 <= k && k + 1 < list.len() ==> goes_before(files, order, list[k], list[k + 1])
}

/// Whether the indices are those of files.
pub open spec fn are_files(files: Seq<FolderEntry>, list: Seq<usize>) -> bool {
    forall|k: int| 0 <= k < list.len() ==> (#[trigger] list[k]) < files.len()
}

fn comes_first(files: &Vec<FolderEntry>, order: ImageSortOrder, i: usize, j: usize) -> (r: bool)
    requires
        i < files@.len(),
        j < files@.len(),
        i != j,
    ensures
        r == goes_before(files@, order, i, j),
        r == !goes_before(files@, order, j, i),
{
    match rank_files(&files[i], &files[j], order) {
        Rank::Before => true,
        Rank::Same => i < j,
        Rank::After => false,
    }
}

/// One ordered list out of two.
fn merge(files: &Vec<FolderEntry>, order: ImageSortOrder, a: &Vec<usize>, b: &Vec<usize>) -> (r: Vec<usize>)
    requires
        are_files(files@, a@),
        are_files(files@, b@),
        in_order(files@, order, a@),
        in_order(files@, order, b@),
        forall|i: int, j: int| 0 <= i < a@.len() && 0 <= j < b@.len() ==> a@[i] != b@[j],
    ensures
        are_files(files@, r@),
        in_order(files@, order, r@),
        r@.to_multiset() == a@.to_multiset().add(b@.to_multiset()),
{
    let mut r: Vec<usize> = Vec::new();
    let mut i: usize = 0;
    let mut j: usize = 0;
    proof {
        assert(a@.take(0) =~= Seq::empty());
        assert(b@.take(0) =~= Seq::empty());
        assert(r@.to_multiset() =~= a@.take(0).to_multiset().add(b@.take(0).to_multiset())) by {
            broadcast use vstd::seq_lib::group_to_multiset_ensures;
        }
    }
    while i < a.len() || j < b.len()
        invariant
            i <= a@.len(),
            j <= b@.len(),
            are_files(files@, a@),
            are_files(files@, b@),
            are_files(files@, r@),
            in_order(files@, order, a@),
            in_order(files@, order, b@),
            in_order(files@, order, r@),
            forall|x: int, y: int| 0 <= x < a@.len() && 0 <= y < b@.len() ==> a@[x] != b@[y],
            r@.len() > 0 && i < a@.len() ==> goes_before(files@, order, r@.last(), a@[i as int]),
            r@.len() > 0 && j < b@.len() ==> goes_before(files@, order, r@.last(), b@[j as int]),
            r@.to_multiset() == a@.take(i as int).to_multiset().add(b@.take(j as int).to_multiset()),
        decreases a@.len() - i + b@.len() - j,
    {
        let from_a: bool = if i >= a.len() {
            false
        } else if j >= b.len() {
            true
        } else {
            comes_first(files, order, a[i], b[j])
        };
        let ghost before = r@;
        if from_a {
            r.push(a[i]);
            proof {
                assert(a@.take(i + 1) =~= a@.take(i as int).push(a@[i as int]));
                lemma_push_multiset(before, a@[i as int]);
                lemma_push_multiset(a@.take(i as int), a@[i as int]);
                assert(r@.to_multiset() =~= a@.take(i + 1).to_multiset().add(b@.take(j as int).to_multiset()));
                if i + 1 < a@.len() {
                    assert(goes_before(files@, order, a@[i as int], a@[i + 1]));
                }
            }
            i += 1;
        } else {
            r.push(b[j]);
            proof {
                assert(b@.take(j + 1) =~= b@.take(j as int).push(b@[j as int]));
                lemma_push_multiset(before, b@[j as int]);
                lemma_push_multiset(b@.take(j as int), b@[j as int]);
                assert(r@.to_multiset() =~= a@.take(i as int).to_multiset().add(b@.take(j + 1).to_multiset()));
                if j + 1 < b@.len() {
                    assert(goes_before(files@, order, b@[j as int], b@[j + 1]));
                }
            }
            j += 1;
        }
        assert(in_order(files@, order, r@)) by {
            assert forall|k: int|
                #![trigger r@[k]]
                0 <= k && k + 1 < r@.len() implies goes_before(files@, order, r@[k], r@[k + 1]) by {
                assert(r@[k] == before[k]);
                if k + 1 < before.len() {
                    assert(r@[k + 1] == before[k + 1]);
                }
            }
        }
    }
    assert(a@.take(i as int) =~= a@);
    assert(b@.take(j as int) =~= b@);
    r
}

proof fn lemma_push_multiset(s: Seq<usize>, v: usize)
    ensures
        s.push(v).to_multiset() == s.to_multiset().insert(v),
{
    broadcast use vstd::seq_lib::group_to_multiset_ensures;

    assert(s.push(v).to_multiset() =~= s.to_multiset().insert(v));
}

/// The indices in order.
fn sort_indices(files: &Vec<FolderEntry>, order: ImageSortOrder, list: &[usize]) -> (r: Vec<usize>)
    requires
        are_files(files@, list@),
        list@.no_duplicates(),
    ensures
        are_files(files@, r@),
        in_order(files@, order, r@),
        r@.to_multiset() == list@.to_multiset(),
    decreases list@.len(),
{
    if list.len() <= 1 {
        let r = vstd::slice::slice_to_vec(list);
        assert(r@ =~= list@);
        return r;
    }
    let half: usize = list.len() / 2;
    let left = slice_subrange(list, 0, half);
    let right = slice_subrange(list, half, list.len());
    assert(left@.no_duplicates());
    assert(right@.no_duplicates());
    let a = sort_indices(files, order, left);
    let b = sort_indices(files, order, right);
    proof {
        lemma_same_items(a@, left@);
        lemma_same_items(b@, right@);
        assert forall|i: int, j: int| 0 <= i < a@.len() && 0 <= j < b@.len() implies a@[i] != b@[j] by {
            assert(a@.contains(a@[i]));
            assert(b@.contains(b@[j]));
            let x = choose|x: int| 0 <= x < left@.len() && left@[x] == a@[i];
            let y = choose|y: int| 0 <= y < right@.len() && right@[y] == b@[j];
            assert(list@[x] == left@[x]);
            assert(list@[half + y] == right@[y]);
        }
        assert(list@ =~= left@ + right@);
        vstd::seq_lib::lemma_multiset_commutative(left@, right@);
    }
    merge(files, order, &a, &b)
}

/// Two lists with the same items have the same items.
proof fn lemma_same_items(a: Seq<usize>, b: Seq<usize>)
    requires
        a.to_multiset() == b.to_multiset(),
    ensures
        forall|v: usize| #[trigger] a.contains(v) <==> b.contains(v),
{
    broadcast use vstd::seq_lib::group_to_multiset_ensures;

    assert forall|v: usize| #[trigger] a.contains(v) <==> b.contains(v) by {
        assert(a.contains(v) <==> a.to_multiset().count(v) > 0);
        assert(b.contains(v) <==> b.to_multiset().count(v) > 0);
    }
}

/// The indices of the first `n` entries that are pictures to list.
pub open spec fn listed_indices(entries: Seq<FolderEntry>, opts: ImageDiscoveryOptions, n: nat) -> Seq<usize>
    decreases n,
{
    if n == 0 {
        Seq::empty()
    } else if is_listed(entries[n - 1], opts) {
        listed_indices(entries, opts, (n - 1) as nat).push((n - 1) as usize)
    } else {
        listed_indices(entries, opts, (n - 1) as nat)
    }
}

/// The paths of the star files among the first `n` entries.
pub open spec fn star_paths(entries: Seq<FolderEntry>, n: nat) -> Seq<String>
    decreases n,
{
    if n == 0 {
        Seq::empty()
    } else if is_star_file(entries[n - 1]) {
        star_paths(entries, (n - 1) as nat).push(entries[n - 1].path)
    } else {
        star_paths(entries, (n - 1) as nat)
    }
}

/// The paths of some entries.
pub open spec fn paths_of(entries: Seq<FolderEntry>, list: Seq<usize>) -> Seq<String> {
    Seq::new(list.len(), |k: int| entries[list[k] as int].path)
}

/// Whether a list names the pictures among the entries, each once, and each
/// before the next one.
pub open spec fn is_order(entries: Seq<FolderEntry>, opts: ImageDiscoveryOptions, list: Seq<usize>) -> bool {
    &&& list.to_multiset() == listed_indices(entries, opts, entries.len()).to_multiset()
    &&& in_order(entries, opts.sort_order, list)
}

proof fn lemma_listed_indices(entries: Seq<FolderEntry>, opts: ImageDiscoveryOptions, n: nat)
    requires
        n <= entries.len(),
        n <= usize::MAX,
    ensures
        ({
            let list = listed_indices(entries, opts, n);
            &&& list.no_duplicates()
            &&& forall|k: int| 0 <= k < list.len() ==> (#[trigger] list[k]) < n
        }),
    decreases n,
{
    if n > 0 {
        lemma_listed_indices(entries, opts, (n - 1) as nat);
    }
}

/// The pictures of a folder in order, given the entries of every folder that
/// was read, in the order in which they were read.
pub fn enumerate_images(entries: &Vec<FolderEntry>, opts: ImageDiscoveryOptions) -> (r: FolderListing)
    ensures
        exists|list: Seq<usize>| #[trigger]
            is_order(entries@, opts, list) && r.images@ == paths_of(entries@, list),
        r.star_files@ == star_paths(entries@, entries@.len()),
{
    let mut found: Vec<usize> = Vec::new();
    let mut star_files: Vec<String> = Vec::new();
    let mut i: usize = 0;
    while i < entries.len()
        invariant
            i <= entries@.len(),
            found@ == listed_indices(entries@, opts, i as nat),
            star_files@ == star_paths(entries@, i as nat),
        decreases entries@.len() - i,
    {
        let entry = &entries[i];
        if notes_star_file(entry) {
            star_files.push(entry.path.clone());
        }
        if lists(entry, opts) {
            found.push(i);
        }
        i += 1;
    }
    proof {
        lemma_listed_indices(entries@, opts, entries@.len());
    }
    let order = sort_indices(entries, opts.sort_order, found.as_slice());
    let mut images: Vec<String> = Vec::new();
    let mut k: usize = 0;
    while k < order.len()
        invariant
            k <= order@.len(),
            are_files(entries@, order@),
            images@ == paths_of(entries@, order@.take(k as int)),
        decreases order@.len() - k,
    {
        assert(order@[k as int] < entries@.len());
        images.push(entries[order[k]].path.clone());
        k += 1;
        assert(images@ =~= paths_of(entries@, order@.take(k as int)));
    }
    assert(order@.take(k as int) =~= order@);
    assert(is_order(entries@, opts, order@));
    FolderListing { images, star_files }
}

/// Where the order of the files is transitive, as it is for the sizes and the
/// times, every file comes before all that follow it, not just the next one.
pub proof fn law_order_reaches_the_whole_list(files: Seq<FolderEntry>, order: ImageSortOrder, list: Seq<usize>, i: int, j: int)
    requires
        in_order(files, order, list),
        0 <= i < j < list.len(),
        forall|x: usize, y: usize, z: usize|
            #![trigger goes_before(files, order, x, y), goes_before(files, order, y, z)]
            goes_before(files, order, x, y) && goes_before(files, order, y, z) ==> goes_before(files, order, x, z),
    ensures
        goes_before(files, order, list[i], list[j]),
    decreases j - i,
{
    if i + 1 == j {
        assert(goes_before(files, order, list[i], list[i + 1]));
    } else {
        law_order_reaches_the_whole_list(files, order, list, i, j - 1);
        assert(goes_before(files, order, list[j - 1], list[j - 1 + 1]));
    }
}

/// Turning the direction round turns the order of two files round, unless
/// the order does not tell them apart.
pub proof fn law_direction_turns_the_order(a: FolderEntry, b: FolderEntry, key: ImageSortKey)
    ensures
        file_rank(a, b, (ImageSortOrder { key, direction: SortDirection::Descending })) == turned(
            file_rank(a, b, (ImageSortOrder { key, direction: SortDirection::Ascending })),
        ),
{
}

/// Whether a number that may not be known comes before another one or is as
/// large. An unknown one comes before all that are known.
pub open spec fn no_later(a: Option<int>, b: Option<int>) -> bool {
    match (a, b) {
        (Some(a), Some(b)) => a <= b,
        (None, _) => true,
        (Some(_), None) => false,
    }
}

/// What a file is sorted by where it is sorted by a number.
pub open spec fn sorting_number(e: FolderEntry, key: ImageSortKey) -> Option<int> {
    match key {
        ImageSortKey::Modified => match e.modified {
            Some(t) => Some(t as int),
            None => None,
        },
        ImageSortKey::Created => match e.created {
            Some(t) => Some(t as int),
            None => None,
        },
        ImageSortKey::Size => match e.size {
            Some(n) => Some(n as int),
            None => None,
        },
        _ => None,
    }
}

/// In a list by date or by size the numbers only grow in the ascending order
/// and only fall in the descending one, from any file to any later one. A file
/// whose number is not known comes first in the one and last in the other.
pub proof fn law_dates_and_sizes_are_in_order(
    entries: Seq<FolderEntry>,
    opts: ImageDiscoveryOptions,
    list: Seq<usize>,
    i: int,
    j: int,
)
    requires
        is_order(entries, opts, list),
        0 <= i <= j < list.len(),
    ensures
        ({
            let a = sorting_number(entries[list[i] as int], opts.sort_order.key);
            let b = sorting_number(entries[list[j] as int], opts.sort_order.key);
            match opts.sort_order.direction {
                SortDirection::Ascending => no_later(a, b),
                SortDirection::Descending => no_later(b, a),
            }
        }),
    decreases j - i,
{
    if i < j {
        law_dates_and_sizes_are_in_order(entries, opts, list, i, j - 1);
        assert(goes_before(entries, opts.sort_order, list[j - 1], list[j - 1 + 1]));
    }
}

/// Neighbours in a list by name or by extension are in the natural order of
/// their paths or their extensions, or in the reverse of it; and so are the
/// paths of neighbours that the key does not tell apart.
pub proof fn law_names_are_in_order(
    entries: Seq<FolderEntry>,
    opts: ImageDiscoveryOptions,
    list: Seq<usize>,
    k: int,
)
    requires
        is_order(entries, opts, list),
        0 <= k < list.len() - 1,
    ensures
        ({
            let a = entries[list[k] as int];
            let b = entries[list[k + 1] as int];
            let by_name = natural_rank(a.path@, b.path@);
            let by_extension = natural_rank(extension_or_nothing(a.path@), extension_or_nothing(b.path@));
            let wrong = match opts.sort_order.direction {
                SortDirection::Ascending => Rank::After,
                SortDirection::Descending => Rank::Before,
            };
            match opts.sort_order.key {
                ImageSortKey::Name => by_name != wrong,
                ImageSortKey::Extension => by_extension != wrong && (by_extension == Rank::Same ==> by_name
                    != wrong),
                key => sorting_number(a, key) == sorting_number(b, key) ==> by_name != wrong,
            }
        }),
{
    assert(goes_before(entries, opts.sort_order, list[k], list[k + 1]));
}

proof fn lemma_listed(entries: Seq<FolderEntry>, opts: ImageDiscoveryOptions, n: nat, v: usize)
    requires
        n <= entries.len() <= usize::MAX,
    ensures
        listed_indices(entries, opts, n).contains(v) <==> v < n && is_listed(entries[v as int], opts),
    decreases n,
{
    if n > 0 {
        let m = (n - 1) as nat;
        lemma_listed(entries, opts, m, v);
        let before = listed_indices(entries, opts, m);
        let list = listed_indices(entries, opts, n);
        if is_listed(entries[m as int], opts) {
            assert(list == before.push(m as usize));
            assert(list.last() == m);
            if before.contains(v) {
                let k = choose|k: int| 0 <= k < before.len() && before[k] == v;
                assert(list[k] == v);
            }
            if list.contains(v) {
                let k = choose|k: int| 0 <= k < list.len() && list[k] == v;
                assert(k < before.len() ==> before[k] == v);
            }
        }
    }
}

/// A list names every file with the extension of a picture, and nothing else,
/// each once. A file whose name starts with a dot is left out unless hidden
/// ones are asked for; a folder is never listed.
pub proof fn law_every_picture_is_listed_once(
    entries: Seq<FolderEntry>,
    opts: ImageDiscoveryOptions,
    list: Seq<usize>,
    v: usize,
)
    requires
        is_order(entries, opts, list),
        entries.len() <= usize::MAX,
    ensures
        list.no_duplicates(),
        list.contains(v) <==> {
            &&& v < entries.len()
            &&& entries[v as int].kind == EntryKind::File
            &&& opts.include_hidden || match path::file_name_of(entries[v as int].path@) {
                Some(name) => name[0] != '.',
                None => true,
            }
            &&& path::has_extension_in(entries[v as int].path@, supported_extensions())
        },
{
    let found = listed_indices(entries, opts, entries.len());
    lemma_listed(entries, opts, entries.len(), v);
    lemma_listed_indices(entries, opts, entries.len());
    lemma_same_items(list, found);
    assert(list.no_duplicates()) by {
        broadcast use vstd::seq_lib::group_to_multiset_ensures;

        found.lemma_multiset_has_no_duplicates();
        list.lemma_multiset_has_no_duplicates_conv();
    }
}

/// The extensions of the pictures, in capital or small letters.
pub proof fn law_pictures_have_one_of_these_extensions(p: Seq<char>, e: Seq<char>)
    requires
        path::extension_of(p) == Some(e),
    ensures
        path::has_extension_in(p, supported_extensions()) <==> {
            ||| crate::text::same_letters(e, "jpg"@)
            ||| crate::text::same_letters(e, "jpeg"@)
            ||| crate::text::same_letters(e, "jxl"@)
            ||| crate::text::same_letters(e, "png"@)
            ||| crate::text::same_letters(e, "apng"@)
            ||| crate::text::same_letters(e, "bmp"@)
            ||| crate::text::same_letters(e, "webp"@)
            ||| crate::text::same_letters(e, "gif"@)
            ||| crate::text::same_letters(e, "tiff"@)
            ||| crate::text::same_letters(e, "tif"@)
            ||| crate::text::same_letters(e, "qoi"@)
            ||| crate::text::same_letters(e, "tga"@)
        },
        path::has_extension_in(p, animation_extensions()) <==> {
            ||| crate::text::same_letters(e, "gif"@)
            ||| crate::text::same_letters(e, "png"@)
            ||| crate::text::same_letters(e, "apng"@)
            ||| crate::text::same_letters(e, "webp"@)
        },
{
    let all = supported_extensions();
    let few = animation_extensions();
    assert(all[0] == "jpg" && all[1] == "jpeg" && all[2] == "jxl" && all[3] == "png" && all[4] == "apng");
    assert(all[5] == "bmp" && all[6] == "webp" && all[7] == "gif" && all[8] == "tiff" && all[9] == "tif");
    assert(all[10] == "qoi" && all[11] == "tga");
    assert(few[0] == "gif" && few[1] == "png" && few[2] == "apng" && few[3] == "webp");
}

/// Only the file of that very name keeps the stars, in whatever folder it
/// stands, and a list of pictures notes each of them.
pub proof fn law_star_files_are_noted(entries: Seq<FolderEntry>, n: nat, k: int)
    requires
        n <= entries.len(),
        0 <= k < n,
        entries[k].kind == EntryKind::File,
        path::file_name_of(entries[k].path@) == Some(".viewskater.yaml"@),
    ensures
        star_paths(entries, n).contains(entries[k].path),
    decreases n,
{
    let m = (n - 1) as nat;
    let list = star_paths(entries, n);
    if k < m {
        law_star_files_are_noted(entries, m, k);
        let before = star_paths(entries, m);
        let j = choose|j: int| 0 <= j < before.len() && before[j] == entries[k].path;
        assert(list[j] == before[j]);
    } else {
        assert(list.last() == entries[k].path);
    }
}

/// Nothing but files of that very name is noted as keeping stars.
pub proof fn law_only_star_files_are_noted(e: FolderEntry)
    ensures
        is_star_file(e) <==> e.kind == EntryKind::File && path::file_name_of(e.path@) == Some(".viewskater.yaml"@),
{
}

} // verus!
