//! The sliding window of decoded pictures around the one on screen.
use vstd::prelude::*;

use crate::cache::index;
use crate::cache::index::shift_index;
use crate::path;
use crate::path::file_name;
use crate::text;
use crate::text::push_decimal;

verus! {

/// Maximum number of GPU uploads issued by `SlidingWindowCache::poll` per
/// frame.
pub const UPLOADS_PER_FRAME: usize = 2;

/// A picture that is ready to be shown.
pub struct Loaded<T> {
    pub texture: T,
    pub width: usize,
    pub height: usize,
}

/// What became of decoding a file. A file that cannot be decoded is as done
/// as one that can: navigation moves onto it and past it.
pub enum Decoded<T, F> {
    Image(Loaded<T>),
    Failed(F),
}

/// A decode that runs on a thread. The index is updated by `remove_index`, so
/// a result that arrives after the list changed still lands in the right
/// slot, and a result for a path no longer tracked is dropped.
pub struct RunningDecode {
    pub path: String,
    pub file_index: usize,
}

/// A file to decode.
pub struct DecodeJob {
    pub file_index: usize,
    pub path: String,
}

/// A decoded picture that waits for its upload.
pub struct PendingUpload<I> {
    pub file_index: usize,
    pub image: I,
    pub name: String,
}

/// The model of `PendingUpload`.
pub ghost struct UploadView<I> {
    pub file_index: usize,
    pub image: I,
    pub name: Seq<char>,
}

impl<I> View for PendingUpload<I> {
    type V = UploadView<I>;

    open spec fn view(&self) -> UploadView<I> {
        UploadView { file_index: self.file_index, image: self.image, name: self.name@ }
    }
}

/// What a decode thread reports. The file index is looked up from the path on
/// arrival, because the list may have changed while decoding.
pub struct DecodeResult<I, F> {
    pub path: String,
    pub image: Result<I, F>,
}

/// Sliding window cache that preloads neighboring images in background
/// threads.
///
/// The window has `cache_count * 2 + 1` slots. `first_file_index` tracks which
/// file index slot 0 maps to. The current image sits at slot
/// `current_index - first_file_index`, ideally at the center (`cache_count`),
/// but off-center near directory boundaries.
///
/// The decodes themselves run elsewhere: each method returns those to start
/// now.
pub struct SlidingWindowCache<T, I, F> {
    pub slots: Vec<Option<Decoded<T, F>>>,
    pub first_file_index: usize,
    pub cache_count: usize,
    pub running_decodes: Vec<RunningDecode>,
    /// Completed decodes waiting for GPU upload.
    pub pending_uploads: Vec<PendingUpload<I>>,
    /// Decode requests waiting for a thread.
    pub pending_decodes: Vec<DecodeJob>,
    pub max_decode_threads: usize,
}

/// The model of `SlidingWindowCache`.
#[verifier::ext_equal]
pub ghost struct WindowState<T, I, F> {
    pub slots: Seq<Option<Decoded<T, F>>>,
    pub first: int,
    pub count: int,
    pub running: Seq<RunningDecode>,
    pub uploads: Seq<UploadView<I>>,
    pub queued: Seq<DecodeJob>,
    pub threads: int,
}

/// The uploads as their models.
pub open spec fn upload_views<I>(list: Seq<PendingUpload<I>>) -> Seq<UploadView<I>> {
    Seq::new(list.len(), |i: int| list[i]@)
}

impl<T, I, F> View for SlidingWindowCache<T, I, F> {
    type V = WindowState<T, I, F>;

    open spec fn view(&self) -> WindowState<T, I, F> {
        WindowState {
            slots: self.slots@,
            first: self.first_file_index as int,
            count: self.cache_count as int,
            running: self.running_decodes@,
            uploads: upload_views(self.pending_uploads@),
            queued: self.pending_decodes@,
            threads: self.max_decode_threads as int,
        }
    }
}

/// Whether no path is being decoded twice.
pub open spec fn distinct_paths(running: Seq<RunningDecode>) -> bool {
    forall|i: int, j: int|
        0 <= i < j < running.len() ==> (#[trigger] running[i]).path@ != (#[trigger] running[j]).path@
}

/// Where the running decode of a path is, or `None`.
pub open spec fn running_at(running: Seq<RunningDecode>, p: Seq<char>) -> Option<int>
    decreases running.len(),
{
    if running.len() == 0 {
        None
    } else if running.last().path@ == p {
        Some(running.len() - 1)
    } else {
        running_at(running.drop_last(), p)
    }
}

pub proof fn lemma_running_at(running: Seq<RunningDecode>, p: Seq<char>)
    ensures
        match running_at(running, p) {
            Some(k) => 0 <= k < running.len() && running[k].path@ == p,
            None => forall|i: int| 0 <= i < running.len() ==> (#[trigger] running[i]).path@ != p,
        },
    decreases running.len(),
{
    if running.len() > 0 {
        lemma_running_at(running.drop_last(), p);
        assert forall|i: int| 0 <= i < running.len() - 1 implies #[trigger] running[i] == running.drop_last()[i] by {
        }
    }
}

/// Whether a decode of the file is queued.
pub open spec fn is_queued(queued: Seq<DecodeJob>, file_index: usize) -> bool {
    exists|i: int| 0 <= i < queued.len() && (#[trigger] queued[i]).file_index == file_index
}

/// The running decodes with one more. A path that is decoded already gets the
/// new index.
pub open spec fn with_running(running: Seq<RunningDecode>, job: DecodeJob) -> Seq<RunningDecode> {
    match running_at(running, job.path@) {
        Some(k) => running.update(k, RunningDecode { file_index: job.file_index, ..running[k] }),
        None => running.push(RunningDecode { path: job.path, file_index: job.file_index }),
    }
}

/// A decode is asked for: it starts when a thread is free, else it is queued.
/// Nothing happens when the path is being decoded or the file is queued. The
/// state after that, and the decodes to start.
pub open spec fn load<T, I, F>(s: WindowState<T, I, F>, job: DecodeJob) -> (WindowState<T, I, F>, Seq<DecodeJob>) {
    if running_at(s.running, job.path@) is Some || is_queued(s.queued, job.file_index) {
        (s, Seq::empty())
    } else if s.running.len() < s.threads {
        (WindowState { running: with_running(s.running, job), ..s }, seq![job])
    } else {
        (WindowState { queued: s.queued.push(job), ..s }, Seq::empty())
    }
}

/// Asks for the first `n` slots' files, but for the one in slot `skip`.
pub open spec fn load_slots<T, I, F>(s: WindowState<T, I, F>, paths: Seq<String>, skip: int, n: nat) -> (WindowState<T, I, F>, Seq<DecodeJob>)
    decreases n,
{
    if n == 0 {
        (s, Seq::empty())
    } else {
        let before = load_slots(s, paths, skip, (n - 1) as nat);
        let i = s.first + n - 1;
        if n - 1 == skip || i >= paths.len() {
            before
        } else {
            let one = load(before.0, DecodeJob { file_index: i as usize, path: paths[i] });
            (one.0, before.1 + one.1)
        }
    }
}

/// The slot of a file, when the window reaches it.
pub open spec fn slot_of<T, I, F>(s: WindowState<T, I, F>, file_index: int) -> Option<int> {
    if s.first <= file_index < s.first + s.slots.len() {
        Some(file_index - s.first)
    } else {
        None
    }
}

/// What is in the window for a file.
pub open spec fn lookup<T, I, F>(s: WindowState<T, I, F>, file_index: int) -> Option<Decoded<T, F>> {
    match slot_of(s, file_index) {
        Some(k) => s.slots[k],
        None => None,
    }
}

/// Whether a file has a slot and nothing is in it.
pub open spec fn is_vacant<T, I, F>(s: WindowState<T, I, F>, file_index: int) -> bool {
    slot_of(s, file_index) is Some && lookup(s, file_index) is None
}

/// Puts something in the vacant slot of a file.
pub open spec fn filled<T, I, F>(s: WindowState<T, I, F>, file_index: int, d: Decoded<T, F>) -> WindowState<T, I, F> {
    if is_vacant(s, file_index) {
        WindowState { slots: s.slots.update(file_index - s.first, Some(d)), ..s }
    } else {
        s
    }
}

/// Starts queued decodes while threads are free. One whose file left the
/// window is dropped.
pub open spec fn start_queued<T, I, F>(s: WindowState<T, I, F>) -> (WindowState<T, I, F>, Seq<DecodeJob>)
    decreases s.queued.len(),
{
    if s.running.len() < s.threads && s.queued.len() > 0 {
        let job = s.queued[0];
        let rest = WindowState { queued: s.queued.drop_first(), ..s };
        if slot_of(s, job.file_index as int) is Some {
            let after = start_queued(WindowState { running: with_running(s.running, job), ..rest });
            (after.0, seq![job] + after.1)
        } else {
            start_queued(rest)
        }
    } else {
        (s, Seq::empty())
    }
}

/// The name of a file, or nothing for one that is not in the list.
pub open spec fn name_for(paths: Seq<String>, i: int) -> Seq<char> {
    if 0 <= i < paths.len() {
        match path::file_name_of(paths[i]@) {
            Some(n) => n,
            None => Seq::empty(),
        }
    } else {
        Seq::empty()
    }
}

/// A decode came in. The result of a path that is no longer tracked is
/// dropped. A picture waits for its upload, and a failure is put in its slot.
/// Then the next queued decodes start.
pub open spec fn received<T, I, F>(s: WindowState<T, I, F>, r: DecodeResult<I, F>, paths: Seq<String>) -> (WindowState<T, I, F>, Seq<DecodeJob>) {
    match running_at(s.running, r.path@) {
        Some(k) => {
            let i = s.running[k].file_index;
            let freed = WindowState { running: s.running.remove(k), ..s };
            start_queued(
                match r.image {
                    Ok(image) => WindowState {
                        uploads: freed.uploads.push(
                            UploadView { file_index: i, image, name: name_for(paths, i as int) },
                        ),
                        ..freed
                    },
                    Err(f) => filled(freed, i as int, Decoded::Failed(f)),
                },
            )
        },
        None => (s, Seq::empty()),
    }
}

/// The first `n` results came in.
pub open spec fn received_all<T, I, F>(s: WindowState<T, I, F>, results: Seq<DecodeResult<I, F>>, paths: Seq<String>, n: nat) -> (WindowState<T, I, F>, Seq<DecodeJob>)
    decreases n,
{
    if n == 0 {
        (s, Seq::empty())
    } else {
        let before = received_all(s, results, paths, (n - 1) as nat);
        let one = received(before.0, results[n - 1], paths);
        (one.0, before.1 + one.1)
    }
}

/// Whether `loaded` is what uploading makes of a picture.
pub open spec fn made<T, I, U: Fn(String, I) -> Loaded<T>>(upload: U, u: UploadView<I>, loaded: Loaded<T>) -> bool {
    exists|name: String| name@ == u.name && #[trigger] call_ensures(upload, (name, u.image), loaded)
}

/// Whether `t` is `s` after up to `n` uploads. A picture whose slot is gone or
/// taken is dropped instead.
pub open spec fn uploaded<T, I, F, U: Fn(String, I) -> Loaded<T>>(upload: U, s: WindowState<T, I, F>, t: WindowState<T, I, F>, n: nat) -> bool
    decreases n,
{
    if n == 0 || s.uploads.len() == 0 {
        t == s
    } else {
        let u = s.uploads[0];
        let rest = WindowState { uploads: s.uploads.drop_first(), ..s };
        if is_vacant(s, u.file_index as int) {
            exists|loaded: Loaded<T>| #[trigger]
                made(upload, u, loaded) && uploaded(
                    upload,
                    filled(rest, u.file_index as int, Decoded::Image(loaded)),
                    t,
                    (n - 1) as nat,
                )
        } else {
            uploaded(upload, rest, t, (n - 1) as nat)
        }
    }
}

/// What the first `n` items of a list become, without those that become
/// nothing.
pub open spec fn mapped<A>(list: Seq<A>, f: spec_fn(A) -> Option<A>, n: nat) -> Seq<A>
    decreases n,
{
    if n == 0 {
        Seq::empty()
    } else {
        match f(list[n - 1]) {
            Some(a) => mapped(list, f, (n - 1) as nat).push(a),
            None => mapped(list, f, (n - 1) as nat),
        }
    }
}

/// A running decode with its file's new index.
pub open spec fn moved_running(removed: int) -> spec_fn(RunningDecode) -> Option<RunningDecode> {
    |e: RunningDecode|
        match index::shifted(e.file_index as int, removed) {
            Some(i) => Some(RunningDecode { file_index: i as usize, ..e }),
            None => None,
        }
}

/// A queued decode with its file's new index.
pub open spec fn moved_job(removed: int) -> spec_fn(DecodeJob) -> Option<DecodeJob> {
    |e: DecodeJob|
        match index::shifted(e.file_index as int, removed) {
            Some(i) => Some(DecodeJob { file_index: i as usize, ..e }),
            None => None,
        }
}

/// A waiting picture with its file's new index.
pub open spec fn moved_upload<I>(removed: int) -> spec_fn(UploadView<I>) -> Option<UploadView<I>> {
    |e: UploadView<I>|
        match index::shifted(e.file_index as int, removed) {
            Some(i) => Some(UploadView { file_index: i as usize, ..e }),
            None => None,
        }
}

/// Everything that names files by their index, after the file at `removed`
/// left the list.
pub open spec fn renumbered<T, I, F>(s: WindowState<T, I, F>, removed: int) -> WindowState<T, I, F> {
    WindowState {
        running: mapped(s.running, moved_running(removed), s.running.len()),
        queued: mapped(s.queued, moved_job(removed), s.queued.len()),
        uploads: mapped(s.uploads, moved_upload(removed), s.uploads.len()),
        ..s
    }
}

/// The window after the file at `removed` left the list, which is now
/// `paths`, and the decodes to start.
pub open spec fn without_file<T, I, F>(s: WindowState<T, I, F>, removed: int, paths: Seq<String>) -> (WindowState<T, I, F>, Seq<DecodeJob>) {
    let r = renumbered(s, removed);
    let right = s.first + s.slots.len() - 1;
    if removed < s.first {
        (WindowState { first: s.first - 1, ..r }, Seq::empty())
    } else if removed < s.first + s.slots.len() {
        let rest = s.slots.remove(removed - s.first);
        if right < paths.len() {
            load(
                WindowState { slots: rest.push(None), ..r },
                DecodeJob { file_index: right as usize, path: paths[right] },
            )
        } else if s.first > 0 {
            load(
                WindowState { slots: rest.insert(0, None), first: s.first - 1, ..r },
                DecodeJob { file_index: (s.first - 1) as usize, path: paths[s.first - 1] },
            )
        } else {
            (WindowState { slots: rest.push(None), ..r }, Seq::empty())
        }
    } else {
        (r, Seq::empty())
    }
}

/// After a removal every file's slot holds what it held before: the pictures
/// stay with their files, and none is decoded again.
pub proof fn law_removal_keeps_pictures_with_their_files<T, I, F>(s: WindowState<T, I, F>, removed: int, paths: Seq<String>, file_index: int)
    requires
        0 <= s.first,
        0 <= removed <= paths.len(),
        file_index != removed,
        0 <= file_index,
    ensures
        lookup(without_file(s, removed, paths).0, index::shifted(file_index, removed).unwrap()) == lookup(
            s,
            file_index,
        ),
        without_file(s, removed, paths).0.slots.len() == s.slots.len(),
{
}

/// A removal outside the window starts no decode.
pub proof fn law_removal_outside_starts_nothing<T, I, F>(s: WindowState<T, I, F>, removed: int, paths: Seq<String>)
    requires
        removed < s.first || s.first + s.slots.len() <= removed,
    ensures
        without_file(s, removed, paths).1.len() == 0,
        without_file(s, removed, paths).0.slots == s.slots,
{
}

/// The decode of a removed file is no longer tracked, so its late result is
/// dropped.
pub proof fn law_late_result_of_a_removed_file_is_dropped<T, I, F>(s: WindowState<T, I, F>, removed: int, k: int)
    requires
        distinct_paths(s.running),
        0 <= k < s.running.len(),
        s.running[k].file_index == removed,
    ensures
        running_at(renumbered(s, removed).running, s.running[k].path@) is None,
{
    let f = moved_running(removed);
    let list = mapped(s.running, f, s.running.len());
    lemma_mapped_paths(s.running, removed, s.running.len());
    lemma_running_at(list, s.running[k].path@);
    if let Some(j) = running_at(list, s.running[k].path@) {
        assert(comes_from(s.running, s.running.len(), removed, list[j].path@));
        let i = choose|i: int|
            0 <= i < s.running.len() && (#[trigger] s.running[i]).path@ == list[j].path@ && s.running[i].file_index
                != removed;
        assert(i != k);
        if i < k {
            assert(s.running[i].path@ != s.running[k].path@);
        } else {
            assert(s.running[k].path@ != s.running[i].path@);
        }
    }
}

/// Whether one of the first `n` decodes is that of this path and not of the
/// removed file.
pub open spec fn comes_from(running: Seq<RunningDecode>, n: nat, removed: int, p: Seq<char>) -> bool {
    exists|i: int| 0 <= i < n && (#[trigger] running[i]).path@ == p && running[i].file_index != removed
}

/// Renumbered decodes keep their paths, and stay apart.
pub proof fn lemma_mapped_paths(running: Seq<RunningDecode>, removed: int, n: nat)
    requires
        n <= running.len(),
        distinct_paths(running),
    ensures
        mapped(running, moved_running(removed), n).len() <= n,
        distinct_paths(mapped(running, moved_running(removed), n)),
        forall|j: int|
            0 <= j < mapped(running, moved_running(removed), n).len() ==> comes_from(
                running,
                n,
                removed,
                (#[trigger] mapped(running, moved_running(removed), n)[j]).path@,
            ),
    decreases n,
{
    if n > 0 {
        let f = moved_running(removed);
        lemma_mapped_paths(running, removed, (n - 1) as nat);
        let before = mapped(running, f, (n - 1) as nat);
        let list = mapped(running, f, n);
        assert forall|j: int| 0 <= j < list.len() implies comes_from(running, n, removed, (#[trigger] list[j]).path@) by {
            if j < before.len() {
                assert(list[j] == before[j]);
                assert(comes_from(running, (n - 1) as nat, removed, before[j].path@));
            } else {
                assert(running[n - 1].path@ == list[j].path@);
            }
        }
        assert forall|a: int, b: int| 0 <= a < b < list.len() implies (#[trigger] list[a]).path@ != (#[trigger] list[b]).path@ by {
            assert(list[a] == before[a]);
            if b < before.len() {
                assert(list[b] == before[b]);
            } else {
                assert(comes_from(running, (n - 1) as nat, removed, before[a].path@));
                let i = choose|i: int| 0 <= i < n - 1 && (#[trigger] running[i]).path@ == before[a].path@ && running[i].file_index != removed;
                assert(running[i].path@ != running[n - 1].path@);
            }
        }
    }
}

/// Where the window starts when it is built around a file: the file in the
/// middle, but inside the list.
pub open spec fn first_around(center: int, count: int, files: int) -> int {
    let wanted = if center > count { center - count } else { 0 };
    let size = 2 * count + 1;
    let last = if files > size { files - size } else { 0 };
    if wanted < last { wanted } else { last }
}

/// The window that is built around a file whose own decode gave `center`.
pub open spec fn built_around<T, I, F>(s: WindowState<T, I, F>, center_index: int, center: Decoded<T, F>, paths: Seq<String>) -> (WindowState<T, I, F>, Seq<DecodeJob>) {
    let first = first_around(center_index, s.count, paths.len() as int);
    let size = (2 * s.count + 1) as nat;
    load_slots(
        WindowState {
            slots: Seq::new(size, |i: int| None::<Decoded<T, F>>).update(center_index - first, Some(center)),
            first,
            running: Seq::empty(),
            uploads: Seq::empty(),
            queued: Seq::empty(),
            ..s
        },
        paths,
        center_index - first,
        size,
    )
}

/// The window always reaches the file that it is built around.
pub proof fn law_window_reaches_its_center(center: int, count: int, files: int)
    requires
        0 <= center < files,
        0 <= count,
    ensures
        0 <= first_around(center, count, files) <= center,
        center < first_around(center, count, files) + 2 * count + 1,
        first_around(center, count, files) + 2 * count + 1 <= files || first_around(center, count, files) == 0,
{
}

/// What a cell of the debug overlay shows.
#[derive(Debug, Clone, Copy, PartialEq, Eq, Structural)]
pub enum CellState {
    /// The list has no such file.
    Outside,
    Loaded,
    Loading,
    Empty,
}

/// A cell of the debug overlay.
#[derive(Debug, Clone, Copy, PartialEq, Eq, Structural)]
pub struct OverlayCell {
    pub file_index: usize,
    pub is_current: bool,
    pub state: CellState,
}

/// What the debug overlay shows: the first and the last file of the window,
/// and a cell for each slot.
pub struct DebugOverlay {
    pub first: usize,
    pub last: usize,
    pub cells: Vec<OverlayCell>,
}

/// Whether a file is being decoded.
pub open spec fn is_running(running: Seq<RunningDecode>, file_index: int) -> bool {
    exists|i: int| 0 <= i < running.len() && (#[trigger] running[i]).file_index == file_index
}

/// The cell for a slot.
pub open spec fn cell_for<T, I, F>(s: WindowState<T, I, F>, k: int, current_index: int, files: int) -> OverlayCell {
    let i = s.first + k;
    OverlayCell {
        file_index: i as usize,
        is_current: i == current_index,
        state: if i >= files {
            CellState::Outside
        } else if s.slots[k] is Some {
            CellState::Loaded
        } else if is_running(s.running, i) {
            CellState::Loading
        } else {
            CellState::Empty
        },
    }
}

/// How many slots of the first `n` have something in them.
pub open spec fn loaded_count<T, F>(slots: Seq<Option<Decoded<T, F>>>, n: nat) -> nat
    decreases n,
{
    if n == 0 {
        0
    } else {
        loaded_count(slots, (n - 1) as nat) + if slots[n - 1] is Some { 1nat } else { 0nat }
    }
}

/// The bytes of the pictures in the first `n` slots, four for each pixel.
pub open spec fn slot_bytes<T, F>(slots: Seq<Option<Decoded<T, F>>>, n: nat) -> int
    decreases n,
{
    if n == 0 {
        0
    } else {
        slot_bytes(slots, (n - 1) as nat) + match slots[n - 1] {
            Some(Decoded::Image(loaded)) => loaded.width * loaded.height * 4,
            _ => 0,
        }
    }
}

/// The compact summary of the window.
pub open spec fn summary_text<T, I, F>(s: WindowState<T, I, F>) -> Seq<char> {
    let last = s.first + s.slots.len() - 1;
    let start = seq!['['] + text::decimal(s.first as nat) + seq!['.', '.'] + text::decimal(last as nat) + seq![
        ']',
        ' ',
    ] + text::decimal(loaded_count(s.slots, s.slots.len())) + seq!['/'] + text::decimal(s.slots.len());
    if s.running.len() == 0 {
        start
    } else {
        start + " inflight="@ + text::decimal(s.running.len())
    }
}

impl<T, I, F> SlidingWindowCache<T, I, F> {
    /// The window has its slots, no path is being decoded twice, and the
    /// indices of the window's files are numbers.
    pub open spec fn wf(&self) -> bool {
        &&& self.slots@.len() == 2 * self.cache_count + 1
        &&& self.first_file_index + self.slots@.len() <= usize::MAX
        &&& distinct_paths(self.running_decodes@)
    }

    pub fn new(cache_count: usize, decode_threads: usize) -> (r: Self)
        requires
            2 * cache_count + 1 <= usize::MAX,
        ensures
            r.wf(),
            r@ == (WindowState::<T, I, F> {
                slots: Seq::new((2 * cache_count + 1) as nat, |i: int| None::<Decoded<T, F>>),
                first: 0,
                count: cache_count as int,
                running: Seq::empty(),
                uploads: Seq::empty(),
                queued: Seq::empty(),
                threads: decode_threads as int,
            }),
    {
        let r = SlidingWindowCache {
            slots: empty_slots(cache_count),
            first_file_index: 0,
            cache_count,
            running_decodes: Vec::new(),
            pending_uploads: Vec::new(),
            pending_decodes: Vec::new(),
            max_decode_threads: decode_threads,
        };
        assert(r@.uploads =~= Seq::empty());
        r
    }

    /// How many slots the window has.
    pub fn cache_size(&self) -> (r: usize)
        requires
            self.wf(),
        ensures
            r == 2 * self.cache_count + 1,
    {
        self.slots.len()
    }

    /// Find which slot (if any) holds the given file index.
    pub fn slot_index_for(&self, file_index: usize) -> (r: Option<usize>)
        ensures
            match r {
                Some(k) => slot_of(self@, file_index as int) == Some(k as int) && k < self.slots@.len(),
                None => slot_of(self@, file_index as int) is None,
            },
    {
        if file_index >= self.first_file_index && file_index - self.first_file_index < self.slots.len() {
            Some(file_index - self.first_file_index)
        } else {
            None
        }
    }

    /// Where the running decode of a path is.
    fn find_running(&self, path: &String) -> (r: Option<usize>)
        ensures
            match r {
                Some(k) => running_at(self.running_decodes@, path@) == Some(k as int) && k
                    < self.running_decodes@.len(),
                None => running_at(self.running_decodes@, path@) is None,
            },
    {
        let mut i: usize = self.running_decodes.len();
        assert(self.running_decodes@.take(i as int) =~= self.running_decodes@);
        while i > 0
            invariant
                i <= self.running_decodes@.len(),
                running_at(self.running_decodes@.take(i as int), path@) == running_at(
                    self.running_decodes@,
                    path@,
                ),
            decreases i,
        {
            if self.running_decodes[i - 1].path == *path {
                return Some(i - 1);
            }
            assert(self.running_decodes@.take(i as int).drop_last() =~= self.running_decodes@.take(i - 1));
            i -= 1;
        }
        None
    }

    /// Whether a decode of the file is queued.
    fn has_queued(&self, file_index: usize) -> (r: bool)
        ensures
            r == is_queued(self.pending_decodes@, file_index),
    {
        let mut i: usize = 0;
        while i < self.pending_decodes.len()
            invariant
                i <= self.pending_decodes@.len(),
                forall|k: int| 0 <= k < i ==> (#[trigger] self.pending_decodes@[k]).file_index != file_index,
            decreases self.pending_decodes@.len() - i,
        {
            if self.pending_decodes[i].file_index == file_index {
                assert(self.pending_decodes@[i as int].file_index == file_index);
                return true;
            }
            i += 1;
        }
        false
    }

    /// Tracks a decode that starts.
    fn track(&mut self, job: &DecodeJob)
        requires
            old(self).wf(),
        ensures
            final(self).wf(),
            final(self)@ == (WindowState { running: with_running(old(self)@.running, *job), ..old(self)@ }),
    {
        proof {
            lemma_running_at(self.running_decodes@, job.path@);
        }
        match self.find_running(&job.path) {
            Some(k) => {
                let e = &mut self.running_decodes[k];
                e.file_index = job.file_index;
            },
            None => {
                self.running_decodes.push(
                    RunningDecode { path: job.path.clone(), file_index: job.file_index },
                );
            },
        }
    }

    /// Queue a background decode. If fewer than `max_decode_threads`
    /// threads are running, it is to be started at once; otherwise it waits
    /// until `poll` finds a thread free.
    pub fn spawn_load(&mut self, file_index: usize, path: &String) -> (r: Option<DecodeJob>)
        requires
            old(self).wf(),
        ensures
            final(self).wf(),
            ({
                let after = load(old(self)@, (DecodeJob { file_index, path: *path }));
                &&& final(self)@ == after.0
                &&& jobs_of(r) == after.1
            }),
    {
        if self.find_running(path).is_some() || self.has_queued(file_index) {
            return None;
        }
        let job = DecodeJob { file_index, path: path.clone() };
        if self.running_decodes.len() < self.max_decode_threads {
            self.track(&job);
            Some(job)
        } else {
            self.pending_decodes.push(job);
            None
        }
    }

    /// Build the window around `center_index`, whose own decode gave
    /// `center`. Returns the decodes to start for the neighbors. Nothing
    /// changes for an empty list.
    pub fn initialize(&mut self, center_index: usize, center: Decoded<T, F>, image_paths: &Vec<String>) -> (r: Vec<DecodeJob>)
        requires
            old(self).wf(),
            image_paths@.len() > 0 ==> center_index < image_paths@.len(),
            image_paths@.len() + 2 * old(self).cache_count + 1 <= usize::MAX,
        ensures
            final(self).wf(),
            if image_paths@.len() == 0 {
                final(self)@ == old(self)@ && r@.len() == 0
            } else {
                (final(self)@, r@) == built_around(old(self)@, center_index as int, center, image_paths@)
            },
    {
        let mut jobs: Vec<DecodeJob> = Vec::new();
        let num_files: usize = image_paths.len();
        if num_files == 0 {
            return jobs;
        }
        let size: usize = 2 * self.cache_count + 1;
        let wanted: usize = if center_index > self.cache_count { center_index - self.cache_count } else { 0 };
        let last: usize = if num_files > size { num_files - size } else { 0 };
        let first: usize = if wanted < last { wanted } else { last };
        let ghost start = self@;
        let mut slots = empty_slots(self.cache_count);
        let center_slot: usize = center_index - first;
        slots.set(center_slot, Some(center));
        self.slots = slots;
        self.first_file_index = first;
        self.running_decodes = Vec::new();
        self.pending_uploads = Vec::new();
        self.pending_decodes = Vec::new();
        let ghost base = self@;
        proof {
            assert(base.uploads =~= Seq::empty());
            assert(base =~= WindowState {
                slots: Seq::new(size as nat, |i: int| None::<Decoded<T, F>>).update(
                    center_slot as int,
                    Some(center),
                ),
                first: first as int,
                running: Seq::empty(),
                uploads: Seq::empty(),
                queued: Seq::empty(),
                ..start
            });
        }
        let mut i: usize = 0;
        while i < size
            invariant
                i <= size,
                self.wf(),
                self.first_file_index == first,
                first + size <= usize::MAX,
                base.first == first,
                num_files == image_paths@.len(),
                (self@, jobs@) == load_slots(base, image_paths@, center_slot as int, i as nat),
            decreases size - i,
        {
            let ghost before = jobs@;
            if i != center_slot && first + i < num_files {
                let one = self.spawn_load(first + i, &image_paths[first + i]);
                if let Some(job) = one {
                    jobs.push(job);
                }
                assert(jobs@ =~= before + jobs_of(one));
                proof {
                    lemma_load_keeps_first(
                        load_slots(base, image_paths@, center_slot as int, i as nat).0,
                        DecodeJob { file_index: (first + i) as usize, path: image_paths@[first + i] },
                    );
                }
            }
            i += 1;
        }
        jobs
    }

    /// Takes in one finished decode.
    fn take_result(&mut self, result: DecodeResult<I, F>, image_paths: &Vec<String>, jobs: &mut Vec<DecodeJob>)
        requires
            old(self).wf(),
        ensures
            final(self).wf(),
            ({
                let after = received(old(self)@, result, image_paths@);
                final(self)@ == after.0 && final(jobs)@ == old(jobs)@ + after.1
            }),
    {
        let ghost start = self@;
        proof {
            lemma_running_at(self.running_decodes@, result.path@);
        }
        let k: usize = match self.find_running(&result.path) {
            Some(k) => k,
            None => {
                assert(jobs@ =~= jobs@ + Seq::empty());
                return;
            },
        };
        let e = self.running_decodes.remove(k);
        let file_index: usize = e.file_index;
        let ghost freed = WindowState { running: start.running.remove(k as int), ..start };
        assert(self@ =~= freed);
        match result.image {
            Ok(image) => {
                let name: String = name_of(image_paths, file_index);
                let u = PendingUpload { file_index, image, name };
                let ghost before = self.pending_uploads@;
                self.pending_uploads.push(u);
                assert(upload_views(self.pending_uploads@) =~= upload_views(before).push(u@));
                assert(self@ =~= WindowState { uploads: freed.uploads.push(u@), ..freed });
            },
            Err(f) => {
                if let Some(slot) = self.slot_index_for(file_index) {
                    if self.slots[slot].is_none() {
                        self.slots.set(slot, Some(Decoded::Failed(f)));
                    }
                }
                assert(self@ =~= filled(freed, file_index as int, Decoded::Failed(f)));
            },
        }
        self.start_next(jobs);
    }

    /// Starts queued decodes while threads are free.
    fn start_next(&mut self, jobs: &mut Vec<DecodeJob>)
        requires
            old(self).wf(),
        ensures
            final(self).wf(),
            final(self)@ == start_queued(old(self)@).0,
            final(jobs)@ == old(jobs)@ + start_queued(old(self)@).1,
    {
        let ghost start = self@;
        let ghost first = jobs@;
        while self.running_decodes.len() < self.max_decode_threads && self.pending_decodes.len() > 0
            invariant
                self.wf(),
                start_queued(self@).0 == start_queued(start).0,
                jobs@ + start_queued(self@).1 == first + start_queued(start).1,
            decreases self.pending_decodes@.len(),
        {
            let ghost before = self@;
            let ghost so_far = jobs@;
            let job = self.pending_decodes.remove(0);
            assert(self.pending_decodes@ =~= before.queued.drop_first());
            assert(self@ =~= WindowState { queued: before.queued.drop_first(), ..before });
            if self.slot_index_for(job.file_index).is_some() {
                self.track(&job);
                jobs.push(job);
                proof {
                    let rest = start_queued(self@).1;
                    assert(jobs@ + rest =~= so_far + (seq![job] + rest));
                }
            }
        }
        assert(jobs@ + Seq::empty() =~= jobs@);
    }

    /// Uploads up to `n` decoded pictures.
    fn upload_some<U: Fn(String, I) -> Loaded<T>>(&mut self, upload: &U, n: usize)
        requires
            old(self).wf(),
            forall|name: String, image: I| call_requires(*upload, (name, image)),
        ensures
            final(self).wf(),
            uploaded(*upload, old(self)@, final(self)@, n as nat),
        decreases n,
    {
        if n == 0 || self.pending_uploads.len() == 0 {
            return;
        }
        let ghost start = self@;
        let u = self.pending_uploads.remove(0);
        assert(upload_views(self.pending_uploads@) =~= start.uploads.drop_first());
        let ghost view = u@;
        let file_index: usize = u.file_index;
        let ghost rest = WindowState { uploads: start.uploads.drop_first(), ..start };
        assert(self@ =~= rest);
        if let Some(slot) = self.slot_index_for(file_index) {
            if self.slots[slot].is_none() {
                let ghost name = u.name;
                let loaded = (*upload)(u.name, u.image);
                assert(call_ensures(*upload, (name, view.image), loaded));
                assert(made(*upload, view, loaded));
                self.slots.set(slot, Some(Decoded::Image(loaded)));
                assert(self@ =~= filled(rest, file_index as int, Decoded::Image(loaded)));
            }
        }
        self.upload_some(upload, n - 1);
    }

    /// Takes in the finished decodes and uploads pictures. Call this every
    /// frame.
    ///
    /// The decodes go into `pending_uploads`, of which up to
    /// `UPLOADS_PER_FRAME` are uploaded in one call. Returns the decodes to
    /// start, and whether another frame is needed for what still waits.
    pub fn poll<U: Fn(String, I) -> Loaded<T>>(&mut self, results: Vec<DecodeResult<I, F>>, image_paths: &Vec<String>, upload: &U) -> (r: (Vec<DecodeJob>, bool))
        requires
            old(self).wf(),
            forall|name: String, image: I| call_requires(*upload, (name, image)),
        ensures
            final(self).wf(),
            ({
                let after = received_all(old(self)@, results@, image_paths@, results@.len());
                &&& r.0@ == after.1
                &&& uploaded(*upload, after.0, final(self)@, UPLOADS_PER_FRAME as nat)
            }),
            r.1 == (final(self)@.uploads.len() > 0 || final(self)@.queued.len() > 0),
    {
        let mut jobs: Vec<DecodeJob> = Vec::new();
        let mut left = results;
        let ghost mut done: nat = 0;
        assert(left@ =~= results@.skip(0));
        while left.len() > 0
            invariant
                self.wf(),
                done <= results@.len(),
                left@ == results@.skip(done as int),
                (self@, jobs@) == received_all(old(self)@, results@, image_paths@, done),
            decreases left@.len(),
        {
            let ghost before = left@;
            let result = left.remove(0);
            assert(result == results@[done as int]);
            self.take_result(result, image_paths, &mut jobs);
            proof {
                done = done + 1;
                assert(left@ =~= results@.skip(done as int));
            }
        }
        assert(done == results@.len());
        self.upload_some(upload, UPLOADS_PER_FRAME);
        let waiting: bool = self.pending_uploads.len() > 0 || self.pending_decodes.len() > 0;
        (jobs, waiting)
    }

    /// Shift the window for forward navigation. Returns the decode to start
    /// for the file that comes in at its right.
    pub fn navigate_forward(&mut self, new_index: usize, image_paths: &Vec<String>) -> (r: Option<DecodeJob>)
        requires
            old(self).wf(),
            old(self).first_file_index <= new_index,
            old(self).first_file_index + old(self).slots@.len() < usize::MAX,
        ensures
            final(self).wf(),
            (final(self)@, jobs_of(r)) == forward(old(self)@, new_index as int, image_paths@),
    {
        let ghost start = self@;
        if new_index - self.first_file_index > self.cache_count {
            let size: usize = self.slots.len();
            self.slots.remove(0);
            self.slots.push(None);
            self.first_file_index = self.first_file_index + 1;
            assert(self.slots@ =~= start.slots.drop_first().push(None));
            let new_file_index: usize = self.first_file_index + size - 1;
            if new_file_index < image_paths.len() {
                return self.spawn_load(new_file_index, &image_paths[new_file_index]);
            }
        }
        None
    }

    /// Shift the window for backward navigation. Returns the decode to start
    /// for the file that comes in at its left.
    pub fn navigate_backward(&mut self, new_index: usize, image_paths: &Vec<String>) -> (r: Option<DecodeJob>)
        requires
            old(self).wf(),
            old(self).first_file_index <= new_index,
            new_index - old(self).first_file_index < old(self).cache_count ==> old(self).first_file_index
                <= image_paths@.len(),
        ensures
            final(self).wf(),
            (final(self)@, jobs_of(r)) == backward(old(self)@, new_index as int, image_paths@),
    {
        let ghost start = self@;
        if new_index - self.first_file_index < self.cache_count && self.first_file_index > 0 {
            let gone = self.slots.pop();
            self.slots.insert(0, None);
            self.first_file_index = self.first_file_index - 1;
            assert(self.slots@ =~= start.slots.drop_last().insert(0, None));
            return self.spawn_load(self.first_file_index, &image_paths[self.first_file_index]);
        }
        None
    }

    /// Rebuild the window around a new position (slider release, Home/End).
    pub fn jump_to(&mut self, new_index: usize, center: Decoded<T, F>, image_paths: &Vec<String>) -> (r: Vec<DecodeJob>)
        requires
            old(self).wf(),
            image_paths@.len() > 0 ==> new_index < image_paths@.len(),
            image_paths@.len() + 2 * old(self).cache_count + 1 <= usize::MAX,
        ensures
            final(self).wf(),
            if image_paths@.len() == 0 {
                final(self)@ == old(self)@ && r@.len() == 0
            } else {
                (final(self)@, r@) == built_around(old(self)@, new_index as int, center, image_paths@)
            },
    {
        self.initialize(new_index, center, image_paths)
    }

    /// Change the half-size of the window and rebuild it around the current
    /// position. Nothing changes when the size stays.
    pub fn set_cache_count(&mut self, cache_count: usize, current_index: usize, center: Decoded<T, F>, image_paths: &Vec<String>) -> (r: Vec<DecodeJob>)
        requires
            old(self).wf(),
            cache_count != old(self).cache_count ==> {
                &&& current_index < image_paths@.len()
                &&& image_paths@.len() + 2 * cache_count + 1 <= usize::MAX
            },
        ensures
            final(self).wf(),
            if cache_count == old(self).cache_count {
                final(self)@ == old(self)@ && r@.len() == 0
            } else {
                (final(self)@, r@) == built_around(
                    (WindowState { count: cache_count as int, ..old(self)@ }),
                    current_index as int,
                    center,
                    image_paths@,
                )
            },
    {
        if self.cache_count == cache_count {
            return Vec::new();
        }
        let ghost start = self@;
        self.cache_count = cache_count;
        self.slots = empty_slots(cache_count);
        self.first_file_index = 0;
        let ghost resized = self@;
        let r = self.initialize(current_index, center, image_paths);
        assert(built_around(resized, current_index as int, center, image_paths@) == built_around(
            WindowState { count: cache_count as int, ..start },
            current_index as int,
            center,
            image_paths@,
        ));
        r
    }

    pub fn set_decode_threads(&mut self, n: usize)
        ensures
            final(self)@ == (WindowState { threads: if n > 1 { n as int } else { 1 }, ..old(self)@ }),
            old(self).wf() ==> final(self).wf(),
    {
        self.max_decode_threads = if n > 1 { n } else { 1 };
    }

    /// What is in the window for a file, if anything.
    pub fn decoded_for(&self, file_index: usize) -> (r: Option<&Decoded<T, F>>)
        ensures
            match r {
                Some(d) => lookup(self@, file_index as int) == Some(*d),
                None => lookup(self@, file_index as int) is None,
            },
    {
        match self.slot_index_for(file_index) {
            Some(k) => self.slots[k].as_ref(),
            None => None,
        }
    }

    /// The picture of a file, if it is in the window.
    pub fn loaded_for(&self, file_index: usize) -> (r: Option<&Loaded<T>>)
        ensures
            match r {
                Some(loaded) => lookup(self@, file_index as int) == Some(Decoded::<T, F>::Image(*loaded)),
                None => !(lookup(self@, file_index as int) matches Some(Decoded::Image(_))),
            },
    {
        match self.decoded_for(file_index) {
            Some(Decoded::Image(loaded)) => Some(loaded),
            _ => None,
        }
    }

    /// Whether nothing is being decoded or waits for a thread or an upload.
    pub fn is_settled(&self) -> (r: bool)
        ensures
            r == (self@.running.len() == 0 && self@.queued.len() == 0 && self@.uploads.len() == 0),
    {
        self.running_decodes.len() == 0 && self.pending_decodes.len() == 0 && self.pending_uploads.len() == 0
    }
}

/// A list of one job, or of none.
pub open spec fn jobs_of(job: Option<DecodeJob>) -> Seq<DecodeJob> {
    match job {
        Some(job) => seq![job],
        None => Seq::empty(),
    }
}

/// The window after a step forward to `new_index`, and the decodes to start.
pub open spec fn forward<T, I, F>(s: WindowState<T, I, F>, new_index: int, paths: Seq<String>) -> (WindowState<T, I, F>, Seq<DecodeJob>) {
    if new_index - s.first > s.count {
        let moved = WindowState { slots: s.slots.drop_first().push(None), first: s.first + 1, ..s };
        let right = s.first + s.slots.len();
        if right < paths.len() {
            load(moved, DecodeJob { file_index: right as usize, path: paths[right] })
        } else {
            (moved, Seq::empty())
        }
    } else {
        (s, Seq::empty())
    }
}

/// The window after a step back to `new_index`, and the decodes to start.
pub open spec fn backward<T, I, F>(s: WindowState<T, I, F>, new_index: int, paths: Seq<String>) -> (WindowState<T, I, F>, Seq<DecodeJob>) {
    if new_index - s.first < s.count && s.first > 0 {
        load(
            WindowState { slots: s.slots.drop_last().insert(0, None), first: s.first - 1, ..s },
            DecodeJob { file_index: (s.first - 1) as usize, path: paths[s.first - 1] },
        )
    } else {
        (s, Seq::empty())
    }
}

/// A step moves the window by one file at most and keeps every picture that
/// is still inside it.
pub proof fn law_a_step_keeps_the_pictures_inside<T, I, F>(s: WindowState<T, I, F>, new_index: int, paths: Seq<String>, file_index: int)
    requires
        s.slots.len() == 2 * s.count + 1,
        s.count >= 0,
    ensures
        slot_of(forward(s, new_index, paths).0, file_index) is Some && slot_of(s, file_index) is Some ==> lookup(
            forward(s, new_index, paths).0,
            file_index,
        ) == lookup(s, file_index),
        slot_of(backward(s, new_index, paths).0, file_index) is Some && slot_of(s, file_index) is Some
            ==> lookup(backward(s, new_index, paths).0, file_index) == lookup(s, file_index),
        forward(s, new_index, paths).0.slots.len() == s.slots.len(),
        backward(s, new_index, paths).0.slots.len() == s.slots.len(),
{
}

/// Asking for a decode does not move the window.
proof fn lemma_load_keeps_first<T, I, F>(s: WindowState<T, I, F>, job: DecodeJob)
    ensures
        load(s, job).0.first == s.first,
        load(s, job).0.slots == s.slots,
{
}

/// As many empty slots as a window has.
fn empty_slots<T, F>(cache_count: usize) -> (r: Vec<Option<Decoded<T, F>>>)
    requires
        2 * cache_count + 1 <= usize::MAX,
    ensures
        r@ == Seq::new((2 * cache_count + 1) as nat, |i: int| None::<Decoded<T, F>>),
{
    let size: usize = 2 * cache_count + 1;
    let mut r: Vec<Option<Decoded<T, F>>> = Vec::new();
    let mut i: usize = 0;
    while i < size
        invariant
            i <= size,
            r@ == Seq::new(i as nat, |k: int| None::<Decoded<T, F>>),
        decreases size - i,
    {
        r.push(None);
        i += 1;
        assert(r@ =~= Seq::new(i as nat, |k: int| None::<Decoded<T, F>>));
    }
    r
}

/// The name of a file of the list.
fn name_of(image_paths: &Vec<String>, file_index: usize) -> (r: String)
    ensures
        r@ == name_for(image_paths@, file_index as int),
{
    if file_index < image_paths.len() {
        match file_name(image_paths[file_index].as_str()) {
            Some(name) => name,
            None => String::new(),
        }
    } else {
        String::new()
    }
}

impl<T, I, F> SlidingWindowCache<T, I, F> {
    /// Renumbers the running decodes.
    fn move_running(&mut self, removed: usize)
        requires
            old(self).wf(),
        ensures
            final(self).wf(),
            final(self)@ == (WindowState {
                running: mapped(
                    old(self)@.running,
                    moved_running(removed as int),
                    old(self)@.running.len(),
                ),
                ..old(self)@
            }),
    {
        let ghost list = self.running_decodes@;
        let ghost f = moved_running(removed as int);
        let mut left: Vec<RunningDecode> = Vec::new();
        std::mem::swap(&mut left, &mut self.running_decodes);
        let ghost mut n: nat = 0;
        assert(left@ =~= list.skip(0));
        assert(self.running_decodes@ =~= mapped(list, f, 0));
        while left.len() > 0
            invariant
                n <= list.len(),
                f == moved_running(removed as int),
                left@ == list.skip(n as int),
                self.running_decodes@ == mapped(list, f, n),
                self.slots == old(self).slots,
                self.first_file_index == old(self).first_file_index,
                self.cache_count == old(self).cache_count,
                self.pending_uploads == old(self).pending_uploads,
                self.pending_decodes == old(self).pending_decodes,
                self.max_decode_threads == old(self).max_decode_threads,
            decreases left@.len(),
        {
            let e = left.remove(0);
            assert(e == list[n as int]);
            if let Some(file_index) = shift_index(e.file_index, removed) {
                self.running_decodes.push(RunningDecode { path: e.path, file_index });
            }
            proof {
                n = n + 1;
                assert(left@ =~= list.skip(n as int));
            }
        }
        proof {
            assert(n == list.len());
            lemma_mapped_paths(list, removed as int, n);
        }
    }

    /// Renumbers the queued decodes.
    fn move_queued(&mut self, removed: usize)
        requires
            old(self).wf(),
        ensures
            final(self).wf(),
            final(self)@ == (WindowState {
                queued: mapped(old(self)@.queued, moved_job(removed as int), old(self)@.queued.len()),
                ..old(self)@
            }),
    {
        let ghost list = self.pending_decodes@;
        let ghost f = moved_job(removed as int);
        let mut left: Vec<DecodeJob> = Vec::new();
        std::mem::swap(&mut left, &mut self.pending_decodes);
        let ghost mut n: nat = 0;
        assert(left@ =~= list.skip(0));
        assert(self.pending_decodes@ =~= mapped(list, f, 0));
        while left.len() > 0
            invariant
                n <= list.len(),
                f == moved_job(removed as int),
                left@ == list.skip(n as int),
                self.pending_decodes@ == mapped(list, f, n),
                self.slots == old(self).slots,
                self.first_file_index == old(self).first_file_index,
                self.cache_count == old(self).cache_count,
                self.pending_uploads == old(self).pending_uploads,
                self.running_decodes == old(self).running_decodes,
                self.max_decode_threads == old(self).max_decode_threads,
            decreases left@.len(),
        {
            let e = left.remove(0);
            assert(e == list[n as int]);
            if let Some(file_index) = shift_index(e.file_index, removed) {
                self.pending_decodes.push(DecodeJob { path: e.path, file_index });
            }
            proof {
                n = n + 1;
                assert(left@ =~= list.skip(n as int));
            }
        }
        assert(n == list.len());
    }

    /// Renumbers the pictures that wait for their upload.
    fn move_uploads(&mut self, removed: usize)
        requires
            old(self).wf(),
        ensures
            final(self).wf(),
            final(self)@ == (WindowState {
                uploads: mapped(
                    old(self)@.uploads,
                    moved_upload(removed as int),
                    old(self)@.uploads.len(),
                ),
                ..old(self)@
            }),
    {
        let ghost list = self@.uploads;
        let ghost f = moved_upload::<I>(removed as int);
        let mut left: Vec<PendingUpload<I>> = Vec::new();
        std::mem::swap(&mut left, &mut self.pending_uploads);
        let ghost mut n: nat = 0;
        assert(upload_views(left@) =~= list.skip(0));
        assert(upload_views(self.pending_uploads@) =~= mapped(list, f, 0));
        while left.len() > 0
            invariant
                n <= list.len(),
                f == moved_upload::<I>(removed as int),
                upload_views(left@) == list.skip(n as int),
                upload_views(self.pending_uploads@) == mapped(list, f, n),
                self.slots == old(self).slots,
                self.first_file_index == old(self).first_file_index,
                self.cache_count == old(self).cache_count,
                self.pending_decodes == old(self).pending_decodes,
                self.running_decodes == old(self).running_decodes,
                self.max_decode_threads == old(self).max_decode_threads,
            decreases left@.len(),
        {
            let ghost before = left@;
            let ghost kept = self.pending_uploads@;
            let e = left.remove(0);
            proof {
                assert(upload_views(before) == list.skip(n as int));
                assert(upload_views(before).len() == before.len());
                assert(list.skip(n as int).len() == list.len() - n);
                assert(upload_views(before)[0] == before[0]@);
                assert(list.skip(n as int)[0] == list[n as int]);
                assert forall|i: int| 0 <= i < left@.len() implies #[trigger] upload_views(left@)[i] == list.skip(
                    n as int + 1,
                )[i] by {
                    assert(upload_views(before)[i + 1] == before[i + 1]@);
                    assert(list.skip(n as int)[i + 1] == list[n + i + 1]);
                }
                assert(upload_views(left@) =~= list.skip(n as int + 1));
            }
            if let Some(file_index) = shift_index(e.file_index, removed) {
                let u = PendingUpload { file_index, image: e.image, name: e.name };
                self.pending_uploads.push(u);
                assert(upload_views(self.pending_uploads@) =~= upload_views(kept).push(u@));
            }
            proof {
                n = n + 1;
            }
        }
        proof {
            assert(upload_views(left@).len() == 0);
            assert(n == list.len());
        }
    }

    /// The file at `removed` left the list. `image_paths` is the list after
    /// removal. Every file above `removed` now has an index one lower, so
    /// the window and all bookkeeping shift with it; nothing is re-decoded
    /// except the one file that enters the window to fill the gap.
    ///
    /// Three cases for the window `[first, first + size)`:
    /// - `removed < first`: the window's files are unchanged, only their
    ///   numbering moved. Decrement `first`.
    /// - inside the window: drop that slot. Fill from the right if the
    ///   list still has a file there, else from the left if the window
    ///   can move back, else leave an empty slot (list shorter than the
    ///   window).
    /// - `removed` past the window: nothing changes.
    ///
    /// Returns the decode to start.
    pub fn remove_index(&mut self, removed: usize, image_paths: &Vec<String>) -> (r: Option<DecodeJob>)
        requires
            old(self).wf(),
            removed <= image_paths@.len(),
        ensures
            final(self).wf(),
            (final(self)@, jobs_of(r)) == without_file(old(self)@, removed as int, image_paths@),
    {
        let ghost start = self@;
        let num_files: usize = image_paths.len();
        let size: usize = self.slots.len();
        let first: usize = self.first_file_index;
        // Renumber everything that still refers to file indices before
        // any new load is queued, so the fill load below keeps its index.
        // Entries for the removed file are dropped; a thread still
        // decoding it reports a path no longer tracked and `poll` ignores
        // it.
        self.move_running(removed);
        self.move_queued(removed);
        self.move_uploads(removed);
        assert(self@ =~= renumbered(start, removed as int));
        if removed < first {
            self.first_file_index = first - 1;
        } else if removed < first + size {
            let gone = self.slots.remove(removed - first);
            let ghost rest = self.slots@;
            let right: usize = first + size - 1;
            if right < num_files {
                self.slots.push(None);
                assert(self@ =~= WindowState { slots: rest.push(None), ..renumbered(start, removed as int) });
                return self.spawn_load(right, &image_paths[right]);
            } else if first > 0 {
                self.first_file_index = first - 1;
                self.slots.insert(0, None);
                assert(self@ =~= WindowState {
                    slots: rest.insert(0, None),
                    first: first - 1,
                    ..renumbered(start, removed as int)
                });
                return self.spawn_load(first - 1, &image_paths[first - 1]);
            } else {
                self.slots.push(None);
            }
        }
        None
    }

    /// How many slots have something in them.
    fn count_loaded(&self) -> (r: usize)
        ensures
            r == loaded_count(self.slots@, self.slots@.len()),
    {
        let mut r: usize = 0;
        let mut i: usize = 0;
        while i < self.slots.len()
            invariant
                i <= self.slots@.len(),
                r <= i,
                r == loaded_count(self.slots@, i as nat),
            decreases self.slots@.len() - i,
        {
            if self.slots[i].is_some() {
                r += 1;
            }
            i += 1;
        }
        r
    }

    /// Returns a compact summary of the cache window for debug logging.
    /// Format: `[first..last] loaded/total inflight=N`
    pub fn summary(&self) -> (r: String)
        requires
            self.wf(),
        ensures
            r@ == summary_text(self@),
    {
        let last: usize = self.first_file_index + self.slots.len() - 1;
        let loaded: usize = self.count_loaded();
        let mut r = String::new();
        r.push('[');
        push_decimal(&mut r, self.first_file_index as u64);
        r.push('.');
        r.push('.');
        push_decimal(&mut r, last as u64);
        r.push(']');
        r.push(' ');
        push_decimal(&mut r, loaded as u64);
        r.push('/');
        push_decimal(&mut r, self.slots.len() as u64);
        let ghost start = seq!['['] + text::decimal(self.first_file_index as nat) + seq!['.', '.'] + text::decimal(
            last as nat,
        ) + seq![']', ' '] + text::decimal(loaded_count(self.slots@, self.slots@.len())) + seq!['/']
            + text::decimal(self.slots@.len());
        assert(r@ =~= start);
        if self.running_decodes.len() > 0 {
            r.append(" inflight=");
            push_decimal(&mut r, self.running_decodes.len() as u64);
        }
        r
    }

    /// Total bytes of the pictures in the sliding window.
    pub fn total_bytes(&self) -> (r: usize)
        requires
            slot_bytes(self.slots@, self.slots@.len()) <= usize::MAX,
        ensures
            r == slot_bytes(self.slots@, self.slots@.len()),
    {
        let mut r: usize = 0;
        let mut i: usize = 0;
        while i < self.slots.len()
            invariant
                i <= self.slots@.len(),
                slot_bytes(self.slots@, self.slots@.len()) <= usize::MAX,
                r == slot_bytes(self.slots@, i as nat),
            decreases self.slots@.len() - i,
        {
            proof {
                lemma_slot_bytes_grow(self.slots@, (i + 1) as nat, self.slots@.len());
            }
            if let Some(Decoded::Image(loaded)) = &self.slots[i] {
                proof {
                    lemma_slot_bytes_grow(self.slots@, 0, i as nat);
                    assert(loaded.width * loaded.height <= loaded.width * loaded.height * 4) by (nonlinear_arith);
                }
                r = r + loaded.width * loaded.height * 4;
            }
            i += 1;
        }
        r
    }

    /// What the debug overlay shows: the state of each slot.
    pub fn debug_overlay(&self, current_index: usize, num_files: usize) -> (r: DebugOverlay)
        requires
            self.wf(),
        ensures
            r.first == self.first_file_index,
            r.last == ({
                let last = self.first_file_index + self.slots@.len() - 1;
                let end = if num_files > 0 { num_files - 1 } else { 0 };
                if last < end { last } else { end }
            }),
            r.cells@ == Seq::new(
                self.slots@.len(),
                |k: int| cell_for(self@, k, current_index as int, num_files as int),
            ),
    {
        let last_file: usize = self.first_file_index + self.slots.len() - 1;
        let end: usize = if num_files > 0 { num_files - 1 } else { 0 };
        let mut cells: Vec<OverlayCell> = Vec::new();
        let mut k: usize = 0;
        while k < self.slots.len()
            invariant
                k <= self.slots@.len(),
                self.wf(),
                cells@ == Seq::new(
                    k as nat,
                    |j: int| cell_for(self@, j, current_index as int, num_files as int),
                ),
            decreases self.slots@.len() - k,
        {
            let file_index: usize = self.first_file_index + k;
            let state = if file_index >= num_files {
                CellState::Outside
            } else if self.slots[k].is_some() {
                CellState::Loaded
            } else if self.has_running(file_index) {
                CellState::Loading
            } else {
                CellState::Empty
            };
            cells.push(OverlayCell { file_index, is_current: file_index == current_index, state });
            k += 1;
            assert(cells@ =~= Seq::new(
                k as nat,
                |j: int| cell_for(self@, j, current_index as int, num_files as int),
            ));
        }
        DebugOverlay {
            first: self.first_file_index,
            last: if last_file < end { last_file } else { end },
            cells,
        }
    }

    /// Whether a file is being decoded.
    fn has_running(&self, file_index: usize) -> (r: bool)
        ensures
            r == is_running(self.running_decodes@, file_index as int),
    {
        let mut i: usize = 0;
        while i < self.running_decodes.len()
            invariant
                i <= self.running_decodes@.len(),
                forall|k: int| 0 <= k < i ==> (#[trigger] self.running_decodes@[k]).file_index != file_index,
            decreases self.running_decodes@.len() - i,
        {
            if self.running_decodes[i].file_index == file_index {
                assert(self.running_decodes@[i as int].file_index == file_index);
                return true;
            }
            i += 1;
        }
        false
    }
}

/// More slots never take fewer bytes.
proof fn lemma_slot_bytes_grow<T, F>(slots: Seq<Option<Decoded<T, F>>>, m: nat, n: nat)
    requires
        m <= n <= slots.len(),
    ensures
        0 <= slot_bytes(slots, m) <= slot_bytes(slots, n),
    decreases n,
{
    if n > 0 {
        if let Some(Decoded::Image(loaded)) = slots[n - 1] {
            assert(loaded.width * loaded.height * 4 >= 0) by (nonlinear_arith);
        }
        if m < n {
            lemma_slot_bytes_grow(slots, m, (n - 1) as nat);
        } else {
            lemma_slot_bytes_grow(slots, (n - 1) as nat, (n - 1) as nat);
        }
    }
}

} // verus!
