//! What the sliding window owes to navigation: no file that it reaches is left
//! without a picture or a decode on its way.
use vstd::prelude::*;

use crate::cache::window;
use crate::cache::window::{Decoded, DecodeJob, RunningDecode, WindowState};

verus! {

/// Whether a list names no file twice.
pub open spec fn no_repeats(paths: Seq<String>) -> bool {
    forall|i: int, j: int| 0 <= i < j < paths.len() ==> (#[trigger] paths[i])@ != (#[trigger] paths[j])@
}

/// Whether a path is being decoded for a file.
pub open spec fn runs_for(running: Seq<RunningDecode>, p: Seq<char>, i: int) -> bool {
    exists|k: int| 0 <= k < running.len() && (#[trigger] running[k]).path@ == p && running[k].file_index == i
}

/// Whether a path waits for a thread, for a file.
pub open spec fn waits_for(queued: Seq<DecodeJob>, p: Seq<char>, i: int) -> bool {
    exists|k: int| 0 <= k < queued.len() && (#[trigger] queued[k]).path@ == p && queued[k].file_index == i
}

/// Whether a decoded picture of a file waits for its upload.
pub open spec fn is_uploading<T, I, F>(s: WindowState<T, I, F>, i: int) -> bool {
    exists|k: int| 0 <= k < s.uploads.len() && (#[trigger] s.uploads[k]).file_index == i
}

/// Whether a file of the window has its picture, or it is on its way.
pub open spec fn is_served<T, I, F>(s: WindowState<T, I, F>, paths: Seq<String>, i: int) -> bool {
    ||| s.slots[i - s.first] is Some
    ||| runs_for(s.running, paths[i]@, i)
    ||| waits_for(s.queued, paths[i]@, i)
    ||| is_uploading(s, i)
}

/// Whether every file of the list that the window reaches is served, and every
/// decode is that of the file of the list that it names, once.
pub open spec fn serves<T, I, F>(s: WindowState<T, I, F>, paths: Seq<String>) -> bool {
    &&& forall|i: int|
        s.first <= i < s.first + s.slots.len() && 0 <= i < paths.len() ==> #[trigger] is_served(s, paths, i)
    &&& forall|k: int|
        0 <= k < s.running.len() ==> (#[trigger] s.running[k]).file_index < paths.len() && s.running[k].path@
            == paths[s.running[k].file_index as int]@
    &&& forall|k: int|
        0 <= k < s.queued.len() ==> (#[trigger] s.queued[k]).file_index < paths.len() && s.queued[k].path@
            == paths[s.queued[k].file_index as int]@
    &&& window::distinct_paths(s.running)
}

/// Asking for a decode serves its file, and takes nothing from another one.
proof fn lemma_load<T, I, F>(s: WindowState<T, I, F>, paths: Seq<String>, i: int)
    requires
        no_repeats(paths),
        0 <= i < paths.len() <= usize::MAX,
        forall|k: int|
            0 <= k < s.running.len() ==> (#[trigger] s.running[k]).file_index < paths.len() && s.running[k].path@
                == paths[s.running[k].file_index as int]@,
        forall|k: int|
            0 <= k < s.queued.len() ==> (#[trigger] s.queued[k]).file_index < paths.len() && s.queued[k].path@
                == paths[s.queued[k].file_index as int]@,
        window::distinct_paths(s.running),
    ensures
        ({
            let after = window::load(s, DecodeJob { file_index: i as usize, path: paths[i] }).0;
            &&& after.slots == s.slots
            &&& after.first == s.first
            &&& after.uploads == s.uploads
            &&& after.threads == s.threads
            &&& after.count == s.count
            &&& runs_for(after.running, paths[i]@, i) || waits_for(after.queued, paths[i]@, i)
            &&& forall|j: int| #![trigger is_served(after, paths, j)] is_served(s, paths, j) ==> is_served(after, paths, j)
            &&& forall|k: int|
                0 <= k < after.running.len() ==> (#[trigger] after.running[k]).file_index < paths.len()
                    && after.running[k].path@ == paths[after.running[k].file_index as int]@
            &&& forall|k: int|
                0 <= k < after.queued.len() ==> (#[trigger] after.queued[k]).file_index < paths.len()
                    && after.queued[k].path@ == paths[after.queued[k].file_index as int]@
            &&& window::distinct_paths(after.running)
        }),
{
    let job = DecodeJob { file_index: i as usize, path: paths[i] };
    let after = window::load(s, job).0;
    window::lemma_running_at(s.running, job.path@);
    if let Some(k) = window::running_at(s.running, job.path@) {
        let f = s.running[k].file_index as int;
        assert(paths[f]@ == paths[i]@);
        assert(f == i);
        assert(after.running[k].file_index == i);
    } else if window::is_queued(s.queued, job.file_index) {
        let k = choose|k: int| 0 <= k < s.queued.len() && (#[trigger] s.queued[k]).file_index == job.file_index;
        assert(after.queued[k].file_index == i);
    } else if s.running.len() < s.threads {
        assert(after.running.last().file_index == i);
    } else {
        assert(after.queued.last().file_index == i);
    }
    assert forall|j: int| #![trigger is_served(after, paths, j)] is_served(s, paths, j) implies is_served(after, paths, j) by {
        lemma_still_served(s, after, paths, j);
    }
}

/// What is served stays so while nothing is taken out.
proof fn lemma_still_served<T, I, F>(s: WindowState<T, I, F>, t: WindowState<T, I, F>, paths: Seq<String>, j: int)
    requires
        is_served(s, paths, j),
        t.slots == s.slots,
        t.first == s.first,
        s.running.len() <= t.running.len(),
        s.queued.len() <= t.queued.len(),
        s.uploads.len() <= t.uploads.len(),
        forall|k: int| 0 <= k < s.running.len() ==> #[trigger] t.running[k] == s.running[k],
        forall|k: int| 0 <= k < s.queued.len() ==> #[trigger] t.queued[k] == s.queued[k],
        forall|k: int| 0 <= k < s.uploads.len() ==> #[trigger] t.uploads[k] == s.uploads[k],
    ensures
        is_served(t, paths, j),
{
    if runs_for(s.running, paths[j]@, j) {
        let k = choose|k: int| 0 <= k < s.running.len() && (#[trigger] s.running[k]).path@ == paths[j]@ && s.running[k].file_index == j;
        assert(t.running[k] == s.running[k]);
    }
    if waits_for(s.queued, paths[j]@, j) {
        let k = choose|k: int| 0 <= k < s.queued.len() && (#[trigger] s.queued[k]).path@ == paths[j]@ && s.queued[k].file_index == j;
        assert(t.queued[k] == s.queued[k]);
    }
    if is_uploading(s, j) {
        let k = choose|k: int| 0 <= k < s.uploads.len() && (#[trigger] s.uploads[k]).file_index == j;
        assert(t.uploads[k] == s.uploads[k]);
    }
}

/// Whether a path is being decoded.
pub open spec fn runs(running: Seq<RunningDecode>, p: Seq<char>) -> bool {
    exists|k: int| 0 <= k < running.len() && (#[trigger] running[k]).path@ == p
}

/// What asking for the files of the first `n` slots leaves behind, where
/// nothing was running or waiting before.
pub open spec fn are_asked_for<T, I, F>(
    base: WindowState<T, I, F>,
    paths: Seq<String>,
    skip: int,
    n: nat,
    t: WindowState<T, I, F>,
    jobs: Seq<DecodeJob>,
) -> bool {
    &&& t.slots == base.slots
    &&& t.first == base.first
    &&& t.count == base.count
    &&& t.uploads == base.uploads
    &&& t.threads == base.threads
    &&& forall|i: int|
        base.first <= i < base.first + n && i < paths.len() && i - base.first != skip ==> #[trigger] runs(
            t.running,
            paths[i]@,
        ) || waits_for(t.queued, paths[i]@, i)
    &&& forall|k: int|
        0 <= k < t.running.len() ==> base.first <= (#[trigger] t.running[k]).file_index < base.first + n
            && t.running[k].file_index < paths.len() && t.running[k].file_index != base.first + skip
            && t.running[k].path == paths[t.running[k].file_index as int]
    &&& forall|k: int|
        0 <= k < t.queued.len() ==> base.first <= (#[trigger] t.queued[k]).file_index < base.first + n
            && t.queued[k].file_index < paths.len() && t.queued[k].file_index != base.first + skip
            && t.queued[k].path == paths[t.queued[k].file_index as int]
    &&& jobs.len() == t.running.len()
    &&& forall|k: int|
        0 <= k < jobs.len() ==> (#[trigger] jobs[k]).path == t.running[k].path && jobs[k].file_index
            == t.running[k].file_index
    &&& t.running.len() <= t.threads
    &&& t.queued.len() > 0 ==> t.running.len() == t.threads
    &&& window::distinct_paths(t.running)
    &&& forall|j: int, k: int|
        0 <= j < k < t.queued.len() ==> (#[trigger] t.queued[j]).file_index < (#[trigger] t.queued[k]).file_index
    &&& forall|j: int, k: int|
        0 <= j < t.running.len() && 0 <= k < t.queued.len() ==> (#[trigger] t.running[j]).path@
            != (#[trigger] t.queued[k]).path@
}

proof fn lemma_load_slots<T, I, F>(base: WindowState<T, I, F>, paths: Seq<String>, skip: int, n: nat)
    requires
        base.running.len() == 0,
        base.queued.len() == 0,
        base.first >= 0,
        base.threads >= 0,
        base.first + n <= usize::MAX,
    ensures
        are_asked_for(
            base,
            paths,
            skip,
            n,
            window::load_slots(base, paths, skip, n).0,
            window::load_slots(base, paths, skip, n).1,
        ),
    decreases n,
{
    if n > 0 {
        let m = (n - 1) as nat;
        lemma_load_slots(base, paths, skip, m);
        let before = window::load_slots(base, paths, skip, m);
        let (t, jobs) = window::load_slots(base, paths, skip, n);
        let i = base.first + n - 1;
        if n - 1 == skip || i >= paths.len() {
        } else {
            let job = DecodeJob { file_index: i as usize, path: paths[i] };
            let s = before.0;
            window::lemma_running_at(s.running, job.path@);
            assert(jobs =~= before.1 + window::load(s, job).1);
            if let Some(k) = window::running_at(s.running, job.path@) {
                assert(t.running[k].path@ == paths[i]@);
            } else {
                assert(!window::is_queued(s.queued, job.file_index));
                if s.running.len() < s.threads {
                    assert(s.queued.len() == 0);
                    assert(t.running == s.running.push(RunningDecode { path: job.path, file_index: job.file_index }));
                    assert(t.running.last().path@ == paths[i]@);
                } else {
                    assert(t.queued == s.queued.push(job));
                    assert(t.queued.last().path@ == paths[i]@);
                    assert(t.queued.last().file_index == i);
                }
            }
            assert forall|j: int|
                base.first <= j < base.first + n && j < paths.len() && j - base.first != skip implies #[trigger] runs(
                t.running,
                paths[j]@,
            ) || waits_for(t.queued, paths[j]@, j) by {
                if j < i {
                    assert(runs(s.running, paths[j]@) || waits_for(s.queued, paths[j]@, j));
                    if runs(s.running, paths[j]@) {
                        let k = choose|k: int| 0 <= k < s.running.len() && (#[trigger] s.running[k]).path@ == paths[j]@;
                        assert(t.running[k].path@ == paths[j]@);
                    } else {
                        let k = choose|k: int|
                            0 <= k < s.queued.len() && (#[trigger] s.queued[k]).path@ == paths[j]@
                                && s.queued[k].file_index == j;
                        assert(t.queued[k] == s.queued[k]);
                    }
                }
            }
        }
    }
}

/// Opening a picture, or jumping to one, asks for every other file of the
/// window: each file of the list between the ends of the window is the picture
/// itself, or its path is being decoded, or it waits for a thread. Nothing
/// else is asked for, and nothing twice. The decodes that are to be started are
/// those that run; no more run than there are threads, and none waits while a
/// thread is free. Of the slots only that of the picture is filled.
pub proof fn law_opening_asks_for_every_neighbour<T, I, F>(
    s: WindowState<T, I, F>,
    center_index: int,
    center: Decoded<T, F>,
    paths: Seq<String>,
    i: int,
)
    requires
        0 <= center_index < paths.len(),
        0 <= s.count,
        0 <= s.threads,
        paths.len() + 2 * s.count + 1 <= usize::MAX,
    ensures
        ({
            let (t, jobs) = window::built_around(s, center_index, center, paths);
            let last = t.first + 2 * s.count;
            &&& t.slots.len() == 2 * s.count + 1
            &&& t.count == s.count
            &&& t.threads == s.threads
            &&& t.uploads.len() == 0
            &&& 0 <= t.first <= center_index <= last
            &&& t.slots[center_index - t.first] == Some(center)
            &&& t.first <= i <= last && i != center_index ==> t.slots[i - t.first] is None
            &&& t.first <= i <= last && i < paths.len() && i != center_index ==> {
                ||| exists|k: int| 0 <= k < t.running.len() && (#[trigger] t.running[k]).path@ == paths[i]@
                ||| exists|k: int|
                    0 <= k < t.queued.len() && (#[trigger] t.queued[k]).path@ == paths[i]@ && t.queued[k].file_index
                        == i
            }
            &&& 0 <= i < t.running.len() ==> t.first <= t.running[i].file_index <= last && t.running[i].file_index
                < paths.len() && t.running[i].file_index != center_index && t.running[i].path
                == paths[t.running[i].file_index as int]
            &&& 0 <= i < t.queued.len() ==> t.first <= t.queued[i].file_index <= last && t.queued[i].file_index
                < paths.len() && t.queued[i].file_index != center_index && t.queued[i].path
                == paths[t.queued[i].file_index as int]
            &&& jobs.len() == t.running.len()
            &&& 0 <= i < jobs.len() ==> jobs[i].path == t.running[i].path && jobs[i].file_index
                == t.running[i].file_index
            &&& t.running.len() <= s.threads
            &&& t.queued.len() > 0 ==> t.running.len() == s.threads
        }),
{
    let first = window::first_around(center_index, s.count, paths.len() as int);
    let size = (2 * s.count + 1) as nat;
    let base = WindowState {
        slots: Seq::new(size, |i: int| None::<Decoded<T, F>>).update(center_index - first, Some(center)),
        first,
        running: Seq::empty(),
        uploads: Seq::empty(),
        queued: Seq::empty(),
        ..s
    };
    lemma_load_slots(base, paths, center_index - first, size);
    let (t, jobs) = window::built_around(s, center_index, center, paths);
    if t.first <= i < t.first + size && i < paths.len() && i != center_index {
        assert(runs(t.running, paths[i]@) || waits_for(t.queued, paths[i]@, i));
    }
}

/// In a list that names no file twice, the file of each slot is being decoded
/// as that file, with a decode to start, or waits as that file.
pub proof fn law_opening_serves_the_window<T, I, F>(
    s: WindowState<T, I, F>,
    center_index: int,
    center: Decoded<T, F>,
    paths: Seq<String>,
)
    requires
        0 <= center_index < paths.len(),
        0 <= s.count,
        0 <= s.threads,
        paths.len() + 2 * s.count + 1 <= usize::MAX,
        no_repeats(paths),
    ensures
        serves(window::built_around(s, center_index, center, paths).0, paths),
        ({
            let (t, jobs) = window::built_around(s, center_index, center, paths);
            forall|i: int|
                t.first <= i < t.first + t.slots.len() && i < paths.len() && i != center_index ==> {
                    ||| exists|k: int| 0 <= k < jobs.len() && (#[trigger] jobs[k]).path@ == paths[i]@ && jobs[k].file_index == i
                    ||| #[trigger] waits_for(t.queued, paths[i]@, i)
                }
        }),
{
    let first = window::first_around(center_index, s.count, paths.len() as int);
    let size = (2 * s.count + 1) as nat;
    let base = WindowState {
        slots: Seq::new(size, |i: int| None::<Decoded<T, F>>).update(center_index - first, Some(center)),
        first,
        running: Seq::empty(),
        uploads: Seq::empty(),
        queued: Seq::empty(),
        ..s
    };
    lemma_load_slots(base, paths, center_index - first, size);
    let (t, jobs) = window::built_around(s, center_index, center, paths);
    assert forall|i: int|
        t.first <= i < t.first + t.slots.len() && i < paths.len() && i != center_index implies {
        ||| exists|k: int| 0 <= k < jobs.len() && (#[trigger] jobs[k]).path@ == paths[i]@ && jobs[k].file_index == i
        ||| #[trigger] waits_for(t.queued, paths[i]@, i)
    } by {
        assert(runs(t.running, paths[i]@) || waits_for(t.queued, paths[i]@, i));
        if runs(t.running, paths[i]@) {
            let k = choose|k: int| 0 <= k < t.running.len() && (#[trigger] t.running[k]).path@ == paths[i]@;
            let f = t.running[k].file_index as int;
            assert(paths[f]@ == paths[i]@);
            assert(f == i);
            assert(jobs[k].file_index == i);
        }
    }
    assert forall|i: int|
        t.first <= i < t.first + t.slots.len() && 0 <= i < paths.len() implies #[trigger] is_served(t, paths, i) by {
        if i != center_index {
            if !waits_for(t.queued, paths[i]@, i) {
                let k = choose|k: int| 0 <= k < jobs.len() && (#[trigger] jobs[k]).path@ == paths[i]@ && jobs[k].file_index == i;
                assert(t.running[k].file_index == i);
                assert(runs_for(t.running, paths[i]@, i));
            }
        }
    }
}

/// The window reaches every file of the list that is near enough to the file
/// that it is built around, and goes past the end of the list only where the
/// list is shorter than the window.
pub proof fn law_the_window_reaches_the_neighbours(center: int, count: int, files: int, j: int)
    requires
        0 <= center < files,
        0 <= count,
        0 <= j < files,
        center - count <= j <= center + count,
    ensures
        window::first_around(center, count, files) <= j < window::first_around(center, count, files) + 2 * count + 1,
        0 <= window::first_around(center, count, files),
        files >= 2 * count + 1 ==> window::first_around(center, count, files) + 2 * count + 1 <= files,
        files <= 2 * count + 1 ==> window::first_around(center, count, files) == 0,
{
}

/// A step serves the window that it leads to, and brings the picture that it
/// leads to back to the middle, as far as the list goes.
pub proof fn law_a_step_serves_the_window<T, I, F>(s: WindowState<T, I, F>, new_index: int, paths: Seq<String>)
    requires
        serves(s, paths),
        no_repeats(paths),
        0 <= s.first,
        0 <= s.count,
        s.slots.len() == 2 * s.count + 1,
        s.first + s.slots.len() < usize::MAX,
        paths.len() <= usize::MAX,
        0 <= new_index < paths.len(),
    ensures
        serves(window::forward(s, new_index, paths).0, paths),
        s.first <= paths.len() ==> serves(window::backward(s, new_index, paths).0, paths),
        new_index - s.first == s.count + 1 ==> window::forward(s, new_index, paths).0.first == s.first + 1,
        new_index - s.first <= s.count ==> window::forward(s, new_index, paths).0 == s,
        new_index - s.first == s.count - 1 && s.first > 0 ==> window::backward(s, new_index, paths).0.first == s.first
            - 1,
        new_index - s.first >= s.count || s.first == 0 ==> window::backward(s, new_index, paths).0 == s,
{
    let f = window::forward(s, new_index, paths).0;
    if new_index - s.first > s.count {
        let moved = WindowState { slots: s.slots.drop_first().push(None), first: s.first + 1, ..s };
        let right = s.first + s.slots.len();
        if right < paths.len() {
            lemma_load(moved, paths, right);
        }
        assert forall|i: int| f.first <= i < f.first + f.slots.len() && 0 <= i < paths.len() implies #[trigger] is_served(
            f,
            paths,
            i,
        ) by {
            if i < right {
                assert(is_served(s, paths, i));
                assert(moved.slots[i - moved.first] == s.slots[i - s.first]);
                assert(is_served(moved, paths, i));
            }
        }
    }
    let b = window::backward(s, new_index, paths).0;
    if new_index - s.first < s.count && s.first > 0 && s.first <= paths.len() {
        let moved = WindowState { slots: s.slots.drop_last().insert(0, None), first: s.first - 1, ..s };
        lemma_load(moved, paths, s.first - 1);
        assert forall|i: int| b.first <= i < b.first + b.slots.len() && 0 <= i < paths.len() implies #[trigger] is_served(
            b,
            paths,
            i,
        ) by {
            if i >= s.first {
                assert(is_served(s, paths, i));
                assert(moved.slots[i - moved.first] == s.slots[i - s.first]);
                assert(is_served(moved, paths, i));
            }
        }
    }
}

/// Starting what waits leaves no file of the window out.
proof fn lemma_start_queued<T, I, F>(s: WindowState<T, I, F>, paths: Seq<String>)
    requires
        serves(s, paths),
        no_repeats(paths),
    ensures
        serves(window::start_queued(s).0, paths),
        window::start_queued(s).0.slots == s.slots,
        window::start_queued(s).0.first == s.first,
        window::start_queued(s).0.uploads == s.uploads,
    decreases s.queued.len(),
{
    if s.running.len() < s.threads && s.queued.len() > 0 {
        let job = s.queued[0];
        let rest = WindowState { queued: s.queued.drop_first(), ..s };
        let next = if window::slot_of(s, job.file_index as int) is Some {
            WindowState { running: window::with_running(s.running, job), ..rest }
        } else {
            rest
        };
        window::lemma_running_at(s.running, job.path@);
        let f = job.file_index as int;
        if let Some(k) = window::running_at(s.running, job.path@) {
            let g = s.running[k].file_index as int;
            assert(paths[g]@ == paths[f]@);
            assert(g == f);
        }
        assert forall|k: int| 0 <= k < next.queued.len() implies (#[trigger] next.queued[k]).file_index < paths.len()
            && next.queued[k].path@ == paths[next.queued[k].file_index as int]@ by {
            assert(next.queued[k] == s.queued[k + 1]);
        }
        if window::slot_of(s, f) is Some {
            assert(runs_for(next.running, paths[f]@, f)) by {
                if let Some(k) = window::running_at(s.running, job.path@) {
                    assert(next.running[k].file_index == f);
                } else {
                    assert(next.running.last().file_index == f);
                }
            }
        }
        assert forall|i: int|
            next.first <= i < next.first + next.slots.len() && 0 <= i < paths.len() implies #[trigger] is_served(
            next,
            paths,
            i,
        ) by {
            assert(is_served(s, paths, i));
            if runs_for(s.running, paths[i]@, i) {
                let k = choose|k: int|
                    0 <= k < s.running.len() && (#[trigger] s.running[k]).path@ == paths[i]@ && s.running[k].file_index
                        == i;
                assert(next.running[k].path@ == paths[i]@ && next.running[k].file_index == i);
            }
            if waits_for(s.queued, paths[i]@, i) {
                let k = choose|k: int|
                    0 <= k < s.queued.len() && (#[trigger] s.queued[k]).path@ == paths[i]@ && s.queued[k].file_index
                        == i;
                if k > 0 {
                    assert(next.queued[k - 1] == s.queued[k]);
                }
            }
            if is_uploading(s, i) {
                let k = choose|k: int| 0 <= k < s.uploads.len() && (#[trigger] s.uploads[k]).file_index == i;
                assert(next.uploads[k].file_index == i);
            }
        }
        lemma_start_queued(next, paths);
    }
}

/// A decode that comes in, whether it gave a picture or failed, leaves no file
/// of the window out, and threads that it frees do not stand still while a
/// file of the window waits.
pub proof fn law_a_result_leaves_no_file_out<T, I, F>(
    s: WindowState<T, I, F>,
    r: window::DecodeResult<I, F>,
    paths: Seq<String>,
)
    requires
        serves(s, paths),
        no_repeats(paths),
    ensures
        serves(window::received(s, r, paths).0, paths),
        runs(s.running, r.path@) ==> {
            let t = window::received(s, r, paths).0;
            t.running.len() >= t.threads || t.queued.len() == 0
        },
        !runs(s.running, r.path@) ==> window::received(s, r, paths).0 == s,
        runs(s.running, r.path@) ==> {
            let t = window::received(s, r, paths).0;
            &&& t.first == s.first
            &&& match r.image {
                Ok(image) => {
                    &&& t.slots == s.slots
                    &&& t.uploads.len() == s.uploads.len() + 1
                    &&& t.uploads.drop_last() == s.uploads
                    &&& t.uploads.last().image == image
                    &&& t.uploads.last().file_index < paths.len()
                    &&& paths[t.uploads.last().file_index as int]@ == r.path@
                },
                Err(e) => {
                    &&& t.uploads == s.uploads
                    &&& t.slots.len() == s.slots.len()
                    &&& forall|f: int|
                        s.first <= f < s.first + s.slots.len() && 0 <= f < paths.len() ==> #[trigger] t.slots[f - s.first]
                            == if (#[trigger] paths[f])@ == r.path@ && s.slots[f - s.first] is None {
                            Some(Decoded::Failed(e))
                        } else {
                            s.slots[f - s.first]
                        }
                },
            }
        },
{
    window::lemma_running_at(s.running, r.path@);
    if let Some(k) = window::running_at(s.running, r.path@) {
        assert(s.running[k].path@ == r.path@);
        let f = s.running[k].file_index as int;
        let freed = WindowState { running: s.running.remove(k), ..s };
        let next = match r.image {
            Ok(image) => WindowState {
                uploads: freed.uploads.push(
                    window::UploadView { file_index: f as usize, image, name: window::name_for(paths, f) },
                ),
                ..freed
            },
            Err(e) => window::filled(freed, f, Decoded::Failed(e)),
        };
        if r.image is Ok {
            assert(next.uploads.last().file_index == f);
            assert(is_uploading(next, f));
        }
        assert forall|i: int|
            next.first <= i < next.first + next.slots.len() && 0 <= i < paths.len() implies #[trigger] is_served(
            next,
            paths,
            i,
        ) by {
            assert(is_served(s, paths, i));
            if i != f {
                if runs_for(s.running, paths[i]@, i) {
                    let j = choose|j: int|
                        0 <= j < s.running.len() && (#[trigger] s.running[j]).path@ == paths[i]@
                            && s.running[j].file_index == i;
                    assert(j != k);
                    if j < k {
                        assert(next.running[j] == s.running[j]);
                    } else {
                        assert(next.running[j - 1] == s.running[j]);
                    }
                }
                if is_uploading(s, i) {
                    let j = choose|j: int| 0 <= j < s.uploads.len() && (#[trigger] s.uploads[j]).file_index == i;
                    assert(next.uploads[j].file_index == i);
                }
                if waits_for(s.queued, paths[i]@, i) {
                    assert(waits_for(next.queued, paths[i]@, i));
                }
            }
        }
        lemma_start_queued(next, paths);
        lemma_no_thread_stands_still(next);
        assert(next.uploads.len() > s.uploads.len() ==> next.uploads.drop_last() =~= s.uploads);
        if let Err(e) = r.image {
            let t = window::received(s, r, paths).0;
            assert forall|g: int|
                s.first <= g < s.first + s.slots.len() && 0 <= g < paths.len() implies #[trigger] t.slots[g - s.first]
                == if (#[trigger] paths[g])@ == r.path@ && s.slots[g - s.first] is None {
                Some(Decoded::Failed(e))
            } else {
                s.slots[g - s.first]
            } by {
                assert(paths[f]@ == r.path@);
                if paths[g]@ == r.path@ {
                    assert(g == f);
                }
            }
        }
    }
}

proof fn lemma_no_thread_stands_still<T, I, F>(s: WindowState<T, I, F>)
    ensures
        ({
            let t = window::start_queued(s).0;
            t.running.len() >= t.threads || t.queued.len() == 0
        }),
    decreases s.queued.len(),
{
    if s.running.len() < s.threads && s.queued.len() > 0 {
        let job = s.queued[0];
        let rest = WindowState { queued: s.queued.drop_first(), ..s };
        if window::slot_of(s, job.file_index as int) is Some {
            lemma_no_thread_stands_still(WindowState { running: window::with_running(s.running, job), ..rest });
        } else {
            lemma_no_thread_stands_still(rest);
        }
    }
}

/// Uploading leaves no file of the window out, and takes up to as many from the
/// front of those that wait as it may.
pub proof fn law_uploading_leaves_no_file_out<T, I, F, U: Fn(String, I) -> window::Loaded<T>>(
    upload: U,
    s: WindowState<T, I, F>,
    t: WindowState<T, I, F>,
    n: nat,
    paths: Seq<String>,
)
    requires
        serves(s, paths),
        window::uploaded(upload, s, t, n),
    ensures
        serves(t, paths),
        t.running == s.running,
        t.queued == s.queued,
        t.first == s.first,
        t.slots.len() == s.slots.len(),
        t.uploads =~= s.uploads.skip(if n < s.uploads.len() { n as int } else { s.uploads.len() as int }),
        forall|j: int| 0 <= j < s.slots.len() && s.slots[j] is Some ==> #[trigger] t.slots[j] == s.slots[j],
        forall|k: int|
            0 <= k < n && k < s.uploads.len() && s.first <= (#[trigger] s.uploads[k]).file_index < s.first
                + s.slots.len() ==> t.slots[s.uploads[k].file_index - s.first] is Some,
        n > 0 && s.uploads.len() > 0 && s.first <= s.uploads[0].file_index < s.first + s.slots.len()
            && s.slots[s.uploads[0].file_index - s.first] is None ==> exists|name: String, loaded: window::Loaded<T>|
            name@ == s.uploads[0].name && #[trigger] call_ensures(upload, (name, s.uploads[0].image), loaded)
                && t.slots[s.uploads[0].file_index - s.first] == Some(Decoded::<T, F>::Image(loaded)),
    decreases n,
{
    if n == 0 || s.uploads.len() == 0 {
    } else {
        let u = s.uploads[0];
        let f = u.file_index as int;
        let rest = WindowState { uploads: s.uploads.drop_first(), ..s };
        let m = (n - 1) as nat;
        let next = if window::is_vacant(s, f) {
            let loaded = choose|loaded: window::Loaded<T>| #[trigger]
                window::made(upload, u, loaded) && window::uploaded(
                    upload,
                    window::filled(rest, f, Decoded::Image(loaded)),
                    t,
                    m,
                );
            window::filled(rest, f, Decoded::Image(loaded))
        } else {
            rest
        };
        assert forall|i: int|
            next.first <= i < next.first + next.slots.len() && 0 <= i < paths.len() implies #[trigger] is_served(
            next,
            paths,
            i,
        ) by {
            assert(is_served(s, paths, i));
            if is_uploading(s, i) && i != f {
                let k = choose|k: int| 0 <= k < s.uploads.len() && (#[trigger] s.uploads[k]).file_index == i;
                assert(next.uploads[k - 1] == s.uploads[k]);
            }
        }
        law_uploading_leaves_no_file_out(upload, next, t, m, paths);
        if window::is_vacant(s, f) {
            assert(t.slots[f - s.first] == next.slots[f - s.first]);
        }
        assert forall|k: int|
            0 <= k < n && k < s.uploads.len() && s.first <= (#[trigger] s.uploads[k]).file_index < s.first
                + s.slots.len() implies t.slots[s.uploads[k].file_index - s.first] is Some by {
            if k == 0 {
                assert(next.slots[f - s.first] is Some);
                assert(t.slots[f - s.first] == next.slots[f - s.first]);
            } else {
                assert(next.uploads[k - 1] == s.uploads[k]);
            }
        }
        assert forall|j: int| 0 <= j < s.slots.len() && s.slots[j] is Some implies #[trigger] t.slots[j] == s.slots[j] by {
            assert(next.slots[j] == s.slots[j]);
        }
    }
}

proof fn lemma_mapped_has<A>(list: Seq<A>, f: spec_fn(A) -> Option<A>, n: nat, k: int)
    requires
        0 <= k < n <= list.len(),
        f(list[k]) is Some,
    ensures
        exists|j: int|
            0 <= j < window::mapped(list, f, n).len() && #[trigger] window::mapped(list, f, n)[j] == f(
                list[k],
            ).unwrap(),
    decreases n,
{
    let m = (n - 1) as nat;
    if k < m {
        lemma_mapped_has(list, f, m, k);
        let j = choose|j: int|
            0 <= j < window::mapped(list, f, m).len() && #[trigger] window::mapped(list, f, m)[j] == f(
                list[k],
            ).unwrap();
        assert(window::mapped(list, f, n)[j] == window::mapped(list, f, m)[j]);
    } else {
        assert(window::mapped(list, f, n).last() == f(list[k]).unwrap());
    }
}

proof fn lemma_mapped_from<A>(list: Seq<A>, f: spec_fn(A) -> Option<A>, n: nat, j: int)
    requires
        n <= list.len(),
        0 <= j < window::mapped(list, f, n).len(),
    ensures
        exists|k: int| 0 <= k < n && f(#[trigger] list[k]) == Some(window::mapped(list, f, n)[j]),
    decreases n,
{
    let m = (n - 1) as nat;
    if j < window::mapped(list, f, m).len() {
        lemma_mapped_from(list, f, m, j);
        let k = choose|k: int| 0 <= k < m && f(#[trigger] list[k]) == Some(window::mapped(list, f, m)[j]);
        assert(window::mapped(list, f, n)[j] == window::mapped(list, f, m)[j]);
        assert(f(list[k]) == Some(window::mapped(list, f, n)[j]));
    } else {
        assert(f(list[m as int]) == Some(window::mapped(list, f, n)[j]));
    }
}

/// What a decode or a picture was for before a file left the list, it is for
/// afterwards, under the new number.
proof fn lemma_renumbered<T, I, F>(s: WindowState<T, I, F>, before: Seq<String>, removed: int, i: int)
    requires
        0 <= removed < before.len() <= usize::MAX,
        0 <= i < before.len(),
        i != removed,
    ensures
        ({
            let r = window::renumbered(s, removed);
            let to = if i < removed { i } else { i - 1 };
            &&& runs_for(s.running, before[i]@, i) ==> runs_for(r.running, before[i]@, to)
            &&& waits_for(s.queued, before[i]@, i) ==> waits_for(r.queued, before[i]@, to)
            &&& is_uploading(s, i) ==> is_uploading(r, to)
        }),
{
    let r = window::renumbered(s, removed);
    let to = if i < removed { i } else { i - 1 };
    let f = window::moved_running(removed);
    let g = window::moved_job(removed);
    let h = window::moved_upload::<I>(removed);
    if runs_for(s.running, before[i]@, i) {
        let k = choose|k: int|
            0 <= k < s.running.len() && (#[trigger] s.running[k]).path@ == before[i]@ && s.running[k].file_index == i;
        lemma_mapped_has(s.running, f, s.running.len(), k);
        let j = choose|j: int| 0 <= j < r.running.len() && #[trigger] r.running[j] == f(s.running[k]).unwrap();
        assert(r.running[j].path@ == before[i]@ && r.running[j].file_index == to);
    }
    if waits_for(s.queued, before[i]@, i) {
        let k = choose|k: int|
            0 <= k < s.queued.len() && (#[trigger] s.queued[k]).path@ == before[i]@ && s.queued[k].file_index == i;
        lemma_mapped_has(s.queued, g, s.queued.len(), k);
        let j = choose|j: int| 0 <= j < r.queued.len() && #[trigger] r.queued[j] == g(s.queued[k]).unwrap();
        assert(r.queued[j].path@ == before[i]@ && r.queued[j].file_index == to);
    }
    if is_uploading(s, i) {
        let k = choose|k: int| 0 <= k < s.uploads.len() && (#[trigger] s.uploads[k]).file_index == i;
        lemma_mapped_has(s.uploads, h, s.uploads.len(), k);
        let j = choose|j: int| 0 <= j < r.uploads.len() && #[trigger] r.uploads[j] == h(s.uploads[k]).unwrap();
        assert(r.uploads[j].file_index == to);
    }
}

/// A file that leaves the list takes nothing from the others: the window that
/// is left serves the shorter list.
pub proof fn law_a_removal_leaves_no_file_out<T, I, F>(s: WindowState<T, I, F>, before: Seq<String>, removed: int)
    requires
        serves(s, before),
        no_repeats(before),
        0 <= removed < before.len() <= usize::MAX,
        0 <= s.first,
        s.slots.len() > 0,
    ensures
        serves(window::without_file(s, removed, before.remove(removed)).0, before.remove(removed)),
{
    let paths = before.remove(removed);
    let r = window::renumbered(s, removed);
    let t = window::without_file(s, removed, paths).0;
    let n = s.slots.len();
    let right = s.first + n - 1;
    assert(no_repeats(paths)) by {
        assert forall|i: int, j: int| 0 <= i < j < paths.len() implies (#[trigger] paths[i])@ != (#[trigger] paths[j])@ by {
            let a = if i < removed { i } else { i + 1 };
            let b = if j < removed { j } else { j + 1 };
            assert(paths[i] == before[a] && paths[j] == before[b]);
        }
    }
    window::lemma_mapped_paths(s.running, removed, s.running.len());
    assert forall|k: int| 0 <= k < r.running.len() implies (#[trigger] r.running[k]).file_index < paths.len()
        && r.running[k].path@ == paths[r.running[k].file_index as int]@ by {
        lemma_mapped_from(s.running, window::moved_running(removed), s.running.len(), k);
        let j = choose|j: int|
            0 <= j < s.running.len() && window::moved_running(removed)(#[trigger] s.running[j]) == Some(r.running[k]);
        assert(s.running[j].path@ == before[s.running[j].file_index as int]@);
    }
    assert forall|k: int| 0 <= k < r.queued.len() implies (#[trigger] r.queued[k]).file_index < paths.len()
        && r.queued[k].path@ == paths[r.queued[k].file_index as int]@ by {
        lemma_mapped_from(s.queued, window::moved_job(removed), s.queued.len(), k);
        let j = choose|j: int|
            0 <= j < s.queued.len() && window::moved_job(removed)(#[trigger] s.queued[j]) == Some(r.queued[k]);
        assert(s.queued[j].path@ == before[s.queued[j].file_index as int]@);
    }
    let moved = if removed < s.first {
        WindowState { first: s.first - 1, ..r }
    } else if removed < s.first + n {
        let rest = s.slots.remove(removed - s.first);
        if right < paths.len() || s.first == 0 {
            WindowState { slots: rest.push(None), ..r }
        } else {
            WindowState { slots: rest.insert(0, None), first: s.first - 1, ..r }
        }
    } else {
        r
    };
    let filled = if removed < s.first || removed >= s.first + n {
        None::<int>
    } else if right < paths.len() {
        Some(right)
    } else if s.first > 0 {
        Some(s.first - 1)
    } else {
        None
    };
    if let Some(i) = filled {
        lemma_load(moved, paths, i);
    }
    assert forall|i: int| t.first <= i < t.first + t.slots.len() && 0 <= i < paths.len() implies #[trigger] is_served(
        t,
        paths,
        i,
    ) by {
        if filled != Some(i) {
            let from = if i < removed { i } else { i + 1 };
            assert(paths[i] == before[from]);
            assert(s.first <= from < s.first + n);
            assert(is_served(s, before, from));
            lemma_renumbered(s, before, removed, from);
            assert(moved.slots[i - moved.first] == s.slots[from - s.first]);
            assert(is_served(moved, paths, i));
        }
    }
}

/// A cell of the overlay stands for the file that its slot stands for: outside of
/// the folder, with its picture, being decoded, or none of these.
pub proof fn law_what_a_cell_stands_for<T, I, F>(s: WindowState<T, I, F>, k: int, current: int, files: int)
    requires
        0 <= k < s.slots.len(),
        0 <= s.first,
        s.first + k <= usize::MAX,
    ensures
        ({
            let cell = window::cell_for(s, k, current, files);
            let running = exists|i: int|
                0 <= i < s.running.len() && (#[trigger] s.running[i]).file_index == s.first + k;
            &&& cell.file_index == s.first + k
            &&& cell.is_current <==> s.first + k == current
            &&& cell.state is Outside <==> s.first + k >= files
            &&& cell.state is Loaded <==> s.first + k < files && s.slots[k] is Some
            &&& cell.state is Loading <==> s.first + k < files && s.slots[k] is None && running
            &&& cell.state is Empty <==> s.first + k < files && s.slots[k] is None && !running
        }),
{
}

/// The count of the loaded slots is that of all slots where all are loaded, and
/// nothing where none is; each slot adds itself.
pub proof fn law_loaded_slots_are_counted<T, F>(slots: Seq<Option<Decoded<T, F>>>, more: Option<Decoded<T, F>>)
    ensures
        window::loaded_count(slots, slots.len()) <= slots.len(),
        window::loaded_count(slots.push(more), slots.len() + 1) == window::loaded_count(slots, slots.len())
            + if more is Some { 1int } else { 0 },
        (forall|k: int| 0 <= k < slots.len() ==> slots[k] is Some) <==> window::loaded_count(slots, slots.len())
            == slots.len(),
        (forall|k: int| 0 <= k < slots.len() ==> slots[k] is None) <==> window::loaded_count(slots, slots.len()) == 0,
{
    lemma_loaded_count(slots, slots.len());
    lemma_same_count(slots, slots.push(more), slots.len());
}

proof fn lemma_loaded_count<T, F>(slots: Seq<Option<Decoded<T, F>>>, n: nat)
    requires
        n <= slots.len(),
    ensures
        window::loaded_count(slots, n) <= n,
        (forall|k: int| 0 <= k < n ==> slots[k] is Some) <==> window::loaded_count(slots, n) == n,
        (forall|k: int| 0 <= k < n ==> slots[k] is None) <==> window::loaded_count(slots, n) == 0,
    decreases n,
{
    if n > 0 {
        lemma_loaded_count(slots, (n - 1) as nat);
        assert(slots[n - 1] is Some || slots[n - 1] is None);
        if window::loaded_count(slots, n) == n {
            assert(window::loaded_count(slots, (n - 1) as nat) == n - 1);
            assert forall|k: int| 0 <= k < n implies slots[k] is Some by {
                assert(k < n - 1 || k == n - 1);
            }
        }
        if window::loaded_count(slots, n) == 0 {
            assert forall|k: int| 0 <= k < n implies slots[k] is None by {
                assert(k < n - 1 || k == n - 1);
            }
        }
    }
}

proof fn lemma_same_count<T, F>(a: Seq<Option<Decoded<T, F>>>, b: Seq<Option<Decoded<T, F>>>, n: nat)
    requires
        n <= a.len(),
        n <= b.len(),
        forall|k: int| 0 <= k < n ==> a[k] == b[k],
    ensures
        window::loaded_count(a, n) == window::loaded_count(b, n),
    decreases n,
{
    if n > 0 {
        lemma_same_count(a, b, (n - 1) as nat);
    }
}

} // verus!
