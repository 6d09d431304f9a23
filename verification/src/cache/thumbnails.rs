//! Thumbnails for the slider's hover preview.
use vstd::prelude::*;

use crate::cache::entry;
use crate::cache::entry::{find, reindex, take_out, Cached};
use crate::cache::index;
use crate::cache::index::shift_index;

verus! {

/// How far two indices are apart.
pub open spec fn distance(a: usize, b: usize) -> int {
    if a < b { b - a } else { a - b }
}

fn distance_of(a: usize, b: usize) -> (r: usize)
    ensures
        r == distance(a, b),
{
    if a < b { b - a } else { a - b }
}

/// Which of the first `n` thumbnails is furthest from `center`. Of those
/// equally far it is the first.
pub open spec fn furthest<T>(list: Seq<Cached<T>>, center: usize, n: nat) -> int
    decreases n,
{
    if n <= 1 {
        0
    } else {
        let k = furthest(list, center, (n - 1) as nat);
        if distance(list[n - 1].file_index, center) > distance(list[k].file_index, center) {
            n - 1
        } else {
            k
        }
    }
}

/// Which of the first `n` thumbnails is nearest to `center`. Of those equally
/// near it is the first.
pub open spec fn nearest<T>(list: Seq<Cached<T>>, center: usize, n: nat) -> int
    decreases n,
{
    if n <= 1 {
        0
    } else {
        let k = nearest(list, center, (n - 1) as nat);
        if distance(list[n - 1].file_index, center) < distance(list[k].file_index, center) {
            n - 1
        } else {
            k
        }
    }
}

/// What is left when the furthest thumbnails leave until the rest takes no
/// more than the budget. The last one never leaves.
pub open spec fn trimmed<T>(list: Seq<Cached<T>>, center: usize, budget: int) -> Seq<Cached<T>>
    decreases list.len(),
{
    if entry::sum_bytes(list) <= budget || list.len() <= 1 {
        list
    } else {
        let k = furthest(list, center, list.len());
        if 0 <= k < list.len() {
            trimmed(list.remove(k), center, budget)
        } else {
            list
        }
    }
}

proof fn lemma_furthest<T>(list: Seq<Cached<T>>, center: usize, n: nat)
    requires
        0 < n <= list.len(),
    ensures
        0 <= furthest(list, center, n) < n,
        forall|i: int|
            0 <= i < n ==> distance((#[trigger] list[i]).file_index, center) <= distance(
                list[furthest(list, center, n)].file_index,
                center,
            ),
    decreases n,
{
    if n > 1 {
        lemma_furthest(list, center, (n - 1) as nat);
    }
}

/// The nearest thumbnail is no further than any other.
pub proof fn law_nearest_is_nearest<T>(list: Seq<Cached<T>>, center: usize, n: nat)
    requires
        0 < n <= list.len(),
    ensures
        0 <= nearest(list, center, n) < n,
        forall|i: int|
            0 <= i < n ==> distance((#[trigger] list[i]).file_index, center) >= distance(
                list[nearest(list, center, n)].file_index,
                center,
            ),
    decreases n,
{
    if n > 1 {
        law_nearest_is_nearest(list, center, (n - 1) as nat);
    }
}

/// What stays is within the budget or a single thumbnail, it was all there
/// before, and nothing that left is nearer than anything that stays.
pub proof fn law_the_furthest_leave_first<T>(list: Seq<Cached<T>>, center: usize, budget: int)
    ensures
        entry::sum_bytes(trimmed(list, center, budget)) <= budget || trimmed(list, center, budget).len() <= 1,
        list.len() > 0 ==> trimmed(list, center, budget).len() > 0,
        forall|e: Cached<T>| #[trigger] trimmed(list, center, budget).contains(e) ==> list.contains(e),
        forall|gone: Cached<T>, kept: Cached<T>|
            list.contains(gone) && !trimmed(list, center, budget).contains(gone) && trimmed(
                list,
                center,
                budget,
            ).contains(kept) ==> #[trigger] distance(kept.file_index, center) <= #[trigger] distance(
                gone.file_index,
                center,
            ),
    decreases list.len(),
{
    if !(entry::sum_bytes(list) <= budget || list.len() <= 1) {
        let k = furthest(list, center, list.len());
        lemma_furthest(list, center, list.len());
        let rest = list.remove(k);
        law_the_furthest_leave_first(rest, center, budget);
        let t = trimmed(list, center, budget);
        assert forall|e: Cached<T>| #[trigger] t.contains(e) implies list.contains(e) by {
            assert(rest.contains(e));
            let i = choose|i: int| 0 <= i < rest.len() && rest[i] == e;
            assert(list[if i < k { i } else { i + 1 }] == e);
        }
        assert forall|gone: Cached<T>, kept: Cached<T>|
            list.contains(gone) && !t.contains(gone) && t.contains(kept) implies #[trigger] distance(
            kept.file_index,
            center,
        ) <= #[trigger] distance(gone.file_index, center) by {
            let i = choose|i: int| 0 <= i < list.len() && list[i] == gone;
            if i == k {
                assert(list.contains(kept));
            } else {
                assert(rest[if i < k { i } else { i - 1 }] == gone);
            }
        }
    }
}

/// The thumbnail at the center stays, whatever leaves.
pub proof fn law_the_center_stays<T>(list: Seq<Cached<T>>, center: usize, budget: int, k: int)
    requires
        entry::distinct(list),
        0 <= k < list.len(),
        list[k].file_index == center,
    ensures
        trimmed(list, center, budget).contains(list[k]),
    decreases list.len(),
{
    if entry::sum_bytes(list) <= budget || list.len() <= 1 {
        assert(list.contains(list[k]));
    } else {
        let f = furthest(list, center, list.len());
        lemma_furthest(list, center, list.len());
        let other = if k == 0 { 1int } else { 0int };
        assert(list[other].file_index != list[k].file_index);
        assert(f != k);
        let rest = list.remove(f);
        law_the_center_stays(rest, center, budget, if k < f { k } else { k - 1 });
    }
}

/// Drops the thumbnails furthest from `center` until the rest takes no more
/// than the budget.
pub fn evict_thumb_cache_with_budget<T>(cache: &mut Vec<Cached<T>>, cache_bytes: &mut usize, center: usize, budget: usize)
    requires
        entry::distinct(old(cache)@),
        *old(cache_bytes) == entry::sum_bytes(old(cache)@),
    ensures
        entry::distinct(final(cache)@),
        *final(cache_bytes) == entry::sum_bytes(final(cache)@),
        final(cache)@ == trimmed(old(cache)@, center, budget as int),
{
    while *cache_bytes > budget && cache.len() > 1
        invariant
            entry::distinct(cache@),
            *cache_bytes == entry::sum_bytes(cache@),
            trimmed(cache@, center, budget as int) == trimmed(old(cache)@, center, budget as int),
        decreases cache@.len(),
    {
        let mut far: usize = 0;
        let mut i: usize = 1;
        while i < cache.len()
            invariant
                1 <= i <= cache@.len(),
                far < i,
                far == furthest(cache@, center, i as nat),
            decreases cache@.len() - i,
        {
            if distance_of(cache[i].file_index, center) > distance_of(cache[far].file_index, center) {
                far = i;
            }
            i += 1;
        }
        proof {
            entry::lemma_sum_remove(cache@, far as int);
            entry::lemma_sum_bounds(cache@.remove(far as int));
        }
        let gone = cache.remove(far);
        *cache_bytes = *cache_bytes - gone.bytes;
    }
}

/// What is shown for a hovered index, and what has to be done for it.
#[derive(Debug, Clone, Copy, PartialEq, Eq, Structural)]
pub struct ThumbnailPlan {
    /// Whether what is shown is the thumbnail of the hovered file.
    pub exact: bool,
    /// The file whose thumbnail has to be uploaded first.
    pub upload: Option<usize>,
    /// Whether the hovered file's thumbnail has to be requested.
    pub request: bool,
}

/// The thumbnails of a list of files.
pub struct ThumbnailCache<T> {
    pub cache: Vec<Cached<T>>,
    pub cache_bytes: usize,
    /// The file whose thumbnail is uploaded.
    pub texture_idx: Option<usize>,
    /// Index of the most recently sent request whose result hasn't arrived
    /// yet. Prevents re-sending the same request every hovered frame, which
    /// made the worker decode the same image twice.
    pub pending_idx: Option<usize>,
    /// The memory budget, 0 for no limit.
    pub preview_budget_mb: usize,
}

/// The thumbnails after a new one arrived.
pub open spec fn stored<T>(list: Seq<Cached<T>>, e: Cached<T>) -> Seq<Cached<T>> {
    entry::without(list, e.file_index).push(e)
}

/// The thumbnails within the budget. A budget of 0 is no limit.
pub open spec fn within<T>(list: Seq<Cached<T>>, center: usize, budget_mb: usize) -> Seq<Cached<T>> {
    if budget_mb == 0 {
        list
    } else {
        trimmed(list, center, budget_mb * 1024 * 1024)
    }
}

/// What to show for a hovered index and the file whose thumbnail is uploaded
/// then, given the thumbnails, the file whose thumbnail is uploaded and the one
/// that is on its way.
pub open spec fn plan_of<T>(
    list: Seq<Cached<T>>,
    uploaded: Option<usize>,
    pending: Option<usize>,
    hovered: usize,
) -> (ThumbnailPlan, Option<usize>) {
    let near = list[nearest(list, hovered, list.len())].file_index;
    if uploaded == Some(hovered) {
        (ThumbnailPlan { exact: true, upload: None, request: false }, uploaded)
    } else if entry::position(list, hovered) is Some {
        (ThumbnailPlan { exact: true, upload: Some(hovered), request: false }, Some(hovered))
    } else {
        (
            ThumbnailPlan {
                exact: false,
                upload: if list.len() > 0 && uploaded != Some(near) {
                    Some(near)
                } else {
                    None
                },
                request: pending != Some(hovered),
            },
            if list.len() > 0 {
                Some(near)
            } else {
                uploaded
            },
        )
    }
}

/// Whether a thumbnail that comes in is stored: it is one, and its path still
/// stands at its place of the list.
pub open spec fn is_welcome(idx: usize, p: Seq<char>, has_image: bool, paths: Seq<String>) -> bool {
    idx < paths.len() && paths[idx as int]@ == p && has_image
}

/// What is shown is uploaded, and is the thumbnail of the hovered file where
/// there is one. Else it is that of a file than which no other is nearer, and
/// the hovered file's own is requested unless it is on its way.
pub proof fn law_the_nearest_thumbnail_is_shown<T>(
    list: Seq<Cached<T>>,
    uploaded: Option<usize>,
    pending: Option<usize>,
    hovered: usize,
    i: int,
)
    requires
        0 <= i < list.len(),
    ensures
        ({
            let (plan, shown) = plan_of(list, uploaded, pending, hovered);
            &&& plan.exact ==> shown == Some(hovered) && !plan.request
            &&& plan.exact <==> uploaded == Some(hovered) || exists|k: int|
                0 <= k < list.len() && (#[trigger] list[k]).file_index == hovered
            &&& !plan.exact ==> (plan.request <==> pending != Some(hovered))
            &&& shown is Some
            &&& plan.upload is Some ==> plan.upload == shown
            &&& shown != uploaded ==> plan.upload == shown
            &&& shown == uploaded ==> plan.upload is None
            &&& !plan.exact ==> shown.unwrap() - hovered <= list[i].file_index - hovered || shown.unwrap() - hovered
                <= hovered - list[i].file_index
            &&& !plan.exact ==> hovered - shown.unwrap() <= list[i].file_index - hovered || hovered - shown.unwrap()
                <= hovered - list[i].file_index
            &&& !plan.exact ==> exists|k: int| 0 <= k < list.len() && shown == Some((#[trigger] list[k]).file_index)
        }),
{
    entry::lemma_position(list, hovered);
    law_nearest_is_nearest(list, hovered, list.len());
    let near = nearest(list, hovered, list.len());
    assert(distance(list[i].file_index, hovered) >= distance(list[near].file_index, hovered));
    if uploaded != Some(hovered) && entry::position(list, hovered) is Some {
        let k = entry::position(list, hovered).unwrap();
        assert(list[k].file_index == hovered);
    }
}

/// Without any thumbnail nothing new is shown and the hovered file's own is
/// requested, once.
pub proof fn law_the_first_thumbnail_is_requested<T>(uploaded: Option<usize>, pending: Option<usize>, hovered: usize)
    requires
        uploaded != Some(hovered),
    ensures
        ({
            let (plan, shown) = plan_of(Seq::<Cached<T>>::empty(), uploaded, pending, hovered);
            &&& !plan.exact
            &&& plan.upload is None
            &&& shown == uploaded
            &&& plan.request <==> pending != Some(hovered)
        }),
{
}

/// A thumbnail that was just stored stays, the file has no other, and what leaves
/// for it is no nearer to it than what stays. All is within the budget, or it is
/// alone; without a budget nothing leaves.
pub proof fn law_a_stored_thumbnail_stays<T>(list: Seq<Cached<T>>, e: Cached<T>, budget_mb: usize, i: int)
    requires
        entry::distinct(list),
        0 <= i < list.len(),
        list[i].file_index != e.file_index,
    ensures
        ({
            let after = within(stored(list, e), e.file_index, budget_mb);
            &&& after.contains(e)
            &&& budget_mb == 0 ==> after.contains(list[i])
            &&& budget_mb > 0 ==> entry::sum_bytes(after) <= budget_mb * 1048576 || after.len() == 1
            &&& forall|kept: Cached<T>|
                !after.contains(list[i]) && #[trigger] after.contains(kept) ==> {
                    ||| kept.file_index - e.file_index <= list[i].file_index - e.file_index && e.file_index
                        - kept.file_index <= list[i].file_index - e.file_index
                    ||| kept.file_index - e.file_index <= e.file_index - list[i].file_index && e.file_index
                        - kept.file_index <= e.file_index - list[i].file_index
                }
        }),
{
    let all = stored(list, e);
    let others = entry::without(list, e.file_index);
    let center = e.file_index;
    entry::lemma_position(list, center);
    match entry::position(list, center) {
        Some(k) => {
            assert(others[if i < k { i } else { i - 1 }] == list[i]);
        },
        None => {
            assert(others[i] == list[i]);
        },
    }
    let at = choose|at: int| 0 <= at < others.len() && others[at] == list[i];
    assert(all[at] == list[i]);
    assert(all.last() == e);
    assert(entry::distinct(all)) by {
        assert forall|x: int, y: int| 0 <= x < y < all.len() implies (#[trigger] all[x]).file_index != (
        #[trigger] all[y]).file_index by {
            match entry::position(list, center) {
                Some(k) => {
                    assert(all[x] == if x < k { list[x] } else { list[x + 1] });
                    if y < others.len() {
                        assert(all[y] == if y < k { list[y] } else { list[y + 1] });
                    } else if x < k {
                        assert(list[x].file_index != list[k].file_index);
                    } else {
                        assert(list[k].file_index != list[x + 1].file_index);
                    }
                },
                None => {
                    assert(all[x] == list[x]);
                },
            }
        }
    }
    if budget_mb > 0 {
        law_the_furthest_leave_first(all, center, budget_mb * 1024 * 1024);
        law_the_center_stays(all, center, budget_mb * 1024 * 1024, all.len() - 1);
        let after = within(all, center, budget_mb);
        assert forall|kept: Cached<T>| !after.contains(list[i]) && #[trigger] after.contains(kept) implies {
            ||| kept.file_index - e.file_index <= list[i].file_index - e.file_index && e.file_index - kept.file_index
                <= list[i].file_index - e.file_index
            ||| kept.file_index - e.file_index <= e.file_index - list[i].file_index && e.file_index - kept.file_index
                <= e.file_index - list[i].file_index
        } by {
            assert(all.contains(list[i]));
            assert(distance(kept.file_index, center) <= distance(list[i].file_index, center));
        }
    }
}

/// Only a picture whose path still stands at its place is welcome.
pub proof fn law_a_late_thumbnail_is_dropped(idx: usize, p: Seq<char>, paths: Seq<String>)
    ensures
        idx >= paths.len() ==> !is_welcome(idx, p, true, paths),
        idx < paths.len() && paths[idx as int]@ != p ==> !is_welcome(idx, p, true, paths),
        idx < paths.len() && paths[idx as int]@ == p ==> is_welcome(idx, p, true, paths),
        !is_welcome(idx, p, false, paths),
{
}

impl<T> ThumbnailCache<T> {
    /// No file is there twice, and the bytes are counted.
    pub open spec fn wf(&self) -> bool {
        &&& entry::distinct(self.cache@)
        &&& self.cache_bytes == entry::sum_bytes(self.cache@)
        &&& self.preview_budget_mb * 1024 * 1024 <= usize::MAX
    }

    pub fn new(preview_budget_mb: usize) -> (r: Self)
        requires
            preview_budget_mb * 1024 * 1024 <= usize::MAX,
        ensures
            r.wf(),
            r.cache@.len() == 0,
            r.texture_idx is None,
            r.pending_idx is None,
            r.preview_budget_mb == preview_budget_mb,
    {
        ThumbnailCache {
            cache: Vec::new(),
            cache_bytes: 0,
            texture_idx: None,
            pending_idx: None,
            preview_budget_mb,
        }
    }

    /// Takes in a finished thumbnail, `None` for one that failed, with the
    /// bytes it takes. `image_paths` is the pane's current list; a result
    /// whose path no longer sits at its index (the list changed under the
    /// worker, e.g. a file was moved to the trash) is dropped and requested
    /// again on the next hover. Returns whether the thumbnail was stored; it
    /// is then to be uploaded.
    pub fn poll(&mut self, idx: usize, path: &String, image: Option<(T, usize)>, image_paths: &Vec<String>) -> (r: bool)
        requires
            old(self).wf(),
            old(self).cache_bytes + (match image {
                Some((_, bytes)) => bytes as int,
                None => 0,
            }) <= usize::MAX,
        ensures
            final(self).wf(),
            final(self).preview_budget_mb == old(self).preview_budget_mb,
            final(self).pending_idx == (if old(self).pending_idx == Some(idx) {
                None
            } else {
                old(self).pending_idx
            }),
            r == is_welcome(idx, path@, image is Some, image_paths@),
            final(self).texture_idx == (if r { Some(idx) } else { old(self).texture_idx }),
            final(self).cache@ == (if r {
                within(
                    stored(
                        old(self).cache@,
                        (Cached { file_index: idx, bytes: image.unwrap().1, item: image.unwrap().0 }),
                    ),
                    idx,
                    old(self).preview_budget_mb,
                )
            } else {
                old(self).cache@
            }),
    {
        // Only clear when it matches: a newer request may already be
        // pending for a different index.
        if let Some(pending) = self.pending_idx {
            if pending == idx {
                self.pending_idx = None;
            }
        }
        if idx >= image_paths.len() || image_paths[idx] != *path {
            return false;
        }
        let (item, bytes): (T, usize) = match image {
            Some(image) => image,
            None => return false,
        };
        let old_bytes: usize = take_out(&mut self.cache, idx);
        self.cache_bytes = self.cache_bytes - old_bytes;
        let e = Cached { file_index: idx, bytes, item };
        proof {
            entry::lemma_sum_push(self.cache@, e);
        }
        self.cache.push(e);
        self.cache_bytes = self.cache_bytes + bytes;
        if self.preview_budget_mb > 0 {
            evict_thumb_cache_with_budget(
                &mut self.cache,
                &mut self.cache_bytes,
                idx,
                self.preview_budget_mb * 1024 * 1024,
            );
        }
        self.texture_idx = Some(idx);
        true
    }

    /// What to show for a hovered index: its own thumbnail when there is one,
    /// else the nearest one while its own is requested.
    pub fn current_thumbnail_for(&mut self, thumb_index: usize) -> (r: ThumbnailPlan)
        requires
            old(self).wf(),
        ensures
            final(self).wf(),
            final(self).cache@ == old(self).cache@,
            final(self).pending_idx == old(self).pending_idx,
            final(self).preview_budget_mb == old(self).preview_budget_mb,
            (r, final(self).texture_idx) == plan_of(
                old(self).cache@,
                old(self).texture_idx,
                old(self).pending_idx,
                thumb_index,
            ),
    {
        if let Some(shown) = self.texture_idx {
            if shown == thumb_index {
                return ThumbnailPlan { exact: true, upload: None, request: false };
            }
        }
        if find(&self.cache, thumb_index).is_some() {
            self.texture_idx = Some(thumb_index);
            return ThumbnailPlan { exact: true, upload: Some(thumb_index), request: false };
        }
        let mut upload: Option<usize> = None;
        if self.cache.len() > 0 {
            let mut near: usize = 0;
            let mut i: usize = 1;
            while i < self.cache.len()
                invariant
                    1 <= i <= self.cache@.len(),
                    near < i,
                    near == nearest(self.cache@, thumb_index, i as nat),
                decreases self.cache@.len() - i,
            {
                if distance_of(self.cache[i].file_index, thumb_index) < distance_of(
                    self.cache[near].file_index,
                    thumb_index,
                ) {
                    near = i;
                }
                i += 1;
            }
            let near_idx: usize = self.cache[near].file_index;
            let is_shown: bool = match self.texture_idx {
                Some(shown) => shown == near_idx,
                None => false,
            };
            if !is_shown {
                upload = Some(near_idx);
            }
            self.texture_idx = Some(near_idx);
        }
        let pending: bool = match self.pending_idx {
            Some(idx) => idx == thumb_index,
            None => false,
        };
        ThumbnailPlan { exact: false, upload, request: !pending }
    }

    /// A request for this index was sent.
    pub fn requested(&mut self, idx: usize)
        ensures
            final(self).pending_idx == Some(idx),
            final(self).cache@ == old(self).cache@,
            final(self).cache_bytes == old(self).cache_bytes,
            final(self).texture_idx == old(self).texture_idx,
            final(self).preview_budget_mb == old(self).preview_budget_mb,
    {
        self.pending_idx = Some(idx);
    }

    /// Change the memory budget (0 = unlimited), evicting entries furthest
    /// from the currently displayed thumbnail if over the new limit.
    pub fn set_budget_mb(&mut self, budget_mb: usize)
        requires
            old(self).wf(),
            budget_mb * 1024 * 1024 <= usize::MAX,
        ensures
            final(self).wf(),
            final(self).preview_budget_mb == budget_mb,
            final(self).texture_idx == old(self).texture_idx,
            final(self).pending_idx == old(self).pending_idx,
            final(self).cache@ == within(
                old(self).cache@,
                match old(self).texture_idx {
                    Some(i) => i,
                    None => 0,
                },
                budget_mb,
            ),
    {
        self.preview_budget_mb = budget_mb;
        if budget_mb > 0 {
            let center: usize = match self.texture_idx {
                Some(i) => i,
                None => 0,
            };
            evict_thumb_cache_with_budget(&mut self.cache, &mut self.cache_bytes, center, budget_mb * 1024 * 1024);
        }
    }

    /// The file at `removed` left the list: drop its thumbnail and shift
    /// every higher index down by one so cached entries keep pointing at
    /// the same files. A request in flight for the old numbering is
    /// dropped by `poll` when its path no longer matches.
    pub fn remove_index(&mut self, removed: usize)
        requires
            old(self).wf(),
        ensures
            final(self).wf(),
            final(self).preview_budget_mb == old(self).preview_budget_mb,
            final(self).cache@ == entry::reindexed(old(self).cache@, removed, old(self).cache@.len()),
            final(self).pending_idx is None,
            match old(self).texture_idx {
                Some(i) => match index::shifted(i as int, removed as int) {
                    Some(k) => final(self).texture_idx == Some(k as usize),
                    None => final(self).texture_idx is None,
                },
                None => final(self).texture_idx is None,
            },
    {
        let bytes: usize = reindex(&mut self.cache, removed);
        self.cache_bytes = self.cache_bytes - bytes;
        self.texture_idx = match self.texture_idx {
            Some(i) => shift_index(i, removed),
            None => None,
        };
        self.pending_idx = None;
    }
}

} // verus!
