//! Uploaded pictures, the most recently used ones kept within a byte budget.
use vstd::prelude::*;

use crate::cache::entry;
use crate::cache::entry::{find, reindex, take_out, Cached};

verus! {

/// LRU cache of uploaded GPU textures, keyed by file index.
///
/// Uses a byte budget rather than a fixed entry count so the cache
/// self-adjusts for any resolution: 4K textures (~32 MB each) get fewer
/// entries than 1080p (~8 MB each) for the same budget. Bytes are
/// computed as width x height x 4 (RGBA).
pub struct DecodeLruCache<T> {
    /// The pictures, least recently used first.
    pub entries: Vec<Cached<T>>,
    /// Maximum total bytes for cached textures.
    pub budget_bytes: usize,
    /// Current total bytes of cached textures.
    pub total_bytes: usize,
}

/// What is left when the least recently used entries leave until the rest
/// takes no more than `room` bytes.
pub open spec fn evicted<T>(list: Seq<Cached<T>>, room: int) -> Seq<Cached<T>>
    decreases list.len(),
{
    if list.len() == 0 || entry::sum_bytes(list) <= room {
        list
    } else {
        evicted(list.drop_first(), room)
    }
}

/// The entries after the picture of a file was used: it comes last.
pub open spec fn touched<T>(list: Seq<Cached<T>>, file_index: usize) -> Seq<Cached<T>> {
    match entry::position(list, file_index) {
        Some(k) => list.remove(k).push(list[k]),
        None => list,
    }
}

/// The entries after a picture was stored.
pub open spec fn inserted<T>(list: Seq<Cached<T>>, budget: int, e: Cached<T>) -> Seq<Cached<T>> {
    evicted(entry::without(list, e.file_index), budget - e.bytes).push(e)
}

impl<T> DecodeLruCache<T> {
    /// No file is there twice, the total is the sum, and it is within the
    /// budget unless a single picture is larger than that.
    pub open spec fn wf(&self) -> bool {
        &&& entry::distinct(self.entries@)
        &&& self.total_bytes == entry::sum_bytes(self.entries@)
        &&& self.total_bytes <= self.budget_bytes || self.entries@.len() == 1
    }

    pub fn new(budget_mb: usize) -> (r: Self)
        requires
            budget_mb * 1024 * 1024 <= usize::MAX,
        ensures
            r.wf(),
            r.entries@.len() == 0,
            r.budget_bytes == budget_mb * 1024 * 1024,
    {
        DecodeLruCache { entries: Vec::new(), budget_bytes: budget_mb * 1024 * 1024, total_bytes: 0 }
    }

    /// Get the cached texture for `file_index`, if any. Marks it as the most
    /// recently used.
    pub fn get(&mut self, file_index: usize) -> (r: Option<&T>)
        requires
            old(self).wf(),
        ensures
            final(self).wf(),
            final(self).budget_bytes == old(self).budget_bytes,
            final(self).entries@ == touched(old(self).entries@, file_index),
            match entry::position(old(self).entries@, file_index) {
                Some(k) => r == Some(&old(self).entries@[k].item),
                None => r is None,
            },
    {
        match find(&self.entries, file_index) {
            Some(k) => {
                let ghost before = self.entries@;
                let e = self.entries.remove(k);
                proof {
                    entry::lemma_sum_remove(before, k as int);
                    entry::lemma_sum_push(before.remove(k as int), e);
                }
                self.entries.push(e);
                let last: usize = self.entries.len() - 1;
                Some(&self.entries[last].item)
            },
            None => None,
        }
    }

    /// Drops the least recently used entries until the rest takes no more
    /// than `room` bytes.
    fn evict(&mut self, room: usize)
        requires
            entry::distinct(old(self).entries@),
            old(self).total_bytes == entry::sum_bytes(old(self).entries@),
        ensures
            entry::distinct(final(self).entries@),
            final(self).total_bytes == entry::sum_bytes(final(self).entries@),
            final(self).entries@ == evicted(old(self).entries@, room as int),
            final(self).total_bytes <= room,
            final(self).budget_bytes == old(self).budget_bytes,
            forall|i: int| 0 <= i < final(self).entries@.len() ==> old(self).entries@.contains(
                #[trigger] final(self).entries@[i],
            ),
    {
        while self.total_bytes > room && self.entries.len() > 0
            invariant
                entry::distinct(self.entries@),
                self.total_bytes == entry::sum_bytes(self.entries@),
                self.budget_bytes == old(self).budget_bytes,
                evicted(self.entries@, room as int) == evicted(old(self).entries@, room as int),
                forall|i: int| 0 <= i < self.entries@.len() ==> old(self).entries@.contains(
                    #[trigger] self.entries@[i],
                ),
            decreases self.entries@.len(),
        {
            let ghost before = self.entries@;
            proof {
                entry::lemma_sum_bounds(before.drop_first());
            }
            let e = self.entries.remove(0);
            self.total_bytes = self.total_bytes - e.bytes;
            assert(self.entries@ =~= before.drop_first());
            assert forall|i: int| 0 <= i < self.entries@.len() implies old(self).entries@.contains(
                #[trigger] self.entries@[i],
            ) by {
                assert(self.entries@[i] == before[i + 1]);
            }
        }
    }

    /// Makes room for a picture: drops the file's own entry, and the least
    /// recently used ones until there is room. A picture that is larger than
    /// the budget empties the cache.
    pub fn make_room(&mut self, file_index: usize, new_bytes: usize)
        requires
            old(self).wf(),
        ensures
            final(self).wf(),
            final(self).budget_bytes == old(self).budget_bytes,
            final(self).entries@ == evicted(
                entry::without(old(self).entries@, file_index),
                old(self).budget_bytes - new_bytes,
            ),
            final(self).entries@.len() == 0 || final(self).total_bytes + new_bytes <= final(self).budget_bytes,
            forall|i: int| 0 <= i < final(self).entries@.len() ==> (#[trigger] final(self).entries@[i]).file_index != file_index,
    {
        let bytes: usize = take_out(&mut self.entries, file_index);
        self.total_bytes = self.total_bytes - bytes;
        let ghost rest = self.entries@;
        if new_bytes > self.budget_bytes {
            proof {
                lemma_evicted_without_room(rest, self.budget_bytes - new_bytes);
            }
            self.entries.clear();
            self.total_bytes = 0;
        } else {
            let room: usize = self.budget_bytes - new_bytes;
            self.evict(room);
            assert forall|i: int| 0 <= i < self.entries@.len() implies (#[trigger] self.entries@[i]).file_index
                != file_index by {
                assert(rest.contains(self.entries@[i]));
            }
        }
    }

    /// Store a picture as the most recently used one, and evict others until
    /// the total is within the budget.
    pub fn insert(&mut self, file_index: usize, new_bytes: usize, item: T)
        requires
            old(self).wf(),
        ensures
            final(self).wf(),
            final(self).budget_bytes == old(self).budget_bytes,
            final(self).entries@ == inserted(
                old(self).entries@,
                old(self).budget_bytes as int,
                (Cached { file_index, bytes: new_bytes, item }),
            ),
    {
        self.make_room(file_index, new_bytes);
        let e = Cached { file_index, bytes: new_bytes, item };
        proof {
            entry::lemma_sum_push(self.entries@, e);
        }
        self.total_bytes = self.total_bytes + new_bytes;
        self.entries.push(e);
    }

    pub fn len(&self) -> (r: usize)
        ensures
            r == self.entries@.len(),
    {
        self.entries.len()
    }

    /// The file at `removed` left the list: drop its texture and shift
    /// every higher key down by one. LRU order is preserved.
    pub fn remove_index(&mut self, removed: usize)
        requires
            old(self).wf(),
        ensures
            final(self).wf(),
            final(self).budget_bytes == old(self).budget_bytes,
            final(self).entries@ == entry::reindexed(old(self).entries@, removed, old(self).entries@.len()),
    {
        let bytes: usize = reindex(&mut self.entries, removed);
        self.total_bytes = self.total_bytes - bytes;
    }

    pub fn clear(&mut self)
        ensures
            final(self).wf(),
            final(self).entries@.len() == 0,
            final(self).budget_bytes == old(self).budget_bytes,
    {
        self.entries.clear();
        self.total_bytes = 0;
    }

    /// Change the memory budget, evicting LRU entries if over the new limit.
    pub fn set_budget_mb(&mut self, budget_mb: usize)
        requires
            old(self).wf(),
            budget_mb * 1024 * 1024 <= usize::MAX,
        ensures
            final(self).wf(),
            final(self).budget_bytes == budget_mb * 1024 * 1024,
            final(self).entries@ == evicted(old(self).entries@, budget_mb * 1024 * 1024),
            final(self).total_bytes <= final(self).budget_bytes,
    {
        let budget: usize = budget_mb * 1024 * 1024;
        self.budget_bytes = budget;
        self.evict(budget);
    }
}

proof fn lemma_evicted_without_room<T>(list: Seq<Cached<T>>, room: int)
    requires
        room < 0,
    ensures
        evicted(list, room) == Seq::<Cached<T>>::empty(),
    decreases list.len(),
{
    entry::lemma_sum_bounds(list);
    if list.len() > 0 {
        lemma_evicted_without_room(list.drop_first(), room);
    } else {
        assert(list =~= Seq::empty());
    }
}

/// A picture that was just stored is found again, whatever had to leave.
pub proof fn law_stored_picture_is_found<T>(list: Seq<Cached<T>>, budget: int, e: Cached<T>)
    ensures
        ({
            let after = evicted(entry::without(list, e.file_index), budget - e.bytes).push(e);
            entry::position(after, e.file_index) == Some(after.len() - 1) && after.last() == e
        }),
{
}

/// Only the least recently used pictures leave: what stays is the end of the
/// list.
pub proof fn law_eviction_takes_the_oldest<T>(list: Seq<Cached<T>>, room: int)
    ensures
        evicted(list, room).len() <= list.len(),
        evicted(list, room) == list.skip(list.len() - evicted(list, room).len()),
        evicted(list, room).len() == 0 || entry::sum_bytes(evicted(list, room)) <= room,
        evicted(list, room).len() < list.len() ==> entry::sum_bytes(
            list.skip(list.len() - evicted(list, room).len() - 1),
        ) > room,
    decreases list.len(),
{
    if list.len() == 0 || entry::sum_bytes(list) <= room {
        assert(list.skip(0) =~= list);
    } else {
        let rest = list.drop_first();
        law_eviction_takes_the_oldest(rest, room);
        let kept = evicted(list, room);
        assert(rest.skip(rest.len() - kept.len()) =~= list.skip(list.len() - kept.len()));
        if kept.len() < rest.len() {
            assert(rest.skip(rest.len() - kept.len() - 1) =~= list.skip(list.len() - kept.len() - 1));
        } else {
            assert(list.skip(0) =~= list);
        }
    }
}

/// A picture that is used becomes the newest one, and the others keep their
/// order. Nothing leaves.
pub proof fn law_a_used_picture_is_the_newest<T>(list: Seq<Cached<T>>, k: int, i: int)
    requires
        entry::distinct(list),
        0 <= k < list.len(),
        0 <= i < list.len(),
    ensures
        ({
            let after = touched(list, list[k].file_index);
            &&& after.len() == list.len()
            &&& after.last() == list[k]
            &&& i < k ==> after[i] == list[i]
            &&& i > k ==> after[i - 1] == list[i]
        }),
{
    entry::lemma_position(list, list[k].file_index);
}

/// After a picture was stored it is the newest one, the file has no other, and
/// all fit in the budget unless the picture alone does not. Of the other
/// pictures the newest stay, in their order, and as many as fit: with one more
/// the budget would not do.
pub proof fn law_storing_keeps_the_newest_that_fit<T>(list: Seq<Cached<T>>, budget: int, e: Cached<T>, i: int)
    requires
        entry::distinct(list),
        0 <= i < list.len(),
        list[i].file_index != e.file_index,
    ensures
        ({
            let after = inserted(list, budget, e);
            let others = entry::without(list, e.file_index);
            let n = after.len() - 1;
            &&& after.last() == e
            &&& forall|j: int| 0 <= j < n ==> (#[trigger] after[j]).file_index != e.file_index
            &&& after.len() == 1 || entry::sum_bytes(after) <= budget
            &&& n <= others.len()
            &&& after.drop_last() == others.skip(others.len() - n)
            &&& n < others.len() ==> entry::sum_bytes(others.skip(others.len() - n - 1)) + e.bytes > budget
            &&& others.contains(list[i])
        }),
{
    let others = entry::without(list, e.file_index);
    let kept = evicted(others, budget - e.bytes);
    let after = inserted(list, budget, e);
    law_eviction_takes_the_oldest(others, budget - e.bytes);
    entry::lemma_position(list, e.file_index);
    entry::lemma_sum_push(kept, e);
    assert(after.drop_last() =~= kept);
    assert forall|j: int| 0 <= j < after.len() - 1 implies (#[trigger] after[j]).file_index != e.file_index by {
        assert(after[j] == others[others.len() - kept.len() + j]);
        if let Some(k) = entry::position(list, e.file_index) {
            let m = others.len() - kept.len() + j;
            assert(others[m] == if m < k { list[m] } else { list[m + 1] });
        }
    }
    match entry::position(list, e.file_index) {
        Some(k) => {
            assert(others[if i < k { i } else { i - 1 }] == list[i]);
        },
        None => {
            assert(others[i] == list[i]);
        },
    }
}

} // verus!
