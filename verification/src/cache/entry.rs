//! Pictures kept by the index of their file, each with its size in bytes.
use vstd::prelude::*;

use crate::cache::index;

verus! {

/// One picture that is kept.
pub struct Cached<T> {
    pub file_index: usize,
    /// How many bytes the picture takes.
    pub bytes: usize,
    pub item: T,
}

/// How many bytes some pictures take.
pub open spec fn sum_bytes<T>(list: Seq<Cached<T>>) -> int
    decreases list.len(),
{
    if list.len() == 0 {
        0
    } else {
        sum_bytes(list.drop_first()) + list[0].bytes
    }
}

/// Whether no two entries have the same file index.
pub open spec fn distinct<T>(list: Seq<Cached<T>>) -> bool {
    forall|i: int, j: int|
        0 <= i < j < list.len() ==> (#[trigger] list[i]).file_index != (#[trigger] list[j]).file_index
}

/// Where the entry of a file is, or `None`.
pub open spec fn position<T>(list: Seq<Cached<T>>, file_index: usize) -> Option<int>
    decreases list.len(),
{
    if list.len() == 0 {
        None
    } else if list.last().file_index == file_index {
        Some(list.len() - 1)
    } else {
        position(list.drop_last(), file_index)
    }
}

/// The entries without that of a file.
pub open spec fn without<T>(list: Seq<Cached<T>>, file_index: usize) -> Seq<Cached<T>> {
    match position(list, file_index) {
        Some(k) => list.remove(k),
        None => list,
    }
}

/// The entries of the first `n` after the file at `removed` left the list,
/// with their files' new indices.
pub open spec fn reindexed<T>(list: Seq<Cached<T>>, removed: usize, n: nat) -> Seq<Cached<T>>
    decreases n,
{
    if n == 0 {
        Seq::empty()
    } else {
        let e = list[n - 1];
        let before = reindexed(list, removed, (n - 1) as nat);
        match index::shifted(e.file_index as int, removed as int) {
            Some(i) => before.push(Cached { file_index: i as usize, ..e }),
            None => before,
        }
    }
}

pub proof fn lemma_sum_bounds<T>(list: Seq<Cached<T>>)
    ensures
        sum_bytes(list) >= 0,
    decreases list.len(),
{
    if list.len() > 0 {
        lemma_sum_bounds(list.drop_first());
    }
}

pub proof fn lemma_sum_push<T>(list: Seq<Cached<T>>, e: Cached<T>)
    ensures
        sum_bytes(list.push(e)) == sum_bytes(list) + e.bytes,
    decreases list.len(),
{
    let more = list.push(e);
    if list.len() == 0 {
        assert(more.drop_first() =~= Seq::empty());
        assert(sum_bytes(more.drop_first()) == 0);
    } else {
        assert(more.drop_first() =~= list.drop_first().push(e));
        lemma_sum_push(list.drop_first(), e);
    }
}

pub proof fn lemma_sum_remove<T>(list: Seq<Cached<T>>, k: int)
    requires
        0 <= k < list.len(),
    ensures
        sum_bytes(list.remove(k)) == sum_bytes(list) - list[k].bytes,
    decreases list.len(),
{
    if k == 0 {
        assert(list.remove(0) =~= list.drop_first());
    } else {
        assert(list.remove(k).drop_first() =~= list.drop_first().remove(k - 1));
        lemma_sum_remove(list.drop_first(), k - 1);
    }
}

pub proof fn lemma_position<T>(list: Seq<Cached<T>>, file_index: usize)
    ensures
        match position(list, file_index) {
            Some(k) => 0 <= k < list.len() && list[k].file_index == file_index,
            None => forall|i: int| 0 <= i < list.len() ==> (#[trigger] list[i]).file_index != file_index,
        },
    decreases list.len(),
{
    if list.len() > 0 {
        lemma_position(list.drop_last(), file_index);
        assert forall|i: int| 0 <= i < list.len() - 1 implies #[trigger] list[i] == list.drop_last()[i] by {
        }
    }
}

/// An entry with its file's new index.
pub open spec fn moved<T>(e: Cached<T>, removed: usize) -> Cached<T> {
    if e.file_index > removed {
        Cached { file_index: (e.file_index - 1) as usize, ..e }
    } else {
        e
    }
}

pub proof fn lemma_sum_same<T>(a: Seq<Cached<T>>, b: Seq<Cached<T>>)
    requires
        a.len() == b.len(),
        forall|i: int| 0 <= i < a.len() ==> (#[trigger] a[i]).bytes == b[i].bytes,
    ensures
        sum_bytes(a) == sum_bytes(b),
    decreases a.len(),
{
    if a.len() > 0 {
        assert forall|i: int| 0 <= i < a.drop_first().len() implies (#[trigger] a.drop_first()[i]).bytes
            == b.drop_first()[i].bytes by {
            assert(a.drop_first()[i] == a[i + 1]);
        }
        lemma_sum_same(a.drop_first(), b.drop_first());
    }
}

pub proof fn lemma_reindexed_is_moved<T>(list: Seq<Cached<T>>, removed: usize, n: nat)
    requires
        n <= list.len(),
        forall|i: int| 0 <= i < n ==> (#[trigger] list[i]).file_index != removed,
    ensures
        reindexed(list, removed, n).len() == n,
        forall|i: int| 0 <= i < n ==> #[trigger] reindexed(list, removed, n)[i] == moved(list[i], removed),
    decreases n,
{
    if n > 0 {
        lemma_reindexed_is_moved(list, removed, (n - 1) as nat);
    }
}

pub proof fn lemma_reindexed_without<T>(list: Seq<Cached<T>>, removed: usize, k: int)
    requires
        0 <= k < list.len(),
        list[k].file_index == removed,
    ensures
        reindexed(list.remove(k), removed, (list.len() - 1) as nat) == reindexed(list, removed, list.len()),
{
    lemma_reindexed_prefix(list, list.remove(k), removed, k as nat);
    lemma_reindexed_suffix(list, removed, k, list.len());
}

pub proof fn lemma_reindexed_prefix<T>(a: Seq<Cached<T>>, b: Seq<Cached<T>>, removed: usize, n: nat)
    requires
        n <= a.len(),
        n <= b.len(),
        forall|i: int| 0 <= i < n ==> #[trigger] a[i] == b[i],
    ensures
        reindexed(a, removed, n) == reindexed(b, removed, n),
    decreases n,
{
    if n > 0 {
        assert(a[n - 1] == b[n - 1]);
        lemma_reindexed_prefix(a, b, removed, (n - 1) as nat);
    }
}

pub proof fn lemma_reindexed_suffix<T>(list: Seq<Cached<T>>, removed: usize, k: int, n: nat)
    requires
        0 <= k < n <= list.len(),
        list[k].file_index == removed,
    ensures
        reindexed(list.remove(k), removed, (n - 1) as nat) == reindexed(list, removed, n),
    decreases n,
{
    if n == k + 1 {
        lemma_reindexed_prefix(list, list.remove(k), removed, k as nat);
    } else {
        lemma_reindexed_suffix(list, removed, k, (n - 1) as nat);
        assert(list.remove(k)[n - 2] == list[n - 1]);
    }
}

/// Every picture but the removed one is still there under its file's new
/// index.
pub proof fn law_removal_keeps_the_other_pictures<T>(list: Seq<Cached<T>>, removed: usize, k: int)
    requires
        0 <= k < list.len(),
        list[k].file_index != removed,
    ensures
        reindexed(list, removed, list.len()).contains(
            Cached {
                file_index: index::shifted(list[k].file_index as int, removed as int).unwrap() as usize,
                ..list[k]
            },
        ),
{
    lemma_reindexed_has(list, removed, k, list.len());
}

pub proof fn lemma_reindexed_has<T>(list: Seq<Cached<T>>, removed: usize, k: int, n: nat)
    requires
        0 <= k < n <= list.len(),
        list[k].file_index != removed,
    ensures
        reindexed(list, removed, n).contains(
            Cached {
                file_index: index::shifted(list[k].file_index as int, removed as int).unwrap() as usize,
                ..list[k]
            },
        ),
    decreases n,
{
    let e = Cached {
        file_index: index::shifted(list[k].file_index as int, removed as int).unwrap() as usize,
        ..list[k]
    };
    let all = reindexed(list, removed, n);
    if k == n - 1 {
        assert(all.last() == e);
    } else {
        lemma_reindexed_has(list, removed, k, (n - 1) as nat);
        let before = reindexed(list, removed, (n - 1) as nat);
        let i = choose|i: int| 0 <= i < before.len() && before[i] == e;
        assert(all[i] == e);
    }
}

/// Where the entry of a file is.
pub fn find<T>(list: &Vec<Cached<T>>, file_index: usize) -> (r: Option<usize>)
    ensures
        match r {
            Some(k) => position(list@, file_index) == Some(k as int) && k < list@.len(),
            None => position(list@, file_index) is None,
        },
{
    let mut i: usize = list.len();
    assert(list@.take(i as int) =~= list@);
    while i > 0
        invariant
            i <= list@.len(),
            position(list@.take(i as int), file_index) == position(list@, file_index),
        decreases i,
    {
        if list[i - 1].file_index == file_index {
            return Some(i - 1);
        }
        assert(list@.take(i as int).drop_last() =~= list@.take(i - 1));
        i -= 1;
    }
    None
}

/// Takes the entry of a file out. Gives how many bytes it took.
pub fn take_out<T>(list: &mut Vec<Cached<T>>, file_index: usize) -> (r: usize)
    requires
        distinct(old(list)@),
    ensures
        distinct(final(list)@),
        final(list)@ == without(old(list)@, file_index),
        sum_bytes(final(list)@) == sum_bytes(old(list)@) - r,
        sum_bytes(final(list)@) >= 0,
        forall|i: int| 0 <= i < final(list)@.len() ==> (#[trigger] final(list)@[i]).file_index != file_index,
{
    proof {
        lemma_position(list@, file_index);
        lemma_sum_bounds(list@);
    }
    match find(list, file_index) {
        Some(k) => {
            proof {
                lemma_sum_remove(list@, k as int);
                lemma_sum_bounds(list@.remove(k as int));
            }
            let e = list.remove(k);
            e.bytes
        },
        None => 0,
    }
}

/// The file at `removed` left the list: drops its entry and shifts every
/// higher index down by one. Gives how many bytes the entry took.
pub fn reindex<T>(list: &mut Vec<Cached<T>>, removed: usize) -> (r: usize)
    requires
        distinct(old(list)@),
    ensures
        distinct(final(list)@),
        final(list)@ == reindexed(old(list)@, removed, old(list)@.len()),
        sum_bytes(final(list)@) == sum_bytes(old(list)@) - r,
        sum_bytes(final(list)@) >= 0,
        final(list)@.len() <= old(list)@.len(),
{
    let ghost before = list@;
    proof {
        lemma_position(before, removed);
        if let Some(k) = position(before, removed) {
            lemma_reindexed_without(before, removed, k);
        }
    }
    let bytes: usize = take_out(list, removed);
    let ghost rest = list@;
    let mut i: usize = 0;
    while i < list.len()
        invariant
            i <= list@.len(),
            list@.len() == rest.len(),
            distinct(rest),
            forall|k: int| 0 <= k < rest.len() ==> (#[trigger] rest[k]).file_index != removed,
            forall|k: int| 0 <= k < i ==> #[trigger] list@[k] == moved(rest[k], removed),
            forall|k: int| i <= k < rest.len() ==> #[trigger] list@[k] == rest[k],
        decreases list@.len() - i,
    {
        if list[i].file_index > removed {
            let e = &mut list[i];
            e.file_index = e.file_index - 1;
        }
        i += 1;
    }
    proof {
        lemma_reindexed_is_moved(rest, removed, rest.len());
        assert(list@ =~= reindexed(rest, removed, rest.len()));
        lemma_sum_same(list@, rest);
    }
    bytes
}

/// Bytes add up.
pub proof fn law_bytes_add_up<T>(a: Seq<Cached<T>>, e: Cached<T>, b: Seq<Cached<T>>)
    ensures
        sum_bytes(a.push(e) + b) == sum_bytes(a) + e.bytes + sum_bytes(b),
        sum_bytes(Seq::<Cached<T>>::empty()) == 0,
    decreases b.len(),
{
    let all = a.push(e) + b;
    if b.len() == 0 {
        assert(all =~= a.push(e));
        lemma_sum_push(a, e);
    } else {
        law_bytes_add_up(a, e, b.drop_last());
        assert(all =~= (a.push(e) + b.drop_last()).push(b.last()));
        lemma_sum_push(a.push(e) + b.drop_last(), b.last());
        lemma_sum_push(b.drop_last(), b.last());
        assert(b =~= b.drop_last().push(b.last()));
    }
}

/// Where the file of a picture leaves the list, its picture leaves and the others
/// keep their order and their contents; a picture of a later file counts one
/// less.
pub proof fn law_a_removal_keeps_the_order<T>(list: Seq<Cached<T>>, removed: usize, k: int, i: int)
    requires
        distinct(list),
        0 <= k < list.len(),
        list[k].file_index == removed,
        0 <= i < list.len(),
        i != k,
    ensures
        ({
            let after = reindexed(list, removed, list.len());
            let e = after[if i < k { i } else { i - 1 }];
            &&& after.len() == list.len() - 1
            &&& e.item == list[i].item
            &&& e.bytes == list[i].bytes
            &&& list[i].file_index < removed ==> e.file_index == list[i].file_index
            &&& list[i].file_index > removed ==> e.file_index == list[i].file_index - 1
        }),
{
    let rest = list.remove(k);
    lemma_reindexed_without(list, removed, k);
    assert forall|j: int| 0 <= j < rest.len() implies (#[trigger] rest[j]).file_index != removed by {
        let from = if j < k { j } else { j + 1 };
        assert(rest[j] == list[from]);
        if from < k {
            assert(list[from].file_index != list[k].file_index);
        } else {
            assert(list[k].file_index != list[from].file_index);
        }
    }
    lemma_reindexed_is_moved(rest, removed, rest.len());
    let at = if i < k { i } else { i - 1 };
    assert(rest[at] == list[i]);
    if i < k {
        assert(list[i].file_index != list[k].file_index);
    } else {
        assert(list[k].file_index != list[i].file_index);
    }
    assert(reindexed(rest, removed, rest.len())[at] == moved(rest[at], removed));
}

} // verus!
