//! The stars of each folder.
use vstd::prelude::*;

use crate::stars::file::{FolderStars, FolderView};
use crate::text::same_text;

verus! {

/// A folder with its stars.
#[derive(Debug)]
pub struct FolderItem {
    pub dir: String,
    pub stars: FolderStars,
}

/// The stars of each folder that is listed.
#[derive(Debug)]
pub struct FolderTable {
    items: Vec<FolderItem>,
}

/// What a list of folders says.
pub open spec fn table_of(items: Seq<FolderItem>) -> Map<Seq<char>, FolderView>
    decreases items.len(),
{
    if items.len() == 0 {
        Map::empty()
    } else {
        table_of(items.drop_last()).insert(items.last().dir@, items.last().stars@)
    }
}

/// Each folder is listed once.
pub open spec fn dirs_differ(items: Seq<FolderItem>) -> bool {
    forall|i: int, j: int|
        0 <= i < j < items.len() ==> #[trigger] items[i].dir@ != #[trigger] items[j].dir@
}

proof fn lemma_table(items: Seq<FolderItem>, dir: Seq<char>)
    requires
        dirs_differ(items),
    ensures
        table_of(items).contains_key(dir) <==> exists|i: int|
            0 <= i < items.len() && #[trigger] items[i].dir@ == dir,
        forall|i: int|
            0 <= i < items.len() && #[trigger] items[i].dir@ == dir ==> table_of(items)[dir]
                == items[i].stars@,
    decreases items.len(),
{
    if items.len() > 0 {
        let front = items.drop_last();
        assert(dirs_differ(front)) by {
            assert forall|i: int, j: int| 0 <= i < j < front.len() implies #[trigger] front[i].dir@
                != #[trigger] front[j].dir@ by {
                assert(items[i].dir@ != items[j].dir@);
            }
        }
        lemma_table(front, dir);
        let last = items.len() - 1;
        if items[last].dir@ == dir {
            assert forall|i: int| 0 <= i < items.len() && #[trigger] items[i].dir@
                == dir implies i == last by {
                if i < last {
                    assert(items[i].dir@ != items[last].dir@);
                }
            }
        } else {
            assert forall|i: int| 0 <= i < items.len() && #[trigger] items[i].dir@
                == dir implies table_of(items)[dir] == items[i].stars@ by {
                assert(front[i].dir@ == dir);
            }
            if exists|i: int| 0 <= i < items.len() && #[trigger] items[i].dir@ == dir {
                let i = choose|i: int| 0 <= i < items.len() && #[trigger] items[i].dir@ == dir;
                assert(front[i].dir@ == dir);
            }
            if exists|i: int| 0 <= i < front.len() && #[trigger] front[i].dir@ == dir {
                let i = choose|i: int| 0 <= i < front.len() && #[trigger] front[i].dir@ == dir;
                assert(items[i].dir@ == dir);
            }
        }
    }
}

impl View for FolderTable {
    type V = Map<Seq<char>, FolderView>;

    closed spec fn view(&self) -> Map<Seq<char>, FolderView> {
        table_of(self.items@)
    }
}

impl FolderTable {
    /// Each folder is listed once.
    pub closed spec fn wf(&self) -> bool {
        dirs_differ(self.items@) && forall|i: int|
            0 <= i < self.items@.len() ==> (#[trigger] self.items@[i]).stars.wf()
    }

    /// No folders.
    pub fn new() -> (r: Self)
        ensures
            r.wf(),
            r@ == Map::<Seq<char>, FolderView>::empty(),
    {
        FolderTable { items: Vec::new() }
    }

    /// Where a folder is listed.
    fn position(&self, dir: &str) -> (r: Option<usize>)
        requires
            self.wf(),
        ensures
            match r {
                Some(i) => i < self.items@.len() && self.items@[i as int].dir@ == dir@
                    && self@.contains_key(dir@) && self@[dir@] == self.items@[i as int].stars@,
                None => !self@.contains_key(dir@) && forall|i: int|
                    0 <= i < self.items@.len() ==> #[trigger] self.items@[i].dir@ != dir@,
            },
    {
        proof {
            lemma_table(self.items@, dir@);
        }
        let mut i: usize = 0;
        while i < self.items.len()
            invariant
                i <= self.items@.len(),
                self.wf(),
                forall|k: int| 0 <= k < i ==> #[trigger] self.items@[k].dir@ != dir@,
            decreases self.items@.len() - i,
        {
            if same_text(self.items[i].dir.as_str(), dir) {
                assert(self.items@[i as int].dir@ == dir@);
                proof {
                    lemma_table(self.items@, dir@);
                }
                return Some(i);
            }
            i += 1;
        }
        None
    }

    /// The stars of a folder.
    pub fn get(&self, dir: &str) -> (r: Option<&FolderStars>)
        requires
            self.wf(),
        ensures
            match r {
                Some(f) => f.wf() && self@.contains_key(dir@) && self@[dir@] == f@,
                None => !self@.contains_key(dir@),
            },
    {
        match self.position(dir) {
            Some(i) => Some(&self.items[i].stars),
            None => None,
        }
    }

    /// Takes a folder off the list and hands out its stars.
    pub fn take(&mut self, dir: &str) -> (r: Option<FolderStars>)
        requires
            old(self).wf(),
        ensures
            final(self).wf(),
            final(self)@ == old(self)@.remove(dir@),
            match r {
                Some(f) => f.wf() && old(self)@.contains_key(dir@) && old(self)@[dir@] == f@,
                None => !old(self)@.contains_key(dir@),
            },
    {
        match self.position(dir) {
            None => {
                assert(self@ =~= old(self)@.remove(dir@));
                None
            },
            Some(at) => {
                let ghost before = self.items@;
                let item = self.items.remove(at);
                proof {
                    let after = self.items@;
                    assert(after =~= before.remove(at as int));
                    assert(dirs_differ(after)) by {
                        assert forall|i: int, j: int| 0 <= i < j < after.len() implies #[trigger]
                            after[i].dir@ != #[trigger] after[j].dir@ by {
                            let a = if i < at {
                                i
                            } else {
                                i + 1
                            };
                            let b = if j < at {
                                j
                            } else {
                                j + 1
                            };
                            assert(before[a].dir@ != before[b].dir@);
                        }
                    }
                    assert forall|i: int| 0 <= i < after.len() implies (
                    #[trigger] after[i]).stars.wf() by {
                        let a = if i < at {
                            i
                        } else {
                            i + 1
                        };
                        assert(before[a].stars.wf());
                    }
                    lemma_removed(before, at as int);
                }
                Some(item.stars)
            },
        }
    }

    /// Lists a folder with its stars, in place of what was listed for it.
    pub fn insert(&mut self, dir: &str, stars: FolderStars)
        requires
            old(self).wf(),
            stars.wf(),
        ensures
            final(self).wf(),
            final(self)@ == old(self)@.insert(dir@, stars@),
    {
        let ghost first = self@;
        let _ = self.take(dir);
        let ghost before = self.items@;
        proof {
            lemma_table(before, dir@);
        }
        self.items.push(FolderItem { dir: dir.to_owned(), stars });
        proof {
            let after = self.items@;
            assert(after.drop_last() =~= before);
            assert(self@ =~= first.insert(dir@, stars@));
            assert forall|i: int, j: int| 0 <= i < j < after.len() implies #[trigger] after[i].dir@
                != #[trigger] after[j].dir@ by {
                assert(before[i].dir@ == after[i].dir@);
                if j == before.len() {
                    assert(before[i].dir@ != dir@);
                }
            }
            assert forall|i: int| 0 <= i < after.len() implies (#[trigger] after[i]).stars.wf() by {
                if i < before.len() {
                    assert(before[i].stars.wf());
                }
            }
        }
    }

    /// The folders that are listed.
    pub fn dirs(&self) -> (r: Vec<String>)
        requires
            self.wf(),
        ensures
            forall|d: Seq<char>|
                #[trigger] self@.contains_key(d) <==> exists|i: int|
                    0 <= i < r@.len() && #[trigger] r@[i]@ == d,
    {
        let mut dirs: Vec<String> = Vec::new();
        let mut i: usize = 0;
        while i < self.items.len()
            invariant
                i <= self.items@.len(),
                dirs@.len() == i,
                forall|k: int| 0 <= k < i ==> #[trigger] dirs@[k]@ == self.items@[k].dir@,
            decreases self.items@.len() - i,
        {
            dirs.push(self.items[i].dir.clone());
            i += 1;
        }
        proof {
            assert forall|d: Seq<char>|
                #[trigger] self@.contains_key(d) <==> exists|i: int|
                    0 <= i < dirs@.len() && #[trigger] dirs@[i]@ == d by {
                lemma_table(self.items@, d);
                if self@.contains_key(d) {
                    let k = choose|k: int|
                        0 <= k < self.items@.len() && #[trigger] self.items@[k].dir@ == d;
                    assert(dirs@[k]@ == d);
                }
                if exists|i: int| 0 <= i < dirs@.len() && #[trigger] dirs@[i]@ == d {
                    let k = choose|k: int| 0 <= k < dirs@.len() && #[trigger] dirs@[k]@ == d;
                    assert(self.items@[k].dir@ == d);
                }
            }
        }
        dirs
    }

    /// Whether any folder has a save that has not finished.
    pub fn any_pending(&self) -> (r: bool)
        requires
            self.wf(),
        ensures
            r == exists|d: Seq<char>| #[trigger]
                self@.contains_key(d) && self@[d].pending_writes > 0,
    {
        let mut i: usize = 0;
        while i < self.items.len()
            invariant
                i <= self.items@.len(),
                self.wf(),
                forall|k: int|
                    0 <= k < i ==> (#[trigger] self.items@[k]).stars.pending_writes == 0,
            decreases self.items@.len() - i,
        {
            if self.items[i].stars.pending_writes > 0 {
                proof {
                    lemma_table(self.items@, self.items@[i as int].dir@);
                    assert(self@.contains_key(self.items@[i as int].dir@));
                }
                return true;
            }
            i += 1;
        }
        proof {
            assert forall|d: Seq<char>| #[trigger]
                self@.contains_key(d) implies self@[d].pending_writes == 0 by {
                lemma_table(self.items@, d);
                let k = choose|k: int|
                    0 <= k < self.items@.len() && #[trigger] self.items@[k].dir@ == d;
                assert(self.items@[k].stars.pending_writes == 0);
            }
        }
        false
    }
}

proof fn lemma_removed(items: Seq<FolderItem>, at: int)
    requires
        dirs_differ(items),
        0 <= at < items.len(),
    ensures
        table_of(items.remove(at)) == table_of(items).remove(items[at].dir@),
    decreases items.len(),
{
    let dir = items[at].dir@;
    let front = items.drop_last();
    assert(dirs_differ(front)) by {
        assert forall|i: int, j: int| 0 <= i < j < front.len() implies #[trigger] front[i].dir@
            != #[trigger] front[j].dir@ by {
            assert(items[i].dir@ != items[j].dir@);
        }
    }
    if at == items.len() - 1 {
        assert(items.remove(at) =~= front);
        lemma_table(front, dir);
        assert forall|i: int| 0 <= i < front.len() implies #[trigger] front[i].dir@ != dir by {
            assert(items[i].dir@ != items[at].dir@);
        }
        assert(table_of(front) =~= table_of(items).remove(dir));
    } else {
        lemma_removed(front, at);
        let after = items.remove(at);
        assert(after.drop_last() =~= front.remove(at));
        assert(after.last() == items.last());
        assert(items[at].dir@ != items[items.len() - 1].dir@);
        assert(front[at] == items[at]);
        assert(table_of(after) =~= table_of(items).remove(dir));
    }
}

} // verus!
