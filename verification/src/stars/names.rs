//! A set of names.
use vstd::prelude::*;

use crate::text::same_text;

verus! {

/// A set of names, each kept once.
#[derive(Debug)]
pub struct NameSet {
    names: Vec<String>,
}

/// The names of a list.
pub open spec fn names_of(names: Seq<String>) -> Set<Seq<char>> {
    Set::new(|n: Seq<char>| exists|i: int| 0 <= i < names.len() && #[trigger] names[i]@ == n)
}

/// No name occurs twice.
pub open spec fn all_differ(names: Seq<String>) -> bool {
    forall|i: int, j: int|
        0 <= i < j < names.len() ==> #[trigger] names[i]@ != #[trigger] names[j]@
}

impl View for NameSet {
    type V = Set<Seq<char>>;

    closed spec fn view(&self) -> Set<Seq<char>> {
        names_of(self.names@)
    }
}

impl NameSet {
    /// No name is kept twice.
    pub closed spec fn wf(&self) -> bool {
        all_differ(self.names@)
    }

    /// No names.
    pub fn new() -> (r: Self)
        ensures
            r.wf(),
            r@ == Set::<Seq<char>>::empty(),
    {
        let r = NameSet { names: Vec::new() };
        assert(r@ =~= Set::empty());
        r
    }

    /// Where a name is kept.
    fn position(&self, name: &str) -> (r: Option<usize>)
        ensures
            match r {
                Some(i) => i < self.names@.len() && self.names@[i as int]@ == name@
                    && self@.contains(name@),
                None => !self@.contains(name@),
            },
    {
        let mut i: usize = 0;
        while i < self.names.len()
            invariant
                i <= self.names@.len(),
                forall|k: int| 0 <= k < i ==> #[trigger] self.names@[k]@ != name@,
            decreases self.names@.len() - i,
        {
            if same_text(self.names[i].as_str(), name) {
                assert(self.names@[i as int]@ == name@);
                return Some(i);
            }
            i += 1;
        }
        None
    }

    /// Whether a name is in the set.
    pub fn contains(&self, name: &str) -> (r: bool)
        ensures
            r == self@.contains(name@),
    {
        self.position(name).is_some()
    }

    /// Puts a name into the set.
    pub fn insert(&mut self, name: &str)
        requires
            old(self).wf(),
        ensures
            final(self).wf(),
            final(self)@ == old(self)@.insert(name@),
    {
        if self.contains(name) {
            assert(self@ =~= old(self)@.insert(name@));
            return;
        }
        let ghost before = self.names@;
        self.names.push(name.to_owned());
        proof {
            let after = self.names@;
            assert forall|n: Seq<char>| names_of(after).contains(n) == names_of(before).insert(
                name@,
            ).contains(n) by {
                if names_of(before).contains(n) {
                    let i = choose|i: int| 0 <= i < before.len() && #[trigger] before[i]@ == n;
                    assert(after[i]@ == n);
                }
                if n == name@ {
                    assert(after[before.len() as int]@ == n);
                }
                if names_of(after).contains(n) {
                    let i = choose|i: int| 0 <= i < after.len() && #[trigger] after[i]@ == n;
                    if i < before.len() {
                        assert(before[i]@ == n);
                    }
                }
            }
            assert(self@ =~= old(self)@.insert(name@));
            assert forall|i: int, j: int| 0 <= i < j < after.len() implies #[trigger] after[i]@
                != #[trigger] after[j]@ by {
                if j == before.len() {
                    assert(before[i]@ == after[i]@);
                    assert(names_of(before).contains(before[i]@));
                }
            }
        }
    }

    /// Takes a name out of the set.
    pub fn remove(&mut self, name: &str)
        requires
            old(self).wf(),
        ensures
            final(self).wf(),
            final(self)@ == old(self)@.remove(name@),
    {
        match self.position(name) {
            None => {
                assert(self@ =~= old(self)@.remove(name@));
            },
            Some(at) => {
                let ghost before = self.names@;
                let _ = self.names.remove(at);
                proof {
                    let after = self.names@;
                    assert(after =~= before.remove(at as int));
                    assert forall|n: Seq<char>| names_of(after).contains(n) == names_of(
                        before,
                    ).remove(name@).contains(n) by {
                        if names_of(after).contains(n) {
                            let i = choose|i: int|
                                0 <= i < after.len() && #[trigger] after[i]@ == n;
                            let k = if i < at {
                                i
                            } else {
                                i + 1
                            };
                            assert(before[k]@ == n);
                            assert(before[at as int]@ == name@);
                        }
                        if names_of(before).contains(n) && n != name@ {
                            let i = choose|i: int|
                                0 <= i < before.len() && #[trigger] before[i]@ == n;
                            let k = if i < at {
                                i
                            } else {
                                i - 1
                            };
                            assert(after[k]@ == n);
                        }
                    }
                    assert(self@ =~= old(self)@.remove(name@));
                }
            },
        }
    }

    /// Puts a name into the set or takes it out.
    pub fn set(&mut self, name: &str, present: bool)
        requires
            old(self).wf(),
        ensures
            final(self).wf(),
            final(self)@ == (if present {
                old(self)@.insert(name@)
            } else {
                old(self)@.remove(name@)
            }),
    {
        if present {
            self.insert(name);
        } else {
            self.remove(name);
        }
    }

    /// The names, in no order.
    pub fn names(&self) -> (r: &Vec<String>)
        requires
            self.wf(),
        ensures
            names_of(r@) == self@,
            all_differ(r@),
    {
        &self.names
    }
}

} // verus!
