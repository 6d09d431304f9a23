//! The list of pictures of a pane, the one on screen, and the filter that
//! leaves only the starred ones.
use vstd::prelude::*;

use crate::picked;
use crate::stars;
use crate::stars::{Stars, StarsView};
use crate::text;
use crate::text::same_text;

verus! {

/// The pictures of a pane.
#[derive(Debug)]
pub struct PaneList {
    pub image_paths: Vec<String>,
    /// The picture on screen.
    pub current_index: usize,
    /// Where the starred pictures are, in order.
    pub starred_positions: Vec<usize>,
    /// While the filter is on, the whole list.
    pub unfiltered_paths: Option<Vec<String>>,
}

/// What is known about the pictures of a pane.
#[verifier::ext_equal]
pub struct PaneView {
    pub paths: Seq<Seq<char>>,
    pub current: int,
    pub starred: Seq<usize>,
    pub whole: Option<Seq<Seq<char>>>,
}

impl View for PaneList {
    type V = PaneView;

    open spec fn view(&self) -> PaneView {
        PaneView {
            paths: text::texts_of(self.image_paths@),
            current: self.current_index as int,
            starred: self.starred_positions@,
            whole: match self.unfiltered_paths {
                Some(w) => Some(text::texts_of(w@)),
                None => None,
            },
        }
    }
}

/// The picture on screen is one of the list, the starred positions are places
/// of the list in order, no picture is listed twice, and with the filter on the
/// list is not empty and every picture of it is in the whole list.
pub open spec fn pane_wf(v: PaneView) -> bool {
    &&& v.current < v.paths.len() || (v.current == 0 && v.paths.len() == 0)
    &&& v.current >= 0
    &&& v.paths.no_duplicates()
    &&& forall|i: int| 0 <= i < v.starred.len() ==> #[trigger] v.starred[i] < v.paths.len()
    &&& forall|i: int, j: int| 0 <= i < j < v.starred.len() ==> v.starred[i] < v.starred[j]
    &&& v.whole matches Some(w) ==> w.no_duplicates() && v.paths.len() > 0 && forall|i: int|
        0 <= i < v.paths.len() ==> w.contains(#[trigger] v.paths[i])
}

/// Where a picture is in a list: its first place, or the length of the list.
pub open spec fn place_in(list: Seq<Seq<char>>, p: Seq<char>) -> int
    decreases list.len(),
{
    if list.len() == 0 || list[0] == p {
        0
    } else {
        1 + place_in(list.drop_first(), p)
    }
}

pub proof fn lemma_place_in(list: Seq<Seq<char>>, p: Seq<char>)
    ensures
        0 <= place_in(list, p) <= list.len(),
        list.contains(p) <==> place_in(list, p) < list.len(),
        place_in(list, p) < list.len() ==> list[place_in(list, p)] == p,
    decreases list.len(),
{
    if list.len() > 0 {
        let rest = list.drop_first();
        lemma_place_in(rest, p);
        if list[0] == p {
            assert(list.contains(p));
        } else {
            if list.contains(p) {
                let k = choose|k: int| 0 <= k < list.len() && list[k] == p;
                assert(rest[k - 1] == p);
            }
            if rest.contains(p) {
                let k = choose|k: int| 0 <= k < rest.len() && rest[k] == p;
                assert(list[k + 1] == p);
            }
        }
    }
}

/// A list without the first place of a picture.
pub open spec fn without(list: Seq<Seq<char>>, p: Seq<char>) -> Seq<Seq<char>> {
    if place_in(list, p) < list.len() {
        list.remove(place_in(list, p))
    } else {
        list
    }
}

/// Places without one, the ones behind it moved up.
pub open spec fn shifted_places(places: Seq<usize>, at: int) -> Seq<usize>
    decreases places.len(),
{
    if places.len() == 0 {
        places
    } else {
        let front = shifted_places(places.drop_last(), at);
        let last = places.last();
        if last < at {
            front.push(last)
        } else if last == at {
            front
        } else {
            front.push((last - 1) as usize)
        }
    }
}

/// Where the list is when a picture is gone: where it was, but for a picture
/// before it, and but for the end of the list.
pub open spec fn current_after(current: int, at: int, left: int) -> int {
    if left == 0 {
        0
    } else if at < current {
        current - 1
    } else if current >= left {
        left - 1
    } else {
        current
    }
}

/// A pane without the picture at a place. It leaves the whole list too. When
/// the filter has no picture left, it turns off, and the pane shows the folder
/// where that picture was.
pub open spec fn removed(v: PaneView, at: int) -> PaneView {
    if at >= v.paths.len() {
        v
    } else {
        let p = v.paths[at];
        let left = v.paths.remove(at);
        match v.whole {
            Some(w) => if left.len() == 0 {
                let all = without(w, p);
                PaneView {
                    paths: all,
                    current: if all.len() == 0 {
                        0
                    } else if place_in(w, p) >= all.len() {
                        all.len() - 1
                    } else {
                        place_in(w, p)
                    },
                    starred: Seq::empty(),
                    whole: None,
                }
            } else {
                PaneView {
                    paths: left,
                    current: current_after(v.current, at, left.len() as int),
                    starred: shifted_places(v.starred, at),
                    whole: Some(without(w, p)),
                }
            },
            None => PaneView {
                paths: left,
                current: current_after(v.current, at, left.len() as int),
                starred: shifted_places(v.starred, at),
                whole: None,
            },
        }
    }
}

/// A pane without a picture that left its folder.
pub open spec fn path_removed(v: PaneView, p: Seq<char>) -> PaneView {
    if place_in(v.paths, p) < v.paths.len() {
        removed(v, place_in(v.paths, p))
    } else {
        PaneView {
            whole: match v.whole {
                Some(w) => Some(without(w, p)),
                None => None,
            },
            ..v
        }
    }
}

/// Where the starred pictures of a list are.
pub open spec fn starred_places(paths: Seq<Seq<char>>, s: StarsView) -> Seq<usize> {
    picked::picked(paths.len() as int, |i: int| stars::starred_in(s, paths[i]))
}

/// The first of some ascending places that is not before another place, or the
/// last one.
pub open spec fn place_from(places: Seq<usize>, current: int) -> int
    decreases places.len(),
{
    if places.len() <= 1 || places[0] >= current {
        0
    } else {
        1 + place_from(places.drop_first(), current)
    }
}

/// The places of a list in order.
pub open spec fn all_places(n: nat) -> Seq<usize> {
    Seq::new(n, |i: int| i as usize)
}

/// A pane with the filter on: only the starred pictures are left, and the one
/// on screen is the same where it is starred, else the next starred one, else
/// the last one.
pub open spec fn filtered(v: PaneView, s: StarsView) -> PaneView {
    let places = starred_places(v.paths, s);
    PaneView {
        paths: Seq::new(places.len(), |i: int| v.paths[places[i] as int]),
        current: place_from(places, v.current),
        starred: all_places(places.len()),
        whole: Some(v.paths),
    }
}

/// A pane with the filter off: the whole list, at the same picture.
pub open spec fn unfiltered(v: PaneView, s: StarsView) -> PaneView {
    let w = v.whole->0;
    PaneView {
        paths: w,
        current: place_in(w, v.paths[v.current]),
        starred: starred_places(w, s),
        whole: None,
    }
}

/// A pane after the filter was turned on or off, and whether it is as it was
/// asked to be. Without a starred picture the filter stays off.
pub open spec fn filter_set(v: PaneView, on: bool, s: StarsView) -> (PaneView, bool) {
    if on == (v.whole is Some) {
        (v, true)
    } else if !on {
        (unfiltered(v, s), true)
    } else if starred_places(v.paths, s).len() == 0 {
        (v, false)
    } else {
        (filtered(v, s), true)
    }
}

/// A picture that was removed by its path is in no list of the pane any more.
pub proof fn law_a_removed_picture_is_in_no_list(v: PaneView, p: Seq<char>)
    requires
        pane_wf(v),
    ensures
        !path_removed(v, p).paths.contains(p),
        path_removed(v, p).whole matches Some(w) ==> !w.contains(p),
{
    lemma_place_in(v.paths, p);
    let at = place_in(v.paths, p);
    if at < v.paths.len() {
        let left = v.paths.remove(at);
        assert(!left.contains(p)) by {
            if left.contains(p) {
                let k = choose|k: int| 0 <= k < left.len() && left[k] == p;
                assert(v.paths[if k < at {
                    k
                } else {
                    k + 1
                }] == p);
            }
        }
    }
    if let Some(w) = v.whole {
        lemma_place_in(w, p);
        let there = place_in(w, p);
        let rest = without(w, p);
        assert(!rest.contains(p)) by {
            if rest.contains(p) {
                let k = choose|k: int| 0 <= k < rest.len() && rest[k] == p;
                assert(w[if there < w.len() && k >= there {
                    k + 1
                } else {
                    k
                }] == p);
            }
        }
    }
}

/// To remove the picture on screen by its path is to remove it by its place.
pub proof fn law_the_picture_on_screen_is_found_by_its_path(v: PaneView)
    requires
        pane_wf(v),
        v.paths.len() > 0,
    ensures
        path_removed(v, v.paths[v.current]) == removed(v, v.current),
{
    lemma_place_in(v.paths, v.paths[v.current]);
}

/// A copy of a list of texts.
fn copy_texts(list: &Vec<String>) -> (r: Vec<String>)
    ensures
        text::texts_of(r@) == text::texts_of(list@),
{
    let mut r: Vec<String> = Vec::new();
    let mut i: usize = 0;
    while i < list.len()
        invariant
            i <= list@.len(),
            r@.len() == i,
            forall|k: int| 0 <= k < i ==> #[trigger] r@[k]@ == list@[k]@,
        decreases list@.len() - i,
    {
        r.push(list[i].clone());
        i += 1;
    }
    assert(text::texts_of(r@) =~= text::texts_of(list@));
    r
}

/// Where a picture is in a list.
fn find(list: &Vec<String>, p: &str) -> (r: usize)
    ensures
        r == place_in(text::texts_of(list@), p@),
        r <= list@.len(),
{
    let ghost all = text::texts_of(list@);
    let mut i: usize = 0;
    assert(all.skip(0) =~= all);
    while i < list.len()
        invariant
            i <= list@.len(),
            all == text::texts_of(list@),
            i + place_in(all.skip(i as int), p@) == place_in(all, p@),
        decreases list@.len() - i,
    {
        assert(all.skip(i as int)[0] == list@[i as int]@);
        if same_text(list[i].as_str(), p) {
            return i;
        }
        assert(all.skip(i as int).drop_first() =~= all.skip(i + 1));
        i += 1;
    }
    i
}

/// Takes the first place of a picture out of a list.
fn take_out(list: &mut Vec<String>, p: &str)
    ensures
        text::texts_of(final(list)@) == without(text::texts_of(old(list)@), p@),
{
    let at = find(list, p);
    if at < list.len() {
        let ghost before = list@;
        let _ = list.remove(at);
        assert(text::texts_of(list@) =~= text::texts_of(before).remove(at as int));
    }
}

/// Where the starred pictures of a list are.
fn find_starred(paths: &Vec<String>, s: &Stars) -> (r: Vec<usize>)
    requires
        s.wf(),
    ensures
        r@ == starred_places(text::texts_of(paths@), s@),
{
    let ghost all = text::texts_of(paths@);
    let ghost pick = |i: int| stars::starred_in(s@, all[i]);
    let mut r: Vec<usize> = Vec::new();
    let mut i: usize = 0;
    while i < paths.len()
        invariant
            i <= paths@.len(),
            s.wf(),
            all == text::texts_of(paths@),
            pick == (|i: int| stars::starred_in(s@, all[i])),
            r@ == picked::picked(i as int, pick),
        decreases paths@.len() - i,
    {
        if s.is_starred(paths[i].as_str()) {
            r.push(i);
        }
        i += 1;
    }
    r
}

proof fn lemma_shifted_places(places: Seq<usize>, at: int, n: int)
    requires
        0 <= at < n,
        forall|i: int| 0 <= i < places.len() ==> #[trigger] places[i] < n,
        forall|i: int, j: int| 0 <= i < j < places.len() ==> places[i] < places[j],
    ensures
        ({
            let s = shifted_places(places, at);
            &&& forall|i: int| 0 <= i < s.len() ==> #[trigger] s[i] < n - 1
            &&& forall|i: int, j: int| 0 <= i < j < s.len() ==> s[i] < s[j]
            &&& s.len() > 0 && places.len() > 0 ==> s.last() <= places.last()
            &&& s.len() > 0 && places.len() > 0 && places.last() > at ==> s.last() < places.last()
        }),
    decreases places.len(),
{
    if places.len() > 0 {
        let front = places.drop_last();
        assert forall|i: int| 0 <= i < front.len() implies #[trigger] front[i] < n by {
            assert(places[i] < n);
        }
        lemma_shifted_places(front, at, n);
        let f = shifted_places(front, at);
        let last = places.last();
        if f.len() > 0 {
            assert(front.len() > 0);
            assert(front.last() < last);
            assert(f.last() <= front.last());
            if last > at && front.last() > at {
                assert(f.last() < front.last());
            }
            if last > at && front.last() <= at {
                lemma_small_places(front, at);
            }
        }
    }
}

/// Places that do not come behind a place stay before it when it goes.
proof fn lemma_small_places(places: Seq<usize>, at: int)
    requires
        places.len() > 0,
        places.last() <= at,
        forall|i: int, j: int| 0 <= i < j < places.len() ==> places[i] < places[j],
    ensures
        shifted_places(places, at).len() > 0 ==> shifted_places(places, at).last() < at,
    decreases places.len(),
{
    let front = places.drop_last();
    if front.len() > 0 {
        assert(front.last() < places.last());
        lemma_small_places(front, at);
    } else {
        assert(shifted_places(front, at).len() == 0);
    }
}

impl PaneList {
    /// The picture on screen is one of the list.
    pub open spec fn wf(&self) -> bool {
        pane_wf(self@)
    }

    /// The pictures of a folder, with one on screen. The filter is off.
    pub fn open(paths: Vec<String>, current: usize, s: &Stars) -> (r: Self)
        requires
            s.wf(),
            current < paths@.len() || paths@.len() == 0 && current == 0,
            text::texts_of(paths@).no_duplicates(),
        ensures
            r.wf(),
            r@ == (PaneView {
                paths: text::texts_of(paths@),
                current: current as int,
                starred: starred_places(text::texts_of(paths@), s@),
                whole: None,
            }),
    {
        let starred = find_starred(&paths, s);
        assert(paths@.len() == paths.len());
        proof {
            picked::law_picked_numbers(
                paths@.len() as int,
                |i: int| stars::starred_in(s@, text::texts_of(paths@)[i]),
            );
        }
        PaneList {
            image_paths: paths,
            current_index: current,
            starred_positions: starred,
            unfiltered_paths: None,
        }
    }

    /// The picture on screen.
    pub fn current_path(&self) -> (r: Option<&String>)
        requires
            self.wf(),
        ensures
            match r {
                Some(p) => self@.paths.len() > 0 && p@ == self@.paths[self@.current],
                None => self@.paths.len() == 0,
            },
    {
        if self.current_index < self.image_paths.len() {
            Some(&self.image_paths[self.current_index])
        } else {
            None
        }
    }

    /// Takes the picture at a place off the list.
    pub fn remove_index(&mut self, at: usize)
        requires
            old(self).wf(),
        ensures
            final(self).wf(),
            final(self)@ == removed(old(self)@, at as int),
    {
        if at >= self.image_paths.len() {
            return;
        }
        let ghost v = self@;
        let p = self.image_paths.remove(at);
        assert(text::texts_of(self.image_paths@) =~= v.paths.remove(at as int));
        let left: usize = self.image_paths.len();
        let mut whole: Option<Vec<String>> = None;
        std::mem::swap(&mut whole, &mut self.unfiltered_paths);
        if let Some(mut w) = whole {
            if left == 0 {
                let place = find(&w, p.as_str());
                proof {
                    lemma_without_is_distinct(text::texts_of(w@), p@);
                }
                take_out(&mut w, p.as_str());
                let n: usize = w.len();
                self.current_index = if n == 0 {
                    0
                } else if place >= n {
                    n - 1
                } else {
                    place
                };
                self.image_paths = w;
                self.starred_positions = Vec::new();
                assert(self@ =~= removed(v, at as int));
                return;
            }
            let ghost all = text::texts_of(w@);
            take_out(&mut w, p.as_str());
            proof {
                lemma_kept(v.paths, all, at as int);
                lemma_without_is_distinct(all, p@);
            }
            self.unfiltered_paths = Some(w);
        }
        shift_places(&mut self.starred_positions, at);
        proof {
            lemma_shifted_places(v.starred, at as int, v.paths.len() as int);
        }
        if left == 0 {
            self.current_index = 0;
        } else if at < self.current_index {
            self.current_index -= 1;
        } else if self.current_index >= left {
            self.current_index = left - 1;
        }
        assert(self@ =~= removed(v, at as int));
    }

    /// Takes the picture on screen off the list, once it was moved. A move that
    /// failed leaves the pane as it is.
    pub fn remove_current(&mut self, moved: Result<(), String>) -> (r: Result<
        Option<String>,
        String,
    >)
        requires
            old(self).wf(),
        ensures
            final(self).wf(),
            match moved {
                Err(e) => final(self)@ == old(self)@ && r == Err::<Option<String>, String>(e),
                Ok(_) => {
                    &&& final(self)@ == removed(old(self)@, old(self)@.current)
                    &&& match r {
                        Ok(Some(p)) => old(self)@.paths.len() > 0 && p@
                            == old(self)@.paths[old(self)@.current],
                        Ok(None) => old(self)@.paths.len() == 0,
                        Err(_) => false,
                    }
                },
            },
    {
        match moved {
            Err(e) => Err(e),
            Ok(_) => {
                let p = match self.current_path() {
                    Some(p) => Some(p.clone()),
                    None => None,
                };
                let at = self.current_index;
                self.remove_index(at);
                Ok(p)
            },
        }
    }

    /// Takes a picture that left its folder off the list, or off the whole
    /// list that the filter keeps aside.
    pub fn remove_path(&mut self, p: &str)
        requires
            old(self).wf(),
        ensures
            final(self).wf(),
            final(self)@ == path_removed(old(self)@, p@),
    {
        let at = find(&self.image_paths, p);
        if at < self.image_paths.len() {
            self.remove_index(at);
            return;
        }
        let ghost v = self@;
        let mut whole: Option<Vec<String>> = None;
        std::mem::swap(&mut whole, &mut self.unfiltered_paths);
        if let Some(mut w) = whole {
            let ghost all = text::texts_of(w@);
            take_out(&mut w, p);
            proof {
                lemma_place_in(v.paths, p@);
                lemma_without_is_distinct(all, p@);
                assert forall|i: int| 0 <= i < v.paths.len() implies without(all, p@).contains(
                    #[trigger] v.paths[i],
                ) by {
                    assert(v.paths[i] != p@) by {
                        if v.paths[i] == p@ {
                            assert(v.paths.contains(p@));
                        }
                    }
                    lemma_without_keeps(all, p@, v.paths[i]);
                }
            }
            self.unfiltered_paths = Some(w);
        }
        assert(self@ =~= path_removed(v, p@));
    }

    /// Whether the filter is on.
    pub fn starred_only(&self) -> (r: bool)
        ensures
            r == (self@.whole is Some),
    {
        self.unfiltered_paths.is_some()
    }

    /// Finds out anew which pictures are starred. While the filter is on, a
    /// picture that lost its star stays in the list.
    pub fn refresh_starred(&mut self, s: &Stars)
        requires
            old(self).wf(),
            s.wf(),
        ensures
            final(self).wf(),
            final(self)@ == (PaneView {
                starred: starred_places(old(self)@.paths, s@),
                ..old(self)@
            }),
    {
        assert(self.image_paths@.len() == self.image_paths.len());
        self.starred_positions = find_starred(&self.image_paths, s);
        proof {
            picked::law_picked_numbers(
                self@.paths.len() as int,
                |i: int| stars::starred_in(s@, self@.paths[i]),
            );
        }
    }

    /// Whether the picture on screen is starred.
    pub fn is_current_starred(&self) -> (r: bool)
        ensures
            r == self@.starred.contains(self.current_index),
    {
        let mut i: usize = 0;
        while i < self.starred_positions.len()
            invariant
                i <= self.starred_positions@.len(),
                forall|k: int| 0 <= k < i ==> self.starred_positions@[k] != self.current_index,
            decreases self.starred_positions@.len() - i,
        {
            if self.starred_positions[i] == self.current_index {
                assert(self.starred_positions@.contains(self.starred_positions@[i as int]));
                return true;
            }
            i += 1;
        }
        false
    }

    /// The nearest starred picture behind the one on screen, or before it.
    pub fn starred_neighbor(&self, dir: isize) -> (r: Option<usize>)
        requires
            self.wf(),
        ensures
            match r {
                Some(at) => {
                    &&& self@.starred.contains(at)
                    &&& if dir > 0 {
                        at > self@.current && forall|i: int|
                            0 <= i < self@.starred.len() && #[trigger] self@.starred[i]
                                > self@.current ==> at <= self@.starred[i]
                    } else {
                        at < self@.current && forall|i: int|
                            0 <= i < self@.starred.len() && #[trigger] self@.starred[i]
                                < self@.current ==> at >= self@.starred[i]
                    }
                },
                None => forall|i: int|
                    0 <= i < self@.starred.len() ==> if dir > 0 {
                        #[trigger] self@.starred[i] <= self@.current
                    } else {
                        self@.starred[i] >= self@.current
                    },
            },
    {
        let n: usize = self.starred_positions.len();
        if dir > 0 {
            let mut i: usize = 0;
            while i < n
                invariant
                    i <= n == self.starred_positions@.len(),
                    self.wf(),
                    dir > 0,
                    forall|k: int|
                        0 <= k < i ==> #[trigger] self.starred_positions@[k] <= self.current_index,
                decreases n - i,
            {
                let at: usize = self.starred_positions[i];
                if at > self.current_index {
                    assert(self@.starred[i as int] == at);
                    assert(self@.starred.contains(at));
                    return Some(at);
                }
                i += 1;
            }
        } else {
            let mut i: usize = n;
            while i > 0
                invariant
                    i <= n == self.starred_positions@.len(),
                    self.wf(),
                    dir <= 0,
                    forall|k: int|
                        i <= k < n ==> #[trigger] self.starred_positions@[k] >= self.current_index,
                decreases i,
            {
                i -= 1;
                let at: usize = self.starred_positions[i];
                if at < self.current_index {
                    assert(self@.starred[i as int] == at);
                    assert(self@.starred.contains(at));
                    return Some(at);
                }
            }
        }
        None
    }

    /// Turns the filter on or off. Without a starred picture it stays off, and
    /// the answer is no.
    pub fn set_starred_only(&mut self, on: bool, s: &Stars) -> (r: bool)
        requires
            old(self).wf(),
            s.wf(),
        ensures
            final(self).wf(),
            (final(self)@, r) == filter_set(old(self)@, on, s@),
    {
        if on == self.unfiltered_paths.is_some() {
            return true;
        }
        if on {
            self.filter(s)
        } else {
            self.unfilter(s);
            true
        }
    }

    /// Turns the filter on.
    fn filter(&mut self, s: &Stars) -> (r: bool)
        requires
            old(self).wf(),
            s.wf(),
            old(self)@.whole is None,
        ensures
            final(self).wf(),
            if starred_places(old(self)@.paths, s@).len() == 0 {
                !r && final(self)@ == old(self)@
            } else {
                r && final(self)@ == filtered(old(self)@, s@)
            },
    {
        let ghost v = self@;
        assert(self.image_paths@.len() == self.image_paths.len());
        let places = find_starred(&self.image_paths, s);
        proof {
            picked::law_picked_numbers(
                v.paths.len() as int,
                |i: int| stars::starred_in(s@, v.paths[i]),
            );
        }
        if places.len() == 0 {
            return false;
        }
        let mut shown: Vec<String> = Vec::new();
        let mut starred: Vec<usize> = Vec::new();
        let mut i: usize = 0;
        while i < places.len()
            invariant
                i <= places@.len(),
                self@ == v,
                forall|k: int| 0 <= k < places@.len() ==> #[trigger] places@[k] < v.paths.len(),
                shown@.len() == i,
                starred@.len() == i,
                forall|k: int| 0 <= k < i ==> #[trigger] shown@[k]@ == v.paths[places@[k] as int],
                forall|k: int| 0 <= k < i ==> #[trigger] starred@[k] == k,
            decreases places@.len() - i,
        {
            assert(places@[i as int] < v.paths.len());
            let p = self.image_paths[places[i]].clone();
            assert(p@ == v.paths[places@[i as int] as int]);
            shown.push(p);
            starred.push(i);
            i += 1;
        }
        let mut current: usize = 0;
        assert(places@.skip(0) =~= places@);
        while current + 1 < places.len() && places[current] < self.current_index
            invariant
                current < places@.len(),
                places@.len() <= usize::MAX,
                self@ == v,
                current + place_from(places@.skip(current as int), v.current) == place_from(
                    places@,
                    v.current,
                ),
            decreases places@.len() - current,
        {
            assert(places@.skip(current as int).drop_first() =~= places@.skip(current + 1));
            current += 1;
        }
        let whole = copy_texts(&self.image_paths);
        self.image_paths = shown;
        self.current_index = current;
        self.starred_positions = starred;
        self.unfiltered_paths = Some(whole);
        proof {
            let f = filtered(v, s@);
            assert(self@.paths =~= f.paths);
            assert(self@.starred =~= f.starred);
            assert forall|k: int| 0 <= k < self@.paths.len() implies v.paths.contains(
                #[trigger] self@.paths[k],
            ) by {
                assert(places@[k] < v.paths.len());
                assert(v.paths[places@[k] as int] == self@.paths[k]);
            }
            assert(self@ =~= f);
        }
        true
    }

    /// Turns the filter off.
    fn unfilter(&mut self, s: &Stars)
        requires
            old(self).wf(),
            s.wf(),
            old(self)@.whole is Some,
        ensures
            final(self).wf(),
            final(self)@ == unfiltered(old(self)@, s@),
    {
        let ghost v = self@;
        let mut whole: Option<Vec<String>> = None;
        std::mem::swap(&mut whole, &mut self.unfiltered_paths);
        if let Some(w) = whole {
            assert(w@.len() == w.len());
            let at = find(&w, self.image_paths[self.current_index].as_str());
            proof {
                lemma_place_in(text::texts_of(w@), v.paths[v.current]);
                assert(text::texts_of(w@).contains(v.paths[v.current]));
            }
            self.starred_positions = find_starred(&w, s);
            self.image_paths = w;
            self.current_index = at;
            proof {
                picked::law_picked_numbers(
                    self@.paths.len() as int,
                    |i: int| stars::starred_in(s@, self@.paths[i]),
                );
            }
        }
    }
}

/// Moves the places behind one up, and drops that one.
fn shift_places(places: &mut Vec<usize>, at: usize)
    ensures
        final(places)@ == shifted_places(old(places)@, at as int),
{
    let mut r: Vec<usize> = Vec::new();
    let mut i: usize = 0;
    assert(places@.take(0) =~= Seq::<usize>::empty());
    assert(shifted_places(places@.take(0), at as int) =~= r@);
    while i < places.len()
        invariant
            i <= places@.len(),
            r@ == shifted_places(places@.take(i as int), at as int),
        decreases places@.len() - i,
    {
        assert(places@.take(i + 1).drop_last() =~= places@.take(i as int));
        let p: usize = places[i];
        if p < at {
            r.push(p);
        } else if p > at {
            r.push(p - 1);
        }
        i += 1;
    }
    assert(places@.take(i as int) =~= places@);
    *places = r;
}

/// A list without a picture still lists each one once.
proof fn lemma_without_is_distinct(list: Seq<Seq<char>>, p: Seq<char>)
    requires
        list.no_duplicates(),
    ensures
        without(list, p).no_duplicates(),
{
    lemma_place_in(list, p);
}

/// The pictures that are left are in what is left of the whole list.
proof fn lemma_kept(paths: Seq<Seq<char>>, whole: Seq<Seq<char>>, at: int)
    requires
        paths.no_duplicates(),
        0 <= at < paths.len(),
        forall|i: int| 0 <= i < paths.len() ==> whole.contains(#[trigger] paths[i]),
    ensures
        forall|i: int|
            0 <= i < paths.remove(at).len() ==> without(whole, paths[at]).contains(
                #[trigger] paths.remove(at)[i],
            ),
{
    let left = paths.remove(at);
    assert forall|i: int| 0 <= i < left.len() implies without(whole, paths[at]).contains(
        #[trigger] left[i],
    ) by {
        let k = if i < at {
            i
        } else {
            i + 1
        };
        assert(left[i] == paths[k]);
        assert(whole.contains(paths[k]));
        lemma_without_keeps(whole, paths[at], paths[k]);
    }
}

/// Another picture stays where one is taken out.
proof fn lemma_without_keeps(list: Seq<Seq<char>>, p: Seq<char>, other: Seq<char>)
    requires
        list.contains(other),
        other != p,
    ensures
        without(list, p).contains(other),
{
    lemma_place_in(list, p);
    let at = place_in(list, p);
    let k = choose|k: int| 0 <= k < list.len() && list[k] == other;
    if at < list.len() {
        let r = list.remove(at);
        if k < at {
            assert(r[k] == other);
        } else {
            assert(r[k - 1] == other);
        }
    } else {
        assert(without(list, p)[k] == other);
    }
}

proof fn lemma_place_from(places: Seq<usize>, current: int)
    requires
        places.len() > 0,
    ensures
        0 <= place_from(places, current) < places.len(),
        forall|i: int| 0 <= i < place_from(places, current) ==> #[trigger] places[i] < current,
        places[place_from(places, current)] >= current || place_from(places, current)
            == places.len() - 1,
    decreases places.len(),
{
    if places.len() > 1 && places[0] < current {
        let rest = places.drop_first();
        lemma_place_from(rest, current);
        assert forall|i: int| 0 <= i < place_from(places, current) implies #[trigger] places[i]
            < current by {
            if i > 0 {
                assert(rest[i - 1] < current);
            }
        }
    }
}

/// Removing another picture leaves the one on screen where it is.
pub proof fn law_removal_keeps_the_picture_on_screen(v: PaneView, at: int)
    requires
        pane_wf(v),
        0 <= at < v.paths.len(),
        at != v.current,
    ensures
        removed(v, at).paths.len() > 0,
        removed(v, at).paths[removed(v, at).current] == v.paths[v.current],
{
}

/// Removing the picture on screen shows the next one, and at the end of the
/// list the one before.
pub proof fn law_removal_shows_the_next_picture(v: PaneView)
    requires
        pane_wf(v),
        v.paths.len() > 1,
    ensures
        ({
            let after = removed(v, v.current);
            after.paths[after.current] == if v.current + 1 < v.paths.len() {
                v.paths[v.current + 1]
            } else {
                v.paths[v.current - 1]
            }
        }),
{
}

/// Removing the picture on screen until none is left takes as many steps as
/// there are pictures: each takes one off the list, while the filter is off.
pub proof fn law_each_removal_takes_one_picture(v: PaneView)
    requires
        pane_wf(v),
        v.whole is None,
        v.paths.len() > 0,
    ensures
        removed(v, v.current).paths == v.paths.remove(v.current),
        removed(v, v.current).paths.len() == v.paths.len() - 1,
        !removed(v, v.current).paths.contains(v.paths[v.current]),
        removed(v, v.current).whole is None,
{
    let after = v.paths.remove(v.current);
    if after.contains(v.paths[v.current]) {
        let k = choose|k: int| 0 <= k < after.len() && after[k] == v.paths[v.current];
        let j = if k < v.current {
            k
        } else {
            k + 1
        };
        assert(v.paths[j] == v.paths[v.current]);
    }
}

/// With the filter on, every picture is starred and every starred picture of
/// the list is there. A starred picture stays on screen.
pub proof fn law_the_filter_leaves_the_starred_pictures(v: PaneView, s: StarsView, at: int)
    requires
        pane_wf(v),
        v.paths.len() <= usize::MAX,
        starred_places(v.paths, s).len() > 0,
        0 <= at < v.paths.len(),
    ensures
        forall|i: int|
            0 <= i < filtered(v, s).paths.len() ==> stars::starred_in(
                s,
                #[trigger] filtered(v, s).paths[i],
            ),
        stars::starred_in(s, v.paths[at]) ==> filtered(v, s).paths.contains(v.paths[at]),
        stars::starred_in(s, v.paths[v.current]) ==> filtered(v, s).paths[filtered(v, s).current]
            == v.paths[v.current],
{
    let pick = |i: int| stars::starred_in(s, v.paths[i]);
    let places = starred_places(v.paths, s);
    let f = filtered(v, s);
    picked::law_picked_numbers(v.paths.len() as int, pick);
    lemma_place_from(places, v.current);
    assert forall|i: int| 0 <= i < f.paths.len() implies stars::starred_in(
        s,
        #[trigger] f.paths[i],
    ) by {
        assert(pick(places[i] as int));
    }
    if stars::starred_in(s, v.paths[at]) {
        assert(pick(at));
        assert(places.contains(at as usize));
        let k = choose|k: int| 0 <= k < places.len() && places[k] == at as usize;
        assert(f.paths[k] == v.paths[at]);
    }
    if stars::starred_in(s, v.paths[v.current]) {
        assert(pick(v.current));
        assert(places.contains(v.current as usize));
        let k = choose|k: int| 0 <= k < places.len() && places[k] == v.current as usize;
        let r = place_from(places, v.current);
        if k < r {
            assert(places[k] < v.current);
        }
        if r < k {
            assert(places[r] < places[k]);
        }
    }
}

/// Turning the filter on and off again gives the whole list back, at the
/// picture that the filter showed.
pub proof fn law_the_filter_gives_the_list_back(v: PaneView, s: StarsView, later: StarsView)
    requires
        pane_wf(v),
        v.paths.len() <= usize::MAX,
        starred_places(v.paths, s).len() > 0,
    ensures
        ({
            let on = filtered(v, s);
            let off = unfiltered(on, later);
            &&& off.paths == v.paths
            &&& off.whole is None
            &&& off.paths[off.current] == on.paths[on.current]
            &&& stars::starred_in(s, v.paths[v.current]) ==> off.current == v.current
        }),
{
    let on = filtered(v, s);
    let places = starred_places(v.paths, s);
    picked::law_picked_numbers(
        v.paths.len() as int,
        |i: int| stars::starred_in(s, v.paths[i]),
    );
    lemma_place_from(places, v.current);
    let at = places[on.current] as int;
    assert(v.paths[at] == on.paths[on.current]);
    lemma_place_in(v.paths, on.paths[on.current]);
    assert(v.paths.contains(on.paths[on.current]));
    if stars::starred_in(s, v.paths[v.current]) {
        law_the_filter_leaves_the_starred_pictures(v, s, v.current);
    }
}

/// With the filter on, a picture that is not starred gives way to the next
/// starred one behind it, and where there is none to the last one before it. The
/// starred pictures keep their order.
pub proof fn law_the_filter_shows_the_next_starred_picture(v: PaneView, s: StarsView, at: int)
    requires
        pane_wf(v),
        v.paths.len() <= usize::MAX,
        0 <= at < v.paths.len(),
        stars::starred_in(s, v.paths[at]),
    ensures
        exists|shown: int|
            0 <= shown < v.paths.len() && filtered(v, s).paths[filtered(v, s).current] == #[trigger] v.paths[shown]
                && stars::starred_in(s, v.paths[shown]) && (at >= v.current ==> v.current <= shown <= at) && (shown
                < v.current ==> at <= shown),
        0 <= filtered(v, s).current < filtered(v, s).paths.len(),
        filtered(v, s).whole == Some(v.paths),
{
    let pick = |i: int| stars::starred_in(s, v.paths[i]);
    let places = starred_places(v.paths, s);
    picked::law_picked_numbers(v.paths.len() as int, pick);
    assert(pick(at));
    assert(places.contains(at as usize));
    let k = choose|k: int| 0 <= k < places.len() && places[k] == at as usize;
    lemma_place_from(places, v.current);
    let r = place_from(places, v.current);
    let shown = places[r] as int;
    assert(pick(shown));
    assert(filtered(v, s).paths[r] == v.paths[shown]);
    if k < r {
        assert(places[k] < v.current);
        assert(places[k] < places[r]);
    }
    if r < k {
        assert(places[r] < places[k]);
    }
}

/// The starred pictures that the filter leaves are in the order of the list.
pub proof fn law_the_filter_keeps_the_order(v: PaneView, s: StarsView, i: int, j: int)
    requires
        v.paths.len() <= usize::MAX,
        0 <= i < j < filtered(v, s).paths.len(),
    ensures
        exists|a: int, b: int|
            0 <= a < b < v.paths.len() && filtered(v, s).paths[i] == #[trigger] v.paths[a] && filtered(v, s).paths[j]
                == #[trigger] v.paths[b],
{
    let places = starred_places(v.paths, s);
    picked::law_picked_numbers(v.paths.len() as int, |i: int| stars::starred_in(s, v.paths[i]));
    let (a, b) = (places[i] as int, places[j] as int);
    assert(filtered(v, s).paths[i] == v.paths[a]);
    assert(filtered(v, s).paths[j] == v.paths[b]);
}

/// The filter is turned on only where a picture is starred, and off without a
/// condition. Where it is as it was asked to be, nothing changes.
pub proof fn law_when_the_filter_turns(v: PaneView, on: bool, s: StarsView)
    requires
        v.paths.len() <= usize::MAX,
    ensures
        ({
            let (after, done) = filter_set(v, on, s);
            let any = exists|i: int| 0 <= i < v.paths.len() && stars::starred_in(s, #[trigger] v.paths[i]);
            &&& done ==> (after.whole is Some <==> on)
            &&& !done ==> after == v
            &&& !done <==> on && v.whole is None && !any
            &&& on == (v.whole is Some) ==> after == v
            &&& !on && v.whole is Some ==> Some(after.paths) == v.whole
        }),
{
    let pick = |i: int| stars::starred_in(s, v.paths[i]);
    let places = starred_places(v.paths, s);
    picked::law_picked_numbers(v.paths.len() as int, pick);
    if places.len() > 0 {
        assert(pick(places[0] as int));
        assert(stars::starred_in(s, v.paths[places[0] as int]));
    }
    if exists|i: int| 0 <= i < v.paths.len() && stars::starred_in(s, #[trigger] v.paths[i]) {
        let i = choose|i: int| 0 <= i < v.paths.len() && stars::starred_in(s, #[trigger] v.paths[i]);
        assert(pick(i));
        assert(places.contains(i as usize));
    }
}

/// The places of the starred pictures are just the places where a starred
/// picture is.
pub proof fn law_starred_places_are_where_the_stars_are(paths: Seq<Seq<char>>, s: StarsView, i: usize)
    requires
        paths.len() <= usize::MAX,
    ensures
        starred_places(paths, s).contains(i) <==> i < paths.len() && stars::starred_in(s, paths[i as int]),
{
    let pick = |i: int| stars::starred_in(s, paths[i]);
    picked::law_picked_numbers(paths.len() as int, pick);
    let places = starred_places(paths, s);
    if places.contains(i) {
        let k = choose|k: int| 0 <= k < places.len() && places[k] == i;
        assert(pick(places[k] as int));
    } else if i < paths.len() && stars::starred_in(s, paths[i as int]) {
        assert(pick(i as int));
    }
}

proof fn lemma_shifted_has(places: Seq<usize>, at: int, i: int)
    requires
        0 <= i <= usize::MAX,
        i != at,
        0 <= at,
    ensures
        shifted_places(places, at).contains((if i < at { i } else { i - 1 }) as usize) <==> places.contains(i as usize),
    decreases places.len(),
{
    if places.len() > 0 {
        let front = places.drop_last();
        lemma_shifted_has(front, at, i);
        let to = (if i < at { i } else { i - 1 }) as usize;
        let before = shifted_places(front, at);
        let after = shifted_places(places, at);
        assert(places.contains(i as usize) <==> front.contains(i as usize) || places.last() == i) by {
            if places.contains(i as usize) {
                let k = choose|k: int| 0 <= k < places.len() && places[k] == i as usize;
                assert(k < front.len() ==> front[k] == i as usize);
            }
            if front.contains(i as usize) {
                let k = choose|k: int| 0 <= k < front.len() && front[k] == i as usize;
                assert(places[k] == i as usize);
            }
            if places.last() == i {
                assert(places[places.len() - 1] == i as usize);
            }
        }
        if places.last() != at {
            assert(after.contains(to) <==> before.contains(to) || after.last() == to) by {
                if after.contains(to) {
                    let k = choose|k: int| 0 <= k < after.len() && after[k] == to;
                    assert(k < before.len() ==> before[k] == to);
                }
                if before.contains(to) {
                    let k = choose|k: int| 0 <= k < before.len() && before[k] == to;
                    assert(after[k] == to);
                }
                if after.last() == to {
                    assert(after[after.len() - 1] == to);
                }
            }
        }
    }
}

/// After a removal the pictures that are left have the stars that they had: a
/// place counts as starred just where its picture's old place did.
pub proof fn law_removal_keeps_the_stars_with_their_pictures(v: PaneView, at: int, i: int)
    requires
        pane_wf(v),
        0 <= at < v.paths.len() <= usize::MAX,
        v.paths.len() > 1 || v.whole is None,
        0 <= i < v.paths.len(),
        i != at,
    ensures
        ({
            let after = removed(v, at);
            let to = if i < at { i } else { i - 1 };
            &&& after.paths[to] == v.paths[i]
            &&& after.starred.contains(to as usize) <==> v.starred.contains(i as usize)
        }),
{
    lemma_shifted_has(v.starred, at, i);
}

/// A picture that leaves by its path takes no other picture along.
pub proof fn law_removal_keeps_the_other_pictures(v: PaneView, p: Seq<char>, q: Seq<char>)
    requires
        pane_wf(v),
        q != p,
    ensures
        v.paths.contains(q) ==> path_removed(v, p).paths.contains(q),
        v.whole matches Some(w) && w.contains(q) ==> match path_removed(v, p).whole {
            Some(left) => left.contains(q),
            None => path_removed(v, p).paths.contains(q),
        },
{
    lemma_place_in(v.paths, p);
    if v.paths.contains(q) {
        lemma_without_keeps(v.paths, p, q);
    }
    if let Some(w) = v.whole {
        if w.contains(q) {
            lemma_without_keeps(w, p, q);
        }
    }
    if place_in(v.paths, p) < v.paths.len() {
        let at = place_in(v.paths, p);
        assert(v.paths.remove(at) == without(v.paths, p));
    }
}

/// When the last picture that the filter left is gone, the filter is off and the
/// pane shows the folder at the picture that came behind it, or at the last one.
pub proof fn law_an_empty_filter_shows_the_folder(v: PaneView, w: Seq<Seq<char>>, k: int)
    requires
        pane_wf(v),
        v.whole == Some(w),
        v.paths.len() == 1,
        0 <= k < w.len(),
        w[k] == v.paths[0],
        w.len() > 1,
    ensures
        ({
            let after = removed(v, 0);
            &&& after.whole is None
            &&& after.paths == w.remove(k)
            &&& k + 1 < w.len() ==> after.paths[after.current] == w[k + 1]
            &&& k + 1 == w.len() ==> after.paths[after.current] == w[k - 1]
        }),
{
    lemma_place_in(w, v.paths[0]);
    let at = place_in(w, v.paths[0]);
    assert(at == k);
}

/// The removal of the only picture leaves an empty list, and that of a picture
/// behind the end changes nothing.
pub proof fn law_removals_at_the_ends(v: PaneView, at: int)
    ensures
        at >= v.paths.len() ==> removed(v, at) == v,
        v.paths.len() == 1 && v.whole is None ==> removed(v, 0).paths.len() == 0 && removed(v, 0).current == 0,
{
}

} // verus!
