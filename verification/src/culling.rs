//! Culling: which panes and pictures an action is for, and what the user is
//! told.
use vstd::prelude::*;

use crate::pane;
use crate::pane::{PaneList, PaneView};
use crate::picked;
use crate::stars;
use crate::stars::file::Change;
use crate::stars::{name_of, Stars, StarsView, WriteJob};
use crate::text;
use crate::text::same_text;

verus! {

/// How long a message stays on screen, in nanoseconds.
pub const TOAST_DURATION: u64 = 2_500_000_000;

/// How long the star after a key press stays fully visible.
pub const STAR_FLASH_HOLD: u64 = 400_000_000;

/// How long it takes to fade out then.
pub const STAR_FLASH_FADE: u64 = 400_000_000;

/// What an action has to know about a pane.
#[derive(Debug)]
pub struct PaneState {
    pub selected: bool,
    /// The picture on screen, where the pane has one.
    pub current: Option<String>,
    /// Whether that picture is starred.
    pub starred: bool,
    /// Whether the filter is on.
    pub starred_only: bool,
}

/// Whether an action is for a pane: where each pane goes its own way, only for
/// the selected ones.
pub open spec fn takes_part(p: PaneState, independent: bool) -> bool {
    !independent || p.selected
}

/// Whether an action is for a pane that has a picture.
pub open spec fn is_active(p: PaneState, independent: bool) -> bool {
    takes_part(p, independent) && p.current is Some
}

/// Whether a pane is the first that shows its picture.
pub open spec fn shows_first(panes: Seq<PaneState>, independent: bool, i: int) -> bool {
    is_active(panes[i], independent) && forall|j: int|
        0 <= j < i && is_active(#[trigger] panes[j], independent) ==> panes[j].current->0@
            != panes[i].current->0@
}

/// The panes whose pictures an action is for, each picture once.
pub open spec fn showing_panes(panes: Seq<PaneState>, independent: bool) -> Seq<usize> {
    picked::picked(panes.len() as int, |i: int| shows_first(panes, independent, i))
}

/// The pictures that an action is for: of every pane it is for, in order, and
/// a picture that two panes show once.
pub open spec fn targets_of(panes: Seq<PaneState>, independent: bool) -> Seq<Seq<char>> {
    let at = showing_panes(panes, independent);
    Seq::new(at.len(), |k: int| panes[at[k] as int].current->0@)
}

/// Whether a text is in a list.
fn in_texts(list: &Vec<String>, p: &str) -> (r: bool)
    ensures
        r == exists|k: int| 0 <= k < list@.len() && #[trigger] list@[k]@ == p@,
{
    let mut i: usize = 0;
    while i < list.len()
        invariant
            i <= list@.len(),
            forall|k: int| 0 <= k < i ==> #[trigger] list@[k]@ != p@,
        decreases list@.len() - i,
    {
        if same_text(list[i].as_str(), p) {
            assert(list@[i as int]@ == p@);
            return true;
        }
        i += 1;
    }
    false
}

/// The pictures that an action is for.
pub fn targets(panes: &Vec<PaneState>, independent: bool) -> (r: Vec<String>)
    ensures
        text::texts_of(r@) == targets_of(panes@, independent),
{
    let ghost pick = |i: int| shows_first(panes@, independent, i);
    let mut r: Vec<String> = Vec::new();
    let mut i: usize = 0;
    assert(panes@.len() == panes.len());
    while i < panes.len()
        invariant
            i <= panes@.len(),
            panes@.len() <= usize::MAX,
            pick == (|i: int| shows_first(panes@, independent, i)),
            r@.len() == picked::picked(i as int, pick).len(),
            forall|k: int|
                0 <= k < r@.len() ==> #[trigger] r@[k]@ == panes@[picked::picked(
                    i as int,
                    pick,
                )[k] as int].current->0@,
            forall|j: int|
                0 <= j < i && is_active(#[trigger] panes@[j], independent) ==> exists|k: int|
                    0 <= k < r@.len() && #[trigger] r@[k]@ == panes@[j].current->0@,
        decreases panes@.len() - i,
    {
        let p = &panes[i];
        proof {
            picked::law_picked_numbers(i as int, pick);
        }
        let ghost before = r@;
        if !independent || p.selected {
            if let Some(path) = &p.current {
                let seen = in_texts(&r, path.as_str());
                proof {
                    if seen {
                        let k = choose|k: int| 0 <= k < r@.len() && #[trigger] r@[k]@ == path@;
                        let j = picked::picked(i as int, pick)[k] as int;
                        assert(pick(j));
                        assert(is_active(panes@[j], independent));
                        assert(panes@[j].current->0@ == path@);
                        assert(!shows_first(panes@, independent, i as int));
                    } else {
                        assert(shows_first(panes@, independent, i as int)) by {
                            assert forall|j: int|
                                0 <= j < i && is_active(
                                    #[trigger] panes@[j],
                                    independent,
                                ) implies panes@[j].current->0@ != panes@[i as int].current->0@ by {
                                let k = choose|k: int|
                                    0 <= k < r@.len() && #[trigger] r@[k]@
                                        == panes@[j].current->0@;
                                assert(r@[k]@ != path@);
                            }
                        }
                    }
                }
                if !seen {
                    r.push(path.clone());
                    assert(r@[before.len() as int]@ == path@);
                }
            }
        }
        proof {
            assert forall|j: int| 0 <= j < i + 1 && is_active(
                #[trigger] panes@[j],
                independent,
            ) implies exists|k: int| 0 <= k < r@.len() && #[trigger] r@[k]@
                == panes@[j].current->0@ by {
                if j < i {
                    let k = choose|k: int|
                        0 <= k < before.len() && #[trigger] before[k]@ == panes@[j].current->0@;
                    assert(r@[k]@ == panes@[j].current->0@);
                }
            }
        }
        i += 1;
    }
    assert(text::texts_of(r@) =~= targets_of(panes@, independent));
    r
}

/// No picture is named twice.
pub proof fn law_targets_are_named_once(panes: Seq<PaneState>, independent: bool)
    requires
        panes.len() <= usize::MAX,
    ensures
        targets_of(panes, independent).no_duplicates(),
{
    let pick = |i: int| shows_first(panes, independent, i);
    let at = showing_panes(panes, independent);
    let t = targets_of(panes, independent);
    picked::law_picked_numbers(panes.len() as int, pick);
    assert forall|a: int, b: int| 0 <= a < b < t.len() implies t[a] != t[b] by {
        assert(at[a] < at[b]);
        assert(pick(at[a] as int) && pick(at[b] as int));
        assert(is_active(panes[at[a] as int], independent));
    }
}

/// What is done with the pictures that go to the trash.
#[derive(Debug, Clone, Copy, PartialEq, Eq, Structural)]
pub enum TrashStep {
    Nothing,
    /// The user is asked, because the file would be deleted for good.
    Confirm,
    Trash,
}

/// What is done with a number of pictures that go to the trash.
pub open spec fn step_for(count: int, any_lacks_bin: bool) -> TrashStep {
    if count == 0 {
        TrashStep::Nothing
    } else if any_lacks_bin {
        TrashStep::Confirm
    } else {
        TrashStep::Trash
    }
}

/// Nothing is moved without a question where a file would be deleted for good,
/// and the question is asked only there and only about pictures.
pub proof fn law_nothing_is_deleted_unasked(count: int, any_lacks_bin: bool)
    requires
        count >= 0,
    ensures
        step_for(count, any_lacks_bin) is Trash <==> count > 0 && !any_lacks_bin,
        step_for(count, any_lacks_bin) is Confirm <==> count > 0 && any_lacks_bin,
{
}

/// What is done with a number of pictures that go to the trash, some of which
/// may be where the trash would delete them for good.
pub fn trash_step(count: usize, any_lacks_bin: bool) -> (r: TrashStep)
    ensures
        r == step_for(count as int, any_lacks_bin),
{
    if count == 0 {
        TrashStep::Nothing
    } else if any_lacks_bin {
        TrashStep::Confirm
    } else {
        TrashStep::Trash
    }
}

/// What happened in a frame of the question.
#[derive(Debug, Clone, Copy, PartialEq, Eq, Structural)]
pub struct DeleteFrame {
    pub backdrop_clicked: bool,
    pub cancel_clicked: bool,
    pub delete_clicked: bool,
    pub enter: bool,
    pub escape: bool,
}

/// The answer to the question: the keys come before the clicks, and a click on
/// the button before one beside it.
pub open spec fn delete_answer(f: DeleteFrame) -> Option<bool> {
    if f.enter {
        Some(true)
    } else if f.escape {
        Some(false)
    } else if f.delete_clicked {
        Some(true)
    } else if f.cancel_clicked || f.backdrop_clicked {
        Some(false)
    } else {
        None
    }
}

/// The answer to the question whether files are deleted for good: yes, no, or
/// none yet. Enter confirms and Escape cancels.
pub fn permanent_delete_decision(f: DeleteFrame) -> (r: Option<bool>)
    ensures
        r == delete_answer(f),
{
    let mut decision: Option<bool> = None;
    if f.backdrop_clicked {
        decision = Some(false);
    }
    if f.cancel_clicked {
        decision = Some(false);
    }
    if f.delete_clicked {
        decision = Some(true);
    }
    if f.enter {
        decision = Some(true);
    } else if f.escape {
        decision = Some(false);
    }
    decision
}

/// What the user is told about a picture that went to the trash.
pub fn moved_message(p: &str) -> (r: String)
    ensures
        r@ == "Moved to Trash: "@ + stars::shown_name(p@),
{
    let mut out = "Moved to Trash: ".to_owned();
    out.append(name_of(p).as_str());
    out
}

/// What the user is told about a picture that did not go to the trash.
pub fn not_moved_message(p: &str, reason: &str) -> (r: String)
    ensures
        r@ == "Could not move "@ + stars::shown_name(p@) + " to Trash: "@ + reason@,
{
    let mut out = "Could not move ".to_owned();
    out.append(name_of(p).as_str());
    out.append(" to Trash: ");
    out.append(reason);
    out
}

/// What became of a picture that was to go to the trash.
#[derive(Debug)]
pub struct Trashed {
    /// What the user is told.
    pub message: String,
    pub is_error: bool,
    /// What came of taking the picture's entry out of its folder's star file,
    /// where it has one.
    pub star: Option<Result<WriteJob, String>>,
}

/// All panes are as they should be.
pub open spec fn panes_wf(panes: Seq<PaneList>) -> bool {
    forall|i: int| 0 <= i < panes.len() ==> (#[trigger] panes[i]).wf()
}

/// After an attempt to move a picture to the trash. A picture that was moved
/// leaves every list of every pane, whichever pane shows it, and its star goes
/// too. A move that failed leaves everything as it is.
pub fn after_trash(
    panes: &mut Vec<PaneList>,
    s: &mut Stars,
    p: &str,
    moved: Result<(), String>,
) -> (r: Trashed)
    requires
        panes_wf(old(panes)@),
        old(s).wf(),
        stars::has_room(old(s)@),
    ensures
        panes_wf(final(panes)@),
        final(s).wf(),
        final(panes)@.len() == old(panes)@.len(),
        match moved {
            Ok(_) => {
                &&& forall|i: int|
                    0 <= i < final(panes)@.len() ==> (#[trigger] final(panes)@[i])@
                        == pane::path_removed(old(panes)@[i]@, p@)
                &&& match r.star {
                    Some(job) => stars::in_file(old(s)@, p@) && stars::is_change(
                        old(s)@,
                        final(s)@,
                        job,
                        p@,
                        Change::Unstar,
                    ),
                    None => !stars::in_file(old(s)@, p@) && final(s)@ == old(s)@,
                }
                &&& !r.is_error
                &&& r.message@ == "Moved to Trash: "@ + stars::shown_name(p@)
            },
            Err(reason) => {
                &&& forall|i: int|
                    0 <= i < final(panes)@.len() ==> (#[trigger] final(panes)@[i])@
                        == old(panes)@[i]@
                &&& final(s)@ == old(s)@
                &&& r.star is None
                &&& r.is_error
                &&& r.message@ == "Could not move "@ + stars::shown_name(p@) + " to Trash: "@
                    + reason@
            },
        },
{
    match moved {
        Err(reason) => Trashed {
            message: not_moved_message(p, reason.as_str()),
            is_error: true,
            star: None,
        },
        Ok(_) => {
            let ghost before = panes@;
            let mut i: usize = 0;
            while i < panes.len()
                invariant
                    i <= panes@.len(),
                    panes@.len() == before.len(),
                    panes_wf(before),
                    panes_wf(panes@),
                    forall|k: int|
                        0 <= k < i ==> (#[trigger] panes@[k])@ == pane::path_removed(
                            before[k]@,
                            p@,
                        ),
                    forall|k: int| i <= k < panes@.len() ==> #[trigger] panes@[k] == before[k],
                decreases panes@.len() - i,
            {
                panes[i].remove_path(p);
                i += 1;
            }
            let star = s.forget(p);
            Trashed { message: moved_message(p), is_error: false, star }
        },
    }
}

/// Whether pictures get a star: they do as soon as one of them has none.
pub open spec fn gives_stars(paths: Seq<Seq<char>>, s: StarsView) -> bool {
    exists|i: int| 0 <= i < paths.len() && !stars::starred_in(s, #[trigger] paths[i])
}

/// Those of some pictures that change: they are not yet as all of them will be.
pub open spec fn changing(paths: Seq<Seq<char>>, s: StarsView) -> Seq<Seq<char>> {
    let at = picked::picked(
        paths.len() as int,
        |i: int| stars::starred_in(s, paths[i]) != gives_stars(paths, s),
    );
    Seq::new(at.len(), |k: int| paths[at[k] as int])
}

/// What the star key does.
#[derive(Debug)]
pub struct StarPlan {
    /// Whether pictures get a star, rather than lose it.
    pub star: bool,
    /// The pictures that change.
    pub paths: Vec<String>,
}

/// What the star key does with some pictures: if any of them has no star, those
/// without one get one. Otherwise all of them lose it.
pub fn star_plan(paths: &Vec<String>, s: &Stars) -> (r: StarPlan)
    requires
        s.wf(),
    ensures
        r.star == gives_stars(text::texts_of(paths@), s@),
        text::texts_of(r.paths@) == changing(text::texts_of(paths@), s@),
{
    let ghost all = text::texts_of(paths@);
    let mut star = false;
    let mut i: usize = 0;
    while i < paths.len()
        invariant
            i <= paths@.len(),
            s.wf(),
            all == text::texts_of(paths@),
            star == exists|k: int| 0 <= k < i && !stars::starred_in(s@, #[trigger] all[k]),
        decreases paths@.len() - i,
    {
        if !s.is_starred(paths[i].as_str()) {
            assert(!stars::starred_in(s@, all[i as int]));
            star = true;
        }
        i += 1;
    }
    let ghost pick = |i: int| stars::starred_in(s@, all[i]) != gives_stars(all, s@);
    let mut changed: Vec<String> = Vec::new();
    let mut j: usize = 0;
    while j < paths.len()
        invariant
            j <= paths@.len(),
            s.wf(),
            all == text::texts_of(paths@),
            star == gives_stars(all, s@),
            pick == (|i: int| stars::starred_in(s@, all[i]) != gives_stars(all, s@)),
            changed@.len() == picked::picked(j as int, pick).len(),
            forall|k: int|
                0 <= k < changed@.len() ==> #[trigger] changed@[k]@ == all[picked::picked(
                    j as int,
                    pick,
                )[k] as int],
        decreases paths@.len() - j,
    {
        assert(pick(j as int) == (stars::starred_in(s@, all[j as int]) != star));
        if s.is_starred(paths[j].as_str()) != star {
            changed.push(paths[j].clone());
        }
        j += 1;
    }
    assert(text::texts_of(changed@) =~= changing(all, s@));
    StarPlan { star, paths: changed }
}

/// The changes of a plan, one after the other: the stars before each and after
/// the last, what each change is, and that it was taken.
pub open spec fn are_changes(
    states: Seq<StarsView>,
    results: Seq<Result<WriteJob, String>>,
    changes: Seq<Change>,
    paths: Seq<Seq<char>>,
    star: bool,
) -> bool {
    &&& states.len() == paths.len() + 1
    &&& results.len() == paths.len()
    &&& changes.len() == paths.len()
    &&& forall|k: int|
        #![trigger results[k]]
        0 <= k < paths.len() ==> {
            &&& stars::is_change(states[k], states[k + 1], results[k], paths[k], changes[k])
            &&& results[k] is Ok
            &&& (changes[k] is Star) == star
        }
}

/// Once the star key has changed the pictures that change, all the pictures it
/// is for have a star, or none has.
pub proof fn law_the_star_key_makes_pictures_equal(
    paths: Seq<Seq<char>>,
    states: Seq<StarsView>,
    results: Seq<Result<WriteJob, String>>,
    changes: Seq<Change>,
    i: int,
)
    requires
        0 <= i < paths.len() <= usize::MAX,
        states.len() > 0,
        are_changes(
            states,
            results,
            changes,
            changing(paths, states[0]),
            gives_stars(paths, states[0]),
        ),
    ensures
        stars::starred_in(states.last(), paths[i]) == gives_stars(paths, states[0]),
{
    let star = gives_stars(paths, states[0]);
    let plan = changing(paths, states[0]);
    let pick = |i: int| stars::starred_in(states[0], paths[i]) != gives_stars(paths, states[0]);
    let at = picked::picked(paths.len() as int, pick);
    picked::law_picked_numbers(paths.len() as int, pick);
    if pick(i) {
        assert(at.contains(i as usize));
        let k = choose|k: int| 0 <= k < at.len() && at[k] == i as usize;
        assert(plan[k] == paths[i]);
        assert(results[k] is Ok);
        stars::law_a_change_shows_at_once(
            states[k],
            states[k + 1],
            results[k],
            plan[k],
            changes[k],
        );
        lemma_stays(states, results, changes, plan, star, paths[i], k + 1, plan.len() as int);
    } else {
        lemma_stays(states, results, changes, plan, star, paths[i], 0, plan.len() as int);
    }
}

proof fn lemma_stays(
    states: Seq<StarsView>,
    results: Seq<Result<WriteJob, String>>,
    changes: Seq<Change>,
    plan: Seq<Seq<char>>,
    star: bool,
    p: Seq<char>,
    from: int,
    to: int,
)
    requires
        are_changes(states, results, changes, plan, star),
        0 <= from <= to <= plan.len(),
        stars::starred_in(states[from], p) == star,
    ensures
        stars::starred_in(states[to], p) == star,
    decreases to - from,
{
    if from < to {
        let k = from;
        assert(results[k] is Ok);
        stars::law_a_change_shows_at_once(
            states[k],
            states[k + 1],
            results[k],
            plan[k],
            changes[k],
        );
        if stars::split_of(p) != stars::split_of(plan[k]) {
            stars::law_other_pictures_keep_their_stars(
                states[k],
                states[k + 1],
                results[k],
                plan[k],
                changes[k],
                p,
            );
        }
        lemma_stays(states, results, changes, plan, star, p, from + 1, to);
    }
}

/// Whether the filter is turned on: it is where no active pane has it on.
pub open spec fn turns_filter_on(panes: Seq<PaneState>, independent: bool) -> bool {
    forall|i: int|
        0 <= i < panes.len() && is_active(#[trigger] panes[i], independent)
            ==> !panes[i].starred_only
}

/// Whether the filter is turned on, rather than off, in the active panes.
pub fn filter_turns_on(panes: &Vec<PaneState>, independent: bool) -> (r: bool)
    ensures
        r == turns_filter_on(panes@, independent),
{
    let mut i: usize = 0;
    while i < panes.len()
        invariant
            i <= panes@.len(),
            forall|k: int|
                0 <= k < i && is_active(#[trigger] panes@[k], independent)
                    ==> !panes@[k].starred_only,
        decreases panes@.len() - i,
    {
        let p = &panes[i];
        if (!independent || p.selected) && p.current.is_some() && p.starred_only {
            assert(is_active(panes@[i as int], independent));
            return false;
        }
        i += 1;
    }
    true
}

/// What the user is told when panes have no starred picture to show.
pub open spec fn no_stars_message(refused: Seq<usize>, active: int) -> Option<Seq<char>> {
    if refused.len() == 0 {
        None
    } else if refused.len() == active {
        Some("No starred images in this folder"@)
    } else {
        Some("No starred images in pane "@ + text::decimal((refused[0] + 1) as nat))
    }
}

/// What the user is told when panes have no starred picture to show: which one
/// it is, unless none of the active ones has any.
pub fn filter_message(refused: &Vec<usize>, active: usize) -> (r: Option<String>)
    requires
        refused@.len() > 0 ==> refused@[0] < u64::MAX,
    ensures
        match r {
            Some(m) => no_stars_message(refused@, active as int) == Some(m@),
            None => no_stars_message(refused@, active as int) is None,
        },
{
    if refused.len() == 0 {
        return None;
    }
    if refused.len() == active {
        return Some("No starred images in this folder".to_owned());
    }
    let mut out = "No starred images in pane ".to_owned();
    text::push_decimal(&mut out, refused[0] as u64 + 1);
    Some(out)
}

/// Whether the filter key is for a pane: it takes part and has a picture.
pub open spec fn pane_is_active(v: PaneView, selected: bool, independent: bool) -> bool {
    (!independent || selected) && v.paths.len() > 0
}

/// Whether the filter key turns the filter on: it does where no active pane has
/// it on.
pub open spec fn key_turns_on(
    panes: Seq<PaneView>,
    selected: Seq<bool>,
    independent: bool,
) -> bool {
    forall|i: int|
        0 <= i < panes.len() && pane_is_active(#[trigger] panes[i], selected[i], independent)
            ==> panes[i].whole is None
}

/// Whether a pane has no starred picture to show.
pub open spec fn is_refused(
    panes: Seq<PaneView>,
    selected: Seq<bool>,
    independent: bool,
    s: StarsView,
    i: int,
) -> bool {
    pane_is_active(panes[i], selected[i], independent) && !pane::filter_set(
        panes[i],
        key_turns_on(panes, selected, independent),
        s,
    ).1
}

/// What is known about some panes.
pub open spec fn views(panes: Seq<PaneList>) -> Seq<PaneView> {
    Seq::new(panes.len(), |i: int| panes[i]@)
}

/// What the filter key does: on in every active pane if none of them has it on,
/// off otherwise. Answers with what the user is told, where panes have no
/// starred picture to show.
pub fn toggle_starred_only(
    panes: &mut Vec<PaneList>,
    selected: &Vec<bool>,
    independent: bool,
    s: &Stars,
) -> (r: Option<String>)
    requires
        panes_wf(old(panes)@),
        selected@.len() == old(panes)@.len(),
        s.wf(),
    ensures
        panes_wf(final(panes)@),
        ({
            let before = views(old(panes)@);
            let n = before.len() as int;
            let refused = picked::picked(
                n,
                |i: int| is_refused(before, selected@, independent, s@, i),
            );
            let active = picked::picked(
                n,
                |i: int| pane_is_active(before[i], selected@[i], independent),
            );
            &&& views(final(panes)@) == Seq::new(
                before.len(),
                |i: int|
                    if pane_is_active(before[i], selected@[i], independent) {
                        pane::filter_set(
                            before[i],
                            key_turns_on(before, selected@, independent),
                            s@,
                        ).0
                    } else {
                        before[i]
                    },
            )
            &&& match r {
                Some(m) => no_stars_message(refused, active.len() as int) == Some(m@),
                None => no_stars_message(refused, active.len() as int) is None,
            }
        }),
{
    let ghost start = panes@;
    let ghost before = views(panes@);
    assert(panes@.len() == panes.len());
    let mut on = true;
    let mut i: usize = 0;
    while i < panes.len()
        invariant
            i <= panes@.len(),
            panes@ == start,
            before == views(start),
            selected@.len() == panes@.len(),
            on == forall|k: int|
                0 <= k < i && pane_is_active(#[trigger] before[k], selected@[k], independent)
                    ==> before[k].whole is None,
        decreases panes@.len() - i,
    {
        if (!independent || selected[i]) && panes[i].image_paths.len() > 0
            && panes[i].starred_only() {
            assert(pane_is_active(before[i as int], selected@[i as int], independent));
            on = false;
        }
        i += 1;
    }
    let ghost refuse = |i: int| is_refused(before, selected@, independent, s@, i);
    let ghost part = |i: int| pane_is_active(before[i], selected@[i], independent);
    let mut refused: Vec<usize> = Vec::new();
    let mut active: usize = 0;
    let mut j: usize = 0;
    while j < panes.len()
        invariant
            j <= panes@.len() <= usize::MAX,
            panes@.len() == start.len(),
            before == views(start),
            selected@.len() == panes@.len(),
            s.wf(),
            panes_wf(panes@),
            on == key_turns_on(before, selected@, independent),
            refuse == (|i: int| is_refused(before, selected@, independent, s@, i)),
            part == (|i: int| pane_is_active(before[i], selected@[i], independent)),
            refused@ == picked::picked(j as int, refuse),
            active == picked::picked(j as int, part).len(),
            active <= j,
            forall|k: int|
                0 <= k < j ==> (#[trigger] panes@[k])@ == (if pane_is_active(
                    before[k],
                    selected@[k],
                    independent,
                ) {
                    pane::filter_set(before[k], on, s@).0
                } else {
                    before[k]
                }),
            forall|k: int| j <= k < panes@.len() ==> #[trigger] panes@[k] == start[k],
        decreases panes@.len() - j,
    {
        assert(panes@[j as int]@ == before[j as int]);
        assert(part(j as int) == pane_is_active(before[j as int], selected@[j as int], independent));
        assert(refuse(j as int) == is_refused(before, selected@, independent, s@, j as int));
        if (!independent || selected[j]) && panes[j].image_paths.len() > 0 {
            active += 1;
            if !panes[j].set_starred_only(on, s) {
                refused.push(j);
            }
        }
        j += 1;
    }
    assert(views(panes@) =~= Seq::new(
        before.len(),
        |i: int|
            if pane_is_active(before[i], selected@[i], independent) {
                pane::filter_set(before[i], key_turns_on(before, selected@, independent), s@).0
            } else {
                before[i]
            },
    ));
    proof {
        picked::law_picked_numbers(before.len() as int, refuse);
    }
    filter_message(&refused, active)
}

/// What the menus show: whether every picture that the key is for has a star,
/// and whether the filter is on in an active pane.
pub open spec fn menu_state(panes: Seq<PaneState>, independent: bool) -> (bool, bool) {
    (
        (exists|i: int| 0 <= i < panes.len() && is_active(#[trigger] panes[i], independent))
            && forall|i: int|
            0 <= i < panes.len() && is_active(#[trigger] panes[i], independent)
                ==> panes[i].starred,
        !turns_filter_on(panes, independent),
    )
}

/// What the menus show.
pub fn star_menu_state(panes: &Vec<PaneState>, independent: bool) -> (r: (bool, bool))
    ensures
        r == menu_state(panes@, independent),
{
    let mut any = false;
    let mut all = true;
    let mut i: usize = 0;
    while i < panes.len()
        invariant
            i <= panes@.len(),
            any == exists|k: int|
                0 <= k < i && is_active(#[trigger] panes@[k], independent),
            all == forall|k: int|
                0 <= k < i && is_active(#[trigger] panes@[k], independent) ==> panes@[k].starred,
        decreases panes@.len() - i,
    {
        let p = &panes[i];
        if (!independent || p.selected) && p.current.is_some() {
            assert(is_active(panes@[i as int], independent));
            any = true;
            if !p.starred {
                all = false;
            }
        }
        i += 1;
    }
    (any && all, !filter_turns_on(panes, independent))
}

/// How much of the fade of a star is over, or nothing when it has faded. The
/// star is fully visible before the fade begins.
pub open spec fn flash_fade(elapsed: int) -> Option<int> {
    if elapsed >= STAR_FLASH_HOLD + STAR_FLASH_FADE {
        None
    } else if elapsed < STAR_FLASH_HOLD {
        Some(0)
    } else {
        Some(elapsed - STAR_FLASH_HOLD)
    }
}

/// How much of the fade of a star is over, in nanoseconds, or nothing when it
/// has faded.
pub fn star_flash(elapsed: u64) -> (r: Option<u64>)
    ensures
        match r {
            Some(t) => flash_fade(elapsed as int) == Some(t as int),
            None => flash_fade(elapsed as int) is None,
        },
{
    if elapsed >= STAR_FLASH_HOLD + STAR_FLASH_FADE {
        None
    } else if elapsed < STAR_FLASH_HOLD {
        Some(0)
    } else {
        Some(elapsed - STAR_FLASH_HOLD)
    }
}

/// Whether a message is still on screen.
pub open spec fn is_on_screen(elapsed: int) -> bool {
    elapsed < TOAST_DURATION
}

/// A message stays for two and a half seconds. The star after a key press is fully
/// visible for four tenths of a second, fades for as long, and is gone then.
pub proof fn law_how_long_messages_and_stars_stay(elapsed: int)
    requires
        elapsed >= 0,
    ensures
        is_on_screen(elapsed) <==> elapsed < 2_500_000_000,
        flash_fade(elapsed) is None <==> elapsed >= 800_000_000,
        elapsed < 400_000_000 ==> flash_fade(elapsed) == Some(0int),
        400_000_000 <= elapsed < 800_000_000 ==> flash_fade(elapsed) == Some(elapsed - 400_000_000),
{
}

/// Whether a message is still on screen.
pub fn toast_shows(elapsed: u64) -> (r: bool)
    ensures
        r == is_on_screen(elapsed as int),
{
    elapsed < TOAST_DURATION
}

/// An action is for the pictures of all panes that have one, and where each pane
/// goes its own way for those of the selected panes. Nothing else is a target.
pub proof fn law_what_an_action_is_for(panes: Seq<PaneState>, independent: bool, p: Seq<char>)
    requires
        panes.len() <= usize::MAX,
    ensures
        targets_of(panes, independent).contains(p) <==> exists|i: int|
            0 <= i < panes.len() && (#[trigger] panes[i]).current is Some && panes[i].current->0@ == p && (!independent
                || panes[i].selected),
{
    let pick = |i: int| shows_first(panes, independent, i);
    let at = showing_panes(panes, independent);
    picked::law_picked_numbers(panes.len() as int, pick);
    let targets = targets_of(panes, independent);
    if targets.contains(p) {
        let k = choose|k: int| 0 <= k < targets.len() && targets[k] == p;
        assert(pick(at[k] as int));
        assert(panes[at[k] as int].current->0@ == p);
    }
    if exists|i: int|
        0 <= i < panes.len() && (#[trigger] panes[i]).current is Some && panes[i].current->0@ == p && (!independent
            || panes[i].selected) {
        let i = choose|i: int|
            0 <= i < panes.len() && (#[trigger] panes[i]).current is Some && panes[i].current->0@ == p && (
            !independent || panes[i].selected);
        let first = lemma_first_pane(panes, independent, p, i);
        assert(pick(first));
        assert(at.contains(first as usize));
        let k = choose|k: int| 0 <= k < at.len() && at[k] == first as usize;
        assert(targets[k] == p);
    }
}

/// The first pane that shows a picture.
proof fn lemma_first_pane(panes: Seq<PaneState>, independent: bool, p: Seq<char>, i: int) -> (first: int)
    requires
        0 <= i < panes.len(),
        is_active(panes[i], independent),
        panes[i].current->0@ == p,
    ensures
        0 <= first <= i,
        shows_first(panes, independent, first),
        panes[first].current->0@ == p,
    decreases i,
{
    if shows_first(panes, independent, i) {
        i
    } else {
        let j = choose|j: int|
            0 <= j < i && is_active(#[trigger] panes[j], independent) && panes[j].current->0@ == panes[i].current->0@;
        lemma_first_pane(panes, independent, p, j)
    }
}

/// The star key gives stars as soon as one of its pictures has none, and then to
/// just those that have none; where all have one it takes all of them.
pub proof fn law_what_the_star_key_changes(paths: Seq<Seq<char>>, s: StarsView, i: int)
    requires
        0 <= i < paths.len() <= usize::MAX,
    ensures
        !stars::starred_in(s, paths[i]) ==> gives_stars(paths, s) && changing(paths, s).contains(paths[i]),
        (forall|j: int| 0 <= j < paths.len() ==> stars::starred_in(s, #[trigger] paths[j])) ==> !gives_stars(paths, s)
            && changing(paths, s) == paths,
        gives_stars(paths, s) && stars::starred_in(s, paths[i]) ==> !changing(paths, s).contains(paths[i]),
{
    let pick = |i: int| stars::starred_in(s, paths[i]) != gives_stars(paths, s);
    let at = picked::picked(paths.len() as int, pick);
    picked::law_picked_numbers(paths.len() as int, pick);
    let list = changing(paths, s);
    if !stars::starred_in(s, paths[i]) {
        assert(pick(i));
        assert(at.contains(i as usize));
        let k = choose|k: int| 0 <= k < at.len() && at[k] == i as usize;
        assert(list[k] == paths[i]);
    }
    if gives_stars(paths, s) && stars::starred_in(s, paths[i]) && list.contains(paths[i]) {
        let k = choose|k: int| 0 <= k < list.len() && list[k] == paths[i];
        assert(pick(at[k] as int));
    }
    if forall|j: int| 0 <= j < paths.len() ==> stars::starred_in(s, #[trigger] paths[j]) {
        assert forall|j: int| 0 <= j < paths.len() implies #[trigger] pick(j) by {
            assert(stars::starred_in(s, paths[j]));
        }
        lemma_all_picked(paths.len() as int, pick);
        assert(list =~= paths);
    }
}

/// Where everything is picked, each number stands at its own place.
proof fn lemma_all_picked(n: int, pick: spec_fn(int) -> bool)
    requires
        0 <= n <= usize::MAX,
        forall|j: int| 0 <= j < n ==> #[trigger] pick(j),
    ensures
        picked::picked(n, pick).len() == n,
        forall|k: int| 0 <= k < n ==> #[trigger] picked::picked(n, pick)[k] == k,
    decreases n,
{
    if n > 0 {
        lemma_all_picked(n - 1, pick);
        assert(pick(n - 1));
    }
}

/// Only Enter and the button confirm, Escape and a click beside it or on the other
/// button refuse, and as long as nothing happens there is no answer.
pub proof fn law_only_a_confirmation_deletes(f: DeleteFrame)
    ensures
        delete_answer(f) == Some(true) ==> f.enter || f.delete_clicked,
        f.enter ==> delete_answer(f) == Some(true),
        f.escape && !f.enter ==> delete_answer(f) == Some(false),
        f.delete_clicked && !f.escape ==> delete_answer(f) == Some(true),
        (f.cancel_clicked || f.backdrop_clicked) && !f.enter && !f.delete_clicked ==> delete_answer(f) == Some(false),
        delete_answer(f) is None <==> !f.enter && !f.escape && !f.delete_clicked && !f.cancel_clicked
            && !f.backdrop_clicked,
{
}

/// The filter key turns the filter off as soon as one of the panes that it is for
/// has it on, and on where none has. A pane without a picture does not count, nor
/// where each pane goes its own way one that is not selected.
pub proof fn law_when_the_filter_key_turns_on(
    panes: Seq<PaneState>,
    lists: Seq<PaneView>,
    selected: Seq<bool>,
    independent: bool,
    i: int,
)
    ensures
        0 <= i < panes.len() && panes[i].current is Some && (!independent || panes[i].selected) && panes[i].starred_only
            ==> !turns_filter_on(panes, independent) && menu_state(panes, independent).1,
        (forall|j: int|
            0 <= j < panes.len() && (#[trigger] panes[j]).current is Some && (!independent || panes[j].selected)
                ==> !panes[j].starred_only) ==> turns_filter_on(panes, independent) && !menu_state(
            panes,
            independent,
        ).1,
        0 <= i < lists.len() && lists[i].paths.len() > 0 && (!independent || selected[i]) && lists[i].whole is Some
            ==> !key_turns_on(lists, selected, independent),
        (forall|j: int|
            0 <= j < lists.len() && (#[trigger] lists[j]).paths.len() > 0 && (!independent || selected[j])
                ==> lists[j].whole is None) ==> key_turns_on(lists, selected, independent),
{
}

/// The menu shows a star just where all pictures that the key is for have one,
/// and there is one.
pub proof fn law_when_the_menu_shows_a_star(panes: Seq<PaneState>, independent: bool, i: int)
    requires
        0 <= i < panes.len(),
        panes[i].current is Some,
        !independent || panes[i].selected,
    ensures
        !panes[i].starred ==> !menu_state(panes, independent).0,
        (forall|j: int| 0 <= j < panes.len() ==> (#[trigger] panes[j]).starred) ==> menu_state(panes, independent).0,
{
    assert(is_active(panes[i], independent));
}

/// A message comes where a pane has no starred picture to show. It names the
/// first such pane, counted from one, unless none of the active ones has any.
pub proof fn law_what_is_said_about_missing_stars(refused: Seq<usize>, active: int)
    ensures
        refused.len() == 0 ==> no_stars_message(refused, active) is None,
        refused.len() > 0 && refused.len() == active ==> no_stars_message(refused, active) == Some(
            "No starred images in this folder"@,
        ),
        refused.len() > 0 && refused.len() != active ==> no_stars_message(refused, active) == Some(
            "No starred images in pane "@ + text::decimal((refused[0] + 1) as nat),
        ),
{
}

/// The filter key is refused by the active panes without a starred picture, and
/// only where it would turn the filter on.
pub proof fn law_which_panes_refuse_the_filter(
    panes: Seq<PaneView>,
    selected: Seq<bool>,
    independent: bool,
    s: StarsView,
    i: int,
    other: int,
)
    requires
        0 <= i < panes.len() == selected.len(),
        0 <= other < panes.len(),
        panes[i].paths.len() <= usize::MAX,
    ensures
        panes[i].paths.len() == 0 ==> !is_refused(panes, selected, independent, s, i),
        independent && !selected[i] ==> !is_refused(panes, selected, independent, s, i),
        (!independent || selected[other]) && panes[other].paths.len() > 0 && panes[other].whole is Some
            ==> !is_refused(panes, selected, independent, s, i),
        (forall|k: int| 0 <= k < panes.len() ==> (#[trigger] panes[k]).whole is None) && (!independent || selected[i])
            && panes[i].paths.len() > 0 ==> (is_refused(panes, selected, independent, s, i) <==> forall|p: int|
            0 <= p < panes[i].paths.len() ==> !stars::starred_in(s, #[trigger] panes[i].paths[p])),
{
    let v = panes[i];
    let pick = |p: int| stars::starred_in(s, v.paths[p]);
    picked::law_picked_numbers(v.paths.len() as int, pick);
    let places = pane::starred_places(v.paths, s);
    assert(places == picked::picked(v.paths.len() as int, pick));
    if places.len() > 0 {
        assert(places.contains(places[0]));
        assert(pick(places[0] as int));
    }
    if exists|p: int| 0 <= p < v.paths.len() && stars::starred_in(s, #[trigger] v.paths[p]) {
        let p = choose|p: int| 0 <= p < v.paths.len() && stars::starred_in(s, #[trigger] v.paths[p]);
        assert(pick(p));
        assert(places.contains(p as usize));
    }
}

} // verus!
