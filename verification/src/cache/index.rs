//! The index of a file after another file left the list.
use vstd::prelude::*;

verus! {

/// The index of a file after the file at `removed` left the list. `None` for
/// the removed file itself.
pub open spec fn shifted(idx: int, removed: int) -> Option<int> {
    if idx < removed {
        Some(idx)
    } else if idx == removed {
        None
    } else {
        Some(idx - 1)
    }
}

/// Index of a file after the file at `removed` left the list. `None` for
/// the removed file itself.
pub fn shift_index(idx: usize, removed: usize) -> (r: Option<usize>)
    ensures
        match r {
            Some(i) => shifted(idx as int, removed as int) == Some(i as int),
            None => shifted(idx as int, removed as int) is None,
        },
{
    if idx < removed {
        Some(idx)
    } else if idx == removed {
        None
    } else {
        Some(idx - 1)
    }
}

/// The shifted index names the same file in the shorter list.
pub proof fn law_shifted_index_names_the_same_file<A>(list: Seq<A>, idx: int, removed: int)
    requires
        0 <= idx < list.len(),
        0 <= removed < list.len(),
        idx != removed,
    ensures
        shifted(idx, removed) is Some,
        0 <= shifted(idx, removed).unwrap() < list.len() - 1,
        list.remove(removed)[shifted(idx, removed).unwrap()] == list[idx],
{
}

/// No two files share an index afterwards.
pub proof fn law_shifted_indices_stay_apart(a: int, b: int, removed: int)
    requires
        a != b,
        shifted(a, removed) is Some,
    ensures
        shifted(a, removed) != shifted(b, removed),
{
}

} // verus!
