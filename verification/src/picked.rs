//! The numbers below a limit that a rule picks.
use vstd::prelude::*;

verus! {

/// The numbers below `n` that are picked, in order.
pub open spec fn picked(n: int, pick: spec_fn(int) -> bool) -> Seq<usize>
    decreases n,
{
    if n <= 0 {
        Seq::empty()
    } else if pick(n - 1) {
        picked(n - 1, pick).push((n - 1) as usize)
    } else {
        picked(n - 1, pick)
    }
}

/// A number is among the picked ones if and only if it is picked, and it is
/// there once, in its order.
pub proof fn law_picked_numbers(n: int, pick: spec_fn(int) -> bool)
    requires
        0 <= n <= usize::MAX,
    ensures
        forall|i: int|
            0 <= i < picked(n, pick).len() ==> 0 <= #[trigger] picked(n, pick)[i] < n && pick(
                picked(n, pick)[i] as int,
            ),
        forall|v: usize| 0 <= v < n && pick(v as int) ==> picked(n, pick).contains(v),
        forall|i: int, j: int|
            0 <= i < j < picked(n, pick).len() ==> picked(n, pick)[i] < picked(n, pick)[j],
    decreases n,
{
    if n > 0 {
        law_picked_numbers(n - 1, pick);
        let before = picked(n - 1, pick);
        let s = picked(n, pick);
        assert forall|v: usize| 0 <= v < n && pick(v as int) implies s.contains(v) by {
            if v < n - 1 {
                assert(before.contains(v));
                let k = choose|k: int| 0 <= k < before.len() && before[k] == v;
                assert(s[k] == v);
            } else {
                assert(s[before.len() as int] == v);
            }
        }
    }
}

} // verus!
